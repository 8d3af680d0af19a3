//! Paths as texts.
use vstd::prelude::*;

use crate::text;

verus! {

/// The components that the first `n` pieces of a path give: the empty ones and the dots are left
/// out, but for a dot that starts a relative path.
pub open spec fn kept_pieces(parts: Seq<Seq<char>>, absolute: bool) -> Seq<Seq<char>>
    decreases parts.len(),
{
    if parts.len() == 0 {
        Seq::empty()
    } else {
        let before = kept_pieces(parts.drop_last(), absolute);
        let part = parts.last();
        let dropped = part.len() == 0 || (part == "."@ && (absolute || parts.len() > 1));
        if dropped {
            before
        } else {
            before.push(part)
        }
    }
}

/// Whether a path starts at the root.
pub open spec fn is_rooted(path: Seq<char>) -> bool {
    path.len() > 0 && path[0] == '/'
}

/// The components of a path: the root, where the path starts there, and its names.
pub open spec fn components(path: Seq<char>) -> Seq<Seq<char>> {
    let names = kept_pieces(text::pieces(path, '/'), is_rooted(path));
    if is_rooted(path) {
        seq!["/"@] + names
    } else {
        names
    }
}

/// Whether `path` is `base` or lies beneath it: whole components are compared.
pub open spec fn beneath(path: Seq<char>, base: Seq<char>) -> bool {
    components(base).is_prefix_of(components(path))
}

/// The components of a path.
pub fn components_of(path: &str) -> (r: Vec<String>)
    ensures
        text::texts(r@) == components(path@),
{
    let rooted = text::starts_with(path, "/");
    proof {
        reveal_strlit("/");
        if is_rooted(path@) {
            assert("/"@ =~= path@.subrange(0, 1));
        }
        if rooted {
            assert(path@.subrange(0, 1)[0] == '/');
        }
    }
    let parts = text::split(path, '/');
    let mut out: Vec<String> = Vec::new();
    let ghost lead = if rooted {
        seq!["/"@]
    } else {
        Seq::<Seq<char>>::empty()
    };
    if rooted {
        out.push("/".to_owned());
    }
    let mut i: usize = 0;
    let ghost all = text::texts(parts@);
    proof {
        assert(text::texts(out@) =~= lead);
        assert(text::texts(out@) =~= lead + kept_pieces(all.take(0), rooted));
    }
    while i < parts.len()
        invariant
            i <= parts@.len(),
            all == text::texts(parts@),
            text::texts(out@) == lead + kept_pieces(all.take(i as int), rooted),
        decreases parts@.len() - i,
    {
        let ghost done = text::texts(out@);
        let part = parts[i].clone();
        proof {
            assert(all.take(i + 1).drop_last() =~= all.take(i as int));
            assert(all.take(i + 1).last() == part@);
        }
        if !(part.as_str().is_empty() || (text::same(part.as_str(), ".") && (rooted || i > 0))) {
            let ghost name = part@;
            out.push(part);
            proof {
                assert(text::texts(out@) =~= done.push(name));
                assert(text::texts(out@) =~= lead + kept_pieces(all.take(i + 1), rooted));
            }
        }
        i = i + 1;
    }
    proof {
        assert(all.take(i as int) =~= all);
        if !rooted {
            assert(lead + kept_pieces(all, rooted) =~= kept_pieces(all, rooted));
        }
    }
    out
}

/// Whether `path` is `base` or lies beneath it.
pub fn starts_with(path: &str, base: &str) -> (r: bool)
    ensures
        r == beneath(path@, base@),
{
    let a = components_of(path);
    let b = components_of(base);
    if b.len() > a.len() {
        return false;
    }
    let ghost whole = text::texts(a@);
    let ghost part = text::texts(b@);
    let mut i: usize = 0;
    while i < b.len()
        invariant
            i <= b@.len() <= a@.len(),
            whole == text::texts(a@),
            part == text::texts(b@),
            whole == components(path@),
            part == components(base@),
            forall|j: int| 0 <= j < i ==> whole[j] == part[j],
        decreases b@.len() - i,
    {
        if a[i] != b[i] {
            proof {
                assert(whole[i as int] != part[i as int]);
                assert(whole.subrange(0, part.len() as int)[i as int] == whole[i as int]);
            }
            return false;
        }
        i = i + 1;
    }
    proof {
        assert(whole.subrange(0, part.len() as int) =~= part);
    }
    true
}

/// `base` with `name` behind it, as `Path::join` writes it: an absolute name stands alone, and a
/// separator goes between unless one is there or nothing stands before it.
pub open spec fn joined(base: Seq<char>, name: Seq<char>) -> Seq<char> {
    if is_rooted(name) || base.len() == 0 {
        name
    } else if base.last() == '/' {
        base + name
    } else {
        base.push('/') + name
    }
}

/// `base` with `name` behind it.
pub fn join(base: &str, name: &str) -> (r: String)
    ensures
        r@ == joined(base@, name@),
{
    let b = text::chars_of(base);
    let n = text::chars_of(name);
    if (n.len() > 0 && n[0] == '/') || b.len() == 0 {
        return name.to_owned();
    }
    let mut out = base.to_owned();
    if b[b.len() - 1] != '/' {
        out.push('/');
    }
    out.append(name);
    out
}

/// Every path lies beneath itself.
pub proof fn beneath_itself(path: Seq<char>)
    ensures
        beneath(path, path),
{
    assert(components(path).subrange(0, components(path).len() as int) =~= components(path));
}

/// What lies beneath a path that lies beneath another lies beneath that other.
pub proof fn beneath_transitive(a: Seq<char>, b: Seq<char>, c: Seq<char>)
    requires
        beneath(a, b),
        beneath(b, c),
    ensures
        beneath(a, c),
{
    let (x, y, z) = (components(a), components(b), components(c));
    assert(z =~= x.subrange(0, z.len() as int)) by {
        assert(y == x.subrange(0, y.len() as int));
        assert(z == y.subrange(0, z.len() as int));
        assert forall|i: int| 0 <= i < z.len() implies z[i] == x.subrange(0, z.len() as int)[i] by {
            assert(z[i] == y.subrange(0, z.len() as int)[i]);
            assert(y[i] == x.subrange(0, y.len() as int)[i]);
        }
    }
}

} // verus!
