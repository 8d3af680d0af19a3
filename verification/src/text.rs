//! Text handling over characters.
//!
//! A text is modelled by its sequence of characters, `Seq<char>`. Every function here states
//! its result over that model.
use vstd::prelude::*;

verus! {

/// `String::push` appends the given character to the end of the string.
pub assume_specification[ String::push ](s: &mut String, c: char)
    ensures
        final(s)@ == old(s)@.push(c),
;

/// What `str`'s `Debug` formatting gives: the text in double quotes, with its quotes, its
/// backslashes and what cannot be printed escaped.
pub uninterp spec fn quoted(s: Seq<char>) -> Seq<char>;

/// `s` as `format!("{s:?}")` shows it. Only that the result depends on the text alone is
/// claimed; which characters are escaped, and how, is left to std.
#[verifier::external_body]
pub(crate) fn quote(s: &str) -> (r: String)
    ensures
        r@ == quoted(s@),
{
    format!("{s:?}")
}

/// The characters of each text of a list.
pub open spec fn texts(v: Seq<String>) -> Seq<Seq<char>> {
    Seq::new(v.len(), |i: int| v[i]@)
}

/// The characters of an optional text.
pub open spec fn opt(o: Option<String>) -> Option<Seq<char>> {
    match o {
        Some(s) => Some(s@),
        None => None,
    }
}

/// The position of the first `c` in `s`, or the length of `s` where there is none.
pub open spec fn index_of(s: Seq<char>, c: char) -> int
    decreases s.len(),
{
    if s.len() == 0 {
        0
    } else if s[0] == c {
        0
    } else {
        1 + index_of(s.skip(1), c)
    }
}

/// The position of the last `c` in `s`, or -1 where there is none.
pub open spec fn last_index_of(s: Seq<char>, c: char) -> int
    decreases s.len(),
{
    if s.len() == 0 {
        -1
    } else if s.last() == c {
        s.len() - 1
    } else {
        last_index_of(s.drop_last(), c)
    }
}

/// `s` cut at the first `c`: what stands before it and what stands behind it.
pub open spec fn split_once_at(s: Seq<char>, c: char) -> Option<(Seq<char>, Seq<char>)> {
    if s.contains(c) {
        Some((s.take(index_of(s, c)), s.skip(index_of(s, c) + 1)))
    } else {
        None
    }
}

/// `s` cut at the last `c`: what stands before it and what stands behind it.
pub open spec fn rsplit_once_at(s: Seq<char>, c: char) -> Option<(Seq<char>, Seq<char>)> {
    if s.contains(c) {
        Some((s.take(last_index_of(s, c)), s.skip(last_index_of(s, c) + 1)))
    } else {
        None
    }
}

/// The pieces of `s` between the separators `c`; one more piece than there are separators.
pub open spec fn pieces(s: Seq<char>, c: char) -> Seq<Seq<char>>
    decreases s.len(),
{
    if s.len() == 0 {
        seq![Seq::<char>::empty()]
    } else {
        let before = pieces(s.drop_last(), c);
        if s.last() == c {
            before.push(Seq::<char>::empty())
        } else {
            before.drop_last().push(before.last().push(s.last()))
        }
    }
}

/// The texts of `parts` with `c` between each two of them.
pub open spec fn joined(parts: Seq<Seq<char>>, c: Seq<char>) -> Seq<char>
    decreases parts.len(),
{
    if parts.len() == 0 {
        Seq::empty()
    } else if parts.len() == 1 {
        parts[0]
    } else {
        joined(parts.drop_last(), c) + c + parts.last()
    }
}

/// Whether `c` has Unicode's White_Space property.
pub open spec fn is_space(c: char) -> bool {
    ||| '\u{9}' <= c <= '\u{d}'
    ||| c == ' '
    ||| c == '\u{85}'
    ||| c == '\u{a0}'
    ||| c == '\u{1680}'
    ||| '\u{2000}' <= c <= '\u{200a}'
    ||| c == '\u{2028}'
    ||| c == '\u{2029}'
    ||| c == '\u{202f}'
    ||| c == '\u{205f}'
    ||| c == '\u{3000}'
}

/// `s` without the white space at its start.
pub open spec fn trimmed_start(s: Seq<char>) -> Seq<char>
    decreases s.len(),
{
    if s.len() > 0 && is_space(s[0]) {
        trimmed_start(s.skip(1))
    } else {
        s
    }
}

/// `s` without the white space at its end.
pub open spec fn trimmed_end(s: Seq<char>) -> Seq<char>
    decreases s.len(),
{
    if s.len() > 0 && is_space(s.last()) {
        trimmed_end(s.drop_last())
    } else {
        s
    }
}

/// `s` without the white space at either end.
pub open spec fn trimmed(s: Seq<char>) -> Seq<char> {
    trimmed_end(trimmed_start(s))
}

/// `c`, in lower case where it is an ASCII letter.
pub open spec fn ascii_lower(c: char) -> char {
    if 'A' <= c <= 'Z' {
        ((c as u32) + 32) as char
    } else {
        c
    }
}

/// `s` with its ASCII letters in lower case.
pub open spec fn lowered(s: Seq<char>) -> Seq<char> {
    Seq::new(s.len(), |i: int| ascii_lower(s[i]))
}

/// Whether `needle` stands anywhere in `s`.
pub open spec fn has_part(s: Seq<char>, needle: Seq<char>) -> bool {
    exists|i: int| 0 <= i <= s.len() - needle.len() && #[trigger] s.skip(i).take(needle.len() as int) == needle
}

/// The characters of `s`.
pub fn chars_of(s: &str) -> (r: Vec<char>)
    ensures
        r@ == s@,
{
    let mut out: Vec<char> = Vec::new();
    for c in it: s.chars()
        invariant
            out@ == it.seq().take(it.index() as int),
            it.seq() == s@,
    {
        out.push(c);
        proof {
            assert(it.seq().take(it.index() + 1) =~= it.seq().take(it.index() as int).push(c));
        }
    }
    proof {
        assert(out@ =~= s@);
    }
    out
}

/// The text of the characters from `from` up to `to`.
pub fn text_of(chars: &Vec<char>, from: usize, to: usize) -> (r: String)
    requires
        from <= to <= chars@.len(),
    ensures
        r@ == chars@.subrange(from as int, to as int),
{
    let mut out = String::new();
    let mut i: usize = from;
    while i < to
        invariant
            from <= i <= to <= chars@.len(),
            out@ == chars@.subrange(from as int, i as int),
        decreases to - i,
    {
        out.push(chars[i]);
        i = i + 1;
        proof {
            assert(chars@.subrange(from as int, i as int) =~= chars@.subrange(from as int, i - 1).push(chars@[i - 1]));
        }
    }
    out
}

/// The texts of `a`, `b` and `c`, one behind the other.
pub fn cat3(a: &str, b: &str, c: &str) -> (r: String)
    ensures
        r@ == a@ + b@ + c@,
{
    let mut out = a.to_owned();
    out.append(b);
    out.append(c);
    out
}

/// The texts of `a`, `b`, `c`, `d` and `e`, one behind the other.
pub fn cat5(a: &str, b: &str, c: &str, d: &str, e: &str) -> (r: String)
    ensures
        r@ == a@ + b@ + c@ + d@ + e@,
{
    let mut out = cat3(a, b, c);
    out.append(d);
    out.append(e);
    out
}

/// Whether two texts hold the same characters.
pub fn same(a: &str, b: &str) -> (r: bool)
    ensures
        r == (a@ == b@),
{
    a.to_owned() == b.to_owned()
}


/// What `index_of` gives: the first position of `c`, or the length.
pub proof fn index_of_is_first(s: Seq<char>, c: char)
    ensures
        0 <= index_of(s, c) <= s.len(),
        forall|i: int| 0 <= i < index_of(s, c) ==> s[i] != c,
        index_of(s, c) < s.len() ==> s[index_of(s, c)] == c,
        s.contains(c) <==> index_of(s, c) < s.len(),
    decreases s.len(),
{
    if s.len() > 0 && s[0] != c {
        let rest = s.skip(1);
        index_of_is_first(rest, c);
        let k = index_of(rest, c);
        assert forall|i: int| 0 <= i < 1 + k implies s[i] != c by {
            if i > 0 {
                assert(s[i] == rest[i - 1]);
            }
        }
        if k < rest.len() {
            assert(s[k + 1] == rest[k]);
        }
        if s.contains(c) {
            let i = choose|i: int| 0 <= i < s.len() && s[i] == c;
            assert(rest[i - 1] == c);
        }
    }
}

/// A position that holds `c` with no `c` before it is the first.
pub proof fn index_of_unique(s: Seq<char>, c: char, k: int)
    requires
        0 <= k <= s.len(),
        forall|i: int| 0 <= i < k ==> s[i] != c,
        k < s.len() ==> s[k] == c,
    ensures
        index_of(s, c) == k,
{
    index_of_is_first(s, c);
    let j = index_of(s, c);
    if j < k {
        assert(s[j] != c);
    } else if k < j {
        assert(s[k] != c);
    }
}

/// What `last_index_of` gives: the last position of `c`, or -1.
pub proof fn last_index_of_is_last(s: Seq<char>, c: char)
    ensures
        -1 <= last_index_of(s, c) < s.len(),
        forall|i: int| last_index_of(s, c) < i < s.len() ==> s[i] != c,
        last_index_of(s, c) >= 0 ==> s[last_index_of(s, c)] == c,
        s.contains(c) <==> last_index_of(s, c) >= 0,
    decreases s.len(),
{
    if s.len() > 0 && s.last() != c {
        let rest = s.drop_last();
        last_index_of_is_last(rest, c);
        let k = last_index_of(rest, c);
        assert forall|i: int| k < i < s.len() implies s[i] != c by {
            if i < s.len() - 1 {
                assert(s[i] == rest[i]);
            }
        }
        if k >= 0 {
            assert(s[k] == rest[k]);
        }
        if s.contains(c) {
            let i = choose|i: int| 0 <= i < s.len() && s[i] == c;
            assert(rest[i] == c);
        }
    }
}

/// A position that holds `c` with no `c` behind it is the last.
pub proof fn last_index_of_unique(s: Seq<char>, c: char, k: int)
    requires
        -1 <= k < s.len(),
        forall|i: int| k < i < s.len() ==> s[i] != c,
        k >= 0 ==> s[k] == c,
    ensures
        last_index_of(s, c) == k,
{
    last_index_of_is_last(s, c);
    let j = last_index_of(s, c);
    if j < k {
        assert(s[k] != c);
    } else if k < j {
        assert(s[j] != c);
    }
}

/// The position of the first `c`, or the number of characters where there is none.
fn find_first(chars: &Vec<char>, c: char) -> (r: usize)
    ensures
        r == index_of(chars@, c),
        r <= chars@.len(),
        r < chars@.len() <==> chars@.contains(c),
{
    let mut i: usize = 0;
    while i < chars.len() && chars[i] != c
        invariant
            i <= chars@.len(),
            forall|j: int| 0 <= j < i ==> chars@[j] != c,
        decreases chars@.len() - i,
    {
        i = i + 1;
    }
    proof {
        index_of_unique(chars@, c, i as int);
        index_of_is_first(chars@, c);
    }
    i
}

/// Cuts `s` at its first `c`.
pub fn split_once(s: &str, c: char) -> (r: Option<(String, String)>)
    ensures
        r is Some <==> split_once_at(s@, c) is Some,
        r is Some ==> ((r->0).0@, (r->0).1@) == split_once_at(s@, c)->0,
{
    let chars = chars_of(s);
    let n: usize = chars.len();
    let k: usize = find_first(&chars, c);
    if k == n {
        return None;
    }
    let before = text_of(&chars, 0, k);
    let behind = text_of(&chars, k + 1, n);
    proof {
        assert(before@ =~= s@.take(k as int));
        assert(behind@ =~= s@.skip(k + 1));
    }
    Some((before, behind))
}

/// Cuts `s` at its last `c`.
pub fn rsplit_once(s: &str, c: char) -> (r: Option<(String, String)>)
    ensures
        r is Some <==> rsplit_once_at(s@, c) is Some,
        r is Some ==> ((r->0).0@, (r->0).1@) == rsplit_once_at(s@, c)->0,
{
    let chars = chars_of(s);
    let n: usize = chars.len();
    let mut k: usize = n;
    while k > 0 && chars[k - 1] != c
        invariant
            k <= n,
            n == chars@.len(),
            forall|j: int| k <= j < n ==> chars@[j] != c,
        decreases k,
    {
        k = k - 1;
    }
    proof {
        last_index_of_unique(chars@, c, k - 1);
        last_index_of_is_last(chars@, c);
    }
    if k == 0 {
        return None;
    }
    let before = text_of(&chars, 0, k - 1);
    let behind = text_of(&chars, k, n);
    proof {
        assert(before@ =~= s@.take(k - 1));
        assert(behind@ =~= s@.skip(k as int));
    }
    Some((before, behind))
}

/// `pieces` always holds at least one piece.
pub proof fn pieces_not_empty(s: Seq<char>, c: char)
    ensures
        pieces(s, c).len() >= 1,
    decreases s.len(),
{
    if s.len() > 0 {
        pieces_not_empty(s.drop_last(), c);
    }
}

/// The pieces of `s` between the separators `c`.
pub fn split(s: &str, c: char) -> (r: Vec<String>)
    ensures
        texts(r@) == pieces(s@, c),
{
    let chars = chars_of(s);
    let mut out: Vec<String> = Vec::new();
    let mut piece = String::new();
    let mut i: usize = 0;
    proof {
        assert(texts(out@).push(piece@) =~= seq![Seq::<char>::empty()]);
    }
    while i < chars.len()
        invariant
            i <= chars@.len(),
            texts(out@).push(piece@) == pieces(chars@.take(i as int), c),
        decreases chars@.len() - i,
    {
        let ghost seen = chars@.take(i as int);
        let ghost done = texts(out@);
        let ghost part = piece@;
        let d: char = chars[i];
        i = i + 1;
        proof {
            let next = chars@.take(i as int);
            assert(next.drop_last() =~= seen);
            assert(next.last() == d);
            assert(done.push(part).drop_last() =~= done);
        }
        if d == c {
            out.push(piece);
            piece = String::new();
            proof {
                assert(texts(out@) =~= done.push(part));
            }
        } else {
            piece.push(d);
        }
    }
    proof {
        assert(chars@.take(i as int) =~= s@);
    }
    let ghost done = texts(out@);
    let ghost part = piece@;
    out.push(piece);
    proof {
        assert(texts(out@) =~= done.push(part));
    }
    out
}

/// Whether `c` is white space.
pub fn is_whitespace(c: char) -> (r: bool)
    ensures
        r == is_space(c),
{
    ('\u{9}' <= c && c <= '\u{d}') || c == ' ' || c == '\u{85}' || c == '\u{a0}' || c == '\u{1680}' || (
    '\u{2000}' <= c && c <= '\u{200a}') || c == '\u{2028}' || c == '\u{2029}' || c == '\u{202f}' || c
        == '\u{205f}' || c == '\u{3000}'
}

proof fn trimmed_start_skip(s: Seq<char>, k: int)
    requires
        0 <= k <= s.len(),
        forall|i: int| 0 <= i < k ==> is_space(s[i]),
        k < s.len() ==> !is_space(s[k]),
    ensures
        trimmed_start(s) == s.skip(k),
    decreases k,
{
    if k > 0 {
        let rest = s.skip(1);
        assert forall|i: int| 0 <= i < k - 1 implies is_space(rest[i]) by {
            assert(rest[i] == s[i + 1]);
        }
        if k < s.len() {
            assert(rest[k - 1] == s[k]);
        }
        trimmed_start_skip(rest, k - 1);
        assert(rest.skip(k - 1) =~= s.skip(k));
    } else {
        assert(s.skip(0) =~= s);
    }
}

proof fn trimmed_end_take(s: Seq<char>, k: int)
    requires
        0 <= k <= s.len(),
        forall|i: int| k <= i < s.len() ==> is_space(s[i]),
        k > 0 ==> !is_space(s[k - 1]),
    ensures
        trimmed_end(s) == s.take(k),
    decreases s.len(),
{
    if k < s.len() {
        assert(is_space(s[s.len() - 1]));
        trimmed_end_take(s.drop_last(), k);
        assert(s.drop_last().take(k) =~= s.take(k));
    } else {
        assert(s.take(k) =~= s);
    }
}

/// `s` without the white space at either end.
pub fn trim(s: &str) -> (r: String)
    ensures
        r@ == trimmed(s@),
{
    let chars = chars_of(s);
    let n: usize = chars.len();
    let mut a: usize = 0;
    while a < n && is_whitespace(chars[a])
        invariant
            a <= n,
            n == chars@.len(),
            forall|i: int| 0 <= i < a ==> is_space(chars@[i]),
        decreases n - a,
    {
        a = a + 1;
    }
    let mut b: usize = n;
    while b > a && is_whitespace(chars[b - 1])
        invariant
            a <= b <= n,
            n == chars@.len(),
            forall|i: int| b <= i < n ==> is_space(chars@[i]),
        decreases b,
    {
        b = b - 1;
    }
    proof {
        trimmed_start_skip(chars@, a as int);
        let rest = chars@.skip(a as int);
        trimmed_end_take(rest, b - a);
        assert(rest.take(b - a) =~= chars@.subrange(a as int, b as int));
    }
    text_of(&chars, a, b)
}

/// Whether `s` starts with `prefix`.
pub fn starts_with(s: &str, prefix: &str) -> (r: bool)
    ensures
        r == prefix@.is_prefix_of(s@),
{
    let a = chars_of(s);
    let b = chars_of(prefix);
    if b.len() > a.len() {
        return false;
    }
    let mut i: usize = 0;
    while i < b.len()
        invariant
            i <= b@.len() <= a@.len(),
            a@ == s@,
            b@ == prefix@,
            a@.take(i as int) == b@.take(i as int),
        decreases b@.len() - i,
    {
        if a[i] != b[i] {
            proof {
                assert(s@[i as int] == s@.take(b@.len() as int)[i as int]);
            }
            return false;
        }
        proof {
            assert(a@.take(i + 1) =~= a@.take(i as int).push(a@[i as int]));
            assert(b@.take(i + 1) =~= b@.take(i as int).push(b@[i as int]));
        }
        i = i + 1;
    }
    proof {
        assert(b@.take(i as int) =~= b@);
        assert(a@.take(i as int) =~= s@.subrange(0, b@.len() as int));
    }
    true
}

/// What follows `prefix` in `s`, where `s` starts with it.
pub fn strip_prefix(s: &str, prefix: &str) -> (r: Option<String>)
    ensures
        r is Some <==> prefix@.is_prefix_of(s@),
        r is Some ==> r->0@ == s@.skip(prefix@.len() as int),
{
    if !starts_with(s, prefix) {
        return None;
    }
    let chars = chars_of(s);
    let n: usize = chars_of(prefix).len();
    let rest = text_of(&chars, n, chars.len());
    proof {
        assert(rest@ =~= s@.skip(n as int));
    }
    Some(rest)
}

/// Whether `s` ends with `suffix`.
pub fn ends_with(s: &str, suffix: &str) -> (r: bool)
    ensures
        r == suffix@.is_suffix_of(s@),
{
    let a = chars_of(s);
    let b = chars_of(suffix);
    if b.len() > a.len() {
        return false;
    }
    let n: usize = a.len();
    let d: usize = n - b.len();
    let mut i: usize = 0;
    while i < b.len()
        invariant
            i <= b@.len() <= a@.len(),
            n == a@.len(),
            d == n - b@.len(),
            a@ == s@,
            b@ == suffix@,
            forall|j: int| 0 <= j < i ==> a@[d + j] == b@[j],
        decreases b@.len() - i,
    {
        if a[d + i] != b[i] {
            proof {
                assert(s@.subrange(d as int, s@.len() as int)[i as int] == a@[d + i]);
            }
            return false;
        }
        i = i + 1;
    }
    proof {
        assert(s@.subrange(d as int, s@.len() as int) =~= suffix@);
    }
    true
}

/// `s` with its ASCII letters in lower case.
pub fn to_ascii_lowercase(s: &str) -> (r: String)
    ensures
        r@ == lowered(s@),
{
    let chars = chars_of(s);
    let mut out = String::new();
    let mut i: usize = 0;
    while i < chars.len()
        invariant
            i <= chars@.len(),
            out@ == lowered(chars@.take(i as int)),
        decreases chars@.len() - i,
    {
        let ghost seen = out@;
        out.push(lower_char(chars[i]));
        proof {
            assert(lowered(chars@.take(i + 1)) =~= lowered(chars@.take(i as int)).push(ascii_lower(chars@[i as int])));
        }
        i = i + 1;
    }
    proof {
        assert(chars@.take(i as int) =~= s@);
    }
    out
}

/// `c`, in lower case where it is an ASCII letter.
fn lower_char(c: char) -> (r: char)
    ensures
        r == ascii_lower(c),
{
    if 'A' <= c && c <= 'Z' {
        ((c as u32 as u8) + 32) as char
    } else {
        c
    }
}

/// Whether two texts are the same but for the case of ASCII letters.
pub fn eq_ignore_ascii_case(a: &str, b: &str) -> (r: bool)
    ensures
        r == (lowered(a@) == lowered(b@)),
{
    to_ascii_lowercase(a) == to_ascii_lowercase(b)
}

/// Whether `needle` stands anywhere in `s`.
pub fn contains(s: &str, needle: &str) -> (r: bool)
    ensures
        r == has_part(s@, needle@),
{
    let a = chars_of(s);
    let b = chars_of(needle);
    if b.len() > a.len() {
        return false;
    }
    let n: usize = a.len();
    let last: usize = n - b.len();
    let mut i: usize = 0;
    while i <= last
        invariant
            i <= last + 1,
            n == a@.len(),
            last == n - b@.len(),
            a@ == s@,
            b@ == needle@,
            forall|k: int| 0 <= k < i ==> #[trigger] s@.skip(k).take(b@.len() as int) != needle@,
        decreases last + 1 - i,
    {
        let mut j: usize = 0;
        while j < b.len() && a[i + j] == b[j]
            invariant
                j <= b@.len(),
                i <= last,
                n == a@.len(),
                last == n - b@.len(),
                a@ == s@,
                forall|k: int| 0 <= k < j ==> a@[i + k] == b@[k],
            decreases b@.len() - j,
        {
            j = j + 1;
        }
        let ghost part = s@.skip(i as int).take(b@.len() as int);
        if j == b.len() {
            proof {
                assert(part =~= needle@);
            }
            return true;
        }
        proof {
            assert(part[j as int] == a@[i + j]);
        }
        if i == last {
            return false;
        }
        i = i + 1;
    }
    false
}


/// `s` cut into lines: at each line feed, a carriage return before it dropped too. A line feed
/// at the very end opens no further line.
pub open spec fn lines_of(s: Seq<char>) -> Seq<Seq<char>> {
    let parts = pieces(s, '\n');
    let kept = if parts.last().len() == 0 {
        parts.drop_last()
    } else {
        parts
    };
    Seq::new(
        kept.len(),
        |i: int|
            if i < parts.len() - 1 {
                without_return(kept[i])
            } else {
                kept[i]
            },
    )
}

/// `s` without the carriage return it ends with, if it ends with one.
pub open spec fn without_return(s: Seq<char>) -> Seq<char> {
    if s.len() > 0 && s.last() == '\r' {
        s.drop_last()
    } else {
        s
    }
}

/// The words of `s`: its longest parts without white space.
pub open spec fn words_of(s: Seq<char>) -> Seq<Seq<char>>
    decreases s.len(),
{
    if s.len() == 0 {
        Seq::empty()
    } else {
        let before = words_of(s.drop_last());
        if is_space(s.last()) {
            before
        } else if s.len() > 1 && !is_space(s[s.len() - 2]) && before.len() > 0 {
            before.drop_last().push(before.last().push(s.last()))
        } else {
            before.push(seq![s.last()])
        }
    }
}

/// The lines of `s`.
pub fn lines(s: &str) -> (r: Vec<String>)
    ensures
        texts(r@) == lines_of(s@),
{
    let parts = split(s, '\n');
    proof {
        pieces_not_empty(s@, '\n');
    }
    let n: usize = parts.len();
    let mut out: Vec<String> = Vec::new();
    let mut i: usize = 0;
    proof {
        assert(texts(parts@).last() == parts@[n - 1]@);
    }
    let kept: usize = if parts[n - 1].as_str().is_empty() {
        n - 1
    } else {
        n
    };
    while i < kept
        invariant
            i <= kept <= n,
            n == parts@.len(),
            texts(parts@) == pieces(s@, '\n'),
            kept == lines_of(s@).len(),
            n >= 1,
            kept == (if texts(parts@).last().len() == 0 {
                n - 1
            } else {
                n as int
            }),
            texts(out@) == lines_of(s@).take(i as int),
        decreases kept - i,
    {
        let ghost done = texts(out@);
        let line = if i < n - 1 {
            drop_return(parts[i].as_str())
        } else {
            parts[i].clone()
        };
        proof {
            assert(texts(parts@)[i as int] == parts@[i as int]@);
            assert(line@ == lines_of(s@)[i as int]);
        }
        let ghost text = line@;
        out.push(line);
        i = i + 1;
        proof {
            assert(texts(out@) =~= done.push(text));
            assert(lines_of(s@).take(i as int) =~= lines_of(s@).take(i - 1).push(lines_of(s@)[i - 1]));
        }
    }
    proof {
        assert(lines_of(s@).take(i as int) =~= lines_of(s@));
    }
    out
}

/// `s` without a carriage return at its end.
fn drop_return(s: &str) -> (r: String)
    ensures
        r@ == without_return(s@),
{
    let chars = chars_of(s);
    let n: usize = chars.len();
    if n > 0 && chars[n - 1] == '\r' {
        let r = text_of(&chars, 0, n - 1);
        proof {
            assert(r@ =~= s@.drop_last());
        }
        r
    } else {
        s.to_owned()
    }
}

/// The words of `s`.
pub fn split_whitespace(s: &str) -> (r: Vec<String>)
    ensures
        texts(r@) == words_of(s@),
{
    let chars = chars_of(s);
    let mut out: Vec<String> = Vec::new();
    let mut word = String::new();
    let mut open: bool = false;
    let mut i: usize = 0;
    proof {
        assert(texts(out@) =~= Seq::<Seq<char>>::empty());
    }
    while i < chars.len()
        invariant
            i <= chars@.len(),
            open <==> i > 0 && !is_space(chars@[i - 1]),
            !open ==> word@.len() == 0 && words_of(chars@.take(i as int)) == texts(out@),
            open ==> words_of(chars@.take(i as int)) == texts(out@).push(word@),
        decreases chars@.len() - i,
    {
        let ghost seen = chars@.take(i as int);
        let ghost done = texts(out@);
        let ghost part = word@;
        let c: char = chars[i];
        i = i + 1;
        proof {
            let next = chars@.take(i as int);
            assert(next.drop_last() =~= seen);
            assert(next.last() == c);
            if i > 1 {
                assert(next[next.len() - 2] == chars@[i - 2]);
            }
            assert(done.push(part).drop_last() =~= done);
        }
        if is_whitespace(c) {
            if open {
                out.push(word);
                word = String::new();
                proof {
                    assert(texts(out@) =~= done.push(part));
                }
            }
            open = false;
        } else {
            word.push(c);
            proof {
                if part.len() == 0 {
                    assert(word@ =~= seq![c]);
                }
            }
            open = true;
        }
    }
    proof {
        assert(chars@.take(i as int) =~= s@);
    }
    if open {
        let ghost done = texts(out@);
        let ghost part = word@;
        out.push(word);
        proof {
            assert(texts(out@) =~= done.push(part));
        }
    }
    out
}

/// The texts of `parts` with `sep` between each two of them.
pub fn join(parts: &Vec<String>, sep: &str) -> (r: String)
    ensures
        r@ == joined(texts(parts@), sep@),
{
    let mut out = String::new();
    let mut i: usize = 0;
    proof {
        assert(texts(parts@).take(0) =~= Seq::<Seq<char>>::empty());
    }
    while i < parts.len()
        invariant
            i <= parts@.len(),
            out@ == joined(texts(parts@).take(i as int), sep@),
        decreases parts@.len() - i,
    {
        let ghost all = texts(parts@);
        proof {
            assert(all.take(i + 1).drop_last() =~= all.take(i as int));
        }
        if i > 0 {
            out.append(sep);
        }
        out.append(parts[i].as_str());
        i = i + 1;
        proof {
            if i == 1 {
                assert(out@ =~= all[0]);
            }
        }
    }
    proof {
        assert(texts(parts@).take(i as int) =~= texts(parts@));
    }
    out
}

/// The texts of `v`, copied.
pub fn clone_texts(v: &Vec<String>) -> (r: Vec<String>)
    ensures
        texts(r@) == texts(v@),
        r@ == v@,
{
    let mut out: Vec<String> = Vec::new();
    let mut i: usize = 0;
    while i < v.len()
        invariant
            i <= v@.len(),
            out@ == v@.take(i as int),
        decreases v@.len() - i,
    {
        out.push(v[i].clone());
        i = i + 1;
        proof {
            assert(v@.take(i as int) =~= v@.take(i - 1).push(v@[i - 1]));
        }
    }
    proof {
        assert(v@.take(i as int) =~= v@);
    }
    out
}

/// A text without the separator is its own only piece.
pub proof fn pieces_of_plain(b: Seq<char>, c: char)
    requires
        !b.contains(c),
    ensures
        pieces(b, c) == seq![b],
    decreases b.len(),
{
    if b.len() > 0 {
        let front = b.drop_last();
        assert(!front.contains(c)) by {
            if front.contains(c) {
                let i = choose|i: int| 0 <= i < front.len() && front[i] == c;
                assert(b[i] == c);
            }
        }
        pieces_of_plain(front, c);
        assert(b.last() != c) by {
            assert(b[b.len() - 1] == b.last());
        }
        assert(front.push(b.last()) =~= b);
        assert(seq![front].drop_last().push(front.push(b.last())) =~= seq![b]);
    } else {
        assert(b =~= Seq::<char>::empty());
        assert(seq![Seq::<char>::empty()] =~= seq![b]);
    }
}

/// A separator and a text without one add that text as the last piece.
pub proof fn pieces_of_appended(s: Seq<char>, b: Seq<char>, c: char)
    requires
        !b.contains(c),
    ensures
        pieces(s + seq![c] + b, c) == pieces(s, c).push(b),
    decreases b.len(),
{
    let all = s + seq![c] + b;
    if b.len() == 0 {
        assert(all.drop_last() =~= s);
        assert(b =~= Seq::<char>::empty());
    } else {
        let front = b.drop_last();
        assert(!front.contains(c)) by {
            if front.contains(c) {
                let i = choose|i: int| 0 <= i < front.len() && front[i] == c;
                assert(b[i] == c);
            }
        }
        pieces_of_appended(s, front, c);
        assert(all.drop_last() =~= s + seq![c] + front);
        assert(all.last() == b.last());
        assert(b[b.len() - 1] != c);
        let before = pieces(s, c).push(front);
        assert(before.drop_last() =~= pieces(s, c));
        assert(front.push(b.last()) =~= b);
    }
}

/// Cutting what was joined gives the parts back, where none of them holds the separator.
pub proof fn pieces_of_joined(parts: Seq<Seq<char>>, c: char)
    requires
        parts.len() >= 1,
        forall|i: int| 0 <= i < parts.len() ==> !(#[trigger] parts[i]).contains(c),
    ensures
        pieces(joined(parts, seq![c]), c) == parts,
    decreases parts.len(),
{
    if parts.len() == 1 {
        pieces_of_plain(parts[0], c);
        assert(seq![parts[0]] =~= parts);
    } else {
        let front = parts.drop_last();
        assert forall|i: int| 0 <= i < front.len() implies !(#[trigger] front[i]).contains(c) by {
            assert(front[i] == parts[i]);
        }
        pieces_of_joined(front, c);
        pieces_of_appended(joined(front, seq![c]), parts.last(), c);
        assert(front.push(parts.last()) =~= parts);
    }
}

/// What was joined holds no character that neither the parts nor the separator hold.
pub proof fn joined_lacks(parts: Seq<Seq<char>>, sep: Seq<char>, d: char)
    requires
        !sep.contains(d),
        forall|i: int| 0 <= i < parts.len() ==> !(#[trigger] parts[i]).contains(d),
    ensures
        !joined(parts, sep).contains(d),
    decreases parts.len(),
{
    if parts.len() > 1 {
        let front = parts.drop_last();
        assert forall|i: int| 0 <= i < front.len() implies !(#[trigger] front[i]).contains(d) by {
            assert(front[i] == parts[i]);
        }
        joined_lacks(front, sep, d);
        let a = joined(front, sep);
        let b = parts.last();
        assert(!b.contains(d));
        if (a + sep + b).contains(d) {
            let i = choose|i: int| 0 <= i < (a + sep + b).len() && (a + sep + b)[i] == d;
            if i < a.len() {
                assert(a[i] == d);
            } else if i < a.len() + sep.len() {
                assert(sep[i - a.len()] == d);
            } else {
                assert(b[i - a.len() - sep.len()] == d);
            }
        }
    }
}

/// A text before the first separator is what the cut gives.
pub proof fn split_once_of_joined(a: Seq<char>, b: Seq<char>, c: char)
    requires
        !a.contains(c),
    ensures
        split_once_at(a + seq![c] + b, c) == Some((a, b)),
{
    let all = a + seq![c] + b;
    assert forall|i: int| 0 <= i < a.len() implies all[i] != c by {
        assert(all[i] == a[i]);
    }
    assert(all[a.len() as int] == c);
    index_of_unique(all, c, a.len() as int);
    assert(all.take(a.len() as int) =~= a);
    assert(all.skip(a.len() as int + 1) =~= b);
}

/// A text behind the last separator is what the cut from the right gives.
pub proof fn rsplit_once_of_joined(a: Seq<char>, b: Seq<char>, c: char)
    requires
        !b.contains(c),
    ensures
        rsplit_once_at(a + seq![c] + b, c) == Some((a, b)),
{
    let all = a + seq![c] + b;
    assert forall|i: int| a.len() < i < all.len() implies all[i] != c by {
        assert(all[i] == b[i - a.len() - 1]);
    }
    assert(all[a.len() as int] == c);
    last_index_of_unique(all, c, a.len() as int);
    assert(all.take(a.len() as int) =~= a);
    assert(all.skip(a.len() as int + 1) =~= b);
}

/// An optional text, copied.
pub fn clone_opt(o: &Option<String>) -> (r: Option<String>)
    ensures
        opt(r) == opt(*o),
{
    match o {
        Some(s) => Some(s.clone()),
        None => None,
    }
}

/// A text that is cut at the first separator is its two parts with the separator between them.
pub proof fn split_once_parts(s: Seq<char>, c: char)
    ensures
        split_once_at(s, c) matches Some((a, b)) ==> s == a + seq![c] + b && !a.contains(c),
{
    index_of_is_first(s, c);
    if s.contains(c) {
        let k = index_of(s, c);
        let a = s.take(k);
        assert(s =~= a + seq![c] + s.skip(k + 1));
        if a.contains(c) {
            let i = choose|i: int| 0 <= i < a.len() && a[i] == c;
            assert(s[i] == c);
        }
    }
}

/// A text that is cut at the last separator is its two parts with the separator between them.
pub proof fn rsplit_once_parts(s: Seq<char>, c: char)
    ensures
        rsplit_once_at(s, c) matches Some((a, b)) ==> s == a + seq![c] + b && !b.contains(c),
{
    last_index_of_is_last(s, c);
    if s.contains(c) {
        let k = last_index_of(s, c);
        let b = s.skip(k + 1);
        assert(s =~= s.take(k) + seq![c] + b);
        if b.contains(c) {
            let i = choose|i: int| 0 <= i < b.len() && b[i] == c;
            assert(s[k + 1 + i] == c);
        }
    }
}

/// Joining the pieces of a text gives the text back.
pub proof fn joined_of_pieces(s: Seq<char>, c: char)
    ensures
        joined(pieces(s, c), seq![c]) == s,
    decreases s.len(),
{
    if s.len() == 0 {
        assert(s =~= Seq::<char>::empty());
    } else {
        let front = s.drop_last();
        let before = pieces(front, c);
        joined_of_pieces(front, c);
        pieces_not_empty(front, c);
        assert(s =~= front.push(s.last()));
        if s.last() == c {
            let all = before.push(Seq::<char>::empty());
            assert(all.drop_last() =~= before);
            assert(joined(all, seq![c]) =~= front + seq![c]);
        } else {
            let all = before.drop_last().push(before.last().push(s.last()));
            assert(all.drop_last() =~= before.drop_last());
            if before.len() == 1 {
                assert(joined(all, seq![c]) =~= s);
            } else {
                assert(joined(before, seq![c]) == joined(before.drop_last(), seq![c]) + seq![c] + before.last());
                assert(joined(all, seq![c]) =~= joined(before.drop_last(), seq![c]) + seq![c] + before.last().push(
                    s.last(),
                ));
                assert(joined(all, seq![c]) =~= s);
            }
        }
    }
}

/// No piece holds the separator, nor any character that the text does not hold.
pub proof fn pieces_lack(s: Seq<char>, c: char, d: char, i: int)
    requires
        d == c || !s.contains(d),
        0 <= i < pieces(s, c).len(),
    ensures
        !pieces(s, c)[i].contains(d),
    decreases s.len(),
{
    if s.len() > 0 {
        let front = s.drop_last();
        let before = pieces(front, c);
        pieces_not_empty(front, c);
        assert(front.contains(d) ==> s.contains(d)) by {
            if front.contains(d) {
                let k = choose|k: int| 0 <= k < front.len() && front[k] == d;
                assert(s[k] == d);
            }
        }
        assert(s.last() == s[s.len() - 1]);
        if s.last() == c {
            if i < before.len() {
                pieces_lack(front, c, d, i);
            }
        } else if i < before.len() - 1 {
            pieces_lack(front, c, d, i);
        } else {
            pieces_lack(front, c, d, before.len() - 1);
            let grown = before.last().push(s.last());
            if grown.contains(d) {
                let k = choose|k: int| 0 <= k < grown.len() && grown[k] == d;
                if k < before.last().len() {
                    assert(before.last()[k] == d);
                }
                assert(false);
            }
        }
    }
}

/// What is left of a text without the white space around it.
pub proof fn trimmed_is_bare(s: Seq<char>)
    ensures
        trimmed(trimmed(s)) == trimmed(s),
        forall|d: char| !s.contains(d) ==> !#[trigger] trimmed(s).contains(d),
{
    let a = trimmed_start(s);
    let t = trimmed(s);
    start_is_bare(s);
    end_is_bare(a);
    assert(trimmed_start(t) == t) by {
        if t.len() > 0 {
            assert(t[0] == a[0]);
        }
    }
    assert(trimmed_end(t) == t);
    assert forall|d: char| !s.contains(d) implies !#[trigger] t.contains(d) by {
        if t.contains(d) {
            assert(a.contains(d));
            assert(s.contains(d));
        }
    }
}

proof fn start_is_bare(s: Seq<char>)
    ensures
        trimmed_start(s).len() > 0 ==> !is_space(trimmed_start(s)[0]),
        forall|d: char| trimmed_start(s).contains(d) ==> s.contains(d),
    decreases s.len(),
{
    if s.len() > 0 && is_space(s[0]) {
        let rest = s.skip(1);
        start_is_bare(rest);
        assert forall|d: char| trimmed_start(s).contains(d) implies s.contains(d) by {
            assert(rest.contains(d));
            let k = choose|k: int| 0 <= k < rest.len() && rest[k] == d;
            assert(s[k + 1] == d);
        }
    }
}

proof fn end_is_bare(s: Seq<char>)
    ensures
        trimmed_end(s).len() > 0 ==> !is_space(trimmed_end(s).last()) && trimmed_end(s)[0] == s[0],
        trimmed_end(s).len() <= s.len(),
        forall|d: char| trimmed_end(s).contains(d) ==> s.contains(d),
    decreases s.len(),
{
    if s.len() > 0 && is_space(s.last()) {
        let rest = s.drop_last();
        end_is_bare(rest);
        assert forall|d: char| trimmed_end(s).contains(d) implies s.contains(d) by {
            assert(rest.contains(d));
            let k = choose|k: int| 0 <= k < rest.len() && rest[k] == d;
            assert(s[k] == d);
        }
    }
}

/// Whether `a` stands before `b` in the order of texts: that of their first different characters,
/// or that of their lengths where one begins with the other.
pub open spec fn precedes(a: Seq<char>, b: Seq<char>) -> bool
    decreases b.len(),
{
    if b.len() == 0 {
        false
    } else if a.len() == 0 {
        true
    } else if a[0] == b[0] {
        precedes(a.skip(1), b.skip(1))
    } else {
        a[0] < b[0]
    }
}

/// Of two texts at most one stands before the other, and none before itself.
pub proof fn precedes_is_strict(a: Seq<char>, b: Seq<char>)
    ensures
        !(precedes(a, b) && precedes(b, a)),
        !precedes(a, a),
    decreases a.len(),
{
    if a.len() > 0 {
        precedes_is_strict(a.skip(1), b.skip(1));
    }
}

/// Of two different texts one stands before the other.
pub proof fn precedes_is_total(a: Seq<char>, b: Seq<char>)
    ensures
        precedes(a, b) || precedes(b, a) || a == b,
    decreases a.len(),
{
    if a.len() == 0 || b.len() == 0 {
        if a.len() == 0 && b.len() == 0 {
            assert(a =~= b);
        }
    } else if a[0] == b[0] {
        precedes_is_total(a.skip(1), b.skip(1));
        if a.skip(1) == b.skip(1) {
            assert(a =~= seq![a[0]] + a.skip(1));
            assert(b =~= seq![b[0]] + b.skip(1));
        }
    }
}

/// What stands before a text stands before all that this text stands before.
pub proof fn precedes_is_transitive(a: Seq<char>, b: Seq<char>, c: Seq<char>)
    requires
        precedes(a, b),
        precedes(b, c),
    ensures
        precedes(a, c),
    decreases a.len(),
{
    if a.len() > 0 && a[0] == b[0] && b[0] == c[0] {
        precedes_is_transitive(a.skip(1), b.skip(1), c.skip(1));
    }
}

/// Whether `a` stands before `b` in the order of texts.
pub fn comes_before(a: &str, b: &str) -> (r: bool)
    ensures
        r == precedes(a@, b@),
{
    let x = chars_of(a);
    let y = chars_of(b);
    let mut i: usize = 0;
    proof {
        assert(x@.skip(0) =~= x@);
        assert(y@.skip(0) =~= y@);
    }
    while i < x.len() && i < y.len()
        invariant
            i <= x@.len(),
            i <= y@.len(),
            x@ == a@,
            y@ == b@,
            precedes(a@, b@) == precedes(x@.skip(i as int), y@.skip(i as int)),
        decreases x@.len() - i,
    {
        proof {
            assert(x@.skip(i as int).skip(1) =~= x@.skip(i + 1));
            assert(y@.skip(i as int).skip(1) =~= y@.skip(i + 1));
        }
        if x[i] != y[i] {
            return x[i] < y[i];
        }
        i = i + 1;
    }
    i < y.len()
}

} // verus!
