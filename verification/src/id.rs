//! Identifiers of sandboxes and of cgroups.
use vstd::prelude::*;

use crate::number;

verus! {

/// The sixteen bytes of a UUID.
#[derive(Debug, Clone, Copy, PartialEq, Eq, Hash)]
pub struct Uuid {
    pub bytes: [u8; 16],
}

impl Uuid {
    /// The bytes.
    pub fn as_bytes(&self) -> (r: &[u8; 16])
        ensures
            *r == self.bytes,
    {
        &self.bytes
    }
}

/// The lower-case hexadecimal digit of a number below sixteen.
pub open spec fn hex_digit(n: int) -> char {
    if n < 10 {
        (n + 48) as char
    } else {
        (n + 87) as char
    }
}

/// The bytes of `b` from `from` up to `to`, two hexadecimal digits each.
pub open spec fn hex_run(b: Seq<u8>, from: int, to: int) -> Seq<char> {
    Seq::new(
        (2 * (to - from)) as nat,
        |k: int|
            if k % 2 == 0 {
                hex_digit(b[from + k / 2] as int / 16)
            } else {
                hex_digit(b[from + k / 2] as int % 16)
            },
    )
}

/// The usual text of a UUID: five groups of hexadecimal digits with hyphens between them.
pub open spec fn hyphenated(b: Seq<u8>) -> Seq<char> {
    hex_run(b, 0, 4) + seq!['-'] + hex_run(b, 4, 6) + seq!['-'] + hex_run(b, 6, 8) + seq!['-'] + hex_run(
        b,
        8,
        10,
    ) + seq!['-'] + hex_run(b, 10, 16)
}

proof fn hex_run_injective(a: Seq<u8>, b: Seq<u8>, from: int, to: int, k: int)
    requires
        0 <= from <= k < to,
        hex_run(a, from, to) == hex_run(b, from, to),
    ensures
        a[k] == b[k],
{
    let (x, y) = (hex_run(a, from, to), hex_run(b, from, to));
    let at = 2 * (k - from);
    assert(at % 2 == 0 && at / 2 == k - from);
    assert((at + 1) % 2 == 1 && (at + 1) / 2 == k - from);
    assert(x[at] == y[at] && x[at + 1] == y[at + 1]);
    assert(x[at] == hex_digit(a[k] as int / 16) && x[at + 1] == hex_digit(a[k] as int % 16));
    assert(y[at] == hex_digit(b[k] as int / 16) && y[at + 1] == hex_digit(b[k] as int % 16));
}

/// No two identifiers have the same text.
pub proof fn texts_tell_identifiers_apart(a: Seq<u8>, b: Seq<u8>)
    requires
        a.len() == 16,
        b.len() == 16,
        hyphenated(a) == hyphenated(b),
    ensures
        a == b,
{
    let (x, y) = (hyphenated(a), hyphenated(b));
    assert(x.subrange(0, 8) =~= hex_run(a, 0, 4) && y.subrange(0, 8) =~= hex_run(b, 0, 4));
    assert(x.subrange(9, 13) =~= hex_run(a, 4, 6) && y.subrange(9, 13) =~= hex_run(b, 4, 6));
    assert(x.subrange(14, 18) =~= hex_run(a, 6, 8) && y.subrange(14, 18) =~= hex_run(b, 6, 8));
    assert(x.subrange(19, 23) =~= hex_run(a, 8, 10) && y.subrange(19, 23) =~= hex_run(b, 8, 10));
    assert(x.subrange(24, 36) =~= hex_run(a, 10, 16) && y.subrange(24, 36) =~= hex_run(b, 10, 16));
    assert forall|k: int| 0 <= k < 16 implies a[k] == b[k] by {
        if k < 4 {
            hex_run_injective(a, b, 0, 4, k);
        } else if k < 6 {
            hex_run_injective(a, b, 4, 6, k);
        } else if k < 8 {
            hex_run_injective(a, b, 6, 8, k);
        } else if k < 10 {
            hex_run_injective(a, b, 8, 10, k);
        } else {
            hex_run_injective(a, b, 10, 16, k);
        }
    }
    assert(a =~= b);
}

/// What `uuid::Uuid::parse_str` makes of a text: the bytes, or the sentence by which its error
/// describes itself.
pub uninterp spec fn parsed_uuid(s: Seq<char>) -> Result<Seq<u8>, Seq<char>>;

/// What a UUID reader returned, as plain values.
pub open spec fn read_view(r: Result<[u8; 16], String>) -> Result<Seq<u8>, Seq<char>> {
    match r {
        Ok(b) => Ok(b@),
        Err(m) => Err(m@),
    }
}

/// `uuid::Uuid::now_v7`: a new UUID of version 7. Its time and its random part can be anything;
/// the version nibble is 7 and the variant bits are 10.
#[verifier::external_body]
fn now_v7() -> (r: [u8; 16])
    ensures
        r@[6] as int / 16 == 7,
        r@[8] as int / 64 == 2,
{
    uuid::Uuid::now_v7().into_bytes()
}

/// `uuid::Uuid`'s `Display`: the hyphenated form in lower case.
#[verifier::external_body]
fn uuid_text(bytes: &[u8; 16]) -> (r: String)
    ensures
        r@ == hyphenated(bytes@),
{
    uuid::Uuid::from_bytes(*bytes).to_string()
}

/// `uuid::Uuid::parse_str`: reads a UUID in any of its usual spellings, or gives the text of its
/// error. The hyphenated form in lower case is one of the spellings, and reads back as the bytes
/// it was made of.
#[verifier::external_body]
fn parse_uuid(s: &str) -> (r: Result<[u8; 16], String>)
    ensures
        read_view(r) == parsed_uuid(s@),
        forall|b: Seq<u8>|
            b.len() == 16 && s@ == #[trigger] hyphenated(b) ==> read_view(r) is Ok && read_view(r)->Ok_0 == b,
{
    uuid::Uuid::parse_str(s).map(|u| u.into_bytes()).map_err(|e| e.to_string())
}

/// Why a text is not the identifier of a sandbox.
#[derive(Debug)]
pub struct IdParseError(pub String);

/// The identifier of a sandbox.
#[derive(Debug, Clone, Copy, PartialEq, Eq, Hash)]
pub struct SandboxId(pub Uuid);

impl SandboxId {
    /// The bytes by which identifiers are told apart.
    pub open spec fn key(&self) -> Seq<u8> {
        self.0.bytes@
    }

    /// The text of the identifier.
    pub open spec fn shown(&self) -> Seq<char> {
        hyphenated(self.0.bytes@)
    }

    /// A new identifier: a UUID of version 7.
    pub fn new() -> (r: Self)
        ensures
            r.0.bytes@[6] as int / 16 == 7,
            r.0.bytes@[8] as int / 64 == 2,
    {
        SandboxId(Uuid { bytes: now_v7() })
    }

    /// The identifier with the given bytes.
    pub fn from_bytes(bytes: [u8; 16]) -> (r: Self)
        ensures
            r == SandboxId(Uuid { bytes }),
    {
        SandboxId(Uuid { bytes })
    }

    /// Whether both are the same identifier.
    pub fn is(&self, other: &SandboxId) -> (r: bool)
        ensures
            r == (self.key() == other.key()),
    {
        let mut i: usize = 0;
        while i < 16
            invariant
                i <= 16,
                forall|j: int| 0 <= j < i ==> self.key()[j] == other.key()[j],
            decreases 16 - i,
        {
            if self.0.bytes[i] != other.0.bytes[i] {
                return false;
            }
            i = i + 1;
        }
        proof {
            assert(self.key() =~= other.key());
        }
        true
    }

    /// The UUID behind the identifier.
    pub fn as_uuid(&self) -> (r: &Uuid)
        ensures
            *r == self.0,
    {
        &self.0
    }

    /// The text of the identifier.
    pub fn to_string(&self) -> (r: String)
        ensures
            r@ == self.shown(),
    {
        uuid_text(&self.0.bytes)
    }
}

impl Default for SandboxId {
    /// A new identifier.
    fn default() -> (r: Self)
        ensures
            r.0.bytes@[6] as int / 16 == 7,
            r.0.bytes@[8] as int / 64 == 2,
    {
        SandboxId::new()
    }
}

/// The identifier for what a UUID reader made of a text.
pub fn sandbox_id_from(read: Result<[u8; 16], String>) -> (r: Result<SandboxId, IdParseError>)
    ensures
        read matches Ok(b) ==> r == Ok::<SandboxId, IdParseError>(SandboxId(Uuid { bytes: b })),
        read matches Err(m) ==> r == Err::<SandboxId, IdParseError>(IdParseError(m)),
{
    match read {
        Ok(b) => Ok(SandboxId(Uuid { bytes: b })),
        Err(m) => Err(IdParseError(m)),
    }
}

/// The identifier that `s` writes. The text of an identifier reads back as that identifier.
pub fn parse_sandbox_id(s: &str) -> (r: Result<SandboxId, IdParseError>)
    ensures
        parsed_uuid(s@) == (match r {
            Ok(id) => Ok(id.key()),
            Err(e) => Err(e.0@),
        }),
        forall|id: SandboxId| s@ == #[trigger] id.shown() ==> (r matches Ok(got) && got.key() == id.key()),
{
    let r = sandbox_id_from(parse_uuid(s));
    proof {
        assert forall|id: SandboxId| s@ == #[trigger] id.shown() implies (r matches Ok(got) && got.key()
            == id.key()) by {
            assert(hyphenated(id.key()) == s@);
        }
    }
    r
}

/// The identifier of a cgroup: the inode number of its directory.
#[derive(Debug, Clone, Copy, PartialEq, Eq, Hash, Structural)]
pub struct CgroupId(pub u64);

impl CgroupId {
    /// The identifier with the given number.
    pub fn new(raw: u64) -> (r: Self)
        ensures
            r == CgroupId(raw),
    {
        CgroupId(raw)
    }

    /// The number.
    pub fn as_raw(&self) -> (r: u64)
        ensures
            r == self.0,
    {
        self.0
    }

    /// The number in decimal.
    pub fn to_string(&self) -> (r: String)
        ensures
            r@ == number::decimal(self.0 as nat),
    {
        number::format_u64(self.0)
    }
}

} // verus!
