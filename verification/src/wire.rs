//! Integers as bytes in the machine's own order, as the kernel's maps hold them.
use vstd::prelude::*;

use vstd::endian::Endian;

verus! {

/// The bytes of a 32-bit number, least significant first.
pub open spec fn u32_le(x: u32) -> Seq<u8> {
    seq![(x % 256) as u8, (x / 256 % 256) as u8, (x / 65536 % 256) as u8, (x / 16777216 % 256) as u8]
}

/// The bytes of a 64-bit number, least significant first.
pub open spec fn u64_le(x: u64) -> Seq<u8> {
    u32_le((x % 4294967296) as u32) + u32_le((x / 4294967296) as u32)
}

/// `bytes`, given least significant first, in the machine's order.
pub open spec fn in_machine_order(bytes: Seq<u8>) -> Seq<u8> {
    match vstd::endian::endianness() {
        Endian::Little => bytes,
        Endian::Big => bytes.reverse(),
    }
}

/// The bytes of a 32-bit number as memory holds them.
#[verifier::opaque]
pub open spec fn u32_bytes(x: u32) -> Seq<u8> {
    in_machine_order(u32_le(x))
}

/// The bytes of a 64-bit number as memory holds them.
#[verifier::opaque]
pub open spec fn u64_bytes(x: u64) -> Seq<u8> {
    in_machine_order(u64_le(x))
}

/// The 32-bit number that four bytes hold.
pub open spec fn u32_value(b: Seq<u8>) -> u32 {
    choose|x: u32| u32_bytes(x) == b
}

/// The 64-bit number that eight bytes hold.
pub open spec fn u64_value(b: Seq<u8>) -> u64 {
    choose|x: u64| u64_bytes(x) == b
}

/// `u32::to_ne_bytes`: the number's memory representation.
#[verifier::external_body]
pub(crate) fn u32_to_bytes(x: u32) -> (r: [u8; 4])
    ensures
        r@ == u32_bytes(x),
{
    x.to_ne_bytes()
}

/// `u32::from_ne_bytes`: the number whose memory representation is given.
#[verifier::external_body]
pub(crate) fn u32_from_bytes(b: [u8; 4]) -> (r: u32)
    ensures
        u32_bytes(r) == b@,
{
    u32::from_ne_bytes(b)
}

/// `u64::to_ne_bytes`: the number's memory representation.
#[verifier::external_body]
pub(crate) fn u64_to_bytes(x: u64) -> (r: [u8; 8])
    ensures
        r@ == u64_bytes(x),
{
    x.to_ne_bytes()
}

/// `u64::from_ne_bytes`: the number whose memory representation is given.
#[verifier::external_body]
pub(crate) fn u64_from_bytes(b: [u8; 8]) -> (r: u64)
    ensures
        u64_bytes(r) == b@,
{
    u64::from_ne_bytes(b)
}

proof fn in_machine_order_injective(a: Seq<u8>, b: Seq<u8>)
    requires
        in_machine_order(a) == in_machine_order(b),
    ensures
        a == b,
{
    if vstd::endian::endianness() is Big {
        assert(a.reverse().len() == b.reverse().len());
        assert forall|i: int| 0 <= i < a.len() implies a[i] == b[i] by {
            assert(a.reverse()[a.len() - 1 - i] == a[i]);
            assert(b.reverse()[b.len() - 1 - i] == b[i]);
        }
        assert(a =~= b);
    }
}

proof fn u32_le_injective(x: u32, y: u32)
    requires
        u32_le(x) == u32_le(y),
    ensures
        x == y,
{
    let a = u32_le(x);
    let b = u32_le(y);
    assert(a[0] == b[0] && a[1] == b[1] && a[2] == b[2] && a[3] == b[3]);
}

/// No two 32-bit numbers have the same bytes.
pub proof fn u32_bytes_injective(x: u32, y: u32)
    requires
        u32_bytes(x) == u32_bytes(y),
    ensures
        x == y,
{
    reveal(u32_bytes);
    in_machine_order_injective(u32_le(x), u32_le(y));
    u32_le_injective(x, y);
}

/// No two 64-bit numbers have the same bytes.
pub proof fn u64_bytes_injective(x: u64, y: u64)
    requires
        u64_bytes(x) == u64_bytes(y),
    ensures
        x == y,
{
    reveal(u64_bytes);
    in_machine_order_injective(u64_le(x), u64_le(y));
    let (a, b) = (u64_le(x), u64_le(y));
    assert(a.take(4) =~= u32_le((x % 4294967296) as u32));
    assert(b.take(4) =~= u32_le((y % 4294967296) as u32));
    assert(a.skip(4) =~= u32_le((x / 4294967296) as u32));
    assert(b.skip(4) =~= u32_le((y / 4294967296) as u32));
    u32_le_injective((x % 4294967296) as u32, (y % 4294967296) as u32);
    u32_le_injective((x / 4294967296) as u32, (y / 4294967296) as u32);
}

/// The bytes of a 32-bit number hold that number.
pub proof fn u32_value_of_bytes(x: u32)
    ensures
        u32_value(u32_bytes(x)) == x,
{
    let y = choose|y: u32| u32_bytes(y) == u32_bytes(x);
    u32_bytes_injective(x, y);
}

/// The bytes of a 64-bit number hold that number.
pub proof fn u64_value_of_bytes(x: u64)
    ensures
        u64_value(u64_bytes(x)) == x,
{
    let y = choose|y: u64| u64_bytes(y) == u64_bytes(x);
    u64_bytes_injective(x, y);
}

/// A 32-bit number has four bytes.
pub broadcast proof fn u32_bytes_len(x: u32)
    ensures
        #[trigger] u32_bytes(x).len() == 4,
{
    reveal(u32_bytes);
}

/// A 64-bit number has eight bytes.
pub broadcast proof fn u64_bytes_len(x: u64)
    ensures
        #[trigger] u64_bytes(x).len() == 8,
{
    reveal(u64_bytes);
}

/// Appends the bytes of a 32-bit number.
pub fn push_u32(out: &mut Vec<u8>, x: u32)
    ensures
        final(out)@ == old(out)@ + u32_bytes(x),
{
    let b = u32_to_bytes(x);
    push_all(out, b.as_slice());
}

/// Appends the bytes of a 64-bit number.
pub fn push_u64(out: &mut Vec<u8>, x: u64)
    ensures
        final(out)@ == old(out)@ + u64_bytes(x),
{
    let b = u64_to_bytes(x);
    push_all(out, b.as_slice());
}

/// Appends bytes.
pub fn push_all(out: &mut Vec<u8>, b: &[u8])
    ensures
        final(out)@ == old(out)@ + b@,
{
    let ghost before = out@;
    let mut i: usize = 0;
    while i < b.len()
        invariant
            i <= b@.len(),
            out@ == before + b@.take(i as int),
        decreases b@.len() - i,
    {
        out.push(b[i]);
        i = i + 1;
        proof {
            assert(b@.take(i as int) =~= b@.take(i - 1).push(b@[i - 1]));
            assert(out@ =~= before + b@.take(i as int));
        }
    }
    proof {
        assert(b@.take(i as int) =~= b@);
    }
}

/// The 32-bit number at `at`.
pub fn u32_at(b: &[u8], at: usize) -> (r: u32)
    requires
        at + 4 <= b@.len(),
    ensures
        u32_bytes(r) == b@.subrange(at as int, at + 4),
        r == u32_value(b@.subrange(at as int, at + 4)),
{
    let n: usize = b.len();
    let a: [u8; 4] = [b[at], b[at + 1], b[at + 2], b[at + 3]];
    proof {
        assert(a@ =~= b@.subrange(at as int, at + 4));
    }
    let r: u32 = u32_from_bytes(a);
    proof {
        u32_value_of_bytes(r);
    }
    r
}

/// The 64-bit number at `at`.
pub fn u64_at(b: &[u8], at: usize) -> (r: u64)
    requires
        at + 8 <= b@.len(),
    ensures
        u64_bytes(r) == b@.subrange(at as int, at + 8),
        r == u64_value(b@.subrange(at as int, at + 8)),
{
    let n: usize = b.len();
    let a: [u8; 8] = [
        b[at],
        b[at + 1],
        b[at + 2],
        b[at + 3],
        b[at + 4],
        b[at + 5],
        b[at + 6],
        b[at + 7],
    ];
    proof {
        assert(a@ =~= b@.subrange(at as int, at + 8));
    }
    let r: u64 = u64_from_bytes(a);
    proof {
        u64_value_of_bytes(r);
    }
    r
}

} // verus!
