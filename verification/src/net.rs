//! Internet addresses as texts.
use vstd::prelude::*;

use crate::number;
use crate::text;

verus! {

/// The number that one part of a dotted address writes: one to three digits, no zero before
/// another digit, at most 255.
pub open spec fn octet(s: Seq<char>) -> Option<u8> {
    if 1 <= s.len() <= 3 && number::all_digits(s) && (s.len() == 1 || s[0] != '0') && number::digits_value(s)
        <= 255 {
        Some(number::digits_value(s) as u8)
    } else {
        None
    }
}

/// The four bytes that a dotted address writes.
pub open spec fn ipv4(s: Seq<char>) -> Option<Seq<u8>> {
    let parts = text::pieces(s, '.');
    if parts.len() == 4 && octet(parts[0]) is Some && octet(parts[1]) is Some && octet(parts[2]) is Some && octet(
        parts[3],
    ) is Some {
        Some(seq![octet(parts[0])->0, octet(parts[1])->0, octet(parts[2])->0, octet(parts[3])->0])
    } else {
        None
    }
}

/// Reads one part of a dotted address.
fn parse_octet(s: &str) -> (r: Option<u8>)
    ensures
        r == octet(s@),
{
    let chars = text::chars_of(s);
    let n: usize = chars.len();
    if n == 0 || n > 3 || (n > 1 && chars[0] == '0') || chars[0] == '+' {
        proof {
            if n > 0 && chars@[0] == '+' {
                assert(!number::is_digit(s@[0]));
            }
        }
        return None;
    }
    number::parse_u8(s)
}

/// Reads a dotted IPv4 address.
pub fn parse_ipv4(s: &str) -> (r: Option<[u8; 4]>)
    ensures
        r is Some <==> ipv4(s@) is Some,
        r matches Some(b) ==> ipv4(s@) == Some(b@),
{
    let parts = text::split(s, '.');
    let ghost all = text::texts(parts@);
    if parts.len() != 4 {
        return None;
    }
    proof {
        assert(all[0] == parts@[0]@ && all[1] == parts@[1]@ && all[2] == parts@[2]@ && all[3] == parts@[3]@);
    }
    match (
        parse_octet(parts[0].as_str()),
        parse_octet(parts[1].as_str()),
        parse_octet(parts[2].as_str()),
        parse_octet(parts[3].as_str()),
    ) {
        (Some(a), Some(b), Some(c), Some(d)) => {
            let out: [u8; 4] = [a, b, c, d];
            proof {
                assert(out@ =~= seq![a, b, c, d]);
            }
            Some(out)
        },
        _ => None,
    }
}

} // verus!
