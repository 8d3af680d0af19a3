//! Network rules as entries of the `net_rules` trie.
use vstd::prelude::*;

use crate::bpf::records::NetKey;
use crate::error::Error;
use crate::error::ErrorModel;
use crate::id::CgroupId;
use crate::net;
use crate::number;
use crate::policy::compile;
use crate::policy::compile::BpfNetRule;
use crate::policy::compile::BpfNetRuleModel;
use crate::text;
use crate::wire;

verus! {

/// The bits of a key before the address: those of the cgroup.
pub const NET_KEY_CGID_BITS: u32 = 64;

/// A network's address part and the text of its prefix length.
pub open spec fn cidr_parts(cidr: Seq<char>) -> (Seq<char>, Seq<char>) {
    match text::split_once_at(cidr, '/') {
        Some((a, p)) => (a, p),
        None => (cidr, "32"@),
    }
}

/// The number whose bytes in memory are the four of an address, most significant first.
pub open spec fn network_order(octets: Seq<u8>, addr: u32) -> bool {
    wire::u32_bytes(addr) == octets
}

/// What a network that cannot be read is answered; nothing where it can be read.
pub open spec fn cidr_refusal(cidr: Seq<char>) -> Option<Seq<char>> {
    let (addr, prefix) = cidr_parts(cidr);
    let lead = "network rule "@ + text::quoted(cidr);
    if net::ipv4(addr) is None {
        Some(
            lead + ": "@ + text::quoted(addr)
                + " is not an IPv4 address (IPv6 is denied outright in v1 — see net.bpf.c)"@,
        )
    } else {
        match number::parsed(prefix, u32::MAX as nat) {
            None => Some(lead + ": bad prefix length"@),
            Some(n) => if n > 32 {
                Some(lead + ": prefix length "@ + number::decimal(n) + " exceeds 32"@)
            } else {
                None
            },
        }
    }
}

/// Whether `addr` and `prefix` are what a network that can be read writes.
pub open spec fn cidr_is(cidr: Seq<char>, addr: u32, prefix: u32) -> bool {
    &&& network_order(net::ipv4(cidr_parts(cidr).0)->0, addr)
    &&& number::parsed(cidr_parts(cidr).1, u32::MAX as nat) == Some(prefix as nat)
    &&& prefix <= 32
}

/// Reads `a.b.c.d/N`, or `a.b.c.d` for a single address: the address in network byte order and
/// the prefix length.
pub fn parse_cidr(cidr: &str) -> (r: Result<(u32, u32), Error>)
    ensures
        r is Ok <==> cidr_refusal(cidr@) is None,
        r matches Ok((addr, prefix)) ==> cidr_is(cidr@, addr, prefix),
        r matches Err(e) ==> e@ == ErrorModel::PolicyInvalid(cidr_refusal(cidr@)->0),
{
    let (addr_part, prefix_part) = match text::split_once(cidr, '/') {
        Some(parts) => parts,
        None => (cidr.to_owned(), "32".to_owned()),
    };
    let mut lead = "network rule ".to_owned();
    lead.append(text::quote(cidr).as_str());
    let octets = match net::parse_ipv4(addr_part.as_str()) {
        Some(b) => b,
        None => {
            lead.append(": ");
            lead.append(text::quote(addr_part.as_str()).as_str());
            lead.append(" is not an IPv4 address (IPv6 is denied outright in v1 — see net.bpf.c)");
            return Err(Error::PolicyInvalid(lead));
        },
    };
    let prefix: u32 = match number::parse_u32(prefix_part.as_str()) {
        Some(n) => n,
        None => {
            lead.append(": bad prefix length");
            return Err(Error::PolicyInvalid(lead));
        },
    };
    if prefix > 32 {
        lead.append(": prefix length ");
        lead.append(number::format_u64(prefix as u64).as_str());
        lead.append(" exceeds 32");
        return Err(Error::PolicyInvalid(lead));
    }
    Ok((wire::u32_from_bytes(octets), prefix))
}

/// The position of the first port that the bitmap cannot hold, or the number of ports.
pub open spec fn first_high(ports: Seq<u16>) -> int
    decreases ports.len(),
{
    if ports.len() == 0 {
        0
    } else if ports[0] >= 64 {
        0
    } else {
        1 + first_high(ports.skip(1))
    }
}

/// The bitmap of a list of ports below 64.
pub open spec fn port_bits(ports: Seq<u16>) -> u64
    decreases ports.len(),
{
    if ports.len() == 0 {
        0
    } else {
        port_bits(ports.drop_last()) | (1u64 << (ports.last() as u64))
    }
}

/// What a port that the bitmap cannot hold is answered.
pub open spec fn port_refusal(cidr: Seq<char>, port: u16) -> Seq<char> {
    "network rule "@ + cidr + " lists port "@ + number::decimal(port as nat)
        + ": the v1 port bitmap only encodes ports 0-63, and the kernel side denies anything above that"@
}

/// What a rule that cannot be installed is answered; nothing where it can.
pub open spec fn rule_refusal(rule: BpfNetRuleModel) -> Option<ErrorModel> {
    match cidr_refusal(rule.cidr) {
        Some(m) => Some(ErrorModel::PolicyInvalid(m)),
        None => if first_high(rule.ports) < rule.ports.len() {
            Some(ErrorModel::Unsupported(port_refusal(rule.cidr, rule.ports[first_high(rule.ports)])))
        } else {
            None
        },
    }
}

/// What a list of rules that cannot be installed is answered: what its first such rule is.
pub open spec fn rules_refusal(rules: Seq<BpfNetRuleModel>) -> Option<ErrorModel>
    decreases rules.len(),
{
    if rules.len() == 0 {
        None
    } else {
        match rule_refusal(rules[0]) {
            Some(e) => Some(e),
            None => rules_refusal(rules.skip(1)),
        }
    }
}

/// Whether a trie entry is the one that a rule makes for a cgroup.
pub open spec fn entry_is(entry: (NetKey, u64), cgid: u64, rule: BpfNetRuleModel) -> bool {
    &&& entry.0.cgid == cgid
    &&& entry.0.prefixlen >= NET_KEY_CGID_BITS
    &&& cidr_is(rule.cidr, entry.0.addr, (entry.0.prefixlen - NET_KEY_CGID_BITS) as u32)
    &&& entry.1 == port_bits(rule.ports)
}

proof fn first_high_is(ports: Seq<u16>, k: int)
    requires
        0 <= k <= ports.len(),
        forall|i: int| 0 <= i < k ==> ports[i] < 64,
        k < ports.len() ==> ports[k] >= 64,
    ensures
        first_high(ports) == k,
    decreases k,
{
    if k > 0 {
        assert(ports[0] < 64);
        let rest = ports.skip(1);
        assert forall|i: int| 0 <= i < k - 1 implies rest[i] < 64 by {
            assert(rest[i] == ports[i + 1]);
        }
        first_high_is(rest, k - 1);
    }
}

proof fn refusal_at(rules: Seq<BpfNetRuleModel>, k: int)
    requires
        0 <= k <= rules.len(),
        forall|i: int| 0 <= i < k ==> rule_refusal(#[trigger] rules[i]) is None,
        k < rules.len() ==> rule_refusal(rules[k]) is Some,
    ensures
        rules_refusal(rules) == (if k < rules.len() {
            rule_refusal(rules[k])
        } else {
            None
        }),
    decreases k,
{
    if k > 0 {
        assert(rule_refusal(rules[0]) is None);
        let rest = rules.skip(1);
        assert forall|i: int| 0 <= i < k - 1 implies rule_refusal(#[trigger] rest[i]) is None by {
            assert(rest[i] == rules[i + 1]);
        }
        refusal_at(rest, k - 1);
    }
}

/// The bitmap of a rule's ports.
fn bits_of(cidr: &str, ports: &Vec<u16>) -> (r: Result<u64, Error>)
    ensures
        r is Ok <==> first_high(ports@) == ports@.len(),
        r matches Ok(bits) ==> bits == port_bits(ports@),
        r matches Err(e) ==> 0 <= first_high(ports@) < ports@.len() && e@ == ErrorModel::Unsupported(
            port_refusal(cidr@, ports@[first_high(ports@)]),
        ),
{
    let mut bits: u64 = 0;
    let mut i: usize = 0;
    while i < ports.len()
        invariant
            i <= ports@.len(),
            forall|j: int| 0 <= j < i ==> ports@[j] < 64,
            bits == port_bits(ports@.take(i as int)),
        decreases ports@.len() - i,
    {
        let port: u16 = ports[i];
        if port >= 64 {
            proof {
                first_high_is(ports@, i as int);
            }
            let mut m = text::cat5(
                "network rule ",
                cidr,
                " lists port ",
                number::format_u64(port as u64).as_str(),
                ": the v1 port bitmap only encodes ports 0-63, and the kernel side denies anything above that",
            );
            return Err(Error::Unsupported(m));
        }
        proof {
            assert(ports@.take(i + 1).drop_last() =~= ports@.take(i as int));
            assert(ports@.take(i + 1).last() == port);
        }
        bits = bits | (1u64 << (port as u64));
        i = i + 1;
    }
    proof {
        first_high_is(ports@, i as int);
        assert(ports@.take(i as int) =~= ports@);
    }
    Ok(bits)
}

/// The trie entries of a list of rules, scoped to a cgroup.
pub fn resolve_net_rules(cgid: CgroupId, rules: &Vec<BpfNetRule>) -> (r: Result<Vec<(NetKey, u64)>, Error>)
    ensures
        r is Ok <==> rules_refusal(compile::views(rules@)) is None,
        r matches Ok(v) ==> v@.len() == rules@.len() && forall|i: int|
            0 <= i < v@.len() ==> entry_is(#[trigger] v@[i], cgid.0, rules@[i]@),
        r matches Err(e) ==> Some(e@) == rules_refusal(compile::views(rules@)),
{
    let ghost all = compile::views(rules@);
    let mut out: Vec<(NetKey, u64)> = Vec::new();
    let mut i: usize = 0;
    while i < rules.len()
        invariant
            i <= rules@.len(),
            all == compile::views(rules@),
            out@.len() == i,
            forall|j: int| 0 <= j < i ==> rule_refusal(#[trigger] all[j]) is None,
            forall|j: int| 0 <= j < i ==> entry_is(#[trigger] out@[j], cgid.0, rules@[j]@),
        decreases rules@.len() - i,
    {
        let rule = &rules[i];
        proof {
            assert(all[i as int] == rule@);
        }
        let (addr, prefix) = match parse_cidr(rule.cidr.as_str()) {
            Ok(parts) => parts,
            Err(e) => {
                proof {
                    refusal_at(all, i as int);
                }
                return Err(e);
            },
        };
        let bits: u64 = match bits_of(rule.cidr.as_str(), &rule.ports) {
            Ok(bits) => bits,
            Err(e) => {
                proof {
                    refusal_at(all, i as int);
                }
                return Err(e);
            },
        };
        out.push((NetKey { prefixlen: NET_KEY_CGID_BITS + prefix, cgid: cgid.0, addr }, bits));
        i = i + 1;
    }
    proof {
        refusal_at(all, i as int);
    }
    Ok(out)
}

/// A port's bit is set exactly where the port is listed.
pub proof fn port_bit_is_listed(ports: Seq<u16>, p: u16)
    requires
        p < 64,
        forall|i: int| 0 <= i < ports.len() ==> ports[i] < 64,
    ensures
        (port_bits(ports) >> (p as u64)) & 1 == 1 <==> ports.contains(p),
    decreases ports.len(),
{
    let q = p as u64;
    if ports.len() == 0 {
        assert(q < 64 ==> (0u64 >> q) & 1 == 0) by (bit_vector);
    } else {
        let front = ports.drop_last();
        let last = ports.last() as u64;
        let before = port_bits(front);
        assert(ports[ports.len() - 1] < 64);
        assert forall|i: int| 0 <= i < front.len() implies front[i] < 64 by {
            assert(front[i] == ports[i]);
        }
        port_bit_is_listed(front, p);
        assert(((before | (1u64 << last)) >> q) & 1 == 1 <==> (before >> q) & 1 == 1 || q == last) by (bit_vector)
            requires
                q < 64,
                last < 64,
        ;
        if front.contains(p) {
            let i = choose|i: int| 0 <= i < front.len() && front[i] == p;
            assert(ports[i] == p);
        }
        if p == ports.last() {
            assert(ports[ports.len() - 1] == p);
        }
        if ports.contains(p) && p != ports.last() {
            let i = choose|i: int| 0 <= i < ports.len() && ports[i] == p;
            assert(front[i] == p);
        }
    }
}

} // verus!
