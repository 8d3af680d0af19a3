//! Capabilities that can be granted to a running sandbox, and their text.
//!
//! ```text
//!   net:<cidr>:<port>[,<port>...]      net:203.0.113.7/32:53
//!   fs:<path>:<access>[,<access>...]   fs:/data:read,write
//!   exec:<path>                        exec:/usr/bin/git
//! ```
use vstd::prelude::*;

use crate::number;
use crate::text;

verus! {

/// A privilege that can be granted to a running sandbox, or taken from it.
#[derive(Debug, Clone, PartialEq, Eq)]
pub enum Capability {
    /// Direct egress to a network on a set of ports.
    Network { cidr: String, ports: Vec<u16> },
    /// Access rights on a path.
    Filesystem { path: String, access: Vec<String> },
    /// Permission to execute one binary.
    Exec { path: String },
}

/// A capability as plain values.
#[verifier::ext_equal]
pub enum CapabilityModel {
    Network { cidr: Seq<char>, ports: Seq<u16> },
    Filesystem { path: Seq<char>, access: Seq<Seq<char>> },
    Exec { path: Seq<char> },
}

impl View for Capability {
    type V = CapabilityModel;

    open spec fn view(&self) -> CapabilityModel {
        match *self {
            Capability::Network { cidr, ports } => CapabilityModel::Network { cidr: cidr@, ports: ports@ },
            Capability::Filesystem { path, access } => CapabilityModel::Filesystem {
                path: path@,
                access: text::texts(access@),
            },
            Capability::Exec { path } => CapabilityModel::Exec { path: path@ },
        }
    }
}

/// Why a text is not a capability.
#[derive(Debug, Clone, PartialEq, Eq)]
pub struct CapabilityParseError(String);

impl View for CapabilityParseError {
    type V = Seq<char>;

    closed spec fn view(&self) -> Seq<char> {
        self.0@
    }
}

impl CapabilityParseError {
    /// The sentence that describes the error.
    pub fn to_string(&self) -> (r: String)
        ensures
            r@ == self@,
    {
        self.0.clone()
    }
}

/// The port numbers of a list, or the first entry that is none.
pub open spec fn read_ports(parts: Seq<Seq<char>>) -> Result<Seq<u16>, Seq<char>>
    decreases parts.len(),
{
    if parts.len() == 0 {
        Ok(Seq::empty())
    } else {
        match read_ports(parts.drop_last()) {
            Err(bad) => Err(bad),
            Ok(ports) => match number::parsed(text::trimmed(parts.last()), u16::MAX as nat) {
                Some(n) => Ok(ports.push(n as u16)),
                None => Err(parts.last()),
            },
        }
    }
}

/// The access rights of a list: its entries without the white space around them, the empty ones
/// left out.
pub open spec fn read_access(parts: Seq<Seq<char>>) -> Seq<Seq<char>>
    decreases parts.len(),
{
    if parts.len() == 0 {
        Seq::empty()
    } else {
        let before = read_access(parts.drop_last());
        let verb = text::trimmed(parts.last());
        if verb.len() == 0 {
            before
        } else {
            before.push(verb)
        }
    }
}

/// Whether `path` is absolute.
pub open spec fn is_absolute(path: Seq<char>) -> bool {
    path.len() > 0 && path[0] == '/'
}

/// What a path that is not absolute is answered.
pub open spec fn relative_path_message(path: Seq<char>, full: Seq<char>) -> Seq<char> {
    "capability "@ + text::quoted(full) + ": path "@ + text::quoted(path)
        + " must be absolute — rules are anchored on exact in-sandbox paths, so a relative path would match nothing"@
}

/// What stands behind `net:`, read as a capability.
pub open spec fn read_network(s: Seq<char>, rest: Seq<char>) -> Result<CapabilityModel, Seq<char>> {
    match text::rsplit_once_at(rest, ':') {
        None => Err(
            "network capability "@ + text::quoted(s)
                + " has no port list — expected net:<cidr>:<port>[,<port>...]"@,
        ),
        Some((cidr, list)) => if cidr.len() == 0 {
            Err("network capability "@ + text::quoted(s) + " has an empty CIDR"@)
        } else {
            match read_ports(text::pieces(list, ',')) {
                Err(bad) => Err(
                    "network capability "@ + text::quoted(s) + ": "@ + text::quoted(bad) + " is not a port"@,
                ),
                Ok(ports) => Ok(CapabilityModel::Network { cidr, ports }),
            }
        },
    }
}

/// What stands behind `fs:`, read as a capability.
pub open spec fn read_filesystem(s: Seq<char>, rest: Seq<char>) -> Result<CapabilityModel, Seq<char>> {
    match text::rsplit_once_at(rest, ':') {
        None => Err(
            "filesystem capability "@ + text::quoted(s)
                + " has no access list — expected fs:<path>:<access>[,<access>...]"@,
        ),
        Some((path, list)) => if !is_absolute(path) {
            Err(relative_path_message(path, s))
        } else if read_access(text::pieces(list, ',')).len() == 0 {
            Err("filesystem capability "@ + text::quoted(s) + " lists no access rights"@)
        } else {
            Ok(CapabilityModel::Filesystem { path, access: read_access(text::pieces(list, ',')) })
        },
    }
}

/// What stands behind `exec:`, read as a capability.
pub open spec fn read_exec(s: Seq<char>, rest: Seq<char>) -> Result<CapabilityModel, Seq<char>> {
    if !is_absolute(rest) {
        Err(relative_path_message(rest, s))
    } else {
        Ok(CapabilityModel::Exec { path: rest })
    }
}

/// The capability that a text writes, or what the text is answered.
pub open spec fn read_capability(s: Seq<char>) -> Result<CapabilityModel, Seq<char>> {
    match text::split_once_at(s, ':') {
        None => Err(
            "capability "@ + text::quoted(s)
                + " has no kind prefix — expected one of net:<cidr>:<ports>, fs:<path>:<access>, exec:<path>"@,
        ),
        Some((kind, rest)) => if kind == "net"@ {
            read_network(s, rest)
        } else if kind == "fs"@ {
            read_filesystem(s, rest)
        } else if kind == "exec"@ {
            read_exec(s, rest)
        } else {
            Err(
                "unknown capability kind "@ + text::quoted(kind) + " in "@ + text::quoted(s)
                    + " — expected net, fs or exec"@,
            )
        },
    }
}

/// The decimal texts of port numbers.
pub open spec fn port_texts(ports: Seq<u16>) -> Seq<Seq<char>> {
    Seq::new(ports.len(), |i: int| number::decimal(ports[i] as nat))
}

/// The text of a capability.
pub open spec fn shown(c: CapabilityModel) -> Seq<char> {
    match c {
        CapabilityModel::Network { cidr, ports } => "net:"@ + cidr + ":"@ + text::joined(
            port_texts(ports),
            ","@,
        ),
        CapabilityModel::Filesystem { path, access } => "fs:"@ + path + ":"@ + text::joined(access, ","@),
        CapabilityModel::Exec { path } => "exec:"@ + path,
    }
}

/// What is returned for what was read.
pub open spec fn parse_view(r: Result<Capability, CapabilityParseError>) -> Result<CapabilityModel, Seq<char>> {
    match r {
        Ok(c) => Ok(c@),
        Err(e) => Err(e@),
    }
}

/// Refuses a path that is not absolute.
fn check_absolute(path: &str, full: &str) -> (r: Result<(), String>)
    ensures
        r is Ok <==> is_absolute(path@),
        r matches Err(m) ==> m@ == relative_path_message(path@, full@),
{
    if !text::starts_with(path, "/") {
        proof {
            reveal_strlit("/");
            if is_absolute(path@) {
                assert("/"@ =~= path@.subrange(0, 1));
            }
        }
        return Err(
            text::cat5(
                "capability ",
                text::quote(full).as_str(),
                ": path ",
                text::quote(path).as_str(),
                " must be absolute — rules are anchored on exact in-sandbox paths, so a relative path would match nothing",
            ),
        );
    }
    proof {
        reveal_strlit("/");
        assert(path@.subrange(0, 1)[0] == '/');
    }
    Ok(())
}

/// The port numbers of a list, or the first entry that is none.
fn ports_of(parts: &Vec<String>) -> (r: Result<Vec<u16>, String>)
    ensures
        read_ports(text::texts(parts@)) == (match r {
            Ok(v) => Ok(v@),
            Err(bad) => Err(bad@),
        }),
{
    let mut ports: Vec<u16> = Vec::new();
    let mut i: usize = 0;
    let ghost all = text::texts(parts@);
    while i < parts.len()
        invariant
            i <= parts@.len(),
            all == text::texts(parts@),
            read_ports(all.take(i as int)) == Ok::<Seq<u16>, Seq<char>>(ports@),
        decreases parts@.len() - i,
    {
        proof {
            assert(all.take(i + 1).drop_last() =~= all.take(i as int));
        }
        match number::parse_u16(text::trim(parts[i].as_str()).as_str()) {
            Some(n) => {
                ports.push(n);
            },
            None => {
                proof {
                    read_ports_stuck(all, i as int);
                }
                return Err(parts[i].clone());
            },
        }
        i = i + 1;
    }
    proof {
        assert(all.take(i as int) =~= all);
    }
    Ok(ports)
}

/// The first entry that is no port decides, whatever follows it.
proof fn read_ports_stuck(parts: Seq<Seq<char>>, i: int)
    requires
        0 <= i < parts.len(),
        read_ports(parts.take(i + 1)) is Err,
    ensures
        read_ports(parts) == read_ports(parts.take(i + 1)),
    decreases parts.len(),
{
    if i + 1 < parts.len() {
        let front = parts.drop_last();
        assert(front.take(i + 1) =~= parts.take(i + 1));
        read_ports_stuck(front, i);
    } else {
        assert(parts.take(i + 1) =~= parts);
    }
}

/// The access rights of a list.
fn access_of(parts: &Vec<String>) -> (r: Vec<String>)
    ensures
        text::texts(r@) == read_access(text::texts(parts@)),
{
    let mut access: Vec<String> = Vec::new();
    let mut i: usize = 0;
    let ghost all = text::texts(parts@);
    proof {
        assert(text::texts(access@) =~= Seq::<Seq<char>>::empty());
    }
    while i < parts.len()
        invariant
            i <= parts@.len(),
            all == text::texts(parts@),
            read_access(all.take(i as int)) == text::texts(access@),
        decreases parts@.len() - i,
    {
        proof {
            assert(all.take(i + 1).drop_last() =~= all.take(i as int));
        }
        let verb = text::trim(parts[i].as_str());
        if !verb.as_str().is_empty() {
            let ghost done = text::texts(access@);
            let ghost v = verb@;
            access.push(verb);
            proof {
                assert(text::texts(access@) =~= done.push(v));
            }
        }
        i = i + 1;
    }
    proof {
        assert(all.take(i as int) =~= all);
    }
    access
}

impl Capability {
    /// A short label for audit records: the kind of grant without its parameters.
    pub fn kind(&self) -> (r: &'static str)
        ensures
            r@ == (match *self {
                Capability::Network { .. } => "net"@,
                Capability::Filesystem { .. } => "fs"@,
                Capability::Exec { .. } => "exec"@,
            }),
    {
        match self {
            Capability::Network { .. } => "net",
            Capability::Filesystem { .. } => "fs",
            Capability::Exec { .. } => "exec",
        }
    }

    /// Reads what stands behind `net:` in `s`.
    fn parse_network(s: &str, rest: &str) -> (r: Result<Capability, CapabilityParseError>)
        ensures
            parse_view(r) == read_network(s@, rest@),
    {
        match text::rsplit_once(rest, ':') {
            None => Err(
                CapabilityParseError(
                    text::cat3(
                        "network capability ",
                        text::quote(s).as_str(),
                        " has no port list — expected net:<cidr>:<port>[,<port>...]",
                    ),
                ),
            ),
            Some((cidr, list)) => {
                if cidr.as_str().is_empty() {
                    return Err(
                        CapabilityParseError(
                            text::cat3("network capability ", text::quote(s).as_str(), " has an empty CIDR"),
                        ),
                    );
                }
                match ports_of(&text::split(list.as_str(), ',')) {
                    Ok(ports) => Ok(Capability::Network { cidr, ports }),
                    Err(bad) => Err(
                        CapabilityParseError(
                            text::cat5(
                                "network capability ",
                                text::quote(s).as_str(),
                                ": ",
                                text::quote(bad.as_str()).as_str(),
                                " is not a port",
                            ),
                        ),
                    ),
                }
            },
        }
    }

    /// Reads what stands behind `fs:` in `s`.
    fn parse_filesystem(s: &str, rest: &str) -> (r: Result<Capability, CapabilityParseError>)
        ensures
            parse_view(r) == read_filesystem(s@, rest@),
    {
        match text::rsplit_once(rest, ':') {
            None => Err(
                CapabilityParseError(
                    text::cat3(
                        "filesystem capability ",
                        text::quote(s).as_str(),
                        " has no access list — expected fs:<path>:<access>[,<access>...]",
                    ),
                ),
            ),
            Some((path, list)) => {
                if let Err(m) = check_absolute(path.as_str(), s) {
                    return Err(CapabilityParseError(m));
                }
                let access = access_of(&text::split(list.as_str(), ','));
                if access.is_empty() {
                    return Err(
                        CapabilityParseError(
                            text::cat3(
                                "filesystem capability ",
                                text::quote(s).as_str(),
                                " lists no access rights",
                            ),
                        ),
                    );
                }
                Ok(Capability::Filesystem { path, access })
            },
        }
    }

    /// Reads a capability. Nothing is guessed: a text that is not exactly a capability is
    /// refused.
    pub fn parse(s: &str) -> (r: Result<Capability, CapabilityParseError>)
        ensures
            parse_view(r) == read_capability(s@),
    {
        match text::split_once(s, ':') {
            None => Err(
                CapabilityParseError(
                    text::cat3(
                        "capability ",
                        text::quote(s).as_str(),
                        " has no kind prefix — expected one of net:<cidr>:<ports>, fs:<path>:<access>, exec:<path>",
                    ),
                ),
            ),
            Some((kind, rest)) => {
                if text::same(kind.as_str(), "net") {
                    Self::parse_network(s, rest.as_str())
                } else if text::same(kind.as_str(), "fs") {
                    Self::parse_filesystem(s, rest.as_str())
                } else if text::same(kind.as_str(), "exec") {
                    if let Err(m) = check_absolute(rest.as_str(), s) {
                        return Err(CapabilityParseError(m));
                    }
                    Ok(Capability::Exec { path: rest })
                } else {
                    Err(
                        CapabilityParseError(
                            text::cat5(
                                "unknown capability kind ",
                                text::quote(kind.as_str()).as_str(),
                                " in ",
                                text::quote(s).as_str(),
                                " — expected net, fs or exec",
                            ),
                        ),
                    )
                }
            },
        }
    }

    /// The text of the capability.
    pub fn to_string(&self) -> (r: String)
        ensures
            r@ == shown(self@),
    {
        match self {
            Capability::Network { cidr, ports } => {
                let mut list: Vec<String> = Vec::new();
                let mut i: usize = 0;
                while i < ports.len()
                    invariant
                        i <= ports@.len(),
                        text::texts(list@) == port_texts(ports@).take(i as int),
                    decreases ports@.len() - i,
                {
                    let ghost done = text::texts(list@);
                    list.push(number::format_u64(ports[i] as u64));
                    i = i + 1;
                    proof {
                        let all = port_texts(ports@);
                        assert(text::texts(list@) =~= done.push(all[i - 1]));
                        assert(all.take(i as int) =~= all.take(i - 1).push(all[i - 1]));
                    }
                }
                proof {
                    assert(port_texts(ports@).take(i as int) =~= port_texts(ports@));
                }
                let mut out = text::cat3("net:", cidr.as_str(), ":");
                out.append(text::join(&list, ",").as_str());
                out
            },
            Capability::Filesystem { path, access } => {
                let mut out = text::cat3("fs:", path.as_str(), ":");
                out.append(text::join(access, ",").as_str());
                out
            },
            Capability::Exec { path } => {
                let mut out = "exec:".to_owned();
                out.append(path.as_str());
                out
            },
        }
    }
}

impl std::str::FromStr for Capability {
    type Err = CapabilityParseError;

    fn from_str(s: &str) -> (r: Result<Self, Self::Err>)
        ensures
            parse_view(r) == read_capability(s@),
    {
        Capability::parse(s)
    }
}

/// Whether a capability is one that a text can write: a network and a port are named, a path is
/// absolute, an access right is named, and no access right holds a separator or white space
/// around it.
pub open spec fn writable(c: CapabilityModel) -> bool {
    match c {
        CapabilityModel::Network { cidr, ports } => cidr.len() > 0 && ports.len() > 0,
        CapabilityModel::Filesystem { path, access } => is_absolute(path) && access.len() > 0 && forall|i: int|
            0 <= i < access.len() ==> {
                &&& (#[trigger] access[i]).len() > 0
                &&& text::trimmed(access[i]) == access[i]
                &&& !access[i].contains(',')
                &&& !access[i].contains(':')
            },
        CapabilityModel::Exec { path } => is_absolute(path),
    }
}

proof fn ports_read_back(ports: Seq<u16>)
    ensures
        read_ports(port_texts(ports)) == Ok::<Seq<u16>, Seq<char>>(ports),
    decreases ports.len(),
{
    if ports.len() > 0 {
        let front = ports.drop_last();
        let all = port_texts(ports);
        ports_read_back(front);
        assert(all.drop_last() =~= port_texts(front));
        let n = ports.last() as nat;
        number::decimal_round_trip(n, u16::MAX as nat);
        number::decimal_value(n);
        let d = number::decimal(n);
        assert(number::is_digit(d[0]));
        assert(number::is_digit(d[d.len() - 1]));
        assert(text::trimmed(d) == d);
        assert(front.push(ports.last()) =~= ports);
    } else {
        assert(ports =~= Seq::<u16>::empty());
    }
}

proof fn access_read_back(access: Seq<Seq<char>>)
    requires
        forall|i: int|
            0 <= i < access.len() ==> (#[trigger] access[i]).len() > 0 && text::trimmed(access[i]) == access[i],
    ensures
        read_access(access) == access,
    decreases access.len(),
{
    if access.len() > 0 {
        let front = access.drop_last();
        assert forall|i: int| 0 <= i < front.len() implies (#[trigger] front[i]).len() > 0 && text::trimmed(front[i])
            == front[i] by {
            assert(front[i] == access[i]);
        }
        access_read_back(front);
        assert(access[access.len() - 1] == access.last());
        assert(front.push(access.last()) =~= access);
    } else {
        assert(access =~= Seq::<Seq<char>>::empty());
    }
}

/// Every form of a capability survives a round trip through its text.
pub proof fn capability_round_trip(c: CapabilityModel)
    requires
        writable(c),
    ensures
        read_capability(shown(c)) == Ok::<CapabilityModel, Seq<char>>(c),
{
    reveal_strlit("net:");
    reveal_strlit("net");
    reveal_strlit("fs:");
    reveal_strlit("fs");
    reveal_strlit("exec:");
    reveal_strlit("exec");
    reveal_strlit(":");
    reveal_strlit(",");
    let s = shown(c);
    assert(","@ =~= seq![',']);
    assert(":"@ =~= seq![':']);
    match c {
        CapabilityModel::Network { cidr, ports } => {
            let all = port_texts(ports);
            let list = text::joined(all, ","@);
            let rest = cidr + seq![':'] + list;
            assert forall|i: int| 0 <= i < all.len() implies !(#[trigger] all[i]).contains(',') && !all[i].contains(
                ':',
            ) by {
                number::decimal_value(ports[i] as nat);
                assert(number::all_digits(all[i]));
            }
            assert(s =~= "net"@ + seq![':'] + rest);
            text::split_once_of_joined("net"@, rest, ':');
            text::joined_lacks(all, ","@, ':');
            text::rsplit_once_of_joined(cidr, list, ':');
            text::pieces_of_joined(all, ',');
            ports_read_back(ports);
        },
        CapabilityModel::Filesystem { path, access } => {
            let list = text::joined(access, ","@);
            let rest = path + seq![':'] + list;
            assert(s =~= "fs"@ + seq![':'] + rest);
            assert("fs"@ != "net"@) by {
                assert("fs"@.len() != "net"@.len());
            }
            text::split_once_of_joined("fs"@, rest, ':');
            text::joined_lacks(access, ","@, ':');
            text::rsplit_once_of_joined(path, list, ':');
            text::pieces_of_joined(access, ',');
            access_read_back(access);
        },
        CapabilityModel::Exec { path } => {
            assert(s =~= "exec"@ + seq![':'] + path);
            assert("exec"@.len() != "net"@.len());
            assert("exec"@.len() != "fs"@.len());
            text::split_once_of_joined("exec"@, path, ':');
        },
    }
}

proof fn ports_are_all_read(parts: Seq<Seq<char>>)
    ensures
        read_ports(parts) matches Ok(ports) ==> ports.len() == parts.len(),
    decreases parts.len(),
{
    if parts.len() > 0 {
        ports_are_all_read(parts.drop_last());
    }
}

proof fn access_that_is_read(parts: Seq<Seq<char>>, i: int)
    requires
        forall|k: int| 0 <= k < parts.len() ==> !(#[trigger] parts[k]).contains(',') && !parts[k].contains(':'),
        0 <= i < read_access(parts).len(),
    ensures
        ({
            let a = read_access(parts)[i];
            a.len() > 0 && text::trimmed(a) == a && !a.contains(',') && !a.contains(':')
        }),
    decreases parts.len(),
{
    let front = parts.drop_last();
    let before = read_access(front);
    assert forall|k: int| 0 <= k < front.len() implies !(#[trigger] front[k]).contains(',') && !front[k].contains(
        ':',
    ) by {
        assert(front[k] == parts[k]);
    }
    if i < before.len() {
        access_that_is_read(front, i);
    } else {
        let last = parts[parts.len() - 1];
        assert(parts.last() == last);
        text::trimmed_is_bare(last);
    }
}

/// Whatever text is read as a capability, the capability is one that a text can write.
pub proof fn what_was_read_is_writable(s: Seq<char>)
    ensures
        read_capability(s) matches Ok(c) ==> writable(c),
{
    if read_capability(s) is Ok {
        let rest = (text::split_once_at(s, ':')->0).1;
        text::rsplit_once_parts(rest, ':');
        match read_capability(s)->Ok_0 {
            CapabilityModel::Network { cidr, ports } => {
                let list = (text::rsplit_once_at(rest, ':')->0).1;
                text::pieces_not_empty(list, ',');
                ports_are_all_read(text::pieces(list, ','));
            },
            CapabilityModel::Filesystem { path, access } => {
                let list = (text::rsplit_once_at(rest, ':')->0).1;
                let parts = text::pieces(list, ',');
                assert forall|k: int| 0 <= k < parts.len() implies !(#[trigger] parts[k]).contains(',')
                    && !parts[k].contains(':') by {
                    text::pieces_lack(list, ',', ',', k);
                    text::pieces_lack(list, ',', ':', k);
                }
                assert forall|i: int| 0 <= i < access.len() implies {
                    &&& (#[trigger] access[i]).len() > 0
                    &&& text::trimmed(access[i]) == access[i]
                    &&& !access[i].contains(',')
                    &&& !access[i].contains(':')
                } by {
                    access_that_is_read(parts, i);
                }
            },
            CapabilityModel::Exec { path } => {},
        }
    }
}

/// Every capability that was read survives a round trip through its text.
pub proof fn what_was_read_round_trips(s: Seq<char>)
    ensures
        read_capability(s) matches Ok(c) ==> read_capability(shown(c)) == Ok::<CapabilityModel, Seq<char>>(c),
{
    what_was_read_is_writable(s);
    if let Ok(c) = read_capability(s) {
        capability_round_trip(c);
    }
}

/// Whether the list in a capability's text is plainly written: its ports in plain decimal, or its
/// access rights with no white space around them and none of them empty.
pub open spec fn plainly_written(s: Seq<char>) -> bool {
    match text::split_once_at(s, ':') {
        None => false,
        Some((kind, rest)) => match text::rsplit_once_at(rest, ':') {
            None => true,
            Some((_, list)) => {
                let parts = text::pieces(list, ',');
                &&& kind == "net"@ ==> forall|i: int| 0 <= i < parts.len() ==> number::is_plain(#[trigger] parts[i])
                &&& kind == "fs"@ ==> forall|i: int|
                    0 <= i < parts.len() ==> (#[trigger] parts[i]).len() > 0 && text::trimmed(parts[i]) == parts[i]
            },
        },
    }
}

proof fn plain_ports_are_shown(parts: Seq<Seq<char>>)
    requires
        forall|i: int| 0 <= i < parts.len() ==> number::is_plain(#[trigger] parts[i]),
    ensures
        read_ports(parts) matches Ok(ports) ==> port_texts(ports) == parts,
    decreases parts.len(),
{
    if parts.len() > 0 {
        let front = parts.drop_last();
        assert forall|i: int| 0 <= i < front.len() implies number::is_plain(#[trigger] front[i]) by {
            assert(front[i] == parts[i]);
        }
        plain_ports_are_shown(front);
        let p = parts[parts.len() - 1];
        assert(parts.last() == p && number::is_plain(p));
        assert(number::is_digit(p[0]) && number::is_digit(p[p.len() - 1]));
        assert(text::trimmed(p) == p);
        number::plain_round_trip(p);
        if let Ok(ports) = read_ports(parts) {
            let before = read_ports(front)->Ok_0;
            assert(port_texts(ports) =~= port_texts(before).push(p));
            assert(parts =~= front.push(p));
        }
    } else {
        assert(port_texts(Seq::<u16>::empty()) =~= parts);
    }
}

/// A capability that was read from a plainly written text is shown as it was written.
pub proof fn a_plain_text_is_shown_as_it_was(s: Seq<char>)
    requires
        plainly_written(s),
    ensures
        read_capability(s) matches Ok(c) ==> shown(c) == s,
{
    if read_capability(s) is Ok {
        reveal_strlit("net:");
        reveal_strlit("net");
        reveal_strlit("fs:");
        reveal_strlit("fs");
        reveal_strlit("exec:");
        reveal_strlit("exec");
        reveal_strlit(":");
        reveal_strlit(",");
        assert(","@ =~= seq![',']);
        let (kind, rest) = text::split_once_at(s, ':')->0;
        text::split_once_parts(s, ':');
        text::rsplit_once_parts(rest, ':');
        let c = read_capability(s)->Ok_0;
        match c {
            CapabilityModel::Network { cidr, ports } => {
                let list = (text::rsplit_once_at(rest, ':')->0).1;
                plain_ports_are_shown(text::pieces(list, ','));
                text::joined_of_pieces(list, ',');
                assert(shown(c) =~= s);
            },
            CapabilityModel::Filesystem { path, access } => {
                let list = (text::rsplit_once_at(rest, ':')->0).1;
                access_read_back(text::pieces(list, ','));
                text::joined_of_pieces(list, ',');
                assert(shown(c) =~= s);
            },
            CapabilityModel::Exec { path } => {
                assert(shown(c) =~= s);
            },
        }
    }
}

} // verus!
