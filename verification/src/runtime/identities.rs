//! The executables of a sandbox as the exec hook sees them: by the device of the mount that holds
//! them and by their inode.
use vstd::prelude::*;

use crate::bpf::exec_rules::DirEntry;
use crate::number;
use crate::policy_ref::ExecIdentity;
use crate::text;

verus! {

/// A mount: where it is, and the kernel's number of its device.
pub type Mount = (Seq<char>, u64);

/// The mounts of a table.
pub open spec fn mount_views(v: Seq<(String, u64)>) -> Seq<Mount> {
    Seq::new(v.len(), |i: int| (v[i].0@, v[i].1))
}

/// How many bytes a text takes.
pub open spec fn byte_len(s: Seq<char>) -> nat {
    vstd::utf8::encode_utf8(s).len()
}

/// The mount that a line of `mountinfo` tells of.
pub open spec fn mount_in(line: Seq<char>) -> Option<Mount> {
    let words = text::words_of(line);
    if words.len() < 5 {
        None
    } else {
        match text::split_once_at(words[2], ':') {
            Some((major, minor)) => match (
                number::parsed(major, u64::MAX as nat),
                number::parsed(minor, u64::MAX as nat),
            ) {
                (Some(a), Some(b)) => Some((words[4], ((a as u64) << 20) | (b as u64))),
                _ => None,
            },
            None => None,
        }
    }
}

/// The mounts that lines of `mountinfo` tell of.
pub open spec fn mounts_in(lines: Seq<Seq<char>>) -> Seq<Mount>
    decreases lines.len(),
{
    if lines.len() == 0 {
        Seq::empty()
    } else {
        let before = mounts_in(lines.drop_last());
        match mount_in(lines.last()) {
            Some(m) => before.push(m),
            None => before,
        }
    }
}

/// A mount put into a table behind all that are no shorter.
pub open spec fn placed(table: Seq<Mount>, m: Mount) -> Seq<Mount>
    decreases table.len(),
{
    if table.len() == 0 {
        seq![m]
    } else if byte_len(table.last().0) >= byte_len(m.0) {
        table.push(m)
    } else {
        placed(table.drop_last(), m).push(table.last())
    }
}

/// Mounts with the longest first; those of one length stay in their order.
pub open spec fn by_length(ms: Seq<Mount>) -> Seq<Mount>
    decreases ms.len(),
{
    if ms.len() == 0 {
        Seq::empty()
    } else {
        placed(by_length(ms.drop_last()), ms.last())
    }
}

/// Whether a path lies on a mount.
pub open spec fn covers(point: Seq<char>, path: Seq<char>) -> bool {
    path == point || (point.is_prefix_of(path) && (point == "/"@ || (path.len() > point.len()
        && path[point.len() as int] == '/')))
}

/// The first mount of a table that a path lies on.
pub open spec fn first_cover(table: Seq<Mount>, path: Seq<char>) -> Option<int>
    decreases table.len(),
{
    if table.len() == 0 {
        None
    } else {
        match first_cover(table.drop_last(), path) {
            Some(i) => Some(i),
            None => if covers(table.last().0, path) {
                Some(table.len() - 1)
            } else {
                None
            },
        }
    }
}

/// The device of the mount that a path lies on.
pub open spec fn device_of(table: Seq<Mount>, path: Seq<char>) -> Result<u64, Seq<char>> {
    match first_cover(table, path) {
        Some(i) => Ok(table[i].1),
        None => Err("no mount covers "@ + text::quoted(path)),
    }
}

proof fn placed_at(table: Seq<Mount>, m: Mount, k: int)
    requires
        0 <= k <= table.len(),
        forall|i: int| k <= i < table.len() ==> byte_len((#[trigger] table[i]).0) < byte_len(m.0),
        k > 0 ==> byte_len(table[k - 1].0) >= byte_len(m.0),
    ensures
        placed(table, m) == table.insert(k, m),
    decreases table.len(),
{
    if table.len() > k {
        assert(byte_len(table[table.len() - 1].0) < byte_len(m.0));
        placed_at(table.drop_last(), m, k);
        assert(placed(table, m) =~= table.insert(k, m));
    } else {
        assert(placed(table, m) =~= table.insert(k, m));
    }
}

/// Puts a mount into a table behind all that are no shorter.
fn place(table: &mut Vec<(String, u64)>, point: String, dev: u64)
    ensures
        mount_views(final(table)@) == placed(mount_views(old(table)@), (point@, dev)),
{
    let ghost before = mount_views(table@);
    let ghost m = (point@, dev);
    let n: usize = point.as_str().as_bytes().len();
    let mut k: usize = table.len();
    while k > 0 && table[k - 1].0.as_str().as_bytes().len() < n
        invariant
            k <= table@.len(),
            before == mount_views(table@),
            m == (point@, dev),
            n == byte_len(point@),
            forall|i: int| k <= i < before.len() ==> byte_len((#[trigger] before[i]).0) < byte_len(m.0),
        decreases k,
    {
        proof {
            assert(before[k - 1].0 == table@[k - 1].0@);
        }
        k = k - 1;
    }
    proof {
        if k > 0 {
            assert(before[k - 1].0 == table@[k - 1].0@);
        }
        placed_at(before, m, k as int);
    }
    table.insert(k, (point, dev));
    proof {
        assert(mount_views(table@) =~= before.insert(k as int, m));
    }
}

/// The mount that a line of `mountinfo` tells of.
fn parse_mount(line: &str) -> (r: Option<(String, u64)>)
    ensures
        (match r {
            Some(m) => Some((m.0@, m.1)),
            None => None,
        }) == mount_in(line@),
{
    let words = text::split_whitespace(line);
    if words.len() < 5 {
        return None;
    }
    proof {
        assert(text::texts(words@)[2] == words@[2]@);
        assert(text::texts(words@)[4] == words@[4]@);
    }
    match text::split_once(words[2].as_str(), ':') {
        Some((major, minor)) => match (number::parse_u64(major.as_str()), number::parse_u64(minor.as_str())) {
            (Some(a), Some(b)) => Some((words[4].clone(), (a << 20) | b)),
            _ => None,
        },
        None => None,
    }
}

/// The mounts of a `mountinfo`, the longest mount point first.
pub fn parse_mount_devices(raw: &str) -> (r: Vec<(String, u64)>)
    ensures
        mount_views(r@) == by_length(mounts_in(text::lines_of(raw@))),
{
    let lines = text::lines(raw);
    let ghost all = text::texts(lines@);
    let mut table: Vec<(String, u64)> = Vec::new();
    let mut i: usize = 0;
    proof {
        assert(mount_views(table@) =~= by_length(mounts_in(all.take(0))));
    }
    while i < lines.len()
        invariant
            i <= lines@.len(),
            all == text::texts(lines@),
            mount_views(table@) == by_length(mounts_in(all.take(i as int))),
        decreases lines@.len() - i,
    {
        proof {
            assert(all.take(i + 1).drop_last() =~= all.take(i as int));
            assert(all.take(i + 1).last() == lines@[i as int]@);
        }
        if let Some((point, dev)) = parse_mount(lines[i].as_str()) {
            proof {
                let before = mounts_in(all.take(i as int));
                let after = mounts_in(all.take(i + 1));
                assert(after == before.push((point@, dev)));
                assert(after.drop_last() =~= before);
            }
            place(&mut table, point, dev);
        }
        i = i + 1;
    }
    proof {
        assert(all.take(i as int) =~= all);
    }
    table
}

/// Whether a path lies on a mount.
fn is_covered(point: &str, path: &str) -> (r: bool)
    ensures
        r == covers(point@, path@),
{
    if text::same(path, point) {
        return true;
    }
    if !text::starts_with(path, point) {
        return false;
    }
    if text::same(point, "/") {
        return true;
    }
    let p = text::chars_of(path);
    let n: usize = text::chars_of(point).len();
    n < p.len() && p[n] == '/'
}

proof fn first_cover_none(table: Seq<Mount>, path: Seq<char>)
    requires
        forall|i: int| 0 <= i < table.len() ==> !covers((#[trigger] table[i]).0, path),
    ensures
        first_cover(table, path) is None,
    decreases table.len(),
{
    if table.len() > 0 {
        assert forall|i: int| 0 <= i < table.drop_last().len() implies !covers(
            (#[trigger] table.drop_last()[i]).0,
            path,
        ) by {
            assert(table.drop_last()[i] == table[i]);
        }
        first_cover_none(table.drop_last(), path);
        assert(table.last() == table[table.len() - 1]);
    }
}

proof fn first_cover_is(table: Seq<Mount>, path: Seq<char>, k: int)
    requires
        0 <= k < table.len(),
        covers(table[k].0, path),
        forall|i: int| 0 <= i < k ==> !covers((#[trigger] table[i]).0, path),
    ensures
        first_cover(table, path) == Some(k),
    decreases table.len(),
{
    if k < table.len() - 1 {
        first_cover_is(table.drop_last(), path, k);
    } else {
        first_cover_none(table.drop_last(), path);
    }
}

/// The device of the mount that a path lies on, from a table with the longest mount point first.
pub fn device_for_path(mounts: &Vec<(String, u64)>, path: &str) -> (r: Result<u64, String>)
    ensures
        (match r {
            Ok(d) => Ok(d),
            Err(m) => Err(m@),
        }) == device_of(mount_views(mounts@), path@),
{
    let ghost table = mount_views(mounts@);
    let mut i: usize = 0;
    while i < mounts.len()
        invariant
            i <= mounts@.len(),
            table == mount_views(mounts@),
            forall|k: int| 0 <= k < i ==> !covers((#[trigger] table[k]).0, path@),
        decreases mounts@.len() - i,
    {
        proof {
            assert(table[i as int] == (mounts@[i as int].0@, mounts@[i as int].1));
        }
        if is_covered(mounts[i].0.as_str(), path) {
            proof {
                first_cover_is(table, path@, i as int);
            }
            return Ok(mounts[i].1);
        }
        i = i + 1;
    }
    proof {
        first_cover_none(table, path@);
    }
    let mut m = "no mount covers ".to_owned();
    m.append(text::quote(path).as_str());
    Err(m)
}

/// From where a sandbox is looked at: from inside, or through a process that runs in it.
#[derive(Debug, Clone, Copy, PartialEq, Eq, Structural)]
pub enum Vantage {
    Inside,
    Through(u32),
}

/// The mount table that is read.
pub open spec fn mountinfo_at(from: Vantage) -> Seq<char> {
    match from {
        Vantage::Inside => "/proc/self/mountinfo"@,
        Vantage::Through(pid) => "/proc/"@ + number::decimal(pid as nat) + "/mountinfo"@,
    }
}

/// A path of the sandbox as it is looked up.
pub open spec fn seen_at(from: Vantage, path: Seq<char>) -> Seq<char> {
    match from {
        Vantage::Inside => path,
        Vantage::Through(pid) => "/proc/"@ + number::decimal(pid as nat) + "/root"@ + path,
    }
}

/// The sentence for a mount table that could not be read.
pub open spec fn no_mountinfo(from: Vantage, m: Seq<char>) -> Seq<char> {
    match from {
        Vantage::Inside => "read "@ + mountinfo_at(from) + ": "@ + m,
        Vantage::Through(_) => "read "@ + mountinfo_at(from) + ": "@ + m + " — is the sandbox still running?"@,
    }
}

/// The sentence for a listed executable that is not there.
pub open spec fn no_executable(from: Vantage, path: Seq<char>, m: Seq<char>) -> Seq<char> {
    match from {
        Vantage::Inside => "stat allowlisted executable "@ + text::quoted(path) + " inside sandbox: "@ + m,
        Vantage::Through(_) => "stat "@ + text::quoted(path) + " inside sandbox (via "@ + seen_at(from, path)
            + "): "@ + m,
    }
}

/// The identities of listed executables: the device from the mount table, the inode as it was
/// looked up. One that is not there is an error and not left out.
pub open spec fn path_ids(
    from: Vantage,
    table: Seq<Mount>,
    paths: Seq<Seq<char>>,
    inodes: Seq<Result<u64, String>>,
) -> Result<Seq<ExecIdentity>, Seq<char>>
    decreases paths.len(),
{
    if paths.len() == 0 {
        Ok(Seq::empty())
    } else {
        match path_ids(from, table, paths.drop_last(), inodes.drop_last()) {
            Err(m) => Err(m),
            Ok(before) => match inodes.last() {
                Err(m) => Err(no_executable(from, paths.last(), m@)),
                Ok(inode) => match device_of(table, paths.last()) {
                    Err(m) => Err(m),
                    Ok(dev) => Ok(before.push(ExecIdentity { dev, inode })),
                },
            },
        }
    }
}

/// The identities of a directory's entries: one for each regular file that somebody may execute.
pub open spec fn entry_ids(prefix: Seq<char>, device: u64, entries: Seq<DirEntry>) -> Result<
    Seq<ExecIdentity>,
    Seq<char>,
>
    decreases entries.len(),
{
    if entries.len() == 0 {
        Ok(Seq::empty())
    } else {
        match entry_ids(prefix, device, entries.drop_last()) {
            Err(m) => Err(m),
            Ok(before) => match entries.last() {
                DirEntry::Failed(m) => Err("read exec prefix "@ + text::quoted(prefix) + ": "@ + m@),
                DirEntry::Hidden => Ok(before),
                DirEntry::Found { is_file, mode, dev: _, inode } => if is_file && mode & 0o111 != 0 {
                    Ok(before.push(ExecIdentity { dev: device, inode }))
                } else {
                    Ok(before)
                },
            },
        }
    }
}

/// The identities of what lies in one directory.
pub open spec fn prefix_id(table: Seq<Mount>, prefix: Seq<char>, listing: Result<Vec<DirEntry>, String>) -> Result<
    Seq<ExecIdentity>,
    Seq<char>,
> {
    match device_of(table, prefix) {
        Err(m) => Err(m),
        Ok(dev) => match listing {
            Err(m) => Err("read exec prefix "@ + text::quoted(prefix) + " inside sandbox: "@ + m@),
            Ok(entries) => entry_ids(prefix, dev, entries@),
        },
    }
}

/// The identities of what lies in some directories.
pub open spec fn prefix_ids(
    table: Seq<Mount>,
    prefixes: Seq<Seq<char>>,
    listings: Seq<Result<Vec<DirEntry>, String>>,
) -> Result<Seq<ExecIdentity>, Seq<char>>
    decreases prefixes.len(),
{
    if prefixes.len() == 0 {
        Ok(Seq::empty())
    } else {
        match prefix_ids(table, prefixes.drop_last(), listings.drop_last()) {
            Err(m) => Err(m),
            Ok(before) => match prefix_id(table, prefixes.last(), listings.last()) {
                Err(m) => Err(m),
                Ok(own) => Ok(before + own),
            },
        }
    }
}

/// The identities of all that a policy lists.
pub open spec fn all_ids(
    from: Vantage,
    mountinfo: Result<String, String>,
    paths: Seq<Seq<char>>,
    inodes: Seq<Result<u64, String>>,
    prefixes: Seq<Seq<char>>,
    listings: Seq<Result<Vec<DirEntry>, String>>,
) -> Result<Seq<ExecIdentity>, Seq<char>> {
    if paths.len() == 0 && prefixes.len() == 0 {
        Ok(Seq::empty())
    } else {
        match mountinfo {
            Err(m) => Err(no_mountinfo(from, m@)),
            Ok(raw) => {
                let table = by_length(mounts_in(text::lines_of(raw@)));
                match path_ids(from, table, paths, inodes) {
                    Err(m) => Err(m),
                    Ok(files) => match prefix_ids(table, prefixes, listings) {
                        Err(m) => Err(m),
                        Ok(rest) => Ok(files + rest),
                    },
                }
            },
        }
    }
}

/// Identities, or the sentence for why there are none, as plain values.
pub open spec fn ids_view(r: Result<Vec<ExecIdentity>, String>) -> Result<Seq<ExecIdentity>, Seq<char>> {
    match r {
        Ok(v) => Ok(v@),
        Err(m) => Err(m@),
    }
}

/// The mount table to read from a vantage.
pub fn mountinfo_path(from: Vantage) -> (r: String)
    ensures
        r@ == mountinfo_at(from),
{
    match from {
        Vantage::Inside => "/proc/self/mountinfo".to_owned(),
        Vantage::Through(pid) => text::cat3("/proc/", number::format_u64(pid as u64).as_str(), "/mountinfo"),
    }
}

/// The path by which a path of the sandbox is looked up from a vantage.
pub fn in_sandbox(from: Vantage, path: &str) -> (r: String)
    ensures
        r@ == seen_at(from, path@),
{
    match from {
        Vantage::Inside => path.to_owned(),
        Vantage::Through(pid) => {
            let mut t = text::cat3("/proc/", number::format_u64(pid as u64).as_str(), "/root");
            t.append(path);
            t
        },
    }
}

fn mountinfo_refusal(from: Vantage, m: &str) -> (r: String)
    ensures
        r@ == no_mountinfo(from, m@),
{
    let mut t = text::cat3("read ", mountinfo_path(from).as_str(), ": ");
    t.append(m);
    match from {
        Vantage::Inside => {},
        Vantage::Through(_) => {
            t.append(" — is the sandbox still running?");
        },
    }
    t
}

fn executable_refusal(from: Vantage, path: &str, m: &str) -> (r: String)
    ensures
        r@ == no_executable(from, path@, m@),
{
    match from {
        Vantage::Inside => {
            let mut t = text::cat3("stat allowlisted executable ", text::quote(path).as_str(), " inside sandbox: ");
            t.append(m);
            t
        },
        Vantage::Through(_) => {
            let mut t = text::cat5(
                "stat ",
                text::quote(path).as_str(),
                " inside sandbox (via ",
                in_sandbox(from, path).as_str(),
                "): ",
            );
            t.append(m);
            t
        },
    }
}

proof fn path_ids_stuck(
    from: Vantage,
    table: Seq<Mount>,
    paths: Seq<Seq<char>>,
    inodes: Seq<Result<u64, String>>,
    i: int,
)
    requires
        0 <= i < paths.len(),
        inodes.len() == paths.len(),
        path_ids(from, table, paths.take(i + 1), inodes.take(i + 1)) is Err,
    ensures
        path_ids(from, table, paths, inodes) == path_ids(from, table, paths.take(i + 1), inodes.take(i + 1)),
    decreases paths.len(),
{
    if i + 1 < paths.len() {
        assert(paths.drop_last().take(i + 1) =~= paths.take(i + 1));
        assert(inodes.drop_last().take(i + 1) =~= inodes.take(i + 1));
        path_ids_stuck(from, table, paths.drop_last(), inodes.drop_last(), i);
    } else {
        assert(paths.take(i + 1) =~= paths);
        assert(inodes.take(i + 1) =~= inodes);
    }
}

/// The identities of listed executables.
fn resolve_paths(
    from: Vantage,
    mounts: &Vec<(String, u64)>,
    paths: &Vec<String>,
    inodes: &Vec<Result<u64, String>>,
) -> (r: Result<Vec<ExecIdentity>, String>)
    requires
        inodes@.len() == paths@.len(),
    ensures
        ids_view(r) == path_ids(from, mount_views(mounts@), text::texts(paths@), inodes@),
{
    let ghost table = mount_views(mounts@);
    let ghost all = text::texts(paths@);
    let mut out: Vec<ExecIdentity> = Vec::new();
    let mut i: usize = 0;
    while i < paths.len()
        invariant
            i <= paths@.len(),
            inodes@.len() == paths@.len(),
            table == mount_views(mounts@),
            all == text::texts(paths@),
            path_ids(from, table, all.take(i as int), inodes@.take(i as int)) == Ok::<Seq<ExecIdentity>, Seq<char>>(
                out@,
            ),
        decreases paths@.len() - i,
    {
        let path: &str = paths[i].as_str();
        proof {
            assert(all.take(i + 1).drop_last() =~= all.take(i as int));
            assert(inodes@.take(i + 1).drop_last() =~= inodes@.take(i as int));
            assert(all.take(i + 1).last() == path@);
            assert(inodes@.take(i + 1).last() == inodes@[i as int]);
        }
        match &inodes[i] {
            Err(m) => {
                proof {
                    path_ids_stuck(from, table, all, inodes@, i as int);
                }
                return Err(executable_refusal(from, path, m.as_str()));
            },
            Ok(inode) => match device_for_path(mounts, path) {
                Err(m) => {
                    proof {
                        path_ids_stuck(from, table, all, inodes@, i as int);
                    }
                    return Err(m);
                },
                Ok(dev) => {
                    out.push(ExecIdentity { dev, inode: *inode });
                },
            },
        }
        i = i + 1;
    }
    proof {
        assert(all.take(i as int) =~= all);
        assert(inodes@.take(i as int) =~= inodes@);
    }
    Ok(out)
}

proof fn entry_ids_stuck(prefix: Seq<char>, device: u64, entries: Seq<DirEntry>, i: int)
    requires
        0 <= i < entries.len(),
        entry_ids(prefix, device, entries.take(i + 1)) is Err,
    ensures
        entry_ids(prefix, device, entries) == entry_ids(prefix, device, entries.take(i + 1)),
    decreases entries.len(),
{
    if i + 1 < entries.len() {
        assert(entries.drop_last().take(i + 1) =~= entries.take(i + 1));
        entry_ids_stuck(prefix, device, entries.drop_last(), i);
    } else {
        assert(entries.take(i + 1) =~= entries);
    }
}

/// The identities of a directory's entries.
fn resolve_entries(prefix: &str, device: u64, entries: &Vec<DirEntry>) -> (r: Result<Vec<ExecIdentity>, String>)
    ensures
        ids_view(r) == entry_ids(prefix@, device, entries@),
{
    let mut out: Vec<ExecIdentity> = Vec::new();
    let mut i: usize = 0;
    while i < entries.len()
        invariant
            i <= entries@.len(),
            entry_ids(prefix@, device, entries@.take(i as int)) == Ok::<Seq<ExecIdentity>, Seq<char>>(out@),
        decreases entries@.len() - i,
    {
        proof {
            assert(entries@.take(i + 1).drop_last() =~= entries@.take(i as int));
        }
        match &entries[i] {
            DirEntry::Failed(m) => {
                proof {
                    entry_ids_stuck(prefix@, device, entries@, i as int);
                }
                let mut t = text::cat3("read exec prefix ", text::quote(prefix).as_str(), ": ");
                t.append(m.as_str());
                return Err(t);
            },
            DirEntry::Hidden => {},
            DirEntry::Found { is_file, mode, dev: _, inode } => {
                if *is_file && *mode & 0o111 != 0 {
                    out.push(ExecIdentity { dev: device, inode: *inode });
                }
            },
        }
        i = i + 1;
    }
    proof {
        assert(entries@.take(i as int) =~= entries@);
    }
    Ok(out)
}

/// The identities of what lies in one directory.
fn resolve_prefix(
    mounts: &Vec<(String, u64)>,
    prefix: &str,
    listing: &Result<Vec<DirEntry>, String>,
) -> (r: Result<Vec<ExecIdentity>, String>)
    ensures
        ids_view(r) == prefix_id(mount_views(mounts@), prefix@, *listing),
{
    match device_for_path(mounts, prefix) {
        Err(m) => Err(m),
        Ok(dev) => match listing {
            Err(m) => {
                let mut t = text::cat3("read exec prefix ", text::quote(prefix).as_str(), " inside sandbox: ");
                t.append(m.as_str());
                Err(t)
            },
            Ok(entries) => resolve_entries(prefix, dev, entries),
        },
    }
}

proof fn prefix_ids_stuck(
    table: Seq<Mount>,
    prefixes: Seq<Seq<char>>,
    listings: Seq<Result<Vec<DirEntry>, String>>,
    i: int,
)
    requires
        0 <= i < prefixes.len(),
        listings.len() == prefixes.len(),
        prefix_ids(table, prefixes.take(i + 1), listings.take(i + 1)) is Err,
    ensures
        prefix_ids(table, prefixes, listings) == prefix_ids(table, prefixes.take(i + 1), listings.take(i + 1)),
    decreases prefixes.len(),
{
    if i + 1 < prefixes.len() {
        assert(prefixes.drop_last().take(i + 1) =~= prefixes.take(i + 1));
        assert(listings.drop_last().take(i + 1) =~= listings.take(i + 1));
        prefix_ids_stuck(table, prefixes.drop_last(), listings.drop_last(), i);
    } else {
        assert(prefixes.take(i + 1) =~= prefixes);
        assert(listings.take(i + 1) =~= listings);
    }
}

/// The identities of what lies in some directories.
fn resolve_prefixes(
    mounts: &Vec<(String, u64)>,
    prefixes: &Vec<String>,
    listings: &Vec<Result<Vec<DirEntry>, String>>,
) -> (r: Result<Vec<ExecIdentity>, String>)
    requires
        listings@.len() == prefixes@.len(),
    ensures
        ids_view(r) == prefix_ids(mount_views(mounts@), text::texts(prefixes@), listings@),
{
    let ghost table = mount_views(mounts@);
    let ghost all = text::texts(prefixes@);
    let mut out: Vec<ExecIdentity> = Vec::new();
    let mut i: usize = 0;
    while i < prefixes.len()
        invariant
            i <= prefixes@.len(),
            listings@.len() == prefixes@.len(),
            table == mount_views(mounts@),
            all == text::texts(prefixes@),
            prefix_ids(table, all.take(i as int), listings@.take(i as int)) == Ok::<Seq<ExecIdentity>, Seq<char>>(
                out@,
            ),
        decreases prefixes@.len() - i,
    {
        proof {
            assert(all.take(i + 1).drop_last() =~= all.take(i as int));
            assert(listings@.take(i + 1).drop_last() =~= listings@.take(i as int));
            assert(all.take(i + 1).last() == prefixes@[i as int]@);
            assert(listings@.take(i + 1).last() == listings@[i as int]);
        }
        match resolve_prefix(mounts, prefixes[i].as_str(), &listings[i]) {
            Err(m) => {
                proof {
                    prefix_ids_stuck(table, all, listings@, i as int);
                }
                return Err(m);
            },
            Ok(own) => {
                let mut own = own;
                out.append(&mut own);
            },
        }
        i = i + 1;
    }
    proof {
        assert(all.take(i as int) =~= all);
        assert(listings@.take(i as int) =~= listings@);
    }
    Ok(out)
}

/// The identities of all that a policy lists, from what was read from a vantage.
fn resolve_all(
    from: Vantage,
    mountinfo: &Result<String, String>,
    paths: &Vec<String>,
    inodes: &Vec<Result<u64, String>>,
    prefixes: &Vec<String>,
    listings: &Vec<Result<Vec<DirEntry>, String>>,
) -> (r: Result<Vec<ExecIdentity>, String>)
    requires
        inodes@.len() == paths@.len(),
        listings@.len() == prefixes@.len(),
    ensures
        ids_view(r) == all_ids(
            from,
            *mountinfo,
            text::texts(paths@),
            inodes@,
            text::texts(prefixes@),
            listings@,
        ),
{
    if paths.len() == 0 && prefixes.len() == 0 {
        return Ok(Vec::new());
    }
    match mountinfo {
        Err(m) => Err(mountinfo_refusal(from, m.as_str())),
        Ok(raw) => {
            let mounts = parse_mount_devices(raw.as_str());
            match resolve_paths(from, &mounts, paths, inodes) {
                Err(m) => Err(m),
                Ok(files) => match resolve_prefixes(&mounts, prefixes, listings) {
                    Err(m) => Err(m),
                    Ok(rest) => {
                        let mut files = files;
                        let mut rest = rest;
                        files.append(&mut rest);
                        Ok(files)
                    },
                },
            }
        },
    }
}

/// The identities of all that a policy lists, as the sandbox's own process sees them after it has
/// moved into its root: from its mount table, the inode of each listed file, and what lies in each
/// listed directory.
pub fn collect_exec_identities(
    mountinfo: &Result<String, String>,
    paths: &Vec<String>,
    inodes: &Vec<Result<u64, String>>,
    prefixes: &Vec<String>,
    listings: &Vec<Result<Vec<DirEntry>, String>>,
) -> (r: Result<Vec<ExecIdentity>, String>)
    requires
        inodes@.len() == paths@.len(),
        listings@.len() == prefixes@.len(),
    ensures
        ids_view(r) == all_ids(
            Vantage::Inside,
            *mountinfo,
            text::texts(paths@),
            inodes@,
            text::texts(prefixes@),
            listings@,
        ),
{
    resolve_all(Vantage::Inside, mountinfo, paths, inodes, prefixes, listings)
}

/// The same from outside, through a process that runs in the sandbox.
pub fn resolve_exec_identities_via_pid(
    pid: u32,
    mountinfo: &Result<String, String>,
    paths: &Vec<String>,
    inodes: &Vec<Result<u64, String>>,
    prefixes: &Vec<String>,
    listings: &Vec<Result<Vec<DirEntry>, String>>,
) -> (r: Result<Vec<ExecIdentity>, String>)
    requires
        inodes@.len() == paths@.len(),
        listings@.len() == prefixes@.len(),
    ensures
        ids_view(r) == all_ids(
            Vantage::Through(pid),
            *mountinfo,
            text::texts(paths@),
            inodes@,
            text::texts(prefixes@),
            listings@,
        ),
{
    resolve_all(Vantage::Through(pid), mountinfo, paths, inodes, prefixes, listings)
}

/// Whether a table has the longest mount points first.
pub open spec fn longest_first(table: Seq<Mount>) -> bool {
    forall|i: int, j: int|
        0 <= i <= j < table.len() ==> byte_len((#[trigger] table[i]).0) >= byte_len((#[trigger] table[j]).0)
}

proof fn placing_keeps_order(table: Seq<Mount>, m: Mount)
    requires
        longest_first(table),
    ensures
        longest_first(placed(table, m)),
        placed(table, m).to_multiset() == table.to_multiset().insert(m),
        placed(table, m).len() == table.len() + 1,
        placed(table, m).last() == m || (table.len() > 0 && placed(table, m).last() == table.last()),
    decreases table.len(),
{
    broadcast use vstd::seq_lib::group_to_multiset_ensures;

    if table.len() == 0 {
        assert(Seq::<Mount>::empty().push(m) =~= seq![m]);
        assert(table =~= Seq::<Mount>::empty());
    } else if byte_len(table.last().0) >= byte_len(m.0) {
        let after = table.push(m);
        assert forall|i: int, j: int| 0 <= i <= j < after.len() implies byte_len((#[trigger] after[i]).0) >= byte_len(
            (#[trigger] after[j]).0,
        ) by {
            if j == table.len() && i < j {
                assert(byte_len(table[i].0) >= byte_len(table[table.len() - 1].0));
            }
        }
    } else {
        let front = table.drop_last();
        assert(table =~= front.push(table.last()));
        assert(longest_first(front)) by {
            assert forall|i: int, j: int| 0 <= i <= j < front.len() implies byte_len((#[trigger] front[i]).0)
                >= byte_len((#[trigger] front[j]).0) by {
                assert(byte_len(table[i].0) >= byte_len(table[j].0));
            }
        }
        placing_keeps_order(front, m);
        let inner = placed(front, m);
        let after = inner.push(table.last());
        assert(inner.to_multiset().insert(table.last()) =~= table.to_multiset().insert(m));
        assert forall|i: int, j: int| 0 <= i <= j < after.len() implies byte_len((#[trigger] after[i]).0) >= byte_len(
            (#[trigger] after[j]).0,
        ) by {
            if j == inner.len() && i < j {
                assert(byte_len(inner[i].0) >= byte_len(inner[inner.len() - 1].0));
                if inner.last() != m {
                    assert(byte_len(table[table.len() - 2].0) >= byte_len(table[table.len() - 1].0));
                }
            }
        }
    }
}

/// The mount table holds every mount that was told of, the longest mount points first.
pub proof fn table_is_ordered(ms: Seq<Mount>)
    ensures
        longest_first(by_length(ms)),
        by_length(ms).to_multiset() == ms.to_multiset(),
    decreases ms.len(),
{
    broadcast use vstd::seq_lib::group_to_multiset_ensures;

    if ms.len() > 0 {
        table_is_ordered(ms.drop_last());
        placing_keeps_order(by_length(ms.drop_last()), ms.last());
        assert(ms =~= ms.drop_last().push(ms.last()));
    } else {
        assert(ms =~= Seq::<Mount>::empty());
    }
}

proof fn cover_is_first(table: Seq<Mount>, path: Seq<char>)
    ensures
        match first_cover(table, path) {
            Some(i) => 0 <= i < table.len() && covers(table[i].0, path) && forall|j: int|
                0 <= j < i ==> !covers((#[trigger] table[j]).0, path),
            None => forall|j: int| 0 <= j < table.len() ==> !covers((#[trigger] table[j]).0, path),
        },
    decreases table.len(),
{
    if table.len() > 0 {
        cover_is_first(table.drop_last(), path);
        let front = table.drop_last();
        assert forall|j: int| 0 <= j < front.len() implies #[trigger] table[j] == front[j] by {}
    }
}

/// A path gets the device of the most specific mount that it lies on: no longer mount point of the
/// table covers it.
pub proof fn the_most_specific_mount_decides(ms: Seq<Mount>, path: Seq<char>, i: int, j: int)
    requires
        first_cover(by_length(ms), path) == Some(i),
        0 <= j < by_length(ms).len(),
        covers(by_length(ms)[j].0, path),
    ensures
        0 <= i < by_length(ms).len(),
        covers(by_length(ms)[i].0, path),
        byte_len(by_length(ms)[j].0) <= byte_len(by_length(ms)[i].0),
{
    table_is_ordered(ms);
    cover_is_first(by_length(ms), path);
    assert(i <= j);
}

} // verus!
