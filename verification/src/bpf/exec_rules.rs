//! Exec rules as device and inode numbers.
use vstd::prelude::*;

use crate::bpf::records::ExecRecord;
use crate::error::Error;
use crate::error::ErrorModel;
use crate::id;
use crate::policy::compile;
use crate::policy::compile::BpfExecRule;
use crate::policy::compile::BpfExecRuleModel;
use crate::text;

verus! {

/// `nix::sys::stat::major`: the major number in a device number as `stat` reports it.
pub assume_specification[ nix::sys::stat::major ](dev: libc::dev_t) -> (r: u64)
    ensures
        r == ((dev >> 32) & 0xffff_f000) | ((dev >> 8) & 0x0000_0fff),
;

/// `nix::sys::stat::minor`: the minor number in a device number as `stat` reports it.
pub assume_specification[ nix::sys::stat::minor ](dev: libc::dev_t) -> (r: u64)
    ensures
        r == ((dev >> 12) & 0xffff_ff00) | (dev & 0x0000_00ff),
;

/// The SHA-256 digest of a message.
pub uninterp spec fn sha256_digest(data: Seq<u8>) -> Seq<u8>;

/// `sha2::Sha256::digest`: the digest of the whole message. What the digest of given bytes is,
/// is left to that crate.
#[verifier::external_body]
fn sha256(data: &Vec<u8>) -> (r: [u8; 32])
    ensures
        r@ == sha256_digest(data@),
{
    <sha2::Sha256 as sha2::Digest>::digest(data).into()
}

/// The kernel's number for the device that `stat` reports as `st_dev`.
pub open spec fn kernel_dev(st_dev: u64) -> u64 {
    let major = ((st_dev >> 32) & 0xffff_f000) | ((st_dev >> 8) & 0x0000_0fff);
    let minor = ((st_dev >> 12) & 0xffff_ff00) | (st_dev & 0x0000_00ff);
    (major << 20) | minor
}

/// The kernel's number for the device that `stat` reports as `st_dev`: the major number shifted
/// by twenty bits, and the minor number.
pub fn to_kernel_dev(st_dev: u64) -> (r: u64)
    ensures
        r == kernel_dev(st_dev),
{
    let major: u64 = nix::sys::stat::major(st_dev);
    let minor: u64 = nix::sys::stat::minor(st_dev);
    (major << 20) | minor
}

/// An entry of a directory that an exec prefix rule names.
#[derive(Debug)]
pub enum DirEntry {
    /// The directory could not be read on.
    Failed(String),
    /// The entry's metadata could not be read.
    Hidden,
    /// The entry.
    Found { is_file: bool, mode: u32, dev: u64, inode: u64 },
}

/// What stands on the host under an exec rule's path.
#[derive(Debug)]
pub enum ExecLookup {
    /// The directory of a prefix rule could not be opened.
    NoDirectory(String),
    /// The entries of a prefix rule's directory.
    Directory(Vec<DirEntry>),
    /// The file could not be looked up.
    NoFile(String),
    /// The file, and its contents where a pin asks for them.
    File { dev: u64, inode: u64, contents: Result<Vec<u8>, String> },
}

/// Thirty-two zero bytes.
pub open spec fn no_hash() -> Seq<u8> {
    Seq::new(32, |i: int| 0u8)
}

/// An exec record as plain values.
#[verifier::ext_equal]
pub struct ExecRecordModel {
    pub dev: u64,
    pub inode: u64,
    pub hash: Seq<u8>,
}

impl View for ExecRecord {
    type V = ExecRecordModel;

    open spec fn view(&self) -> ExecRecordModel {
        ExecRecordModel { dev: self.dev, inode: self.inode, hash: self.hash@ }
    }
}

/// The records of a directory's entries: one for each regular file that somebody may execute.
/// An entry whose metadata cannot be read is no candidate.
pub open spec fn dir_records(path: Seq<char>, entries: Seq<DirEntry>) -> Result<Seq<ExecRecordModel>, ErrorModel>
    decreases entries.len(),
{
    if entries.len() == 0 {
        Ok(Seq::empty())
    } else {
        match dir_records(path, entries.drop_last()) {
            Err(e) => Err(e),
            Ok(before) => match entries.last() {
                DirEntry::Failed(m) => Err(
                    ErrorModel::PolicyInvalid("read exec prefix "@ + text::quoted(path) + ": "@ + m@),
                ),
                DirEntry::Hidden => Ok(before),
                DirEntry::Found { is_file, mode, dev, inode } => if is_file && mode & 0o111 != 0 {
                    Ok(before.push(ExecRecordModel { dev: kernel_dev(dev), inode, hash: no_hash() }))
                } else {
                    Ok(before)
                },
            },
        }
    }
}

/// What a pin that does not hold is answered; nothing where the digest is the pinned one.
pub open spec fn pin_refusal(path: Seq<char>, expected: Seq<u8>, actual: Seq<u8>) -> Option<Seq<char>> {
    if actual == expected {
        None
    } else {
        Some(
            "sha256 pin mismatch for "@ + path + ": policy pins "@ + id::hex_run(expected, 0, 32) + ", file is "@
                + id::hex_run(actual, 0, 32),
        )
    }
}

/// The records of one rule, from what stands on the host under its path.
pub open spec fn rule_records(rule: BpfExecRuleModel, seen: ExecLookup) -> Result<Seq<ExecRecordModel>, ErrorModel> {
    match seen {
        ExecLookup::NoDirectory(m) => Err(
            ErrorModel::PolicyInvalid(
                "exec prefix rule "@ + text::quoted(rule.path) + " cannot be read: "@ + m@
                    + " — a prefix that does not resolve would allow nothing, which is more likely a policy typo than an intentional deny-all"@,
            ),
        ),
        ExecLookup::Directory(entries) => dir_records(rule.path, entries@),
        ExecLookup::NoFile(m) => Err(
            ErrorModel::PolicyInvalid("exec rule "@ + text::quoted(rule.path) + " cannot be stat'd: "@ + m@),
        ),
        ExecLookup::File { dev, inode, contents } => match rule.hash {
            None => Ok(seq![ExecRecordModel { dev: kernel_dev(dev), inode, hash: no_hash() }]),
            Some(pin) => match contents {
                Err(m) => Err(
                    ErrorModel::PolicyInvalid("read "@ + rule.path + " to verify sha256 pin: "@ + m@),
                ),
                Ok(bytes) => match pin_refusal(rule.path, pin, sha256_digest(bytes@)) {
                    Some(m) => Err(ErrorModel::PolicyInvalid(m)),
                    None => Ok(seq![ExecRecordModel { dev: kernel_dev(dev), inode, hash: pin }]),
                },
            },
        },
    }
}

/// The records of a list of rules, or what the first that cannot be resolved is answered.
pub open spec fn all_records(
    rules: Seq<BpfExecRuleModel>,
    seen: Seq<ExecLookup>,
) -> Result<Seq<ExecRecordModel>, ErrorModel>
    decreases rules.len(),
{
    if rules.len() == 0 {
        Ok(Seq::empty())
    } else {
        match all_records(rules.drop_last(), seen.drop_last()) {
            Err(e) => Err(e),
            Ok(before) => match rule_records(rules.last(), seen.last()) {
                Err(e) => Err(e),
                Ok(own) => Ok(before + own),
            },
        }
    }
}

/// Whether a result is the wanted list of records, or the wanted error.
pub open spec fn records_are(r: Result<Vec<ExecRecord>, Error>, want: Result<Seq<ExecRecordModel>, ErrorModel>) -> bool {
    match (r, want) {
        (Ok(v), Ok(m)) => compile::views(v@) == m,
        (Err(e), Err(m)) => e@ == m,
        _ => false,
    }
}

/// The lower-case hexadecimal digits of thirty-two bytes.
pub fn hex(bytes: &[u8; 32]) -> (r: String)
    ensures
        r@ == id::hex_run(bytes@, 0, 32),
{
    let mut out = String::new();
    let mut i: usize = 0;
    while i < 32
        invariant
            i <= 32,
            out@ == id::hex_run(bytes@, 0, i as int),
        decreases 32 - i,
    {
        let b: u8 = bytes[i];
        let ghost before = out@;
        out.push(nibble(b / 16));
        out.push(nibble(b % 16));
        i = i + 1;
        proof {
            let next = id::hex_run(bytes@, 0, i as int);
            assert forall|k: int| 0 <= k < next.len() implies out@[k] == next[k] by {
                if k < 2 * (i - 1) {
                    assert(out@[k] == before[k]);
                } else if k == 2 * (i - 1) {
                    assert(k % 2 == 0 && k / 2 == i - 1);
                } else {
                    assert(k % 2 == 1 && k / 2 == i - 1);
                }
            }
            assert(out@ =~= next);
        }
    }
    out
}

/// The hexadecimal digit of a number below sixteen.
fn nibble(n: u8) -> (r: char)
    requires
        n < 16,
    ensures
        r == id::hex_digit(n as int),
{
    if n < 10 {
        (n + 48) as char
    } else {
        (n + 87) as char
    }
}

/// Holds a pin against the digest of a file.
pub fn check_pin(path: &str, expected: &[u8; 32], actual: &[u8; 32]) -> (r: Result<(), Error>)
    ensures
        r is Ok <==> pin_refusal(path@, expected@, actual@) is None,
        r matches Err(e) ==> e@ == ErrorModel::PolicyInvalid(pin_refusal(path@, expected@, actual@)->0),
{
    let mut i: usize = 0;
    while i < 32
        invariant
            i <= 32,
            forall|j: int| 0 <= j < i ==> expected@[j] == actual@[j],
        decreases 32 - i,
    {
        if expected[i] != actual[i] {
            proof {
                assert(expected@[i as int] != actual@[i as int]);
            }
            let mut m = text::cat5("sha256 pin mismatch for ", path, ": policy pins ", hex(expected).as_str(), ", file is ");
            m.append(hex(actual).as_str());
            return Err(Error::PolicyInvalid(m));
        }
        i = i + 1;
    }
    proof {
        assert(expected@ =~= actual@);
    }
    Ok(())
}

/// Checks a `sha256:` pin against a file's contents.
pub fn verify_sha256_pin(path: &str, expected: &[u8; 32], contents: &Result<Vec<u8>, String>) -> (r: Result<
    (),
    Error,
>)
    ensures
        match *contents {
            Err(m) => r matches Err(e) && e@ == ErrorModel::PolicyInvalid(
                "read "@ + path@ + " to verify sha256 pin: "@ + m@,
            ),
            Ok(bytes) => match pin_refusal(path@, expected@, sha256_digest(bytes@)) {
                Some(m) => r matches Err(e) && e@ == ErrorModel::PolicyInvalid(m),
                None => r is Ok,
            },
        },
{
    match contents {
        Err(m) => {
            let mut text = text::cat3("read ", path, " to verify sha256 pin: ");
            text.append(m.as_str());
            Err(Error::PolicyInvalid(text))
        },
        Ok(bytes) => {
            let actual = sha256(bytes);
            check_pin(path, expected, &actual)
        },
    }
}

proof fn dir_records_stuck(path: Seq<char>, entries: Seq<DirEntry>, i: int)
    requires
        0 <= i < entries.len(),
        dir_records(path, entries.take(i + 1)) is Err,
    ensures
        dir_records(path, entries) == dir_records(path, entries.take(i + 1)),
    decreases entries.len(),
{
    if i + 1 < entries.len() {
        assert(entries.drop_last().take(i + 1) =~= entries.take(i + 1));
        dir_records_stuck(path, entries.drop_last(), i);
    } else {
        assert(entries.take(i + 1) =~= entries);
    }
}

/// The records of a directory's entries.
fn resolve_directory(path: &str, entries: &Vec<DirEntry>) -> (r: Result<Vec<ExecRecord>, Error>)
    ensures
        records_are(r, dir_records(path@, entries@)),
{
    let mut out: Vec<ExecRecord> = Vec::new();
    let mut i: usize = 0;
    proof {
        assert(compile::views(out@) =~= Seq::<ExecRecordModel>::empty());
    }
    while i < entries.len()
        invariant
            i <= entries@.len(),
            dir_records(path@, entries@.take(i as int)) == Ok::<Seq<ExecRecordModel>, ErrorModel>(
                compile::views(out@),
            ),
        decreases entries@.len() - i,
    {
        let ghost done = compile::views(out@);
        proof {
            assert(entries@.take(i + 1).drop_last() =~= entries@.take(i as int));
        }
        match &entries[i] {
            DirEntry::Failed(m) => {
                proof {
                    dir_records_stuck(path@, entries@, i as int);
                }
                let mut text = text::cat3("read exec prefix ", text::quote(path).as_str(), ": ");
                text.append(m.as_str());
                return Err(Error::PolicyInvalid(text));
            },
            DirEntry::Hidden => {},
            DirEntry::Found { is_file, mode, dev, inode } => {
                if *is_file && *mode & 0o111 != 0 {
                    let record = ExecRecord { dev: to_kernel_dev(*dev), inode: *inode, hash: [0u8; 32] };
                    proof {
                        assert(record.hash@ =~= no_hash());
                    }
                    out.push(record);
                    proof {
                        assert(compile::views(out@) =~= done.push(record@));
                    }
                }
            },
        }
        i = i + 1;
    }
    proof {
        assert(entries@.take(i as int) =~= entries@);
    }
    Ok(out)
}

/// The records of one rule.
pub fn resolve_exec_rule(rule: &BpfExecRule, seen: &ExecLookup) -> (r: Result<Vec<ExecRecord>, Error>)
    ensures
        records_are(r, rule_records(rule@, *seen)),
{
    match seen {
        ExecLookup::NoDirectory(m) => {
            let mut text = text::cat5(
                "exec prefix rule ",
                text::quote(rule.path.as_str()).as_str(),
                " cannot be read: ",
                m.as_str(),
                " — a prefix that does not resolve would allow nothing, which is more likely a policy typo than an intentional deny-all",
            );
            Err(Error::PolicyInvalid(text))
        },
        ExecLookup::Directory(entries) => resolve_directory(rule.path.as_str(), entries),
        ExecLookup::NoFile(m) => {
            let mut text = text::cat3("exec rule ", text::quote(rule.path.as_str()).as_str(), " cannot be stat'd: ");
            text.append(m.as_str());
            Err(Error::PolicyInvalid(text))
        },
        ExecLookup::File { dev, inode, contents } => {
            if let Some(expected) = &rule.hash {
                if let Err(e) = verify_sha256_pin(rule.path.as_str(), expected, contents) {
                    return Err(e);
                }
            }
            let hash: [u8; 32] = match rule.hash {
                Some(h) => h,
                None => [0u8; 32],
            };
            let record = ExecRecord { dev: to_kernel_dev(*dev), inode: *inode, hash };
            let mut out: Vec<ExecRecord> = Vec::new();
            out.push(record);
            proof {
                if rule.hash is None {
                    assert(hash@ =~= no_hash());
                }
                assert(compile::views(out@) =~= seq![record@]);
            }
            Ok(out)
        },
    }
}

proof fn all_records_stuck(rules: Seq<BpfExecRuleModel>, seen: Seq<ExecLookup>, i: int)
    requires
        0 <= i < rules.len(),
        rules.len() == seen.len(),
        all_records(rules.take(i + 1), seen.take(i + 1)) is Err,
    ensures
        all_records(rules, seen) == all_records(rules.take(i + 1), seen.take(i + 1)),
    decreases rules.len(),
{
    if i + 1 < rules.len() {
        assert(rules.drop_last().take(i + 1) =~= rules.take(i + 1));
        assert(seen.drop_last().take(i + 1) =~= seen.take(i + 1));
        all_records_stuck(rules.drop_last(), seen.drop_last(), i);
    } else {
        assert(rules.take(i + 1) =~= rules);
        assert(seen.take(i + 1) =~= seen);
    }
}

/// The records of a list of rules, from what stands on the host under each path.
pub fn resolve_exec_rules(rules: &Vec<BpfExecRule>, seen: &Vec<ExecLookup>) -> (r: Result<Vec<ExecRecord>, Error>)
    requires
        rules@.len() == seen@.len(),
    ensures
        records_are(r, all_records(compile::views(rules@), seen@)),
{
    let ghost all = compile::views(rules@);
    let mut out: Vec<ExecRecord> = Vec::new();
    let mut i: usize = 0;
    proof {
        assert(compile::views(out@) =~= Seq::<ExecRecordModel>::empty());
    }
    while i < rules.len()
        invariant
            i <= rules@.len(),
            rules@.len() == seen@.len(),
            all == compile::views(rules@),
            all_records(all.take(i as int), seen@.take(i as int)) == Ok::<Seq<ExecRecordModel>, ErrorModel>(
                compile::views(out@),
            ),
        decreases rules@.len() - i,
    {
        let ghost done = compile::views(out@);
        proof {
            assert(all.take(i + 1).drop_last() =~= all.take(i as int));
            assert(seen@.take(i + 1).drop_last() =~= seen@.take(i as int));
            assert(all.take(i + 1).last() == rules@[i as int]@);
        }
        match resolve_exec_rule(&rules[i], &seen[i]) {
            Ok(own) => {
                let ghost own_models = compile::views(own@);
                let mut own = own;
                out.append(&mut own);
                proof {
                    assert(compile::views(out@) =~= done + own_models);
                }
            },
            Err(e) => {
                proof {
                    all_records_stuck(all, seen@, i as int);
                }
                return Err(e);
            },
        }
        i = i + 1;
    }
    proof {
        assert(all.take(i as int) =~= all);
        assert(seen@.take(i as int) =~= seen@);
    }
    Ok(out)
}

} // verus!
