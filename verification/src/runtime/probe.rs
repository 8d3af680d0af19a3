//! What the running kernel can do.
use vstd::prelude::*;

use crate::number;
use crate::paths;
use crate::policy::compile;
use crate::runtime::abi;
use crate::runtime::mounts;
use crate::runtime::plan::Act;
use crate::runtime::plan::ActModel;
use crate::runtime::plan::Step;
use crate::runtime::plan::StepModel;
use crate::text;

verus! {

/// `ENOSYS` on Linux.
pub const ENOSYS: i32 = 38;

/// What the running kernel can do.
#[derive(Debug)]
pub struct KernelCaps {
    pub kernel: (u32, u32),
    pub cgroup_v2: bool,
    pub clone3: bool,
    pub clone_into_cgroup: bool,
    pub cgroup_kill: bool,
    pub overlayfs: bool,
    pub overlayfs_in_userns: bool,
    pub unprivileged_userns: bool,
    pub controllers: Vec<String>,
}

impl Clone for KernelCaps {
    fn clone(&self) -> (r: Self)
        ensures
            text::texts(r.controllers@) == text::texts(self.controllers@),
            r == (KernelCaps { controllers: r.controllers, ..*self }),
    {
        KernelCaps {
            kernel: self.kernel,
            cgroup_v2: self.cgroup_v2,
            clone3: self.clone3,
            clone_into_cgroup: self.clone_into_cgroup,
            cgroup_kill: self.cgroup_kill,
            overlayfs: self.overlayfs,
            overlayfs_in_userns: self.overlayfs_in_userns,
            unprivileged_userns: self.unprivileged_userns,
            controllers: text::clone_texts(&self.controllers),
        }
    }
}

/// What was seen of the running kernel.
#[derive(Debug)]
pub struct Observed {
    /// What `uname -r` printed.
    pub release: Option<String>,
    /// Whether the unified hierarchy lists its controllers.
    pub cgroup_v2: bool,
    /// The error number of a `clone3` without arguments; nothing where it was not refused.
    pub clone3_errno: Option<i32>,
    /// Whether a cgroup can be killed as a whole.
    pub cgroup_kill: bool,
    /// Whether an overlay could be mounted.
    pub overlayfs: bool,
    /// The contents of the switch for unprivileged user namespaces, where the kernel has it.
    pub userns_switch: Option<String>,
    /// The contents of the list of controllers.
    pub controllers: Option<String>,
}

/// The number that a part of a release writes, and 0 where it writes none.
pub open spec fn number_or_zero(s: Seq<char>) -> u32 {
    match number::parsed(s, u32::MAX as nat) {
        Some(n) => n as u32,
        None => 0,
    }
}

/// The first two numbers of a kernel release.
pub open spec fn version_of(release: Option<Seq<char>>) -> (u32, u32) {
    match release {
        Some(r) => {
            let parts = text::pieces(text::trimmed(r), '.');
            if parts.len() >= 2 {
                (number_or_zero(parts[0]), number_or_zero(parts[1]))
            } else {
                (0, 0)
            }
        },
        None => (0, 0),
    }
}

/// Whether a version is the given one or a later one.
pub open spec fn at_least(version: (u32, u32), major: u32, minor: u32) -> bool {
    version.0 > major || (version.0 == major && version.1 >= minor)
}

fn parse_or_zero(s: &str) -> (r: u32)
    ensures
        r == number_or_zero(s@),
{
    match number::parse_u32(s) {
        Some(n) => n,
        None => 0,
    }
}

/// The first two numbers of a kernel release.
pub fn probe_kernel_version(release: &Option<String>) -> (r: (u32, u32))
    ensures
        r == version_of(text::opt(*release)),
{
    match release {
        Some(s) => {
            let parts = text::split(text::trim(s.as_str()).as_str(), '.');
            if parts.len() >= 2 {
                proof {
                    assert(text::texts(parts@)[0] == parts@[0]@);
                    assert(text::texts(parts@)[1] == parts@[1]@);
                }
                (parse_or_zero(parts[0].as_str()), parse_or_zero(parts[1].as_str()))
            } else {
                (0, 0)
            }
        },
        None => (0, 0),
    }
}

/// The file of a kernel setting.
pub open spec fn setting_path(name: Seq<char>) -> Seq<char> {
    "/proc/sys/"@ + name.map_values(
        |c: char|
            if c == '.' {
                '/'
            } else {
                c
            },
    )
}

/// The file of a kernel setting.
pub fn sysctl_path(name: &str) -> (r: String)
    ensures
        r@ == setting_path(name@),
{
    let chars = text::chars_of(name);
    let mut out = "/proc/sys/".to_owned();
    let ghost all = setting_path(name@);
    let ghost lead = out@;
    let mut i: usize = 0;
    proof {
        assert(all.take(lead.len() as int) =~= lead);
    }
    while i < chars.len()
        invariant
            i <= chars@.len(),
            chars@ == name@,
            lead == "/proc/sys/"@,
            all == setting_path(name@),
            out@ == all.take(lead.len() + i),
        decreases chars@.len() - i,
    {
        let c: char = if chars[i] == '.' {
            '/'
        } else {
            chars[i]
        };
        out.push(c);
        proof {
            assert(all[lead.len() + i] == c);
            assert(all.take(lead.len() + i + 1) =~= all.take(lead.len() + i).push(c));
        }
        i = i + 1;
    }
    proof {
        assert(all.take(lead.len() + i) =~= all);
    }
    out
}

/// Whether `clone3` is there: it is unless the kernel does not know the call.
pub fn probe_clone3(errno: Option<i32>) -> (r: bool)
    ensures
        r == (errno != Some(ENOSYS)),
{
    match errno {
        Some(n) => n != ENOSYS,
        None => true,
    }
}

/// Whether a process can be born into a cgroup.
pub fn probe_clone_into_cgroup(version: (u32, u32)) -> (r: bool)
    ensures
        r == at_least(version, 5, 7),
{
    version.0 > 5 || (version.0 == 5 && version.1 >= 7)
}

/// Whether a user namespace can mount overlays.
pub fn probe_overlayfs_in_userns(version: (u32, u32)) -> (r: bool)
    ensures
        r == at_least(version, 5, 11),
{
    version.0 > 5 || (version.0 == 5 && version.1 >= 11)
}

/// Whether an unprivileged user may make user namespaces: a kernel without the switch allows it.
pub fn probe_unprivileged_userns(switch: &Option<String>) -> (r: bool)
    ensures
        r == (match *switch {
            Some(v) => text::trimmed(v@) == "1"@,
            None => true,
        }),
{
    match switch {
        Some(v) => text::same(text::trim(v.as_str()).as_str(), "1"),
        None => true,
    }
}

/// The controllers of the unified hierarchy.
pub fn probe_controllers(listed: &Option<String>) -> (r: Vec<String>)
    ensures
        text::texts(r@) == (match *listed {
            Some(s) => text::words_of(s@),
            None => Seq::<Seq<char>>::empty(),
        }),
{
    match listed {
        Some(s) => text::split_whitespace(s.as_str()),
        None => {
            let none: Vec<String> = Vec::new();
            proof {
                assert(text::texts(none@) =~= Seq::<Seq<char>>::empty());
            }
            none
        },
    }
}

/// What was seen, as what the kernel can do.
pub fn probe_all(seen: &Observed) -> (r: KernelCaps)
    ensures
        r.kernel == version_of(text::opt(seen.release)),
        r.cgroup_v2 == seen.cgroup_v2,
        r.clone3 == (seen.clone3_errno != Some(ENOSYS)),
        r.clone_into_cgroup == at_least(version_of(text::opt(seen.release)), 5, 7),
        r.cgroup_kill == seen.cgroup_kill,
        r.overlayfs == seen.overlayfs,
        r.overlayfs_in_userns == at_least(version_of(text::opt(seen.release)), 5, 11),
        r.unprivileged_userns == (match seen.userns_switch {
            Some(v) => text::trimmed(v@) == "1"@,
            None => true,
        }),
        text::texts(r.controllers@) == (match seen.controllers {
            Some(s) => text::words_of(s@),
            None => Seq::<Seq<char>>::empty(),
        }),
{
    let kernel = probe_kernel_version(&seen.release);
    KernelCaps {
        kernel,
        cgroup_v2: seen.cgroup_v2,
        clone3: probe_clone3(seen.clone3_errno),
        clone_into_cgroup: probe_clone_into_cgroup(kernel),
        cgroup_kill: seen.cgroup_kill,
        overlayfs: seen.overlayfs,
        overlayfs_in_userns: probe_overlayfs_in_userns(kernel),
        unprivileged_userns: probe_unprivileged_userns(&seen.userns_switch),
        controllers: probe_controllers(&seen.controllers),
    }
}

/// Why a kernel cannot run sandboxes at all; nothing where it can.
pub open spec fn missing(caps: KernelCaps) -> Option<Seq<char>> {
    if !caps.cgroup_v2 {
        Some("cgroup v2 not detected. Boot with systemd.unified_cgroup_hierarchy=1"@)
    } else if caps.controllers@.len() == 0 {
        Some("No cgroup controllers found. Check /sys/fs/cgroup/cgroup.controllers"@)
    } else if !caps.overlayfs {
        Some("overlay filesystem not available. Ensure CONFIG_OVERLAY_FS=y"@)
    } else {
        None
    }
}

/// Whether the kernel can run sandboxes at all.
pub fn check_hard_requirements(caps: &KernelCaps) -> (r: Result<(), String>)
    ensures
        match missing(*caps) {
            Some(m) => r matches Err(t) && t@ == m,
            None => r is Ok,
        },
{
    if !caps.cgroup_v2 {
        return Err("cgroup v2 not detected. Boot with systemd.unified_cgroup_hierarchy=1".to_owned());
    }
    if caps.controllers.len() == 0 {
        return Err("No cgroup controllers found. Check /sys/fs/cgroup/cgroup.controllers".to_owned());
    }
    if !caps.overlayfs {
        return Err("overlay filesystem not available. Ensure CONFIG_OVERLAY_FS=y".to_owned());
    }
    Ok(())
}

/// Mounts an overlay in a scratch directory.
pub open spec fn overlay_probe_steps(base: Seq<char>) -> Seq<StepModel> {
    let lower = paths::joined(base, "lower"@);
    let upper = paths::joined(base, "upper"@);
    let work = paths::joined(base, "work"@);
    let merged = paths::joined(base, "merged"@);
    seq![
        mounts::plain_step(ActModel::MakeDirs(lower), ""@),
        mounts::plain_step(ActModel::MakeDirs(upper), ""@),
        mounts::plain_step(ActModel::MakeDirs(work), ""@),
        mounts::plain_step(ActModel::MakeDirs(merged), ""@),
        mounts::plain_step(
            ActModel::Mount {
                source: Some("overlay"@),
                target: merged,
                fstype: Some("overlay"@),
                flags: abi::MS_NODEV | abi::MS_NOSUID,
                data: Some("lowerdir="@ + lower + ",upperdir="@ + upper + ",workdir="@ + work),
            },
            ""@,
        ),
    ]
}

/// How to find out whether overlays can be mounted: by mounting one in a scratch directory. The
/// kernel has them where the plan comes to its end.
pub fn probe_overlayfs(base: &str) -> (r: Vec<Step>)
    ensures
        compile::views(r@) == overlay_probe_steps(base@),
{
    let lower = paths::join(base, "lower");
    let upper = paths::join(base, "upper");
    let work = paths::join(base, "work");
    let merged = paths::join(base, "merged");
    let mut data = text::cat5("lowerdir=", lower.as_str(), ",upperdir=", upper.as_str(), ",workdir=");
    data.append(work.as_str());
    let mut v: Vec<Step> = Vec::new();
    mounts::push_plain(&mut v, Act::MakeDirs(lower), "");
    mounts::push_plain(&mut v, Act::MakeDirs(upper), "");
    mounts::push_plain(&mut v, Act::MakeDirs(work), "");
    mounts::push_plain(&mut v, Act::MakeDirs(merged.clone()), "");
    mounts::push_plain(
        &mut v,
        Act::Mount {
            source: Some("overlay".to_owned()),
            target: merged,
            fstype: Some("overlay".to_owned()),
            flags: abi::MS_NODEV | abi::MS_NOSUID,
            data: Some(data),
        },
        "",
    );
    proof {
        assert(compile::views(v@) =~= overlay_probe_steps(base@));
    }
    v
}

} // verus!
