//! The root file system of a sandbox.
use vstd::prelude::*;

use crate::error::Error;
use crate::error::ErrorModel;
use crate::number;
use crate::paths;
use crate::policy::compile;
use crate::runtime::abi;
use crate::runtime::plan::Act;
use crate::runtime::plan::ActModel;
use crate::runtime::plan::Blame;
use crate::runtime::plan::Step;
use crate::runtime::plan::StepModel;
use crate::sandbox::WorkspaceSpec;
use crate::text;

verus! {

/// An overlay: the template below, what the sandbox writes above it, the overlay's own scratch
/// directory, and where all of it is mounted.
#[derive(Debug)]
pub struct Rootfs {
    pub lower: String,
    pub merged: String,
    pub upper: String,
    pub work: String,
}

#[verifier::ext_equal]
pub struct RootfsModel {
    pub lower: Seq<char>,
    pub merged: Seq<char>,
    pub upper: Seq<char>,
    pub work: Seq<char>,
}

impl View for Rootfs {
    type V = RootfsModel;

    open spec fn view(&self) -> RootfsModel {
        RootfsModel { lower: self.lower@, merged: self.merged@, upper: self.upper@, work: self.work@ }
    }
}

impl Clone for Rootfs {
    fn clone(&self) -> (r: Self)
        ensures
            r@ == self@,
    {
        Rootfs {
            lower: self.lower.clone(),
            merged: self.merged.clone(),
            upper: self.upper.clone(),
            work: self.work.clone(),
        }
    }
}

/// The directory of a sandbox on the host.
pub open spec fn sandbox_dir(id: Seq<char>) -> Seq<char> {
    "/run/aivisor/sandboxes/"@ + id
}

/// The layers of a sandbox.
pub open spec fn layers(template: Seq<char>, id: Seq<char>) -> RootfsModel {
    RootfsModel {
        lower: template,
        merged: paths::joined(sandbox_dir(id), "merged"@),
        upper: paths::joined(sandbox_dir(id), "upper"@),
        work: paths::joined(sandbox_dir(id), "work"@),
    }
}

/// A step that a failed mount setup is blamed on.
pub open spec fn mount_step(act: ActModel, lead: Seq<char>) -> StepModel {
    StepModel { act, blame: Blame::Mount, lead, invalid_ok: false }
}

/// Makes the directories of a sandbox.
pub open spec fn prepare_steps(id: Seq<char>) -> Seq<StepModel> {
    let l = layers(Seq::empty(), id);
    seq![
        mount_step(ActModel::MakeDirs(sandbox_dir(id)), "create sandbox dir: "@),
        mount_step(ActModel::MakeDir(l.upper), "create upper: "@),
        mount_step(ActModel::MakeDir(l.work), "create work: "@),
        mount_step(ActModel::MakeDir(l.merged), "create merged: "@),
    ]
}

/// The options of the overlay.
pub open spec fn overlay_options(r: RootfsModel) -> Seq<char> {
    "lowerdir="@ + r.lower + ",upperdir="@ + r.upper + ",workdir="@ + r.work + ",xino=off"@
}

/// Mounts the overlay.
pub open spec fn overlay_step(r: RootfsModel) -> StepModel {
    mount_step(
        ActModel::Mount {
            source: Some("overlay"@),
            target: r.merged,
            fstype: Some("overlay"@),
            flags: abi::MS_NODEV | abi::MS_NOSUID,
            data: Some(overlay_options(r)),
        },
        "overlay mount ("@ + r.lower + " on "@ + r.merged + ") failed: "@,
    )
}

fn push_mount(out: &mut Vec<Step>, act: Act, lead: &str)
    ensures
        compile::views(final(out)@) == compile::views(old(out)@).push(mount_step(act@, lead@)),
{
    let ghost done = compile::views(out@);
    out.push(Step::new(act, Blame::Mount, lead));
    proof {
        assert(compile::views(out@) =~= done.push(mount_step(act@, lead@)));
    }
}

impl Rootfs {
    /// The layers of a new sandbox, and how to make their directories.
    pub fn prepare(template_dir: &str, _spec: &WorkspaceSpec, sandbox_id: &str) -> (r: (Rootfs, Vec<Step>))
        ensures
            r.0@ == layers(template_dir@, sandbox_id@),
            compile::views(r.1@) == prepare_steps(sandbox_id@),
    {
        let mut base = "/run/aivisor/sandboxes/".to_owned();
        base.append(sandbox_id);
        let upper = paths::join(base.as_str(), "upper");
        let work = paths::join(base.as_str(), "work");
        let merged = paths::join(base.as_str(), "merged");
        let mut steps: Vec<Step> = Vec::new();
        push_mount(&mut steps, Act::MakeDirs(base), "create sandbox dir: ");
        push_mount(&mut steps, Act::MakeDir(upper.clone()), "create upper: ");
        push_mount(&mut steps, Act::MakeDir(work.clone()), "create work: ");
        push_mount(&mut steps, Act::MakeDir(merged.clone()), "create merged: ");
        proof {
            assert(compile::views(steps@) =~= prepare_steps(sandbox_id@));
        }
        (Rootfs { lower: template_dir.to_owned(), merged, upper, work }, steps)
    }

    /// Begins to hand what the sandbox writes over to its own user and group: both writable layers
    /// and all that lies in them.
    pub fn chown_upper_and_work(&self, uid: u32, gid: u32) -> (r: ChownWalk)
        ensures
            r.uid == uid,
            r.gid == gid,
            r.current is None,
            compile::views(r.todo@) == seq![VisitModel::Path(self.work@), VisitModel::Path(self.upper@)],
    {
        let mut todo: Vec<Visit> = Vec::new();
        todo.push(Visit::Path(self.work.clone()));
        todo.push(Visit::Path(self.upper.clone()));
        proof {
            assert(compile::views(todo@) =~= seq![VisitModel::Path(self.work@), VisitModel::Path(self.upper@)]);
        }
        ChownWalk { uid, gid, current: None, todo }
    }

    /// How to mount the overlay.
    pub fn mount_overlay(&self) -> (r: Step)
        ensures
            r@ == overlay_step(self@),
    {
        let mut data = text::cat5(
            "lowerdir=",
            self.lower.as_str(),
            ",upperdir=",
            self.upper.as_str(),
            ",workdir=",
        );
        data.append(self.work.as_str());
        data.append(",xino=off");
        let lead = text::cat5(
            "overlay mount (",
            self.lower.as_str(),
            " on ",
            self.merged.as_str(),
            ") failed: ",
        );
        Step::new(
            Act::Mount {
                source: Some("overlay".to_owned()),
                target: self.merged.clone(),
                fstype: Some("overlay".to_owned()),
                flags: abi::MS_NODEV | abi::MS_NOSUID,
                data: Some(data),
            },
            Blame::Mount,
            lead.as_str(),
        )
    }

    /// Archives of workspaces are not there yet.
    pub fn workspace_archive(&self) -> (r: Result<Vec<u8>, Error>)
        ensures
            r matches Err(e) && e@ == ErrorModel::Unsupported("workspace archive in Phase 4"@),
    {
        Err(Error::Unsupported("workspace archive in Phase 4".to_owned()))
    }
}

/// The writable layer, the scratch directory and the mount point of a sandbox are three different
/// directories; and none of them is the template's, as long as the template does not lie in the
/// sandbox's own directory.
pub proof fn layers_are_distinct(template: Seq<char>, id: Seq<char>)
    ensures
        layers(template, id).upper != layers(template, id).work,
        layers(template, id).upper != layers(template, id).merged,
        layers(template, id).work != layers(template, id).merged,
        !sandbox_dir(id).is_prefix_of(template) ==> {
            &&& layers(template, id).lower != layers(template, id).upper
            &&& layers(template, id).lower != layers(template, id).work
            &&& layers(template, id).lower != layers(template, id).merged
        },
{
    reveal_strlit("/run/aivisor/sandboxes/");
    reveal_strlit("upper");
    reveal_strlit("work");
    reveal_strlit("merged");
    let l = layers(template, id);
    let base = sandbox_dir(id);
    assert(base.len() > 0);
    assert(l.upper.last() == 'r' && l.work.last() == 'k' && l.merged.last() == 'd');
    assert(base.is_prefix_of(l.upper));
    assert(base.is_prefix_of(l.work));
    assert(base.is_prefix_of(l.merged));
}

/// Something that a walk over a directory tree has yet to come to.
#[derive(Debug)]
pub enum Visit {
    Path(String),
    /// An entry that could not be read.
    Broken(String),
}

#[verifier::ext_equal]
pub enum VisitModel {
    Path(Seq<char>),
    Broken(Seq<char>),
}

impl View for Visit {
    type V = VisitModel;

    open spec fn view(&self) -> VisitModel {
        match *self {
            Visit::Path(p) => VisitModel::Path(p@),
            Visit::Broken(m) => VisitModel::Broken(m@),
        }
    }
}

/// What came of handing over a path.
#[derive(Debug)]
pub enum Visited {
    /// The path holds a NUL byte.
    Nul(String),
    /// The path could not be handed over.
    Refused(String),
    /// It was handed over, and then nothing could be learnt of it.
    NoMetadata(String),
    /// It was handed over, and is no directory.
    Leaf,
    /// It was handed over, and is a directory that could not be opened.
    NoListing(String),
    /// It was handed over, and is a directory with these entries.
    Directory(Vec<Visit>),
}

/// A walk that hands over every path of some directory trees, a directory before what lies in it.
/// Links are handed over themselves and not followed.
#[derive(Debug)]
pub struct ChownWalk {
    pub uid: u32,
    pub gid: u32,
    /// The path that was handed out last.
    pub current: Option<String>,
    /// What is still to come, the next at the end.
    pub todo: Vec<Visit>,
}

/// What a walk does next.
#[derive(Debug)]
pub enum WalkStep {
    /// Hand over this path, and say what came of it.
    HandOver(String),
    Finished,
    Failed(Error),
}

/// The sentence for a path that could not be handed over, or read; nothing where all is well.
pub open spec fn walk_failure(uid: u32, gid: u32, path: Seq<char>, last: Visited) -> Option<Seq<char>> {
    match last {
        Visited::Nul(m) => Some("interior NUL in path "@ + path + ": "@ + m@),
        Visited::Refused(m) => Some(
            "lchown "@ + path + " to "@ + number::decimal(uid as nat) + ":"@ + number::decimal(gid as nat) + ": "@
                + m@,
        ),
        Visited::NoMetadata(m) => Some("symlink_metadata "@ + path + ": "@ + m@),
        Visited::NoListing(m) => Some("read_dir "@ + path + ": "@ + m@),
        Visited::Leaf => None,
        Visited::Directory(_) => None,
    }
}

/// What is to come once a path was handed over: a directory's entries in their order, and then
/// what was to come before.
pub open spec fn to_come(todo: Seq<VisitModel>, last: Option<Visited>) -> Seq<VisitModel> {
    match last {
        Some(Visited::Directory(entries)) => todo + compile::views(entries@).reverse(),
        _ => todo,
    }
}

impl ChownWalk {
    /// Takes what came of the last path, and says what comes next.
    pub fn next(&mut self, last: Option<Visited>) -> (r: WalkStep)
        ensures
            final(self).uid == old(self).uid,
            final(self).gid == old(self).gid,
            ({
                let failure = match (old(self).current, last) {
                    (Some(p), Some(v)) => walk_failure(old(self).uid, old(self).gid, p@, v),
                    _ => None,
                };
                let todo = to_come(compile::views(old(self).todo@), last);
                match failure {
                    Some(m) => (r matches WalkStep::Failed(e) && e@ == ErrorModel::MountSetup(m)),
                    None => if todo.len() == 0 {
                        r is Finished
                    } else {
                        &&& compile::views(final(self).todo@) == todo.drop_last()
                        &&& match todo.last() {
                            VisitModel::Path(p) => (r matches WalkStep::HandOver(q) && q@ == p) && text::opt(
                                final(self).current,
                            ) == Some(p),
                            VisitModel::Broken(m) => r matches WalkStep::Failed(e) && e@ == ErrorModel::MountSetup(
                                "read_dir entry: "@ + m,
                            ),
                        }
                    },
                }
            }),
    {
        let ghost before = compile::views(self.todo@);
        if let Some(path) = &self.current {
            if let Some(v) = &last {
                if let Some(m) = Self::failure(self.uid, self.gid, path.as_str(), v) {
                    return WalkStep::Failed(Error::MountSetup(m));
                }
            }
        }
        let ghost todo = to_come(before, last);
        if let Some(Visited::Directory(entries)) = last {
            let mut entries = entries;
            let ghost all = compile::views(entries@);
            proof {
                assert(all.skip(all.len() as int) =~= Seq::<VisitModel>::empty());
                assert(before + all.skip(all.len() as int).reverse() =~= before);
            }
            while entries.len() > 0
                invariant
                    self.uid == old(self).uid,
                    self.gid == old(self).gid,
                    compile::views(entries@) == all.take(entries@.len() as int),
                    entries@.len() <= all.len(),
                    compile::views(self.todo@) == before + all.skip(entries@.len() as int).reverse(),
                decreases entries@.len(),
            {
                let ghost n = entries@.len() as int;
                let ghost held = compile::views(entries@);
                let ghost queue = compile::views(self.todo@);
                if let Some(e) = entries.pop() {
                    self.todo.push(e);
                    proof {
                        assert(held[n - 1] == e@);
                        assert(all[n - 1] == e@);
                        assert(compile::views(entries@) =~= all.take(n - 1));
                        assert(compile::views(self.todo@) =~= queue.push(e@));
                        assert(all.skip(n - 1).reverse() =~= all.skip(n).reverse().push(all[n - 1]));
                        assert(before + all.skip(n - 1).reverse() =~= (before + all.skip(n).reverse()).push(
                            all[n - 1],
                        ));
                    }
                }
            }
            proof {
                assert(all.skip(0) =~= all);
            }
        }
        proof {
            assert(compile::views(self.todo@) == todo);
        }
        match self.todo.pop() {
            None => {
                proof {
                    assert(todo.len() == 0);
                }
                WalkStep::Finished
            },
            Some(v) => {
                proof {
                    assert(todo.last() == v@);
                    assert(compile::views(self.todo@) =~= todo.drop_last());
                }
                match v {
                    Visit::Path(p) => {
                        self.current = Some(p.clone());
                        WalkStep::HandOver(p)
                    },
                    Visit::Broken(m) => {
                        let mut text = "read_dir entry: ".to_owned();
                        text.append(m.as_str());
                        WalkStep::Failed(Error::MountSetup(text))
                    },
                }
            },
        }
    }

    /// The sentence for a path that could not be handed over, or read.
    fn failure(uid: u32, gid: u32, path: &str, last: &Visited) -> (r: Option<String>)
        ensures
            text::opt(r) == walk_failure(uid, gid, path@, *last),
    {
        match last {
            Visited::Nul(m) => {
                let mut t = text::cat3("interior NUL in path ", path, ": ");
                t.append(m.as_str());
                Some(t)
            },
            Visited::Refused(m) => {
                let u = number::format_u64(uid as u64);
                let g = number::format_u64(gid as u64);
                let mut t = text::cat5("lchown ", path, " to ", u.as_str(), ":");
                t.append(g.as_str());
                t.append(": ");
                t.append(m.as_str());
                Some(t)
            },
            Visited::NoMetadata(m) => {
                let mut t = text::cat3("symlink_metadata ", path, ": ");
                t.append(m.as_str());
                Some(t)
            },
            Visited::NoListing(m) => {
                let mut t = text::cat3("read_dir ", path, ": ");
                t.append(m.as_str());
                Some(t)
            },
            Visited::Leaf => None,
            Visited::Directory(_) => None,
        }
    }
}

} // verus!
