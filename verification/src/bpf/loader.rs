//! Loading the BPF programs: which maps are shared, what is pinned where, what is attached when.
//!
//! The caller does what the kernel has to do, act by act. Which act comes next, and what a failure
//! means, is decided here.
use vstd::prelude::*;

use crate::error::Error;
use crate::error::ErrorModel;
use crate::paths;
use crate::text;

verus! {

/// The directory under which maps and programs are pinned.
pub const PIN_DIR: &'static str = "/sys/fs/bpf/aivisor";

/// The objects that are loaded, in order.
pub open spec fn objects() -> Seq<Seq<char>> {
    seq!["fs"@, "exec"@, "net"@, "priv"@, "task"@]
}

/// The maps that all objects share.
pub open spec fn shared_maps() -> Seq<Seq<char>> {
    seq!["sandboxes"@, "fs_rules"@, "exec_rules"@, "net_rules"@, "events"@, "scratch"@]
}

/// Where something is pinned.
pub open spec fn pinned_at(name: Seq<char>) -> Seq<char> {
    paths::joined(PIN_DIR@, name)
}

/// The objects that are loaded, in order.
pub fn object_names() -> (r: Vec<String>)
    ensures
        text::texts(r@) == objects(),
{
    let mut v: Vec<String> = Vec::new();
    v.push("fs".to_owned());
    v.push("exec".to_owned());
    v.push("net".to_owned());
    v.push("priv".to_owned());
    v.push("task".to_owned());
    proof {
        assert(text::texts(v@) =~= objects());
    }
    v
}

/// The file of an object, in the directory of the compiled ones.
pub fn object_file(dir: &str, name: &str) -> (r: String)
    ensures
        r@ == paths::joined(dir@, name@ + ".bpf.o"@),
{
    let mut file = name.to_owned();
    file.append(".bpf.o");
    paths::join(dir, file.as_str())
}

/// Where something is pinned.
pub fn pin_path(name: &str) -> (r: String)
    ensures
        r@ == pinned_at(name@),
{
    paths::join(PIN_DIR, name)
}

/// Whether a map is one that all objects share. An object's own data is not.
pub fn is_shared_map(name: &str) -> (r: bool)
    ensures
        r == shared_maps().contains(name@),
{
    let r = text::same(name, "sandboxes") || text::same(name, "fs_rules") || text::same(name, "exec_rules")
        || text::same(name, "net_rules") || text::same(name, "events") || text::same(name, "scratch");
    proof {
        let all = shared_maps();
        if r {
            assert(all[0] == name@ || all[1] == name@ || all[2] == name@ || all[3] == name@ || all[4] == name@
                || all[5] == name@);
        }
    }
    r
}

/// The pins of an object's maps: one for each shared map, in order.
pub open spec fn pins_for(maps: Seq<Seq<char>>) -> Seq<(Seq<char>, Seq<char>)>
    decreases maps.len(),
{
    if maps.len() == 0 {
        Seq::empty()
    } else {
        let before = pins_for(maps.drop_last());
        if shared_maps().contains(maps.last()) {
            before.push((maps.last(), pinned_at(maps.last())))
        } else {
            before
        }
    }
}

/// Pairs of texts as plain values.
pub open spec fn pair_texts(v: Seq<(String, String)>) -> Seq<(Seq<char>, Seq<char>)> {
    Seq::new(v.len(), |i: int| (v[i].0@, v[i].1@))
}

/// Which maps of an object are pinned before it is loaded, and where. A map that is pinned
/// already is then reused, so that all objects share one instance of it.
pub fn pin_plan(maps: &Vec<String>) -> (r: Vec<(String, String)>)
    ensures
        pair_texts(r@) == pins_for(text::texts(maps@)),
{
    let ghost all = text::texts(maps@);
    let mut out: Vec<(String, String)> = Vec::new();
    let mut i: usize = 0;
    proof {
        assert(pair_texts(out@) =~= pins_for(all.take(0)));
    }
    while i < maps.len()
        invariant
            i <= maps@.len(),
            all == text::texts(maps@),
            pair_texts(out@) == pins_for(all.take(i as int)),
        decreases maps@.len() - i,
    {
        let ghost done = pair_texts(out@);
        proof {
            assert(all.take(i + 1).drop_last() =~= all.take(i as int));
            assert(all.take(i + 1).last() == maps@[i as int]@);
        }
        if is_shared_map(maps[i].as_str()) {
            let name = maps[i].clone();
            let path = pin_path(name.as_str());
            let ghost pair = (name@, path@);
            out.push((name, path));
            proof {
                assert(pair_texts(out@) =~= done.push(pair));
            }
        }
        i = i + 1;
    }
    proof {
        assert(all.take(i as int) =~= all);
    }
    out
}

/// The programs that await attachment to each sandbox's cgroup.
pub struct LoadedPrograms {
    pub cgroup_progs: Vec<(String, String)>,
}

impl LoadedPrograms {
    /// No programs.
    pub fn new() -> (r: Self)
        ensures
            r.cgroup_progs@ == Seq::<(String, String)>::empty(),
    {
        LoadedPrograms { cgroup_progs: Vec::new() }
    }

    /// The programs that await attachment, each with its object.
    pub fn pending_cgroup_programs(&self) -> (r: &Vec<(String, String)>)
        ensures
            *r == self.cgroup_progs,
    {
        &self.cgroup_progs
    }

    /// The kernel's numbers for the map `name`, one for each object that has it, out of those
    /// that were found.
    pub fn map_ids(found: &Vec<(String, u32)>, name: &str) -> (r: Vec<u32>)
        ensures
            r@ == ids_named(found@, name@),
    {
        let mut out: Vec<u32> = Vec::new();
        let mut i: usize = 0;
        while i < found.len()
            invariant
                i <= found@.len(),
                out@ == ids_named(found@.take(i as int), name@),
            decreases found@.len() - i,
        {
            proof {
                assert(found@.take(i + 1).drop_last() =~= found@.take(i as int));
            }
            if text::same(found[i].0.as_str(), name) {
                out.push(found[i].1);
            }
            i = i + 1;
        }
        proof {
            assert(found@.take(i as int) =~= found@);
        }
        out
    }
}

/// The numbers of the entries that are called `name`.
pub open spec fn ids_named(found: Seq<(String, u32)>, name: Seq<char>) -> Seq<u32>
    decreases found.len(),
{
    if found.len() == 0 {
        Seq::empty()
    } else {
        let before = ids_named(found.drop_last(), name);
        if found.last().0@ == name {
            before.push(found.last().1)
        } else {
            before
        }
    }
}

/// The loader.
pub struct BpfLoader;

/// Something that loading asks for.
#[derive(Debug)]
pub enum LoadAct {
    /// Make the directory for the pins.
    MakePinDir,
    /// Open an object's file, and say which maps it has.
    Open { object: String, file: String },
    /// Set where a map of the opened object is pinned.
    SetPin { object: String, map: String, path: String },
    /// Load the opened object, and say which programs it has.
    Load { object: String },
    /// Remove a pin that an earlier load has left.
    RemoveStalePin(String),
    /// Pin a program, to be attached to each sandbox's cgroup later.
    PinProgram { program: String, path: String },
    /// Attach a program for as long as it is loaded.
    Attach { object: String, program: String },
}

#[verifier::ext_equal]
pub enum LoadActModel {
    MakePinDir,
    Open { object: Seq<char>, file: Seq<char> },
    SetPin { object: Seq<char>, map: Seq<char>, path: Seq<char> },
    Load { object: Seq<char> },
    RemoveStalePin(Seq<char>),
    PinProgram { program: Seq<char>, path: Seq<char> },
    Attach { object: Seq<char>, program: Seq<char> },
}

impl View for LoadAct {
    type V = LoadActModel;

    open spec fn view(&self) -> LoadActModel {
        match *self {
            LoadAct::MakePinDir => LoadActModel::MakePinDir,
            LoadAct::Open { object, file } => LoadActModel::Open { object: object@, file: file@ },
            LoadAct::SetPin { object, map, path } => LoadActModel::SetPin { object: object@, map: map@, path: path@ },
            LoadAct::Load { object } => LoadActModel::Load { object: object@ },
            LoadAct::RemoveStalePin(p) => LoadActModel::RemoveStalePin(p@),
            LoadAct::PinProgram { program, path } => LoadActModel::PinProgram { program: program@, path: path@ },
            LoadAct::Attach { object, program } => LoadActModel::Attach { object: object@, program: program@ },
        }
    }
}

/// A program of a loaded object.
#[derive(Debug)]
pub struct ProgramSeen {
    pub name: String,
    /// Whether it is one for connections out of a cgroup.
    pub is_cgroup: bool,
    /// Whether something is pinned under its name.
    pub pin_exists: bool,
}

#[verifier::ext_equal]
pub struct ProgramSeenModel {
    pub name: Seq<char>,
    pub is_cgroup: bool,
    pub pin_exists: bool,
}

impl View for ProgramSeen {
    type V = ProgramSeenModel;

    open spec fn view(&self) -> ProgramSeenModel {
        ProgramSeenModel { name: self.name@, is_cgroup: self.is_cgroup, pin_exists: self.pin_exists }
    }
}

/// What became of the last act.
#[derive(Debug)]
pub enum LoadEvent {
    Done,
    Failed(String),
    /// The object was opened, and has these maps.
    Opened(Vec<String>),
    /// The object was loaded, and has these programs.
    Loaded(Vec<ProgramSeen>),
}

/// What comes next.
#[derive(Debug)]
pub enum LoadNext {
    /// Do the act at this place of the current ones.
    Do(usize),
    Finished,
    Failed(Error),
}

/// The loading of all objects, one after the other.
pub struct Loading {
    /// Where the compiled objects are.
    pub dir: String,
    /// Which object is being loaded.
    pub object: usize,
    /// What is to be done at this stage.
    pub acts: Vec<LoadAct>,
    /// How much of it was handed out.
    pub at: usize,
    pub programs: LoadedPrograms,
}

/// Where a loading stands.
#[verifier::ext_equal]
pub struct LoadState {
    pub dir: Seq<char>,
    pub object: int,
    pub acts: Seq<LoadActModel>,
    pub at: int,
    pub waiting: Seq<(Seq<char>, Seq<char>)>,
}

/// Opens an object's file.
pub open spec fn open_act(dir: Seq<char>, object: int) -> LoadActModel {
    LoadActModel::Open { object: objects()[object], file: paths::joined(dir, objects()[object] + ".bpf.o"@) }
}

/// Pins the shared maps of an opened object, and only then loads it.
pub open spec fn load_acts(object: Seq<char>, maps: Seq<Seq<char>>) -> Seq<LoadActModel> {
    pins_for(maps).map_values(
        |p: (Seq<char>, Seq<char>)| LoadActModel::SetPin { object, map: p.0, path: p.1 },
    ).push(LoadActModel::Load { object })
}

/// What is done with a program of a loaded object: one of a cgroup is pinned for later, over no
/// stale pin, and any other is attached.
pub open spec fn program_acts(object: Seq<char>, p: ProgramSeenModel) -> Seq<LoadActModel> {
    if !p.is_cgroup {
        seq![LoadActModel::Attach { object, program: p.name }]
    } else if p.pin_exists {
        seq![
            LoadActModel::RemoveStalePin(pinned_at(p.name)),
            LoadActModel::PinProgram { program: p.name, path: pinned_at(p.name) },
        ]
    } else {
        seq![LoadActModel::PinProgram { program: p.name, path: pinned_at(p.name) }]
    }
}

/// What is done with the programs of a loaded object.
pub open spec fn programs_acts(object: Seq<char>, ps: Seq<ProgramSeenModel>) -> Seq<LoadActModel>
    decreases ps.len(),
{
    if ps.len() == 0 {
        Seq::empty()
    } else {
        programs_acts(object, ps.drop_last()) + program_acts(object, ps.last())
    }
}

/// The programs of an object that are attached to each sandbox's cgroup later.
pub open spec fn later(object: Seq<char>, ps: Seq<ProgramSeenModel>) -> Seq<(Seq<char>, Seq<char>)>
    decreases ps.len(),
{
    if ps.len() == 0 {
        Seq::empty()
    } else {
        let before = later(object, ps.drop_last());
        if ps.last().is_cgroup {
            before.push((object, ps.last().name))
        } else {
            before
        }
    }
}

/// The sentence for an act that failed.
pub open spec fn load_refusal(act: LoadActModel, m: Seq<char>) -> Seq<char> {
    match act {
        LoadActModel::MakePinDir => "mkdir "@ + PIN_DIR@ + ": "@ + m,
        LoadActModel::Open { object: _, file } => "open BPF object "@ + file + ": "@ + m,
        LoadActModel::SetPin { object, map: _, path } => "set pin path "@ + path + " for map in "@ + object + ": "@ + m,
        LoadActModel::Load { object } => "load BPF object "@ + object + ": "@ + m,
        LoadActModel::RemoveStalePin(path) => "remove stale program pin "@ + path + ": "@ + m,
        LoadActModel::PinProgram { program: _, path } => "pin program "@ + path + ": "@ + m,
        LoadActModel::Attach { object, program } => "attach "@ + program + " ("@ + object + "): "@ + m,
    }
}

/// Whether an event is one that the last act can bring.
pub open spec fn load_fits(s: LoadState, event: LoadEvent) -> bool {
    &&& 0 <= s.at <= s.acts.len()
    &&& 0 <= s.object < objects().len()
    &&& if s.at == 0 {
        event is Done
    } else {
        match s.acts[s.at - 1] {
            LoadActModel::Open { .. } => event is Opened || event is Failed,
            LoadActModel::Load { .. } => event is Loaded || event is Failed,
            _ => event is Done || event is Failed,
        }
    }
}

/// Where a loading stands once an event is taken in.
pub open spec fn taken_in(s: LoadState, event: LoadEvent) -> LoadState {
    match event {
        LoadEvent::Opened(maps) => LoadState {
            acts: load_acts(objects()[s.object], text::texts(maps@)),
            at: 0,
            ..s
        },
        LoadEvent::Loaded(ps) => LoadState {
            acts: programs_acts(objects()[s.object], crate::policy::compile::views(ps@)),
            at: 0,
            waiting: s.waiting + later(objects()[s.object], crate::policy::compile::views(ps@)),
            ..s
        },
        _ => s,
    }
}

/// Appends what is done with a program of a loaded object.
fn push_program(out: &mut Vec<LoadAct>, object: &str, p: &ProgramSeen)
    ensures
        crate::policy::compile::views(final(out)@) == crate::policy::compile::views(old(out)@) + program_acts(
            object@,
            p@,
        ),
{
    let ghost done = crate::policy::compile::views(out@);
    let name: &str = p.name.as_str();
    if !p.is_cgroup {
        out.push(LoadAct::Attach { object: object.to_owned(), program: name.to_owned() });
    } else {
        if p.pin_exists {
            out.push(LoadAct::RemoveStalePin(pin_path(name)));
        }
        out.push(LoadAct::PinProgram { program: name.to_owned(), path: pin_path(name) });
    }
    proof {
        assert(crate::policy::compile::views(out@) =~= done + program_acts(object@, p@));
    }
}

impl BpfLoader {
    /// A loader. It always comes about.
    pub fn new() -> (r: Result<Self, Error>)
        ensures
            r is Ok,
    {
        Ok(BpfLoader)
    }

    /// Begins to load all objects from the directory of the compiled ones, where there is one.
    pub fn load_and_attach(dir: Option<&str>) -> (r: Result<Loading, Error>)
        ensures
            match dir {
                None => r matches Err(e) && e@ == ErrorModel::LaunchFailed(
                    "AIVISOR_BPF_OUT_DIR not set at compile time — BPF objects were not built (see aivisor-bpf/build.rs; likely missing clang or vmlinux.h)"@,
                ),
                Some(d) => r matches Ok(l) && l.state() == (LoadState {
                    dir: d@,
                    object: 0,
                    acts: seq![LoadActModel::MakePinDir, open_act(d@, 0)],
                    at: 0,
                    waiting: Seq::empty(),
                }),
            },
    {
        match dir {
            None => Err(
                Error::LaunchFailed(
                    "AIVISOR_BPF_OUT_DIR not set at compile time — BPF objects were not built (see aivisor-bpf/build.rs; likely missing clang or vmlinux.h)".to_owned(),
                ),
            ),
            Some(d) => {
                let mut acts: Vec<LoadAct> = Vec::new();
                acts.push(LoadAct::MakePinDir);
                acts.push(Loading::open(d, 0));
                let l = Loading { dir: d.to_owned(), object: 0, acts, at: 0, programs: LoadedPrograms::new() };
                proof {
                    assert(l.state().acts =~= seq![LoadActModel::MakePinDir, open_act(d@, 0)]);
                    assert(l.state().waiting =~= Seq::empty());
                }
                Ok(l)
            },
        }
    }
}

impl Loading {
    /// Where the loading stands.
    pub open spec fn state(&self) -> LoadState {
        LoadState {
            dir: self.dir@,
            object: self.object as int,
            acts: crate::policy::compile::views(self.acts@),
            at: self.at as int,
            waiting: pair_texts(self.programs.cgroup_progs@),
        }
    }

    fn open(dir: &str, object: usize) -> (r: LoadAct)
        requires
            object < 5,
        ensures
            r@ == open_act(dir@, object as int),
    {
        let name = Self::name(object);
        let file = object_file(dir, name.as_str());
        LoadAct::Open { object: name, file }
    }

    fn name(object: usize) -> (r: String)
        requires
            object < 5,
        ensures
            r@ == objects()[object as int],
    {
        let names = object_names();
        proof {
            assert(text::texts(names@).len() == 5);
            assert(text::texts(names@)[object as int] == names@[object as int]@);
        }
        names[object].clone()
    }

    /// The sentence for an act that failed.
    fn refusal(act: &LoadAct, m: &str) -> (r: String)
        ensures
            r@ == load_refusal(act@, m@),
    {
        let mut t = match act {
            LoadAct::MakePinDir => text::cat3("mkdir ", PIN_DIR, ": "),
            LoadAct::Open { object: _, file } => text::cat3("open BPF object ", file.as_str(), ": "),
            LoadAct::SetPin { object, map: _, path } => text::cat5(
                "set pin path ",
                path.as_str(),
                " for map in ",
                object.as_str(),
                ": ",
            ),
            LoadAct::Load { object } => text::cat3("load BPF object ", object.as_str(), ": "),
            LoadAct::RemoveStalePin(path) => text::cat3("remove stale program pin ", path.as_str(), ": "),
            LoadAct::PinProgram { program: _, path } => text::cat3("pin program ", path.as_str(), ": "),
            LoadAct::Attach { object, program } => text::cat5("attach ", program.as_str(), " (", object.as_str(), "): "),
        };
        t.append(m);
        t
    }

    fn opened(&mut self, maps: &Vec<String>)
        requires
            old(self).object < 5,
        ensures
            final(self).state() == (LoadState {
                acts: load_acts(objects()[old(self).object as int], text::texts(maps@)),
                at: 0,
                ..old(self).state()
            }),
    {
        let object = Self::name(self.object);
        let pins = pin_plan(maps);
        let ghost all = pins_for(text::texts(maps@));
        let ghost want = load_acts(object@, text::texts(maps@));
        let mut acts: Vec<LoadAct> = Vec::new();
        let mut i: usize = 0;
        proof {
            assert(crate::policy::compile::views(acts@) =~= want.take(0));
        }
        while i < pins.len()
            invariant
                i <= pins@.len(),
                all == pair_texts(pins@),
                all == pins_for(text::texts(maps@)),
                want == load_acts(object@, text::texts(maps@)),
                crate::policy::compile::views(acts@) == want.take(i as int),
            decreases pins@.len() - i,
        {
            let ghost done = crate::policy::compile::views(acts@);
            acts.push(
                LoadAct::SetPin { object: object.clone(), map: pins[i].0.clone(), path: pins[i].1.clone() },
            );
            proof {
                assert(all[i as int] == (pins@[i as int].0@, pins@[i as int].1@));
                assert(crate::policy::compile::views(acts@) =~= done.push(want[i as int]));
                assert(want.take(i + 1) =~= want.take(i as int).push(want[i as int]));
            }
            i = i + 1;
        }
        let ghost done = crate::policy::compile::views(acts@);
        acts.push(LoadAct::Load { object });
        proof {
            assert(crate::policy::compile::views(acts@) =~= done.push(want.last()));
            assert(crate::policy::compile::views(acts@) =~= want);
        }
        self.acts = acts;
        self.at = 0;
    }

    fn loaded(&mut self, ps: &Vec<ProgramSeen>)
        requires
            old(self).object < 5,
        ensures
            final(self).state() == (LoadState {
                acts: programs_acts(objects()[old(self).object as int], crate::policy::compile::views(ps@)),
                at: 0,
                waiting: old(self).state().waiting + later(
                    objects()[old(self).object as int],
                    crate::policy::compile::views(ps@),
                ),
                ..old(self).state()
            }),
    {
        let object = Self::name(self.object);
        let ghost all = crate::policy::compile::views(ps@);
        let ghost before = self.state();
        let mut acts: Vec<LoadAct> = Vec::new();
        let mut i: usize = 0;
        proof {
            assert(crate::policy::compile::views(acts@) =~= programs_acts(object@, all.take(0)));
            assert(before.waiting + later(object@, all.take(0)) =~= before.waiting);
        }
        while i < ps.len()
            invariant
                i <= ps@.len(),
                all == crate::policy::compile::views(ps@),
                crate::policy::compile::views(acts@) == programs_acts(object@, all.take(i as int)),
                self.state() == (LoadState { waiting: before.waiting + later(object@, all.take(i as int)), ..before }),
            decreases ps@.len() - i,
        {
            proof {
                assert(all.take(i + 1).drop_last() =~= all.take(i as int));
                assert(all.take(i + 1).last() == ps@[i as int]@);
            }
            push_program(&mut acts, object.as_str(), &ps[i]);
            if ps[i].is_cgroup {
                let ghost held = pair_texts(self.programs.cgroup_progs@);
                self.programs.cgroup_progs.push((object.clone(), ps[i].name.clone()));
                proof {
                    assert(pair_texts(self.programs.cgroup_progs@) =~= held.push((object@, ps@[i as int].name@)));
                    assert(self.state().waiting =~= before.waiting + later(object@, all.take(i + 1)));
                }
            }
            i = i + 1;
        }
        proof {
            assert(all.take(i as int) =~= all);
        }
        self.acts = acts;
        self.at = 0;
    }

    /// Takes what became of the last act, and says what comes next. The first call is made with
    /// `Done`. The first act that fails ends the loading.
    pub fn next(&mut self, event: LoadEvent) -> (r: LoadNext)
        requires
            load_fits(old(self).state(), event),
        ensures
            match event {
                LoadEvent::Failed(m) => {
                    &&& r matches LoadNext::Failed(e) && e@ == ErrorModel::LaunchFailed(
                        load_refusal(old(self).state().acts[old(self).at - 1], m@),
                    )
                    &&& final(self).state() == old(self).state()
                },
                _ => {
                    let s = taken_in(old(self).state(), event);
                    if s.at < s.acts.len() {
                        r == LoadNext::Do(s.at as usize) && final(self).state() == (LoadState { at: s.at + 1, ..s })
                    } else if s.object + 1 < objects().len() {
                        r == LoadNext::Do(0) && final(self).state() == (LoadState {
                            object: s.object + 1,
                            acts: seq![open_act(s.dir, s.object + 1)],
                            at: 1,
                            ..s
                        })
                    } else {
                        r is Finished && final(self).state() == s
                    }
                },
            },
    {
        match event {
            LoadEvent::Failed(m) => {
                proof {
                    assert(self.state().acts[self.at - 1] == self.acts@[self.at - 1]@);
                }
                return LoadNext::Failed(Error::LaunchFailed(Self::refusal(&self.acts[self.at - 1], m.as_str())));
            },
            LoadEvent::Opened(maps) => {
                self.opened(&maps);
            },
            LoadEvent::Loaded(ps) => {
                self.loaded(&ps);
            },
            LoadEvent::Done => {},
        }
        proof {
            assert(self.state() == taken_in(old(self).state(), event));
        }
        if self.at < self.acts.len() {
            let k: usize = self.at;
            self.at = k + 1;
            LoadNext::Do(k)
        } else if self.object < 4 {
            self.object = self.object + 1;
            let mut acts: Vec<LoadAct> = Vec::new();
            acts.push(Self::open(self.dir.as_str(), self.object));
            self.acts = acts;
            self.at = 1;
            proof {
                assert(self.state().acts =~= seq![open_act(self.dir@, self.object as int)]);
            }
            LoadNext::Do(0)
        } else {
            LoadNext::Finished
        }
    }
}

/// An object is loaded only after every shared map of it was given the pin that all objects share,
/// and no other map is.
pub proof fn shared_maps_are_pinned_first(object: Seq<char>, maps: Seq<Seq<char>>, map: Seq<char>)
    ensures
        load_acts(object, maps).last() == (LoadActModel::Load { object }),
        maps.contains(map) && shared_maps().contains(map) <==> load_acts(object, maps).contains(
            LoadActModel::SetPin { object, map, path: pinned_at(map) },
        ),
{
    let acts = load_acts(object, maps);
    let pins = pins_for(maps);
    pins_are_the_shared(maps, map);
    if maps.contains(map) && shared_maps().contains(map) {
        let i = choose|i: int| 0 <= i < pins.len() && pins[i] == (map, pinned_at(map));
        assert(acts[i] == (LoadActModel::SetPin { object, map, path: pinned_at(map) }));
    }
    if acts.contains(LoadActModel::SetPin { object, map, path: pinned_at(map) }) {
        let i = choose|i: int|
            0 <= i < acts.len() && acts[i] == (LoadActModel::SetPin { object, map, path: pinned_at(map) });
        assert(i < pins.len());
        assert(pins[i] == (map, pinned_at(map)));
    }
}

proof fn pins_are_the_shared(maps: Seq<Seq<char>>, map: Seq<char>)
    ensures
        maps.contains(map) && shared_maps().contains(map) <==> exists|i: int|
            0 <= i < pins_for(maps).len() && #[trigger] pins_for(maps)[i] == (map, pinned_at(map)),
    decreases maps.len(),
{
    if maps.len() > 0 {
        let front = maps.drop_last();
        let before = pins_for(front);
        let all = pins_for(maps);
        pins_are_the_shared(front, map);
        if front.contains(map) {
            let k = choose|k: int| 0 <= k < front.len() && front[k] == map;
            assert(maps[k] == map);
        }
        if maps.last() == map {
            assert(maps[maps.len() - 1] == map);
        }
        if maps.contains(map) && maps.last() != map {
            let k = choose|k: int| 0 <= k < maps.len() && maps[k] == map;
            assert(front[k] == map);
        }
        assert forall|i: int| 0 <= i < before.len() implies all[i] == #[trigger] before[i] by {}
        if maps.contains(map) && shared_maps().contains(map) {
            if maps.last() == map {
                assert(all[before.len() as int] == (map, pinned_at(map)));
            } else {
                let i = choose|i: int| 0 <= i < before.len() && #[trigger] before[i] == (map, pinned_at(map));
                assert(all[i] == (map, pinned_at(map)));
            }
        }
        if exists|i: int| 0 <= i < all.len() && #[trigger] all[i] == (map, pinned_at(map)) {
            let i = choose|i: int| 0 <= i < all.len() && #[trigger] all[i] == (map, pinned_at(map));
            if i < before.len() {
                assert(before[i] == (map, pinned_at(map)));
            }
        }
    }
}

/// Every program of a loaded object is attached at once or waits for the sandboxes' cgroups.
pub proof fn no_program_is_left_out(object: Seq<char>, ps: Seq<ProgramSeenModel>, k: int)
    requires
        0 <= k < ps.len(),
    ensures
        !ps[k].is_cgroup ==> programs_acts(object, ps).contains(
            LoadActModel::Attach { object, program: ps[k].name },
        ),
        ps[k].is_cgroup ==> programs_acts(object, ps).contains(
            LoadActModel::PinProgram { program: ps[k].name, path: pinned_at(ps[k].name) },
        ) && later(object, ps).contains((object, ps[k].name)),
    decreases ps.len(),
{
    let front = ps.drop_last();
    let before = programs_acts(object, front);
    let all = programs_acts(object, ps);
    let own = program_acts(object, ps.last());
    if k < front.len() {
        no_program_is_left_out(object, front, k);
        assert(front[k] == ps[k]);
        let want = if ps[k].is_cgroup {
            LoadActModel::PinProgram { program: ps[k].name, path: pinned_at(ps[k].name) }
        } else {
            LoadActModel::Attach { object, program: ps[k].name }
        };
        let i = choose|i: int| 0 <= i < before.len() && before[i] == want;
        assert(all[i] == want);
        if ps[k].is_cgroup {
            let l = later(object, front);
            let j = choose|j: int| 0 <= j < l.len() && l[j] == (object, ps[k].name);
            assert(later(object, ps)[j] == (object, ps[k].name));
        }
    } else {
        assert(all[before.len() + own.len() - 1] == own.last());
        if ps[k].is_cgroup {
            assert(later(object, ps)[later(object, front).len() as int] == (object, ps[k].name));
        }
    }
}

/// Where attaching a program to a cgroup was refused.
#[derive(Debug, Clone, Copy, PartialEq, Eq, Structural)]
pub enum AttachStage {
    OpenPin,
    Duplicate,
    Attach,
}

/// The sentence for a program that could not be attached to a cgroup.
pub fn attach_refusal(stage: AttachStage, program: &str, m: &str) -> (r: String)
    ensures
        r@ == (match stage {
            AttachStage::OpenPin => "open pinned program "@ + pinned_at(program@) + ": "@,
            AttachStage::Duplicate => "dup cgroup fd for "@ + program@ + ": "@,
            AttachStage::Attach => "bpf_prog_attach "@ + program@ + ": "@,
        }) + m@,
{
    let mut t = match stage {
        AttachStage::OpenPin => text::cat3("open pinned program ", pin_path(program).as_str(), ": "),
        AttachStage::Duplicate => text::cat3("dup cgroup fd for ", program, ": "),
        AttachStage::Attach => text::cat3("bpf_prog_attach ", program, ": "),
    };
    t.append(m);
    t
}

/// What kind of connection a cgroup hook gates.
#[derive(Debug, Clone, Copy, PartialEq, Eq, Structural)]
pub enum CgroupAttach {
    Inet4Connect,
    Inet6Connect,
}

/// The hooks of each sandbox's cgroup.
pub open spec fn cgroup_hooks() -> Seq<(Seq<char>, CgroupAttach)> {
    seq![
        ("aivisor_cgroup_connect4"@, CgroupAttach::Inet4Connect),
        ("aivisor_cgroup_connect6"@, CgroupAttach::Inet6Connect),
    ]
}

/// The hooks of each sandbox's cgroup: the program's name and what it gates.
pub fn hooks() -> (r: Vec<(String, CgroupAttach)>)
    ensures
        r@.len() == 2,
        forall|i: int| 0 <= i < 2 ==> (#[trigger] r@[i]).0@ == cgroup_hooks()[i].0 && r@[i].1 == cgroup_hooks()[i].1,
{
    let mut v: Vec<(String, CgroupAttach)> = Vec::new();
    v.push(("aivisor_cgroup_connect4".to_owned(), CgroupAttach::Inet4Connect));
    v.push(("aivisor_cgroup_connect6".to_owned(), CgroupAttach::Inet6Connect));
    v
}

/// What attaching a sandbox's hooks comes to after some of them were tried.
#[derive(Debug)]
pub enum AttachStep {
    /// The hook with this position is next.
    Try(usize),
    /// All are attached.
    Attached,
    /// One failed; those before this position are detached again.
    DetachBefore(usize, Error),
}

/// What follows the attempts so far: all hooks or none. With only one of them attached, the
/// other family's connections would go unchecked.
pub fn attach_cgroup_hooks(tried: usize, last: Result<(), String>) -> (r: AttachStep)
    requires
        tried <= 2,
        tried == 0 ==> last is Ok,
    ensures
        match last {
            Err(m) => r matches AttachStep::DetachBefore(n, e) && n == tried - 1 && e@ == ErrorModel::LaunchFailed(m@),
            Ok(_) => if tried == 2 {
                r is Attached
            } else {
                r == AttachStep::Try(tried)
            },
        },
{
    match last {
        Err(m) => AttachStep::DetachBefore(tried - 1, Error::LaunchFailed(m)),
        Ok(_) => if tried == 2 {
            AttachStep::Attached
        } else {
            AttachStep::Try(tried)
        },
    }
}

} // verus!
