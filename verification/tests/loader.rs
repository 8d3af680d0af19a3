use aivisor::bpf::loader::{
    attach_cgroup_hooks, attach_refusal, hooks, is_shared_map, object_file, object_names, pin_path, pin_plan,
    AttachStage, AttachStep, BpfLoader, CgroupAttach, LoadAct, LoadEvent, LoadNext, LoadedPrograms, ProgramSeen,
};

fn texts(v: &[&str]) -> Vec<String> {
    v.iter().map(|s| s.to_string()).collect()
}

#[test]
fn shared_maps_are_pinned_and_an_objects_own_data_is_not() {
    assert_eq!(object_names(), vec!["fs", "exec", "net", "priv", "task"]);
    assert_eq!(object_file("/out", "fs"), "/out/fs.bpf.o");
    assert_eq!(pin_path("events"), "/sys/fs/bpf/aivisor/events");
    assert!(is_shared_map("sandboxes"));
    assert!(!is_shared_map(".rodata"));
    assert_eq!(
        pin_plan(&texts(&["sandboxes", ".bss", "events"])),
        vec![
            ("sandboxes".to_string(), "/sys/fs/bpf/aivisor/sandboxes".to_string()),
            ("events".to_string(), "/sys/fs/bpf/aivisor/events".to_string()),
        ]
    );
}

#[test]
fn objects_are_opened_pinned_loaded_and_attached_one_after_the_other() {
    assert!(BpfLoader::new().is_ok());
    assert!(BpfLoader::load_and_attach(None).is_err());
    let mut l = match BpfLoader::load_and_attach(Some("/out")) {
        Ok(l) => l,
        Err(e) => panic!("{}", e.to_string()),
    };
    let mut done = vec![];
    let mut event = LoadEvent::Done;
    loop {
        match l.next(event) {
            LoadNext::Do(i) => {
                let act = &l.acts[i];
                done.push(format!("{act:?}"));
                event = match act {
                    LoadAct::Open { .. } => LoadEvent::Opened(texts(&["sandboxes", ".rodata"])),
                    LoadAct::Load { object } => LoadEvent::Loaded(if object == "net" {
                        vec![
                            ProgramSeen { name: "c4".into(), is_cgroup: true, pin_exists: true },
                            ProgramSeen { name: "c6".into(), is_cgroup: true, pin_exists: false },
                        ]
                    } else {
                        vec![ProgramSeen { name: "p".into(), is_cgroup: false, pin_exists: false }]
                    }),
                    _ => LoadEvent::Done,
                };
            }
            LoadNext::Finished => break,
            LoadNext::Failed(e) => panic!("{}", e.to_string()),
        }
    }
    assert!(done[0].starts_with("MakePinDir"));
    assert!(done[1].starts_with("Open") && done[1].contains("/out/fs.bpf.o"));
    assert!(done[2].starts_with("SetPin"));
    assert!(done[3].starts_with("Load"));
    assert!(done[4].starts_with("Attach"));
    assert!(done[5].starts_with("Open") && done[5].contains("/out/exec.bpf.o"));
    // Four objects with one program each, and one with two programs for cgroups and a stale pin.
    assert_eq!(done.len(), 1 + 4 * 4 + 6);
    assert_eq!(
        *l.programs.pending_cgroup_programs(),
        vec![("net".to_string(), "c4".to_string()), ("net".to_string(), "c6".to_string())]
    );
}

#[test]
fn the_first_act_that_fails_ends_the_loading() {
    let mut l = match BpfLoader::load_and_attach(Some("/out")) {
        Ok(l) => l,
        Err(e) => panic!("{}", e.to_string()),
    };
    assert!(matches!(l.next(LoadEvent::Done), LoadNext::Do(0)));
    assert!(matches!(l.next(LoadEvent::Done), LoadNext::Do(1)));
    match l.next(LoadEvent::Failed("ENOENT".into())) {
        LoadNext::Failed(e) => assert_eq!(e.to_string(), "launch failed: open BPF object /out/fs.bpf.o: ENOENT"),
        other => panic!("{other:?}"),
    }
}

#[test]
fn a_cgroup_gets_both_hooks_or_none() {
    let h = hooks();
    assert_eq!(h[0], ("aivisor_cgroup_connect4".to_string(), CgroupAttach::Inet4Connect));
    assert_eq!(h[1], ("aivisor_cgroup_connect6".to_string(), CgroupAttach::Inet6Connect));
    assert!(matches!(attach_cgroup_hooks(0, Ok(())), AttachStep::Try(0)));
    assert!(matches!(attach_cgroup_hooks(1, Ok(())), AttachStep::Try(1)));
    assert!(matches!(attach_cgroup_hooks(2, Ok(())), AttachStep::Attached));
    match attach_cgroup_hooks(2, Err("x".into())) {
        AttachStep::DetachBefore(1, e) => assert_eq!(e.to_string(), "launch failed: x"),
        other => panic!("{other:?}"),
    }
    assert_eq!(
        attach_refusal(AttachStage::OpenPin, "p", "m"),
        "open pinned program /sys/fs/bpf/aivisor/p: m"
    );
    assert_eq!(attach_refusal(AttachStage::Duplicate, "p", "m"), "dup cgroup fd for p: m");
    assert_eq!(attach_refusal(AttachStage::Attach, "p", "m"), "bpf_prog_attach p: m");
}

#[test]
fn map_numbers_are_found_by_name() {
    let found = vec![("a".to_string(), 1), ("b".to_string(), 2), ("a".to_string(), 3)];
    assert_eq!(LoadedPrograms::map_ids(&found, "a"), vec![1, 3]);
    assert!(LoadedPrograms::new().pending_cgroup_programs().is_empty());
}
