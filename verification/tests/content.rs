use oneclient_logic::content_sync::{
    plan_content_sync, plan_without_folders, ArtifactPresence, KeptArtifact, SyncAction,
};
use oneclient_logic::relocation::{
    clean_file_name, dedup_candidates, disabled_file_name, manifest_entries_to_keep, plan_disable, plan_enable, Folder,
    Observation, RelocationRun, Step,
};

fn item(same_type: bool, enabled: bool, in_active: bool, in_disabled: bool) -> ArtifactPresence {
    ArtifactPresence { same_type, enabled, in_active, in_disabled }
}

#[test]
fn files_gone_from_both_folders_are_unlinked() {
    let plan = plan_content_sync(&vec![item(true, true, false, false)]);
    assert!(plan.kept.is_empty());
    assert_eq!(plan.actions, vec![SyncAction::Unlink { index: 0 }]);
}

#[test]
fn the_folder_decides_the_enabled_state() {
    let items = vec![
        item(true, true, false, true),
        item(true, false, true, false),
        item(true, true, true, false),
        item(true, false, true, true),
        item(false, true, false, false),
        item(true, false, false, true),
    ];
    let plan = plan_content_sync(&items);
    assert_eq!(
        plan.kept,
        vec![
            KeptArtifact { index: 0, enabled: false },
            KeptArtifact { index: 1, enabled: true },
            KeptArtifact { index: 2, enabled: true },
            KeptArtifact { index: 3, enabled: false },
            KeptArtifact { index: 5, enabled: false },
        ]
    );
    assert_eq!(
        plan.actions,
        vec![
            SyncAction::SetEnabled { index: 0, enabled: false },
            SyncAction::SetEnabled { index: 1, enabled: true },
        ]
    );
}

#[test]
fn a_second_sync_changes_nothing() {
    let items = vec![
        item(true, true, false, true),
        item(true, false, true, false),
        item(true, true, false, false),
        item(true, true, true, true),
        item(false, false, true, false),
    ];
    let first = plan_content_sync(&items);
    let next: Vec<ArtifactPresence> = first
        .kept
        .iter()
        .map(|k| ArtifactPresence { enabled: k.enabled, ..items[k.index] })
        .collect();
    let second = plan_content_sync(&next);
    assert!(second.actions.is_empty());
    assert_eq!(second.kept.len(), next.len());
    for (i, k) in second.kept.iter().enumerate() {
        assert_eq!(*k, KeptArtifact { index: i, enabled: next[i].enabled });
    }
}

#[test]
fn without_folders_only_the_type_filters() {
    let items = vec![item(true, true, false, false), item(false, true, true, false), item(true, false, true, true)];
    let plan = plan_without_folders(&items);
    assert_eq!(
        plan.kept,
        vec![KeptArtifact { index: 0, enabled: true }, KeptArtifact { index: 2, enabled: false }]
    );
    assert!(plan.actions.is_empty());
}

#[test]
fn disabled_names_are_normalised() {
    assert_eq!(clean_file_name("sodium.jar.disabled"), "sodium.jar");
    assert_eq!(clean_file_name("sodium.jar.disabled.disabled"), "sodium.jar");
    assert_eq!(clean_file_name("sodium.jar"), "sodium.jar");
    assert_eq!(disabled_file_name("sodium.jar"), "sodium.jar.disabled");
    assert_eq!(disabled_file_name("sodium.jar.disabled.disabled"), "sodium.jar.disabled");
}

#[test]
fn consecutive_duplicate_directories_are_tried_once() {
    let a = Some("home/.oneclient/a".to_string());
    let b = Some("home/.minecraft".to_string());
    assert_eq!(dedup_candidates(&vec![a.clone(), a.clone(), None, b.clone(), b.clone()]), vec![0, 2, 3]);
    assert_eq!(dedup_candidates(&vec![None, None, None]), vec![0]);
    assert_eq!(dedup_candidates(&vec![a.clone(), b.clone(), a.clone()]), vec![0, 1, 2]);
    assert!(dedup_candidates(&vec![]).is_empty());
}

#[test]
fn disabling_looks_in_the_active_folder() {
    let plan = plan_disable("iris.jar.disabled");
    let got: Vec<(Folder, &str)> = plan.sources.iter().map(|f| (f.folder, f.name.as_str())).collect();
    assert_eq!(
        got,
        vec![
            (Folder::Active, "iris.jar.disabled"),
            (Folder::Active, "iris.jar"),
            (Folder::Active, "iris.jar.disabled"),
        ]
    );
    assert_eq!((plan.dest.folder, plan.dest.name.as_str()), (Folder::Disabled, "iris.jar"));
    assert!(!plan.skip_dest_source);
}

#[test]
fn enabling_looks_in_the_disabled_folder_first() {
    let plan = plan_enable("iris.jar");
    let got: Vec<(Folder, &str)> = plan.sources.iter().map(|f| (f.folder, f.name.as_str())).collect();
    assert_eq!(
        got,
        vec![
            (Folder::Disabled, "iris.jar"),
            (Folder::Disabled, "iris.jar"),
            (Folder::Disabled, "iris.jar.disabled"),
            (Folder::Active, "iris.jar.disabled"),
        ]
    );
    assert_eq!((plan.dest.folder, plan.dest.name.as_str()), (Folder::Active, "iris.jar"));
    assert!(plan.skip_dest_source);
}

#[test]
fn a_run_moves_what_it_finds_and_remembers_it() {
    let plan = plan_disable("a.jar");
    let mut run = RelocationRun::new(&plan);
    assert_eq!(run.step(), Step::Probe { source: 0 });
    run.observe(Observation::Probed { exists: false, is_dest: false });
    assert_eq!(run.step(), Step::Probe { source: 1 });
    run.observe(Observation::Probed { exists: true, is_dest: false });
    assert_eq!(run.step(), Step::Copy { source: 1 });
    run.observe(Observation::Copied { ok: false });
    assert_eq!(run.step(), Step::CheckDest { source: 1 });
    run.observe(Observation::DestChecked { exists: true });
    assert_eq!(run.step(), Step::Remove { source: 1 });
    assert!(!run.moved());
    run.observe(Observation::Removed { still_there: true });
    assert!(run.moved());
    assert_eq!(run.step(), Step::ForceRemove { source: 1 });
    run.observe(Observation::ForceRemoved);
    assert_eq!(run.step(), Step::Probe { source: 2 });
    run.observe(Observation::Probed { exists: true, is_dest: false });
    run.observe(Observation::Copied { ok: false });
    run.observe(Observation::DestChecked { exists: false });
    assert_eq!(run.step(), Step::DirDone);
    run.next_directory();
    assert_eq!(run.step(), Step::Probe { source: 0 });
    assert!(run.moved());
}

#[test]
fn an_observation_out_of_turn_changes_nothing() {
    let plan = plan_enable("a.jar");
    let mut run = RelocationRun::new(&plan);
    run.observe(Observation::Copied { ok: true });
    assert_eq!(run.step(), Step::Probe { source: 0 });
    run.observe(Observation::Removed { still_there: false });
    assert!(!run.moved());
}

#[test]
fn the_destination_is_never_copied_onto_itself_when_enabling() {
    let plan = plan_enable("a.jar");
    let mut run = RelocationRun::new(&plan);
    for source in 0..4 {
        assert_eq!(run.step(), Step::Probe { source });
        run.observe(Observation::Probed { exists: true, is_dest: true });
    }
    assert_eq!(run.step(), Step::DirDone);
    assert!(!run.moved());
    let plan = plan_disable("a.jar");
    let mut run = RelocationRun::new(&plan);
    run.observe(Observation::Probed { exists: true, is_dest: true });
    assert_eq!(run.step(), Step::Copy { source: 0 });
}

#[test]
fn file_names_settle_at_once() {
    for name in ["a.jar", "a.jar.disabled", "a.jar.disabled.disabled", ".disabled", ""] {
        let clean = clean_file_name(name);
        let disabled = disabled_file_name(name);
        assert_eq!(clean_file_name(clean), clean);
        assert_eq!(clean_file_name(&disabled), clean);
        assert_eq!(disabled_file_name(&disabled), disabled);
    }
}

#[test]
fn pruning_keeps_every_other_manifest_entry() {
    let paths = vec!["mods/a.jar".to_string(), "mods/b.jar".to_string(), "mods/a.jar".to_string()];
    assert_eq!(manifest_entries_to_keep(&paths, "mods/a.jar"), vec![false, true, false]);
    assert_eq!(manifest_entries_to_keep(&paths, "mods/c.jar"), vec![true, true, true]);
    assert!(manifest_entries_to_keep(&vec![], "x").is_empty());
}

#[test]
fn enabling_looks_where_disabling_put_the_file() {
    for asked in ["sodium.jar", "sodium.jar.disabled"] {
        let off = plan_disable(asked);
        let on = plan_enable(asked);
        let off_dest = (off.dest.folder, off.dest.name.as_str());
        assert!(on.sources.iter().any(|f| (f.folder, f.name.as_str()) == off_dest));
        let on_dest = (on.dest.folder, on.dest.name.as_str());
        assert_eq!(on_dest, (off.sources[1].folder, off.sources[1].name.as_str()));
        assert_eq!(on_dest, (Folder::Active, "sodium.jar"));
        assert_eq!(off_dest, (Folder::Disabled, "sodium.jar"));
    }
}
