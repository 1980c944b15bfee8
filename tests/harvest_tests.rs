use core_dump_agent::harvest::{
    advance, candidates, harvest_pass, upload_key, DumpFile, Entry, Outcome, Stage, Store,
};

fn file(name: &str, len: usize, locked: bool) -> DumpFile {
    DumpFile { name: name.to_string(), content: vec![7u8; len], locked }
}

fn names(dir: &[DumpFile]) -> Vec<String> {
    dir.iter().map(|f| f.name.clone()).collect()
}

fn keys(store: &Store) -> Vec<String> {
    store.uploads.iter().map(|o| o.key.clone()).collect()
}

#[test]
fn stage_machine_table() {
    assert_eq!(advance(Stage::Lock, true), Stage::Read);
    assert_eq!(advance(Stage::Lock, false), Stage::Done(Outcome::Busy));
    assert_eq!(advance(Stage::Read, true), Stage::Upload);
    assert_eq!(advance(Stage::Read, false), Stage::Done(Outcome::ReadFailed));
    assert_eq!(advance(Stage::Upload, true), Stage::Delete);
    assert_eq!(advance(Stage::Upload, false), Stage::Done(Outcome::UploadFailed));
    assert_eq!(advance(Stage::Delete, true), Stage::Done(Outcome::Harvested));
    assert_eq!(advance(Stage::Delete, false), Stage::Done(Outcome::Uploaded));
}

#[test]
fn scanner_skips_directories() {
    let entries = vec![
        Entry { path: "/d/core.1".to_string(), is_dir: false },
        Entry { path: "/d/sub".to_string(), is_dir: true },
        Entry { path: "/d/core.2".to_string(), is_dir: false },
    ];
    assert_eq!(candidates(&entries), vec!["/d/core.1".to_string(), "/d/core.2".to_string()]);
    assert_eq!(candidates(&Vec::new()), Vec::<String>::new());
}

#[test]
fn upload_key_is_the_base_name() {
    assert_eq!(upload_key("/var/mnt/core/core.123"), Some("core.123".to_string()));
    assert_eq!(upload_key("core.9"), Some("core.9".to_string()));
    assert_eq!(upload_key("/var/mnt/core/"), None);
    assert_eq!(upload_key(""), None);
}

#[test]
fn scenario_single_unlocked_file_is_harvested() {
    let mut dir = vec![file("core.123", 10, false)];
    let mut store = Store::new(Vec::new());
    harvest_pass(&mut dir, &mut store);
    assert_eq!(keys(&store), vec!["core.123".to_string()]);
    assert_eq!(store.uploads[0].content.len(), 10);
    assert!(dir.is_empty());
}

#[test]
fn scenario_locked_file_is_left_alone() {
    let mut dir = vec![file("core.123", 4, true), file("core.456", 5, false)];
    let mut store = Store::new(Vec::new());
    harvest_pass(&mut dir, &mut store);
    assert_eq!(keys(&store), vec!["core.456".to_string()]);
    assert_eq!(names(&dir), vec!["core.123".to_string()]);
    assert_eq!(dir[0].content.len(), 4);
}

#[test]
fn failed_upload_keeps_file_for_next_pass() {
    let mut dir = vec![file("core.1", 3, false)];
    let mut store = Store::new(vec!["core.1".to_string()]);
    harvest_pass(&mut dir, &mut store);
    assert!(store.uploads.is_empty());
    assert_eq!(names(&dir), vec!["core.1".to_string()]);
    store.failing.clear();
    harvest_pass(&mut dir, &mut store);
    assert_eq!(keys(&store), vec!["core.1".to_string()]);
    assert!(dir.is_empty());
    harvest_pass(&mut dir, &mut store);
    assert_eq!(store.uploads.len(), 1);
}

#[test]
fn one_failure_does_not_stop_the_others() {
    let mut dir: Vec<DumpFile> = (0..5).map(|i| file(&format!("core.{}", i), i + 1, false)).collect();
    let mut store = Store::new(vec!["core.2".to_string()]);
    harvest_pass(&mut dir, &mut store);
    assert_eq!(
        keys(&store),
        vec!["core.0", "core.1", "core.3", "core.4"].into_iter().map(String::from).collect::<Vec<_>>()
    );
    assert_eq!(names(&dir), vec!["core.2".to_string()]);
}

#[test]
fn empty_directory_uploads_nothing() {
    let mut dir: Vec<DumpFile> = Vec::new();
    let mut store = Store::new(Vec::new());
    harvest_pass(&mut dir, &mut store);
    assert!(store.uploads.is_empty());
    assert!(dir.is_empty());
}
