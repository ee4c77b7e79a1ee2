use rit::path_to_hash::PathToHash;
use rit::record::{record_added_files, zipped_file_path, AddedFilesRecording, RecordAction, RecordEvent};

#[test]
fn zipped_file_path_is_in_the_objects_folder() {
    assert_eq!(zipped_file_path(".rit", "abc"), ".rit/objs/abc".to_string());
}

#[test]
fn recording_archives_unstored_files_and_writes_the_log() {
    let mut p = PathToHash::new();
    p.record_new_entry("h0", "old.txt");
    let mut rec = AddedFilesRecording::new(".rit", vec!["./dir/a.txt".to_string(), "./b.txt".to_string()]);
    let folder = ".rit".to_string();

    let a = record_added_files(&mut rec, &mut p, &folder, RecordEvent::Start);
    assert!(matches!(a, RecordAction::CreateObjFolder(ref o) if o == ".rit/objs/"));

    let a = record_added_files(&mut rec, &mut p, &folder, RecordEvent::ObjFolderReady(true));
    match a {
        RecordAction::SearchObjFolder { obj_folder, file_name } => {
            assert_eq!(obj_folder, ".rit/objs/".to_string());
            assert_eq!(file_name, "a.txt".to_string());
        }
        _ => panic!("expected a search"),
    }

    // a.txt is not stored yet: it is read, hashed and stored.
    let a = record_added_files(&mut rec, &mut p, &folder, RecordEvent::Searched(false));
    assert!(matches!(a, RecordAction::ReadFile(ref f) if f == "./dir/a.txt"));
    let a = record_added_files(&mut rec, &mut p, &folder, RecordEvent::FileRead(Some(b"abc".to_vec())));
    let hash = "ba7816bf8f01cfea414140de5dae2223b00361a396177a9cb410ff61f20015ad".to_string();
    match a {
        RecordAction::StoreObject { object_name, obj_folder, object_path, file_path } => {
            assert_eq!(object_name, hash);
            assert_eq!(obj_folder, ".rit/objs/".to_string());
            assert_eq!(object_path, format!(".rit/objs/{}", hash));
            assert_eq!(file_path, "./dir/a.txt".to_string());
        }
        _ => panic!("expected the object to be stored"),
    }
    let a = record_added_files(&mut rec, &mut p, &folder, RecordEvent::Stored(true));
    assert!(matches!(a, RecordAction::SearchObjFolder { ref file_name, .. } if file_name == "b.txt"));
    assert_eq!(p.get_hash("./dir/a.txt"), Some(hash.as_str()));

    // b.txt is stored already: it is left alone.
    let a = record_added_files(&mut rec, &mut p, &folder, RecordEvent::Searched(true));
    match a {
        RecordAction::AppendLog { log_path, lines } => {
            assert_eq!(log_path, ".rit/path_to_hash.txt".to_string());
            assert_eq!(lines, vec!["h0 old.txt\n".to_string(), format!("{} ./dir/a.txt\n", hash)]);
        }
        _ => panic!("expected the log"),
    }
    assert_eq!(p.get_hash("./b.txt"), None);
    assert!(matches!(record_added_files(&mut rec, &mut p, &folder, RecordEvent::LogAppended), RecordAction::Done(true)));
}

#[test]
fn recording_fails_when_a_step_fails() {
    let mut p = PathToHash::new();
    let folder = ".rit".to_string();
    let mut rec = AddedFilesRecording::new(".rit", vec!["a.txt".to_string()]);
    assert!(matches!(
        record_added_files(&mut rec, &mut p, &folder, RecordEvent::ObjFolderReady(false)),
        RecordAction::Done(false)
    ));
    let mut rec = AddedFilesRecording::new(".rit", vec!["a.txt".to_string()]);
    record_added_files(&mut rec, &mut p, &folder, RecordEvent::ObjFolderReady(true));
    record_added_files(&mut rec, &mut p, &folder, RecordEvent::Searched(false));
    assert!(matches!(
        record_added_files(&mut rec, &mut p, &folder, RecordEvent::FileRead(None)),
        RecordAction::Done(false)
    ));
    let mut rec = AddedFilesRecording::new(".rit", vec!["a.txt".to_string()]);
    record_added_files(&mut rec, &mut p, &folder, RecordEvent::ObjFolderReady(true));
    record_added_files(&mut rec, &mut p, &folder, RecordEvent::Searched(false));
    record_added_files(&mut rec, &mut p, &folder, RecordEvent::FileRead(Some(Vec::new())));
    assert!(matches!(
        record_added_files(&mut rec, &mut p, &folder, RecordEvent::Stored(false)),
        RecordAction::Done(false)
    ));
    assert_eq!(p.len(), 0);
    let mut rec = AddedFilesRecording::new(".rit", vec!["..".to_string()]);
    assert!(matches!(
        record_added_files(&mut rec, &mut p, &folder, RecordEvent::ObjFolderReady(true)),
        RecordAction::Done(false)
    ));
}

#[test]
fn recording_nothing_writes_the_whole_log() {
    let mut p = PathToHash::new();
    p.record_new_entry("h", "x");
    let mut rec = AddedFilesRecording::new(".rit", Vec::new());
    let a = record_added_files(&mut rec, &mut p, &".rit".to_string(), RecordEvent::ObjFolderReady(true));
    assert!(matches!(a, RecordAction::AppendLog { ref lines, .. } if lines == &vec!["h x\n".to_string()]));
}

#[test]
fn recording_needs_a_relative_metadata_folder() {
    let mut p = PathToHash::new();
    let folder = "/tmp/proj/.rit".to_string();
    let mut rec = AddedFilesRecording::new("/tmp/proj/.rit", vec!["a.txt".to_string()]);
    assert!(matches!(record_added_files(&mut rec, &mut p, &folder, RecordEvent::Start), RecordAction::Done(false)));
    assert_eq!(p.len(), 0);
    let mut rec = AddedFilesRecording::new("../.rit", vec!["a.txt".to_string()]);
    assert!(matches!(
        record_added_files(&mut rec, &mut p, &folder, RecordEvent::Start),
        RecordAction::CreateObjFolder(ref o) if o == "../.rit/objs/"
    ));
}

#[test]
fn recording_stops_at_a_path_without_a_file_name() {
    let mut p = PathToHash::new();
    let folder = ".rit".to_string();
    let mut rec = AddedFilesRecording::new(".rit", vec!["a.txt".to_string(), "/".to_string(), "c.txt".to_string()]);
    record_added_files(&mut rec, &mut p, &folder, RecordEvent::ObjFolderReady(true));
    assert!(matches!(record_added_files(&mut rec, &mut p, &folder, RecordEvent::Searched(true)), RecordAction::Done(false)));
    assert_eq!(p.len(), 0);
}

#[test]
fn first_step_and_file_step_follow_their_inputs() {
    let rec = AddedFilesRecording::new(".rit", vec!["a.txt".to_string()]);
    assert!(matches!(rec.start_action(false), RecordAction::Done(false)));
    assert!(matches!(rec.start_action(true), RecordAction::CreateObjFolder(ref o) if o == ".rit/objs/"));
    assert!(matches!(rec.file_action(None), RecordAction::Done(false)));
    match rec.file_action(Some("x.txt".to_string())) {
        RecordAction::SearchObjFolder { obj_folder, file_name } => {
            assert_eq!(obj_folder, ".rit/objs/".to_string());
            assert_eq!(file_name, "x.txt".to_string());
        }
        _ => panic!("expected a search"),
    }
}

#[test]
fn recording_searches_for_the_last_component_of_a_path() {
    let mut p = PathToHash::new();
    let folder = ".rit".to_string();
    let mut rec = AddedFilesRecording::new("rit_meta", vec!["src/b.rs".to_string()]);
    assert!(matches!(
        record_added_files(&mut rec, &mut p, &folder, RecordEvent::Start),
        RecordAction::CreateObjFolder(ref o) if o == "rit_meta/objs/"
    ));
    match record_added_files(&mut rec, &mut p, &folder, RecordEvent::ObjFolderReady(true)) {
        RecordAction::SearchObjFolder { obj_folder, file_name } => {
            assert_eq!(obj_folder, "rit_meta/objs/".to_string());
            assert_eq!(file_name, "b.rs".to_string());
        }
        _ => panic!("expected a search"),
    }
}

#[test]
fn recording_names_absolute_file_paths_by_their_last_component() {
    let mut p = PathToHash::new();
    let folder = ".rit".to_string();
    let mut rec = AddedFilesRecording::new(".rit", vec!["/home/u/p/a.txt".to_string(), ".".to_string()]);
    match record_added_files(&mut rec, &mut p, &folder, RecordEvent::ObjFolderReady(true)) {
        RecordAction::SearchObjFolder { obj_folder, file_name } => {
            assert_eq!(obj_folder, ".rit/objs/".to_string());
            assert_eq!(file_name, "a.txt".to_string());
        }
        _ => panic!("expected a search"),
    }
    // "." names no file: recording stops there.
    assert!(matches!(record_added_files(&mut rec, &mut p, &folder, RecordEvent::Searched(true)), RecordAction::Done(false)));
    assert_eq!(p.len(), 0);
}
