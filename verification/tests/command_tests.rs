use rit::commands::{
    add_files, command_action, command_from_name, init_metadata, normalize, nuke_confirmed,
    only_add_changed_file, pattern_is_match, should_be_ignored, AddFilesStep, CommandAction,
    CommandType,
};
use rit::path_to_hash::PathToHash;
use rit::storage::read_metadata;
use rit::utils::hash_file;

#[test]
fn command_names() {
    assert_eq!(command_from_name("init"), Some(CommandType::Init));
    assert_eq!(command_from_name("nuke"), Some(CommandType::Nuke));
    assert_eq!(command_from_name("add"), Some(CommandType::Add));
    assert_eq!(command_from_name("commit"), Some(CommandType::Commit));
    assert_eq!(command_from_name("rm"), Some(CommandType::Remove));
    assert_eq!(command_from_name("remove"), None);
    assert_eq!(command_from_name("Add"), None);
    assert_eq!(command_from_name(""), None);
}

#[test]
fn normalize_trims_and_lowercases() {
    assert_eq!(normalize("  ADD\n"), "add".to_string());
    assert_eq!(normalize("-V"), "-v".to_string());
}

#[test]
fn command_actions() {
    assert_eq!(command_action(CommandType::Init, false), CommandAction::InitMetadata);
    assert_eq!(command_action(CommandType::Init, true), CommandAction::InitMetadata);
    assert_eq!(command_action(CommandType::Add, false), CommandAction::MetadataMissing);
    assert_eq!(command_action(CommandType::Add, true), CommandAction::Add);
    assert_eq!(command_action(CommandType::Nuke, true), CommandAction::Nuke);
    assert_eq!(command_action(CommandType::Commit, true), CommandAction::Commit);
    assert_eq!(command_action(CommandType::Remove, true), CommandAction::Nothing);
    assert_eq!(command_action(CommandType::Unknown, true), CommandAction::Nothing);
    assert_eq!(command_action(CommandType::Unknown, false), CommandAction::MetadataMissing);
}

#[test]
fn init_metadata_cases() {
    assert_eq!(init_metadata(Some("../.rit".to_string()), false), Some("../.rit".to_string()));
    assert_eq!(init_metadata(None, true), Some(".rit".to_string()));
    assert_eq!(init_metadata(None, false), None);
}

#[test]
fn nuke_needs_a_yes() {
    assert!(nuke_confirmed("y\n"));
    assert!(nuke_confirmed("  Y  "));
    assert!(!nuke_confirmed("yes"));
    assert!(!nuke_confirmed("n"));
    assert!(!nuke_confirmed(""));
}

#[test]
fn patterns_match_by_occurrence() {
    assert!(pattern_is_match("target", "./target/debug"));
    assert!(pattern_is_match("", "anything"));
    assert!(pattern_is_match("a.txt", "a.txt"));
    assert!(!pattern_is_match(".git", "./src/main.rs"));
    let patterns = vec!["target".to_string(), ".git".to_string()];
    assert!(should_be_ignored(&patterns, "./.git/HEAD"));
    assert!(!should_be_ignored(&patterns, "./src/lib.rs"));
    assert!(!should_be_ignored(&Vec::new(), "./src/lib.rs"));
}

#[test]
fn add_files_steps() {
    let patterns = vec!["target".to_string()];
    assert_eq!(add_files(&patterns, "./target", true, false), AddFilesStep::Skip);
    assert_eq!(add_files(&patterns, "./src", true, false), AddFilesStep::Descend);
    assert_eq!(add_files(&patterns, "./src/a.rs", false, true), AddFilesStep::AddIfChanged);
    assert_eq!(add_files(&patterns, "./socket", false, false), AddFilesStep::Skip);
}

fn metadata_with(entries: &[(&str, &str)]) -> rit::storage::RitMetadata {
    let mut p = PathToHash::new();
    for (h, path) in entries {
        p.record_new_entry(h, path);
    }
    read_metadata(Some(".rit".to_string()), Some(Vec::new()), Some(p), Vec::new()).unwrap()
}

fn hash_of(bytes: &[u8]) -> String {
    hash_file(Some(bytes)).unwrap()
}

#[test]
fn new_file_is_added() {
    let m = metadata_with(&[]);
    let mut added = Vec::new();
    only_add_changed_file(&m, "./a.txt", b"hello", &mut added);
    assert_eq!(added, vec!["./a.txt".to_string()]);
}

#[test]
fn unchanged_file_is_not_added() {
    let h = hash_of(b"hello");
    let m = metadata_with(&[(&h, "./a.txt")]);
    let mut added = vec!["./before".to_string()];
    only_add_changed_file(&m, "./a.txt", b"hello", &mut added);
    assert_eq!(added, vec!["./before".to_string()]);
}

#[test]
fn moved_file_is_added() {
    let h = hash_of(b"hello");
    let m = metadata_with(&[(&h, "./old.txt")]);
    let mut added = Vec::new();
    only_add_changed_file(&m, "./new.txt", b"hello", &mut added);
    assert_eq!(added, vec!["./new.txt".to_string()]);
}

#[test]
fn changed_file_is_added() {
    let h = hash_of(b"old contents");
    let m = metadata_with(&[(&h, "./a.txt")]);
    let mut added = Vec::new();
    only_add_changed_file(&m, "./a.txt", b"new contents", &mut added);
    assert_eq!(added, vec!["./a.txt".to_string()]);
}

#[test]
fn file_recorded_elsewhere_first_is_added_even_after_recording() {
    let h = hash_of(b"same");
    let mut m = metadata_with(&[(&h, "./first.txt")]);
    m.path_to_hash_objs.record_new_entry(&h, "./second.txt");
    let mut added = Vec::new();
    only_add_changed_file(&m, "./second.txt", b"same", &mut added);
    assert_eq!(added, vec!["./second.txt".to_string()]);
    let mut again = Vec::new();
    only_add_changed_file(&m, "./first.txt", b"same", &mut again);
    assert!(again.is_empty());
}
