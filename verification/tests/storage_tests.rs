use rit::path_to_hash::PathToHash;
use rit::storage::{
    init_commit_log, read_commit_log, read_ignore_file, read_metadata, recursive_dir_search,
    search_dir, search_for_metadata_folder, CommitLogEntry, DirEntryInfo, DirSearchStep,
    FolderSearch, FolderSearchAction, FolderSearchEvent,
};

fn lines(ls: &[&str]) -> Vec<String> {
    ls.iter().map(|l| l.to_string()).collect()
}

fn commits(c: &[CommitLogEntry]) -> Vec<(String, String)> {
    c.iter().map(|e| (e.hash().to_string(), e.message().to_string())).collect()
}

#[test]
fn commit_log_lines_are_hash_and_message() {
    let c = read_commit_log(&lines(&["abc first", "def second word", "ghi", ""]));
    assert_eq!(
        commits(&c),
        vec![
            ("abc".to_string(), "first".to_string()),
            ("def".to_string(), "second".to_string()),
            ("ghi".to_string(), "".to_string()),
            ("".to_string(), "".to_string())
        ]
    );
}

#[test]
fn init_commit_log_cases() {
    let c = init_commit_log(Some(lines(&["a m"])), false).unwrap();
    assert_eq!(commits(&c), vec![("a".to_string(), "m".to_string())]);
    assert_eq!(init_commit_log(None, true).unwrap().len(), 0);
    assert!(init_commit_log(None, false).is_none());
}

#[test]
fn ignore_file_has_one_pattern_per_line() {
    assert_eq!(read_ignore_file(Some("target\n.git\r\n")), lines(&["target", ".git"]));
    assert!(read_ignore_file(None).is_empty());
    assert!(read_ignore_file(Some("")).is_empty());
}

#[test]
fn read_metadata_needs_all_parts() {
    let m = read_metadata(
        Some(".rit".to_string()),
        Some(vec![CommitLogEntry::new("a", "m")]),
        Some(PathToHash::new()),
        lines(&["target"]),
    )
    .unwrap();
    assert_eq!(m.meta_data_folder_path, ".rit".to_string());
    assert_eq!(m.current_commit_id, "0".to_string());
    assert!(m.hash_to_file_obj_path.is_empty());
    assert_eq!(commits(&m.commit_log), vec![("a".to_string(), "m".to_string())]);
    assert_eq!(m.filename_patterns_to_ignore, lines(&["target"]));
    assert!(read_metadata(None, Some(Vec::new()), Some(PathToHash::new()), Vec::new()).is_none());
    assert!(read_metadata(Some("x".to_string()), None, Some(PathToHash::new()), Vec::new()).is_none());
    assert!(read_metadata(Some("x".to_string()), Some(Vec::new()), None, Vec::new()).is_none());
}

fn entry(name: &str, is_dir: bool, is_file: bool) -> DirEntryInfo {
    DirEntryInfo { name: name.to_string(), is_dir, is_file }
}

#[test]
fn search_dir_finds_the_first_wanted_entry() {
    let entries = vec![entry("a.rit.txt", false, true), entry("src", true, false), entry(".rit", true, false)];
    assert_eq!(search_dir(&entries, ".rit", true), Some(2));
    assert_eq!(search_dir(&entries, ".rit", false), Some(0));
    assert_eq!(search_dir(&entries, "nothing", true), None);
    assert_eq!(search_dir(&Vec::new(), ".rit", true), None);
}

#[test]
fn recursive_dir_search_goes_into_the_first_folder() {
    let entries = vec![entry("x.txt", false, true), entry("sub", true, false), entry("target", true, false)];
    assert_eq!(recursive_dir_search(&entries, "target", true), DirSearchStep::Descend(1));
    assert_eq!(recursive_dir_search(&entries, "sub", true), DirSearchStep::Found(1));
    assert_eq!(recursive_dir_search(&entries, "x.txt", false), DirSearchStep::Found(0));
    assert_eq!(recursive_dir_search(&entries, "nothing", false), DirSearchStep::NotFound);
}

fn path_of(a: FolderSearchAction) -> Option<String> {
    match a {
        FolderSearchAction::Search(p) => Some(p),
        FolderSearchAction::CheckParent(p) => Some(p),
        _ => None,
    }
}

#[test]
fn metadata_search_walks_up_at_most_nine_folders() {
    let mut s = FolderSearch::new();
    let mut searched = Vec::new();
    let mut action = search_for_metadata_folder(&mut s, FolderSearchEvent::Start);
    loop {
        match action {
            FolderSearchAction::Search(p) => {
                searched.push(p);
                action = search_for_metadata_folder(&mut s, FolderSearchEvent::Searched(false));
            }
            FolderSearchAction::CheckParent(_) => {
                action = search_for_metadata_folder(&mut s, FolderSearchEvent::ParentChecked(true));
            }
            FolderSearchAction::Found => panic!("nothing was found"),
            FolderSearchAction::NotFound => break,
        }
    }
    assert_eq!(searched.len(), 9);
    assert_eq!(searched[0], ".".to_string());
    assert_eq!(searched[1], "../.".to_string());
    assert_eq!(searched[8], "../../../../../../../../.".to_string());
}

#[test]
fn metadata_search_stops_when_found_or_at_the_root() {
    let mut s = FolderSearch::new();
    assert_eq!(path_of(search_for_metadata_folder(&mut s, FolderSearchEvent::Start)), Some(".".to_string()));
    let a = search_for_metadata_folder(&mut s, FolderSearchEvent::Searched(false));
    assert_eq!(path_of(a), Some("../.".to_string()));
    let a = search_for_metadata_folder(&mut s, FolderSearchEvent::ParentChecked(true));
    assert_eq!(path_of(a), Some("../.".to_string()));
    assert!(matches!(search_for_metadata_folder(&mut s, FolderSearchEvent::Searched(true)), FolderSearchAction::Found));
    let mut t = FolderSearch::new();
    search_for_metadata_folder(&mut t, FolderSearchEvent::Searched(false));
    assert!(matches!(
        search_for_metadata_folder(&mut t, FolderSearchEvent::ParentChecked(false)),
        FolderSearchAction::NotFound
    ));
}
