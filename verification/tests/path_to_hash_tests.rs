use rit::path_to_hash::{
    init_path_to_obj_hash_file, parse_path_to_hashes, path_to_hash_log_path, PathToHash,
    PathToHashEntry,
};

fn entries_of(p: &PathToHash) -> Vec<(String, String)> {
    (0..p.len())
        .map(|i| {
            let e = p.entry(i);
            (e.hash().to_string(), e.relative_filepath().to_string())
        })
        .collect()
}

#[test]
fn record_new_entry_appends() {
    let mut p = PathToHash::new();
    assert_eq!(p.len(), 0);
    p.record_new_entry("h1", "a.txt");
    p.record_new_entry("h2", "b.txt");
    assert_eq!(
        entries_of(&p),
        vec![("h1".to_string(), "a.txt".to_string()), ("h2".to_string(), "b.txt".to_string())]
    );
}

#[test]
fn record_new_entries_appends_in_order() {
    let mut p = PathToHash::new();
    p.record_new_entry("h0", "z.txt");
    p.record_new_entries(vec![PathToHashEntry::new("h1", "a.txt"), PathToHashEntry::new("h2", "b.txt")]);
    assert_eq!(
        entries_of(&p),
        vec![
            ("h0".to_string(), "z.txt".to_string()),
            ("h1".to_string(), "a.txt".to_string()),
            ("h2".to_string(), "b.txt".to_string())
        ]
    );
}

#[test]
fn get_hash_finds_the_first_entry_for_a_path() {
    let mut p = PathToHash::new();
    p.record_new_entry("h1", "a.txt");
    p.record_new_entry("h2", "a.txt");
    p.record_new_entry("h3", "b.txt");
    assert_eq!(p.get_hash("a.txt"), Some("h1"));
    assert_eq!(p.get_hash("b.txt"), Some("h3"));
    assert_eq!(p.get_hash("c.txt"), None);
}

#[test]
fn get_relative_filepath_finds_the_first_entry_for_a_hash() {
    let mut p = PathToHash::new();
    p.record_new_entry("h1", "a.txt");
    p.record_new_entry("h1", "moved/a.txt");
    p.record_new_entry("h2", "b.txt");
    assert_eq!(p.get_relative_filepath("h1"), Some("a.txt"));
    assert_eq!(p.get_relative_filepath("h2"), Some("b.txt"));
    assert_eq!(p.get_relative_filepath("h3"), None);
}

#[test]
fn lookup_after_record_keeps_the_first_answer() {
    let mut p = PathToHash::new();
    p.record_new_entry("h1", "a.txt");
    p.record_new_entry("h9", "a.txt");
    assert_eq!(p.get_hash("a.txt"), Some("h1"));
    p.record_new_entry("h2", "new.txt");
    assert_eq!(p.get_hash("new.txt"), Some("h2"));
    assert_eq!(p.get_relative_filepath("h2"), Some("new.txt"));
}

#[test]
fn record_hash_entry_is_hash_space_path_newline() {
    let e = PathToHashEntry::new("abc", "dir/file.txt");
    assert_eq!(e.record_hash_entry(), "abc dir/file.txt\n".to_string());
}

#[test]
fn record_path_to_hashes_gives_one_line_per_entry() {
    let mut p = PathToHash::new();
    p.record_new_entry("h1", "a.txt");
    p.record_new_entry("h2", "b.txt");
    assert_eq!(p.record_path_to_hashes(), vec!["h1 a.txt\n".to_string(), "h2 b.txt\n".to_string()]);
    assert_eq!(PathToHash::new().record_path_to_hashes(), Vec::<String>::new());
}

#[test]
fn stored_log_reads_back_as_written() {
    let mut p = PathToHash::new();
    p.record_new_entry("2cf24dba5fb0a30e26e83b2ac5b9e29e1b161e5c1fa7425e73043362938b9824", "src/main.rs");
    p.record_new_entry("00ff", "README.md");
    let existing = "h0 old.txt\n";
    let mut stored = existing.to_string();
    for line in p.record_path_to_hashes() {
        stored.push_str(&line);
    }
    let read = parse_path_to_hashes(&stored);
    let mut expected = vec![("h0".to_string(), "old.txt".to_string())];
    expected.extend(entries_of(&p));
    assert_eq!(entries_of(&read), expected);
}

#[test]
fn parsing_follows_lines_and_split() {
    let read = parse_path_to_hashes("h1 a.txt extra\r\nh2\n\nh3  b.txt\n h4");
    assert_eq!(
        entries_of(&read),
        vec![
            ("h1".to_string(), "a.txt".to_string()),
            ("h2".to_string(), "".to_string()),
            ("".to_string(), "".to_string()),
            ("h3".to_string(), "".to_string()),
            ("".to_string(), "h4".to_string())
        ]
    );
    assert_eq!(parse_path_to_hashes("").len(), 0);
}

#[test]
fn path_with_space_does_not_read_back() {
    let mut p = PathToHash::new();
    p.record_new_entry("h1", "my file.txt");
    let stored: String = p.record_path_to_hashes().concat();
    let read = parse_path_to_hashes(&stored);
    assert_eq!(entries_of(&read), vec![("h1".to_string(), "my".to_string())]);
}

#[test]
fn init_path_to_obj_hash_file_cases() {
    assert!(init_path_to_obj_hash_file(false, Some("h a\n"), true).is_none());
    let p = init_path_to_obj_hash_file(true, Some("h a\n"), false).unwrap();
    assert_eq!(entries_of(&p), vec![("h".to_string(), "a".to_string())]);
    assert_eq!(init_path_to_obj_hash_file(true, None, true).unwrap().len(), 0);
    assert!(init_path_to_obj_hash_file(true, None, false).is_none());
}

#[test]
fn log_path_is_inside_the_metadata_folder() {
    assert_eq!(path_to_hash_log_path(".rit"), ".rit/path_to_hash.txt".to_string());
}
