use std::io::{Cursor, Read};

use rit::example::{doit, example_text, LOREM_IPSUM};
use rit::utils::{hash_file, join_path, zip_file};

#[test]
fn hash_is_sha256_hex() {
    assert_eq!(
        hash_file(Some(b"hello")),
        Some("2cf24dba5fb0a30e26e83b2ac5b9e29e1b161e5c1fa7425e73043362938b9824".to_string())
    );
    assert_eq!(
        hash_file(Some(b"")),
        Some("e3b0c44298fc1c149afbf4c8996fb92427ae41e4649b934ca495991b7852b855".to_string())
    );
    assert_eq!(hash_file(None), None);
}

#[test]
fn join_path_puts_a_slash_between() {
    assert_eq!(join_path(".rit", "commit_log.txt"), ".rit/commit_log.txt".to_string());
    assert_eq!(join_path(".rit/objs/", "h"), ".rit/objs//h".to_string());
}

fn read_back(bytes: Vec<u8>) -> Vec<(String, Vec<u8>)> {
    let mut archive = zip::ZipArchive::new(Cursor::new(bytes)).unwrap();
    let mut out = Vec::new();
    for i in 0..archive.len() {
        let mut f = archive.by_index(i).unwrap();
        let mut data = Vec::new();
        f.read_to_end(&mut data).unwrap();
        out.push((f.name().unwrap().to_string(), data));
    }
    out
}

#[test]
fn zip_file_holds_one_named_file() {
    let bytes = zip_file("abc123", b"some contents").unwrap();
    assert_eq!(&bytes[0..4], &[0x50, 0x4b, 0x03, 0x04]);
    assert_eq!(&bytes[30..36], b"abc123");
    assert_eq!(&bytes[22..26], &[13, 0, 0, 0]);
    assert_eq!(read_back(bytes), vec![("abc123".to_string(), b"some contents".to_vec())]);
}

#[test]
fn zip_file_of_nothing() {
    let bytes = zip_file("empty", b"").unwrap();
    assert_eq!(read_back(bytes), vec![("empty".to_string(), Vec::new())]);
}

#[test]
fn example_text_is_the_passage_ten_times() {
    assert_eq!(example_text(), LOREM_IPSUM.repeat(10));
}

#[test]
fn doit_archives_the_example_text() {
    let (written, bytes) = doit().ok().unwrap();
    assert!(written <= LOREM_IPSUM.len() * 10);
    assert_eq!(&bytes[22..26], &(written as u32).to_le_bytes());
    let files = read_back(bytes);
    assert_eq!(files.len(), 1);
    assert_eq!(files[0].0, "archive.bzip".to_string());
    assert_eq!(files[0].1.len(), written);
    assert!(written > 0);
    assert_eq!(files[0].1, LOREM_IPSUM.repeat(10).as_bytes()[..written].to_vec());
}

#[test]
fn zip_file_gives_the_same_archive_for_the_same_file() {
    let first = zip_file("h", b"same contents").unwrap();
    let second = zip_file("h", b"same contents").unwrap();
    assert_eq!(first, second);
    assert_ne!(first, zip_file("h", b"other contents").unwrap());
}
