use rit::commands::CommandType;
use rit::parser::{classify_words, parse, parse_command_line};

fn words(ws: &[&str]) -> Vec<String> {
    ws.iter().map(|w| w.to_string()).collect()
}

#[test]
fn parse_reads_the_command_from_the_second_word() {
    let (c, args) = parse(&words(&["rit", "ADD", "src/Main.rs", "-V", "-"]));
    assert_eq!(c, CommandType::Add);
    assert_eq!(args, words(&["rit", "src/main.rs", "-"]));
}

#[test]
fn parse_unknown_command() {
    let (c, args) = parse(&words(&["rit", "push", "x"]));
    assert_eq!(c, CommandType::Unknown);
    assert_eq!(args, words(&["rit", "x"]));
}

#[test]
fn parse_short_command_lines() {
    let (c, args) = parse(&words(&[]));
    assert_eq!(c, CommandType::Unknown);
    assert!(args.is_empty());
    let (c, args) = parse(&words(&["rit"]));
    assert_eq!(c, CommandType::Unknown);
    assert_eq!(args, words(&["rit"]));
}

#[test]
fn parse_command_line_separates_flags() {
    let p = parse_command_line(&words(&[" rit ", " Init ", "--Force", "-", "-x", "a b"]));
    assert_eq!(p.command_type, CommandType::Init);
    assert_eq!(p.normalized_args, words(&["rit", "init", "--force", "-", "-x", "a b"]));
    assert_eq!(p.command_args, words(&["rit", "-", "a b"]));
    assert_eq!(p.command_flags, words(&["--force", "-x"]));
    assert_eq!(p.command_args.len() + p.command_flags.len(), p.normalized_args.len() - 1);
}

#[test]
fn every_command_word_is_recognised() {
    for (w, c) in [
        ("init", CommandType::Init),
        ("nuke", CommandType::Nuke),
        ("add", CommandType::Add),
        ("commit", CommandType::Commit),
        ("rm", CommandType::Remove),
    ] {
        assert_eq!(parse(&words(&["rit", w])).0, c);
    }
}

#[test]
fn classify_words_splits_normalized_words() {
    let (c, args, flags) = classify_words(&words(&["rit", "commit", "-m", "msg", "-", "--all"]));
    assert_eq!(c, CommandType::Commit);
    assert_eq!(args, words(&["rit", "msg", "-"]));
    assert_eq!(flags, words(&["-m", "--all"]));
    let (c, args, flags) = classify_words(&words(&["rit", "ADD", "x"]));
    assert_eq!(c, CommandType::Unknown);
    assert_eq!(args, words(&["rit", "x"]));
    assert!(flags.is_empty());
}
