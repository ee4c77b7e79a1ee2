//! The commands the tool knows, and the decisions the commands take.

use vstd::prelude::*;
use crate::path_to_hash::{first_hash_for, first_path_for, opt_view};
use crate::storage::RitMetadata;
use crate::text::{contains_seq, lowercased, str_contains, to_lowercase, trim, trimmed, views};
use crate::utils::{hash_file, sha256_hex};

verus! {

/// A command of the tool.
#[derive(Debug, PartialEq, Eq, Clone, Copy, Structural)]
pub enum CommandType {
    Init,
    Nuke,
    Add,
    Commit,
    Remove,
    Unknown,
}

/// The command a (normalized) command-line word names, if any: `init`,
/// `nuke`, `add`, `commit` and `rm`.
pub open spec fn command_named(s: Seq<char>) -> Option<CommandType> {
    if s == "init"@ {
        Some(CommandType::Init)
    } else if s == "nuke"@ {
        Some(CommandType::Nuke)
    } else if s == "add"@ {
        Some(CommandType::Add)
    } else if s == "commit"@ {
        Some(CommandType::Commit)
    } else if s == "rm"@ {
        Some(CommandType::Remove)
    } else {
        None
    }
}

/// The command a command-line word names (see [`command_named`]).
pub fn command_from_name(name: &str) -> (r: Option<CommandType>)
    ensures
        r == command_named(name@),
{
    let s = name.to_owned();
    if s == "init".to_owned() {
        Some(CommandType::Init)
    } else if s == "nuke".to_owned() {
        Some(CommandType::Nuke)
    } else if s == "add".to_owned() {
        Some(CommandType::Add)
    } else if s == "commit".to_owned() {
        Some(CommandType::Commit)
    } else if s == "rm".to_owned() {
        Some(CommandType::Remove)
    } else {
        None
    }
}

/// A command-line word as the tool reads it: without surrounding white
/// space, in lowercase.
pub open spec fn normalized(s: Seq<char>) -> Seq<char> {
    lowercased(trimmed(s))
}

/// Normalizes a command-line word (see [`normalized`]).
pub fn normalize(s: &str) -> (r: String)
    ensures
        r@ == normalized(s@),
{
    let t = trim(s);
    to_lowercase(t.as_str())
}

// ---------------------------------------------------------------------------
// Running a command
// ---------------------------------------------------------------------------

/// What running a command comes to.
#[derive(Debug, PartialEq, Eq, Clone, Copy, Structural)]
pub enum CommandAction {
    /// Create the metadata folder, unless there is one already.
    InitMetadata,
    /// There is no metadata: the user has to initialize first.
    MetadataMissing,
    /// Ask for confirmation and delete the metadata folder.
    Nuke,
    /// Add the files the arguments name.
    Add,
    /// Commit.
    Commit,
    /// Nothing to do.
    Nothing,
}

/// What running `command` comes to, given whether the repository's metadata
/// could be read. `init` does not need the metadata; every other command
/// does, and does nothing without it beyond saying so.
pub fn command_action(command: CommandType, metadata_found: bool) -> (r: CommandAction)
    ensures
        command == CommandType::Init ==> r == CommandAction::InitMetadata,
        command != CommandType::Init && !metadata_found ==> r == CommandAction::MetadataMissing,
        command != CommandType::Init && metadata_found ==> r == match command {
            CommandType::Nuke => CommandAction::Nuke,
            CommandType::Add => CommandAction::Add,
            CommandType::Commit => CommandAction::Commit,
            _ => CommandAction::Nothing,
        },
{
    if command == CommandType::Init {
        return CommandAction::InitMetadata;
    }
    if !metadata_found {
        return CommandAction::MetadataMissing;
    }
    match command {
        CommandType::Nuke => CommandAction::Nuke,
        CommandType::Add => CommandAction::Add,
        CommandType::Commit => CommandAction::Commit,
        _ => CommandAction::Nothing,
    }
}

/// The metadata folder `init` leaves: the one that was found, or else the
/// new `".rit"` folder if it could be created; none when it could not.
pub fn init_metadata(found_metadata_folder: Option<String>, created: bool) -> (r: Option<String>)
    ensures
        found_metadata_folder is Some ==> r == found_metadata_folder,
        found_metadata_folder is None && created ==> (r matches Some(p) && p@ == ".rit"@),
        found_metadata_folder is None && !created ==> r is None,
{
    match found_metadata_folder {
        Some(p) => Some(p),
        None => {
            if created {
                Some(".rit".to_owned())
            } else {
                None
            }
        },
    }
}

/// Whether the user's answer confirms deleting the metadata folder: it
/// reads `y` once trimmed and lowercased.
pub fn nuke_confirmed(user_input: &str) -> (r: bool)
    ensures
        r == (normalized(user_input@) == "y"@),
{
    normalize(user_input) == "y".to_owned()
}

// ---------------------------------------------------------------------------
// Adding files
// ---------------------------------------------------------------------------

/// Whether a path matches an ignore pattern: the pattern occurs in it.
pub fn pattern_is_match(pattern: &str, text_to_match: &str) -> (r: bool)
    ensures
        r == contains_seq(text_to_match@, pattern@),
{
    str_contains(text_to_match, pattern)
}

/// Some ignore pattern occurs in the path.
pub open spec fn is_ignored(patterns: Seq<Seq<char>>, path: Seq<char>) -> bool {
    exists|i: int| 0 <= i < patterns.len() && contains_seq(path, #[trigger] patterns[i])
}

/// Whether some ignore pattern matches the path.
pub fn should_be_ignored(patterns_to_ignore: &Vec<String>, path: &str) -> (r: bool)
    ensures
        r == is_ignored(views(patterns_to_ignore@), path@),
{
    let n = patterns_to_ignore.len();
    for i in 0..n
        invariant
            n == patterns_to_ignore@.len(),
            forall|j: int| 0 <= j < i ==> !contains_seq(path@, #[trigger] views(patterns_to_ignore@)[j]),
    {
        if pattern_is_match(patterns_to_ignore[i].as_str(), path) {
            assert(views(patterns_to_ignore@)[i as int] == patterns_to_ignore@[i as int]@);
            return true;
        }
    }
    false
}

/// What adding a path comes to.
#[derive(Debug, PartialEq, Eq, Clone, Copy, Structural)]
pub enum AddFilesStep {
    /// The path is ignored, or neither a folder nor a file.
    Skip,
    /// Add every entry of the folder.
    Descend,
    /// Add the file if it is new or changed.
    AddIfChanged,
}

/// What adding a path comes to: an ignored path is skipped; otherwise a
/// folder's entries are added in turn and a file is added if it is new or
/// changed.
pub fn add_files(patterns_to_ignore: &Vec<String>, path: &str, is_dir: bool, is_file: bool) -> (r:
    AddFilesStep)
    ensures
        r == if is_ignored(views(patterns_to_ignore@), path@) {
            AddFilesStep::Skip
        } else if is_dir {
            AddFilesStep::Descend
        } else if is_file {
            AddFilesStep::AddIfChanged
        } else {
            AddFilesStep::Skip
        },
{
    if should_be_ignored(patterns_to_ignore, path) {
        AddFilesStep::Skip
    } else if is_dir {
        AddFilesStep::Descend
    } else if is_file {
        AddFilesStep::AddIfChanged
    } else {
        AddFilesStep::Skip
    }
}

/// Whether a file at `path` whose contents hash to `hash` is to be added,
/// given the recorded entries: when its contents were first recorded under
/// another path it has moved; when they were not recorded but the path was,
/// with another hash, it has changed; when neither was recorded it is new.
pub open spec fn file_needs_adding(
    entries: Seq<(Seq<char>, Seq<char>)>,
    path: Seq<char>,
    hash: Seq<char>,
) -> bool {
    match first_path_for(entries, hash) {
        Some(previous_path) => previous_path != path,
        None => match first_hash_for(entries, path) {
            Some(previous_hash) => previous_hash != hash,
            None => true,
        },
    }
}

/// Appends `path` to the files to add if the file with these contents is
/// new, changed or moved (see [`file_needs_adding`]), its contents hashed
/// with SHA-256.
pub fn only_add_changed_file(
    metadata: &RitMetadata,
    path: &str,
    file_contents: &[u8],
    added_files: &mut Vec<String>,
)
    ensures
        views(final(added_files)@) == if file_needs_adding(
            metadata.path_to_hash_objs@,
            path@,
            sha256_hex(file_contents@),
        ) {
            views(old(added_files)@).push(path@)
        } else {
            views(old(added_files)@)
        },
{
    let file_hash = match hash_file(Some(file_contents)) {
        Some(h) => h,
        None => return,
    };
    let path_string = path.to_owned();
    let previous_relative_path_option = metadata.path_to_hash_objs.get_relative_filepath(
        file_hash.as_str(),
    );
    let previous_file_hash_option = metadata.path_to_hash_objs.get_hash(path);
    let ghost before = added_files@;
    match previous_relative_path_option {
        Some(previous_relative_path) => {
            if previous_relative_path.to_owned() != path_string {
                added_files.push(path_string);
            }
        },
        None => {
            match previous_file_hash_option {
                Some(previous_file_hash) => {
                    if previous_file_hash.to_owned() != file_hash {
                        added_files.push(path_string);
                    }
                },
                None => {
                    added_files.push(path_string);
                },
            }
        },
    }
    proof {
        if added_files@.len() > before.len() {
            assert(views(added_files@) =~= views(before).push(path@));
        }
    }
}

/// A file is not added again right after it was recorded, unless its
/// contents had first been recorded under another path (it moved).
pub proof fn law_recorded_file_not_added_again(
    entries: Seq<(Seq<char>, Seq<char>)>,
    path: Seq<char>,
    hash: Seq<char>,
)
    ensures
        file_needs_adding(entries.push((hash, path)), path, hash) == (first_path_for(entries, hash) matches Some(p) && p != path),
{
    crate::path_to_hash::law_get_relative_filepath_after_record(entries, hash, path, hash);
}


/// The empty ignore pattern matches every path, and every path matches
/// itself as a pattern.
pub proof fn law_pattern_matches(path: Seq<char>)
    ensures
        contains_seq(path, Seq::<char>::empty()),
        contains_seq(path, path),
{
    assert(path.subrange(0, 0) =~= Seq::<char>::empty());
    assert(crate::text::occurs_at(path, Seq::<char>::empty(), 0));
    assert(path.subrange(0, path.len() as int) =~= path);
    assert(crate::text::occurs_at(path, path, 0));
}

/// No recorded entry has the hash: looking the hash up finds nothing.
proof fn lemma_hash_not_recorded(entries: Seq<(Seq<char>, Seq<char>)>, hash: Seq<char>)
    requires
        forall|i: int| 0 <= i < entries.len() ==> (#[trigger] entries[i]).0 != hash,
    ensures
        first_path_for(entries, hash) is None,
    decreases entries.len(),
{
    if entries.len() > 0 {
        assert(entries[0].0 != hash);
        assert forall|i: int| 0 <= i < entries.drop_first().len() implies (
        #[trigger] entries.drop_first()[i]).0 != hash by {
            assert(entries.drop_first()[i] == entries[i + 1]);
        }
        lemma_hash_not_recorded(entries.drop_first(), hash);
    }
}

/// The first entry recorded with the hash is at position `i`: looking the
/// hash up finds that entry's path.
proof fn lemma_hash_first_recorded_at(entries: Seq<(Seq<char>, Seq<char>)>, hash: Seq<char>, i: int)
    requires
        0 <= i < entries.len(),
        entries[i].0 == hash,
        forall|j: int| 0 <= j < i ==> (#[trigger] entries[j]).0 != hash,
    ensures
        first_path_for(entries, hash) == Some(entries[i].1),
    decreases i,
{
    if i > 0 {
        assert(entries[0].0 != hash);
        assert forall|j: int| 0 <= j < i - 1 implies (#[trigger] entries.drop_first()[j]).0 != hash by {
            assert(entries.drop_first()[j] == entries[j + 1]);
        }
        assert(entries.drop_first()[i - 1] == entries[i]);
        lemma_hash_first_recorded_at(entries.drop_first(), hash, i - 1);
    }
}

/// A hash found by looking a path up is the hash of some recorded entry.
proof fn lemma_found_hash_is_recorded(entries: Seq<(Seq<char>, Seq<char>)>, path: Seq<char>)
    ensures
        first_hash_for(entries, path) matches Some(h) ==> exists|i: int|
            0 <= i < entries.len() && (#[trigger] entries[i]).0 == h,
    decreases entries.len(),
{
    if entries.len() > 0 && entries[0].1 != path {
        lemma_found_hash_is_recorded(entries.drop_first(), path);
        if first_hash_for(entries, path) is Some {
            let h = first_hash_for(entries, path)->0;
            let i = choose|i: int| 0 <= i < entries.drop_first().len() && (#[trigger] entries.drop_first()[i]).0 == h;
            assert(entries[i + 1] == entries.drop_first()[i]);
        }
    } else if entries.len() > 0 {
        assert(entries[0].0 == first_hash_for(entries, path)->0);
    }
}

/// Which files are added, in terms of the recorded entries. A file whose
/// contents were never recorded (no entry has its hash) is added, whether
/// its path is new or was recorded with other contents. A file whose
/// contents were recorded is added exactly when the first entry with that
/// hash was recorded under another path (it moved); under its own path it
/// is unchanged and not added.
pub proof fn law_which_files_are_added(
    entries: Seq<(Seq<char>, Seq<char>)>,
    path: Seq<char>,
    hash: Seq<char>,
)
    ensures
        (forall|i: int| 0 <= i < entries.len() ==> (#[trigger] entries[i]).0 != hash) ==> file_needs_adding(
            entries,
            path,
            hash,
        ),
        forall|i: int|
            0 <= i < entries.len() && (#[trigger] entries[i]).0 == hash && (forall|j: int|
                0 <= j < i ==> (#[trigger] entries[j]).0 != hash) ==> (file_needs_adding(entries, path, hash)
                <==> entries[i].1 != path),
{
    if forall|i: int| 0 <= i < entries.len() ==> (#[trigger] entries[i]).0 != hash {
        lemma_hash_not_recorded(entries, hash);
        lemma_found_hash_is_recorded(entries, path);
    }
    assert forall|i: int|
        0 <= i < entries.len() && (#[trigger] entries[i]).0 == hash && (forall|j: int|
            0 <= j < i ==> (#[trigger] entries[j]).0 != hash) implies (file_needs_adding(entries, path, hash)
        <==> entries[i].1 != path) by {
        lemma_hash_first_recorded_at(entries, hash, i);
    }
}

/// A path is ignored exactly when some pattern of the list, at any
/// position, occurs in it: each pattern that occurs in the path makes it
/// ignored, and an ignored path has such a pattern.
pub proof fn law_ignored_by_any_pattern(patterns: Seq<Seq<char>>, path: Seq<char>)
    ensures
        forall|i: int| 0 <= i < patterns.len() && contains_seq(path, #[trigger] patterns[i]) ==> is_ignored(
            patterns,
            path,
        ),
        is_ignored(patterns, path) ==> exists|i: int|
            0 <= i < patterns.len() && contains_seq(path, #[trigger] patterns[i]),
        patterns.len() == 0 ==> !is_ignored(patterns, path),
{
}

} // verus!
