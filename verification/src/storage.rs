//! The repository metadata: the commit log, the ignore patterns and the
//! path-to-hash log, and the decisions taken while looking for the metadata
//! folder and for entries in folders.

use std::collections::HashMap;
use vstd::prelude::*;
use crate::path_to_hash::{parse_log_line, PathToHash};
use crate::text::{chars_of, contains_seq, lines, split_lines, str_contains, two_fields, views};

verus! {

/// One commit of the commit log: its hash and its message.
pub struct CommitLogEntry {
    hash: String,
    message: String,
}

impl View for CommitLogEntry {
    type V = (Seq<char>, Seq<char>);

    closed spec fn view(&self) -> (Seq<char>, Seq<char>) {
        (self.hash@, self.message@)
    }
}

/// The views of a list of commits.
pub open spec fn commit_views(v: Seq<CommitLogEntry>) -> Seq<(Seq<char>, Seq<char>)> {
    v.map_values(|e: CommitLogEntry| e@)
}

impl CommitLogEntry {
    /// A commit with the given hash and message.
    pub fn new(hash: &str, message: &str) -> (r: CommitLogEntry)
        ensures
            r@ == (hash@, message@),
    {
        CommitLogEntry { hash: hash.to_owned(), message: message.to_owned() }
    }

    /// The commit's hash.
    pub fn hash(&self) -> (r: &str)
        ensures
            r@ == self@.0,
    {
        self.hash.as_str()
    }

    /// The commit's message.
    pub fn message(&self) -> (r: &str)
        ensures
            r@ == self@.1,
    {
        self.message.as_str()
    }
}

/// The repository metadata the commands work on.
pub struct RitMetadata {
    pub hash_to_file_obj_path: HashMap<String, String>,
    pub meta_data_folder_path: String,
    pub current_commit_id: String,
    pub commit_log: Vec<CommitLogEntry>,
    pub path_to_hash_objs: PathToHash,
    pub filename_patterns_to_ignore: Vec<String>,
}

/// Reads the commit log from its lines: on each line the first
/// space-separated field is the commit's hash and the second its message
/// (missing fields are empty, further ones are ignored).
pub fn read_commit_log(log_lines: &Vec<String>) -> (r: Vec<CommitLogEntry>)
    ensures
        commit_views(r@) == views(log_lines@).map_values(|l: Seq<char>| parse_log_line(l)),
{
    let n = log_lines.len();
    let mut r: Vec<CommitLogEntry> = Vec::new();
    for i in 0..n
        invariant
            n == log_lines@.len(),
            commit_views(r@) == views(log_lines@).take(i as int).map_values(
                |l: Seq<char>| parse_log_line(l),
            ),
    {
        let cs = chars_of(log_lines[i].as_str());
        let (hash, message) = two_fields(&cs);
        let ghost before = r@;
        r.push(CommitLogEntry { hash, message });
        assert(commit_views(r@) =~= commit_views(before).push(parse_log_line(log_lines@[i as int]@)));
        assert(views(log_lines@).take(i + 1 as int) =~= views(log_lines@).take(i as int).push(
            log_lines@[i as int]@,
        ));
        assert(views(log_lines@).take(i + 1 as int).map_values(|l: Seq<char>| parse_log_line(l))
            =~= views(log_lines@).take(i as int).map_values(|l: Seq<char>| parse_log_line(l)).push(
            parse_log_line(log_lines@[i as int]@),
        ));
    }
    assert(views(log_lines@).take(n as int) =~= views(log_lines@));
    r
}

/// The commit log a repository starts from. `log_lines` holds the lines of
/// the stored commit log when it could be opened; `log_created` tells
/// whether an empty log file could be created when it could not.
///
/// A log that could be opened is read; otherwise the log is empty if its
/// file could be created, and missing if not.
pub fn init_commit_log(log_lines: Option<Vec<String>>, log_created: bool) -> (r: Option<
    Vec<CommitLogEntry>,
>)
    ensures
        log_lines matches Some(ls) ==> (r matches Some(c) && commit_views(c@) == views(
            ls@,
        ).map_values(|l: Seq<char>| parse_log_line(l))),
        log_lines is None ==> (r is Some <==> log_created),
        log_lines is None ==> (r matches Some(c) ==> c@.len() == 0),
{
    match log_lines {
        Some(ls) => Some(read_commit_log(&ls)),
        None => {
            if log_created {
                Some(Vec::new())
            } else {
                None
            }
        },
    }
}

/// The file-name patterns to ignore: one per line of the ignore file, or
/// none when the ignore file could not be read.
pub fn read_ignore_file(contents: Option<&str>) -> (r: Vec<String>)
    ensures
        contents matches Some(c) ==> views(r@) == lines(c@),
        contents is None ==> r@.len() == 0,
{
    match contents {
        Some(c) => split_lines(c),
        None => Vec::new(),
    }
}

/// Assembles the metadata of a repository from what was found of it: the
/// metadata folder's path, the commit log, the path-to-hash log and the
/// ignore patterns. There is no metadata unless the folder, the commit log
/// and the path-to-hash log were all found; the current commit is `"0"` and
/// no file object is known yet.
pub fn read_metadata(
    metadata_folder_path: Option<String>,
    commit_log: Option<Vec<CommitLogEntry>>,
    path_to_hash_objs: Option<PathToHash>,
    filename_patterns_to_ignore: Vec<String>,
) -> (r: Option<RitMetadata>)
    ensures
        r is Some <==> (metadata_folder_path is Some && commit_log is Some && path_to_hash_objs is Some),
        r matches Some(m) ==> {
            &&& m.meta_data_folder_path == metadata_folder_path->0
            &&& m.commit_log == commit_log->0
            &&& m.path_to_hash_objs == path_to_hash_objs->0
            &&& m.filename_patterns_to_ignore == filename_patterns_to_ignore
            &&& m.current_commit_id@ == "0"@
            &&& m.hash_to_file_obj_path@ == Map::<String, String>::empty()
        },
{
    let folder = match metadata_folder_path {
        Some(f) => f,
        None => return None,
    };
    let log = match commit_log {
        Some(l) => l,
        None => return None,
    };
    let objs = match path_to_hash_objs {
        Some(p) => p,
        None => return None,
    };
    Some(
        RitMetadata {
            hash_to_file_obj_path: HashMap::new(),
            meta_data_folder_path: folder,
            current_commit_id: "0".to_owned(),
            commit_log: log,
            path_to_hash_objs: objs,
            filename_patterns_to_ignore,
        },
    )
}


/// Reading the repository's logs a second time, with nothing changed since
/// the first, gives the same logs. A log that could be read is read from its
/// lines (or contents) alone, as the contracts of [`init_commit_log`] and
/// `init_path_to_obj_hash_file` state, so the same lines give the same log.
/// A log that was missing was created empty, and the empty log it stood for
/// is what its empty file reads back as: an empty commit log file has no
/// lines, and an empty path-to-hash log file holds no entry.
pub proof fn law_logs_read_back_the_same()
    ensures
        Seq::<Seq<char>>::empty().map_values(|l: Seq<char>| parse_log_line(l)) == Seq::<
            (Seq<char>, Seq<char>),
        >::empty(),
        crate::path_to_hash::parse_log(Seq::<char>::empty()) == Seq::<(Seq<char>, Seq<char>)>::empty(),
{
    assert(Seq::<Seq<char>>::empty().map_values(|l: Seq<char>| parse_log_line(l)) =~= Seq::<
        (Seq<char>, Seq<char>),
    >::empty());
    assert(lines(Seq::<char>::empty()) =~= Seq::<Seq<char>>::empty());
    assert(crate::path_to_hash::parse_log(Seq::<char>::empty()) =~= Seq::<(Seq<char>, Seq<char>)>::empty());
}

// ---------------------------------------------------------------------------
// Looking for entries in folders
// ---------------------------------------------------------------------------

/// One entry of a folder listing: its file name and whether it is a folder
/// or a file.
pub struct DirEntryInfo {
    pub name: String,
    pub is_dir: bool,
    pub is_file: bool,
}

/// The entry is what a search asks for: a folder when `is_dir`, otherwise a
/// file, whose name contains `name`.
pub open spec fn entry_is_wanted(e: DirEntryInfo, name: Seq<char>, is_dir: bool) -> bool {
    ((is_dir && e.is_dir) || (!is_dir && e.is_file)) && contains_seq(e.name@, name)
}

fn entry_is_wanted_exec(e: &DirEntryInfo, name: &str, is_dir: bool) -> (r: bool)
    ensures
        r == entry_is_wanted(*e, name@, is_dir),
{
    ((is_dir && e.is_dir) || (!is_dir && e.is_file)) && str_contains(e.name.as_str(), name)
}

/// The first entry of a folder listing that is wanted (see
/// [`entry_is_wanted`]), if any.
pub fn search_dir(entries: &Vec<DirEntryInfo>, entry_name_to_find: &str, is_dir: bool) -> (r:
    Option<usize>)
    ensures
        r matches Some(i) ==> i < entries@.len() && entry_is_wanted(
            entries@[i as int],
            entry_name_to_find@,
            is_dir,
        ),
        r matches Some(i) ==> forall|j: int|
            0 <= j < i ==> !entry_is_wanted(#[trigger] entries@[j], entry_name_to_find@, is_dir),
        r is None ==> forall|j: int|
            0 <= j < entries@.len() ==> !entry_is_wanted(
                #[trigger] entries@[j],
                entry_name_to_find@,
                is_dir,
            ),
{
    let n = entries.len();
    for i in 0..n
        invariant
            n == entries@.len(),
            forall|j: int|
                0 <= j < i ==> !entry_is_wanted(#[trigger] entries@[j], entry_name_to_find@, is_dir),
    {
        if entry_is_wanted_exec(&entries[i], entry_name_to_find, is_dir) {
            return Some(i);
        }
    }
    None
}

/// What looking through one folder listing decides in a search that goes
/// down into folders.
#[derive(Debug, PartialEq, Eq, Clone, Copy, Structural)]
pub enum DirSearchStep {
    /// The entry at this position is the one searched for.
    Found(usize),
    /// The search goes on inside the folder at this position, and only there.
    Descend(usize),
    /// Nothing in this folder is searched for, nor is there a folder to
    /// search in.
    NotFound,
}

/// The entry stops the scan of its folder: it is wanted, or the search is
/// for folders and it is one.
pub open spec fn entry_ends_scan(e: DirEntryInfo, name: Seq<char>, is_dir: bool) -> bool {
    entry_is_wanted(e, name, is_dir) || (is_dir && e.is_dir)
}

/// One folder's part of a search that goes down into folders: the entries
/// are looked at in order; the first wanted one is found; but when the
/// search is for folders, the first folder that is not wanted is gone into
/// instead, and the rest of the listing is not looked at.
pub fn recursive_dir_search(entries: &Vec<DirEntryInfo>, entry_name_to_find: &str, is_dir: bool) -> (r:
    DirSearchStep)
    ensures
        r matches DirSearchStep::Found(i) ==> i < entries@.len() && entry_is_wanted(
            entries@[i as int],
            entry_name_to_find@,
            is_dir,
        ) && forall|j: int|
            0 <= j < i ==> !entry_ends_scan(#[trigger] entries@[j], entry_name_to_find@, is_dir),
        r matches DirSearchStep::Descend(i) ==> i < entries@.len() && is_dir && entries@[i as int].is_dir
            && !entry_is_wanted(entries@[i as int], entry_name_to_find@, is_dir) && forall|j: int|
            0 <= j < i ==> !entry_ends_scan(#[trigger] entries@[j], entry_name_to_find@, is_dir),
        r is NotFound ==> forall|j: int|
            0 <= j < entries@.len() ==> !entry_ends_scan(
                #[trigger] entries@[j],
                entry_name_to_find@,
                is_dir,
            ),
{
    let n = entries.len();
    for i in 0..n
        invariant
            n == entries@.len(),
            forall|j: int|
                0 <= j < i ==> !entry_ends_scan(#[trigger] entries@[j], entry_name_to_find@, is_dir),
    {
        if entry_is_wanted_exec(&entries[i], entry_name_to_find, is_dir) {
            return DirSearchStep::Found(i);
        }
        if is_dir && entries[i].is_dir {
            return DirSearchStep::Descend(i);
        }
    }
    DirSearchStep::NotFound
}

// ---------------------------------------------------------------------------
// Looking for the metadata folder
// ---------------------------------------------------------------------------

/// How many folders the search for the metadata folder looks in at most:
/// the current one and its nearest ancestors.
pub const MAX_SEARCH_ROUNDS: usize = 9;

/// The relative path of the `k`-th ancestor of the current folder:
/// `"."`, `"../."`, `"../../."`, ...
pub open spec fn ancestor_path(k: nat) -> Seq<char>
    decreases k,
{
    if k == 0 {
        seq!['.']
    } else {
        seq!['.', '.', '/'] + ancestor_path((k - 1) as nat)
    }
}

/// The state of a search for the metadata folder: the folder to look in and
/// which round of the search this is (the first is 1).
pub struct FolderSearch {
    current_path: String,
    round: usize,
}

impl View for FolderSearch {
    type V = (Seq<char>, nat);

    closed spec fn view(&self) -> (Seq<char>, nat) {
        (self.current_path@, self.round as nat)
    }
}

/// What happened since the search's last decision.
pub enum FolderSearchEvent {
    /// The search begins.
    Start,
    /// The folder to look in was searched; whether the metadata folder was
    /// in it.
    Searched(bool),
    /// The parent folder was checked; whether it exists.
    ParentChecked(bool),
}

/// What the search asks to do next.
pub enum FolderSearchAction {
    /// Look for the metadata folder in this folder.
    Search(String),
    /// Check whether this folder exists.
    CheckParent(String),
    /// The metadata folder was found where it was last looked for.
    Found,
    /// The search ends without finding it.
    NotFound,
}

/// The spec form of [`FolderSearchAction`].
pub enum FolderSearchActionView {
    Search(Seq<char>),
    CheckParent(Seq<char>),
    Found,
    NotFound,
}

impl View for FolderSearchAction {
    type V = FolderSearchActionView;

    open spec fn view(&self) -> FolderSearchActionView {
        match self {
            FolderSearchAction::Search(p) => FolderSearchActionView::Search(p@),
            FolderSearchAction::CheckParent(p) => FolderSearchActionView::CheckParent(p@),
            FolderSearchAction::Found => FolderSearchActionView::Found,
            FolderSearchAction::NotFound => FolderSearchActionView::NotFound,
        }
    }
}

/// One decision of the search for the metadata folder: from its state and
/// what just happened, its next state and what to do. A folder that was
/// searched in vain is followed by its parent, if the parent exists and the
/// search has rounds left.
pub open spec fn folder_search_step(state: (Seq<char>, nat), event: FolderSearchEvent) -> (
    (Seq<char>, nat),
    FolderSearchActionView,
) {
    match event {
        FolderSearchEvent::Start => (state, FolderSearchActionView::Search(state.0)),
        FolderSearchEvent::Searched(found) => {
            if found {
                (state, FolderSearchActionView::Found)
            } else {
                let parent = seq!['.', '.', '/'] + state.0;
                ((parent, state.1), FolderSearchActionView::CheckParent(parent))
            }
        },
        FolderSearchEvent::ParentChecked(exists) => {
            if exists && state.1 < MAX_SEARCH_ROUNDS {
                ((state.0, state.1 + 1), FolderSearchActionView::Search(state.0))
            } else {
                (state, FolderSearchActionView::NotFound)
            }
        },
    }
}

impl FolderSearch {
    /// A search that starts in the current folder.
    pub fn new() -> (r: FolderSearch)
        ensures
            r@ == (ancestor_path(0), 1nat),
    {
        let mut p = String::new();
        crate::text::string_push(&mut p, '.');
        FolderSearch { current_path: p, round: 1 }
    }
}

/// Takes one decision of the search for the metadata folder (see
/// [`folder_search_step`]).
pub fn search_for_metadata_folder(search: &mut FolderSearch, event: FolderSearchEvent) -> (r:
    FolderSearchAction)
    ensures
        (final(search)@, r@) == folder_search_step(old(search)@, event),
{
    match event {
        FolderSearchEvent::Start => FolderSearchAction::Search(search.current_path.clone()),
        FolderSearchEvent::Searched(found) => {
            if found {
                FolderSearchAction::Found
            } else {
                let mut parent = "../".to_owned();
                proof {
                    reveal_strlit("../");
                }
                parent.append(search.current_path.as_str());
                assert(parent@ =~= seq!['.', '.', '/'] + old(search)@.0);
                search.current_path = parent.clone();
                FolderSearchAction::CheckParent(parent)
            }
        },
        FolderSearchEvent::ParentChecked(exists) => {
            if exists && search.round < MAX_SEARCH_ROUNDS {
                search.round = search.round + 1;
                FolderSearchAction::Search(search.current_path.clone())
            } else {
                FolderSearchAction::NotFound
            }
        },
    }
}

/// The state of a search for the metadata folder after `k` rounds in which
/// the folder was not found and the parent existed.
pub open spec fn state_after_failed_rounds(k: nat) -> (Seq<char>, nat)
    decreases k,
{
    if k == 0 {
        (ancestor_path(0), 1nat)
    } else {
        let s = state_after_failed_rounds((k - 1) as nat);
        let (s1, _) = folder_search_step(s, FolderSearchEvent::Searched(false));
        folder_search_step(s1, FolderSearchEvent::ParentChecked(true)).0
    }
}

/// The search for the metadata folder looks, round after round, in the
/// current folder and then in each next ancestor: after `k` fruitless rounds
/// it looks in the `k`-th ancestor; and in the ninth round it looks for the
/// last time, whatever it then learns of the parent.
pub proof fn law_metadata_search_rounds(k: nat)
    requires
        k < MAX_SEARCH_ROUNDS,
    ensures
        state_after_failed_rounds(k) == (ancestor_path(k), k + 1),
        folder_search_step(state_after_failed_rounds(k), FolderSearchEvent::Start).1
            == FolderSearchActionView::Search(ancestor_path(k)),
        k + 1 == MAX_SEARCH_ROUNDS ==> folder_search_step(
            folder_search_step(
                state_after_failed_rounds(k),
                FolderSearchEvent::Searched(false),
            ).0,
            FolderSearchEvent::ParentChecked(true),
        ).1 == FolderSearchActionView::NotFound,
    decreases k,
{
    if k > 0 {
        law_metadata_search_rounds((k - 1) as nat);
    }
}

/// A search that finds the metadata folder stops there: in every state,
/// the first round in the current folder included, learning that the folder
/// just searched holds it is answered by `Found`, and the state stays as it
/// was.
pub proof fn law_found_ends_the_search(state: (Seq<char>, nat))
    ensures
        folder_search_step(state, FolderSearchEvent::Searched(true)) == (state, FolderSearchActionView::Found),
        folder_search_step(state_after_failed_rounds(0), FolderSearchEvent::Searched(true)) == (
            (seq!['.'], 1nat),
            FolderSearchActionView::Found,
        ),
{
}

/// A search for a file accepts only files, and a search for a folder only
/// folders, in both cases exactly those whose name contains the name sought.
pub proof fn law_wanted_entries_are_of_the_kind_sought(e: DirEntryInfo, name: Seq<char>)
    ensures
        entry_is_wanted(e, name, false) <==> (e.is_file && contains_seq(e.name@, name)),
        entry_is_wanted(e, name, true) <==> (e.is_dir && contains_seq(e.name@, name)),
        e.is_dir && !e.is_file ==> !entry_is_wanted(e, name, false),
        e.is_file && !e.is_dir ==> !entry_is_wanted(e, name, true),
{
}

/// The entry a search of one folder listing returns is of the kind sought:
/// a search for a file gives a file, one for a folder a folder; and no
/// entry before it of that kind has a name containing the name sought.
pub proof fn law_search_result_is_the_first_of_its_kind(
    entries: Seq<DirEntryInfo>,
    name: Seq<char>,
    is_dir: bool,
    i: int,
)
    requires
        0 <= i < entries.len(),
        entry_is_wanted(entries[i], name, is_dir),
        forall|j: int| 0 <= j < i ==> !entry_is_wanted(#[trigger] entries[j], name, is_dir),
    ensures
        is_dir ==> entries[i].is_dir,
        !is_dir ==> entries[i].is_file,
        contains_seq(entries[i].name@, name),
        forall|j: int|
            0 <= j < i ==> !((if is_dir { entries[j].is_dir } else { entries[j].is_file }) && contains_seq(
                #[trigger] entries[j].name@,
                name,
            )),
{
}

} // verus!
