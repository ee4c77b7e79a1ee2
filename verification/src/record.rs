//! Recording the files being added: each file that has no stored object yet
//! is hashed and archived into the objects folder and recorded in the
//! path-to-hash log, and the log is then written out.

use vstd::prelude::*;
use crate::path_to_hash::{log_line, path_to_hash_log_path, PathToHash};
use crate::text::{contains_seq, views};
use crate::utils::{
    file_name, hash_file, has_no_file_name, is_surely_relative, path_is_relative, plain_file_name_of,
    sha256_hex,
};

verus! {

/// Where the stored objects live inside the metadata folder:
/// `"<folder>/objs/"`.
pub open spec fn obj_folder_path(metadata_folder_path: Seq<char>) -> Seq<char> {
    metadata_folder_path + "/objs/"@
}

/// Where the archive of contents with hash `hash` is stored:
/// `"<folder>/objs/<hash>"`.
pub fn zipped_file_path(metadata_folder_path: &str, hash: &str) -> (r: String)
    ensures
        r@ == obj_folder_path(metadata_folder_path@) + hash@,
{
    let mut r = metadata_folder_path.to_owned();
    r.append("/objs/");
    r.append(hash);
    r
}

/// The progress of recording a list of added files.
pub struct AddedFilesRecording {
    metadata_folder_path: String,
    files: Vec<String>,
    next: usize,
    pending_hash: Option<String>,
}

/// The view of an optional string.
pub open spec fn opt_seq(o: Option<String>) -> Option<Seq<char>> {
    match o {
        Some(s) => Some(s@),
        None => None,
    }
}

impl View for AddedFilesRecording {
    /// The metadata folder, the files to record, how many of them are done,
    /// and the content hash of the file being stored, if any.
    type V = (Seq<char>, Seq<Seq<char>>, nat, Option<Seq<char>>);

    closed spec fn view(&self) -> (Seq<char>, Seq<Seq<char>>, nat, Option<Seq<char>>) {
        (self.metadata_folder_path@, views(self.files@), self.next as nat, opt_seq(self.pending_hash))
    }
}

/// What recording the added files asks to do next.
pub enum RecordAction {
    /// Make sure the objects folder exists.
    CreateObjFolder(String),
    /// Look for an object file whose name contains `file_name` in the
    /// objects folder.
    SearchObjFolder { obj_folder: String, file_name: String },
    /// Read the contents of the file to add.
    ReadFile(String),
    /// Create the object file `object_name` in `obj_folder` and write into
    /// it, at `object_path`, the archive of the file at `file_path`.
    StoreObject { object_name: String, obj_folder: String, object_path: String, file_path: String },
    /// Append these lines to the path-to-hash log at `log_path`.
    AppendLog { log_path: String, lines: Vec<String> },
    /// Recording is over; whether it succeeded.
    Done(bool),
}

/// What happened since the last decision.
pub enum RecordEvent {
    /// Recording begins.
    Start,
    /// The objects folder was made sure of; whether it exists now.
    ObjFolderReady(bool),
    /// The objects folder was searched; whether an object was found.
    Searched(bool),
    /// The file to add was read: its contents, or nothing if it could not be.
    FileRead(Option<Vec<u8>>),
    /// The object file was created and the archive written into it, or not.
    Stored(bool),
    /// The log lines were appended.
    LogAppended,
}

/// `r` asks to look, in the objects folder of `folder`, for the name
/// `name`.
pub open spec fn is_search(r: RecordAction, folder: Seq<char>, name: Seq<char>) -> bool {
    r matches RecordAction::SearchObjFolder { obj_folder, file_name } && obj_folder@ == obj_folder_path(
        folder,
    ) && file_name@ == name
}

/// `r` ends recording, successfully or not as `ok` says.
pub open spec fn is_done(r: RecordAction, ok: bool) -> bool {
    r matches RecordAction::Done(b) && b == ok
}

/// `r` is a correct next step once the files before position `next` are
/// done. With every file done, the whole path-to-hash log is appended to
/// the stored one at the metadata folder's log path. Otherwise the next
/// file's name is looked for in the objects folder: the name a path plainly
/// names (see [`plain_file_name_of`], such as `a.txt` for `./dir/a.txt`) is
/// looked for; a path with no file name ends recording in failure; for the
/// remaining paths, whose final component depends on the platform, the name
/// is a non-empty piece of the path, or recording fails when there is none.
pub open spec fn is_next_file_action(
    state: (Seq<char>, Seq<Seq<char>>, nat, Option<Seq<char>>),
    meta_data_folder_path: Seq<char>,
    entries: Seq<(Seq<char>, Seq<char>)>,
    r: RecordAction,
) -> bool {
    let (folder, files, next, _) = state;
    if next >= files.len() {
        r matches RecordAction::AppendLog { log_path, lines } && log_path@ == meta_data_folder_path
            + "/path_to_hash.txt"@ && views(lines@) == entries.map_values(
            |e: (Seq<char>, Seq<char>)| log_line(e),
        )
    } else {
        let file = files[next as int];
        if plain_file_name_of(file) is Some {
            is_search(r, folder, plain_file_name_of(file)->0)
        } else if has_no_file_name(file) {
            is_done(r, false)
        } else {
            ||| is_done(r, false)
            ||| r matches RecordAction::SearchObjFolder { obj_folder, file_name } && obj_folder@
                == obj_folder_path(folder) && file_name@.len() > 0 && contains_seq(file, file_name@)
        }
    }
}

impl AddedFilesRecording {
    /// Starts recording `file_paths_to_add`, whose objects go into the
    /// metadata folder `metadata_folder_path`.
    pub fn new(metadata_folder_path: &str, file_paths_to_add: Vec<String>) -> (r: AddedFilesRecording)
        ensures
            r@ == (metadata_folder_path@, views(file_paths_to_add@), 0nat, None::<Seq<char>>),
    {
        AddedFilesRecording {
            metadata_folder_path: metadata_folder_path.to_owned(),
            files: file_paths_to_add,
            next: 0,
            pending_hash: None,
        }
    }

    fn obj_folder(&self) -> (r: String)
        ensures
            r@ == obj_folder_path(self@.0),
    {
        let mut r = self.metadata_folder_path.clone();
        r.append("/objs/");
        r
    }

    /// The first step of recording, given whether the metadata folder path
    /// is relative: a relative one has its objects folder made sure of; any
    /// other ends recording in failure, as recording needs a relative
    /// metadata folder path.
    pub fn start_action(&self, folder_is_relative: bool) -> (r: RecordAction)
        ensures
            folder_is_relative ==> (r matches RecordAction::CreateObjFolder(p) && p@ == obj_folder_path(
                self@.0,
            )),
            !folder_is_relative ==> is_done(r, false),
    {
        if folder_is_relative {
            RecordAction::CreateObjFolder(self.obj_folder())
        } else {
            RecordAction::Done(false)
        }
    }

    /// The step for a file, given the file name found in its path: the
    /// name is looked for in the objects folder; without a name, recording
    /// ends in failure.
    pub fn file_action(&self, name: Option<String>) -> (r: RecordAction)
        ensures
            name matches Some(n) ==> is_search(r, self@.0, n@),
            name is None ==> is_done(r, false),
    {
        match name {
            Some(n) => RecordAction::SearchObjFolder { obj_folder: self.obj_folder(), file_name: n },
            None => RecordAction::Done(false),
        }
    }

    fn next_file_action(&self, path_to_hash_objs: &PathToHash, meta_data_folder_path: &str) -> (r:
        RecordAction)
        ensures
            is_next_file_action(self@, meta_data_folder_path@, path_to_hash_objs@, r),
    {
        if self.next >= self.files.len() {
            let log_path = path_to_hash_log_path(meta_data_folder_path);
            let lines = path_to_hash_objs.record_path_to_hashes();
            return RecordAction::AppendLog { log_path, lines };
        }
        assert(views(self.files@)[self.next as int] == self.files@[self.next as int]@);
        let name = file_name(self.files[self.next].as_str());
        self.file_action(name)
    }
}

/// `r` asks to make sure of the objects folder of `folder`.
pub open spec fn is_create_obj_folder(r: RecordAction, folder: Seq<char>) -> bool {
    r matches RecordAction::CreateObjFolder(p) && p@ == obj_folder_path(folder)
}

/// `r` asks to read `file`.
pub open spec fn is_read_file(r: RecordAction, file: Seq<char>) -> bool {
    r matches RecordAction::ReadFile(p) && p@ == file
}

/// `r` asks to store the archive of `file` as the object named `hash` in
/// the objects folder of `folder`.
pub open spec fn is_store_object(r: RecordAction, file: Seq<char>, folder: Seq<char>, hash: Seq<char>) -> bool {
    r matches RecordAction::StoreObject { object_name, obj_folder, object_path, file_path }
        && object_name@ == hash && obj_folder@ == obj_folder_path(folder) && object_path@
        == obj_folder_path(folder) + hash && file_path@ == file
}

/// One decision of recording the added files.
///
/// Recording needs a relative metadata folder path and fails at once
/// otherwise. The objects folder is made sure of first (failing ends
/// recording). Then each file in turn is looked for in the objects folder
/// by its file name (a path without one ends recording in failure); one that
/// is found is left as it is; one that is not is read, its contents hashed
/// with SHA-256, its archive stored as the object named by the hash, and
/// the hash and path are recorded after the path-to-hash log's entries
/// (failing to read or store ends recording). When every file is done, the
/// whole log is appended to the stored one, and recording succeeds.
pub fn record_added_files(
    recording: &mut AddedFilesRecording,
    path_to_hash_objs: &mut PathToHash,
    meta_data_folder_path: &str,
    event: RecordEvent,
) -> (r: RecordAction)
    ensures
        ({
            let st = old(recording)@;
            let entries = old(path_to_hash_objs)@;
            let (folder, files, next, pending) = st;
            let advanced = (folder, files, next + 1, None::<Seq<char>>);
            match event {
                RecordEvent::Start => final(recording)@ == st && final(path_to_hash_objs)@ == entries && (
                is_create_obj_folder(r, folder) || is_done(r, false)) && (is_surely_relative(folder)
                    ==> is_create_obj_folder(r, folder)),
                RecordEvent::ObjFolderReady(ok) => final(recording)@ == st && final(path_to_hash_objs)@
                    == entries && if ok {
                    is_next_file_action(st, meta_data_folder_path@, entries, r)
                } else {
                    is_done(r, false)
                },
                RecordEvent::Searched(found) => final(path_to_hash_objs)@ == entries && if next
                    >= files.len() {
                    final(recording)@ == st && is_done(r, false)
                } else if found {
                    final(recording)@ == advanced && is_next_file_action(
                        advanced,
                        meta_data_folder_path@,
                        entries,
                        r,
                    )
                } else {
                    final(recording)@ == st && is_read_file(r, files[next as int])
                },
                RecordEvent::FileRead(contents) => final(path_to_hash_objs)@ == entries && if next
                    >= files.len() || contents is None {
                    final(recording)@ == st && is_done(r, false)
                } else {
                    let hash = sha256_hex(contents->0@);
                    final(recording)@ == (folder, files, next, Some(hash)) && is_store_object(
                        r,
                        files[next as int],
                        folder,
                        hash,
                    )
                },
                RecordEvent::Stored(ok) => if next >= files.len() || pending is None || !ok {
                    final(recording)@ == st && final(path_to_hash_objs)@ == entries && is_done(r, false)
                } else {
                    let recorded = entries.push((pending->0, files[next as int]));
                    final(recording)@ == advanced && final(path_to_hash_objs)@ == recorded
                        && is_next_file_action(advanced, meta_data_folder_path@, recorded, r)
                },
                RecordEvent::LogAppended => final(recording)@ == st && final(path_to_hash_objs)@
                    == entries && is_done(r, true),
            }
        }),
{
    match event {
        RecordEvent::Start => {
            let relative = path_is_relative(recording.metadata_folder_path.as_str());
            recording.start_action(relative)
        },
        RecordEvent::ObjFolderReady(ok) => {
            if ok {
                recording.next_file_action(path_to_hash_objs, meta_data_folder_path)
            } else {
                RecordAction::Done(false)
            }
        },
        RecordEvent::Searched(found) => {
            if recording.next >= recording.files.len() {
                return RecordAction::Done(false);
            }
            if found {
                recording.next = recording.next + 1;
                recording.pending_hash = None;
                recording.next_file_action(path_to_hash_objs, meta_data_folder_path)
            } else {
                assert(views(recording.files@)[recording.next as int] == recording.files@[recording.next as int]@);
                RecordAction::ReadFile(recording.files[recording.next].clone())
            }
        },
        RecordEvent::FileRead(contents) => {
            if recording.next >= recording.files.len() {
                return RecordAction::Done(false);
            }
            match contents {
                None => RecordAction::Done(false),
                Some(c) => {
                    let hash = match hash_file(Some(c.as_slice())) {
                        Some(h) => h,
                        None => return RecordAction::Done(false),
                    };
                    assert(views(recording.files@)[recording.next as int] == recording.files@[recording.next as int]@);
                    let object_path = zipped_file_path(recording.metadata_folder_path.as_str(), hash.as_str());
                    let action = RecordAction::StoreObject {
                        object_name: hash.clone(),
                        obj_folder: recording.obj_folder(),
                        object_path,
                        file_path: recording.files[recording.next].clone(),
                    };
                    recording.pending_hash = Some(hash);
                    action
                },
            }
        },
        RecordEvent::Stored(ok) => {
            if recording.next >= recording.files.len() || !ok {
                return RecordAction::Done(false);
            }
            let hash = match &recording.pending_hash {
                Some(h) => h.clone(),
                None => return RecordAction::Done(false),
            };
            assert(views(recording.files@)[recording.next as int] == recording.files@[recording.next as int]@);
            path_to_hash_objs.record_new_entry(hash.as_str(), recording.files[recording.next].as_str());
            recording.next = recording.next + 1;
            recording.pending_hash = None;
            recording.next_file_action(path_to_hash_objs, meta_data_folder_path)
        },
        RecordEvent::LogAppended => RecordAction::Done(true),
    }
}

} // verus!
