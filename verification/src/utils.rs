//! Content hashes, file names and single-file archives.

use std::io::{Cursor, Write};
use vstd::prelude::*;
use zip::result::ZipError;
use zip::ZipWriter;
use crate::text::contains_seq;

verus! {

// ---------------------------------------------------------------------------
// Content hashes
// ---------------------------------------------------------------------------

/// What `sha256::digest` gives for some bytes: the SHA-256 digest written as
/// lowercase hexadecimal.
pub uninterp spec fn sha256_hex(data: Seq<u8>) -> Seq<char>;

/// A lowercase hexadecimal digit.
pub open spec fn is_lower_hex_digit(c: char) -> bool {
    ('0' <= c <= '9') || ('a' <= c <= 'f')
}

/// A text of 64 lowercase hexadecimal digits, the form of a content hash.
pub open spec fn is_hex_hash(s: Seq<char>) -> bool {
    s.len() == 64 && forall|i: int| 0 <= i < s.len() ==> is_lower_hex_digit(#[trigger] s[i])
}

/// The SHA-256 digest of some bytes, as lowercase hexadecimal.
///
/// Calls `sha256::digest` on a byte slice, which in the source of the crate
/// is `hex::encode(Sha256::digest(data))`: the 32-byte digest, two lowercase
/// hexadecimal digits per byte. The contract names the result and states its
/// form; the digest computation itself is not written out.
#[verifier::external_body]
fn sha256_digest(data: &[u8]) -> (r: String)
    ensures
        r@ == sha256_hex(data@),
        is_hex_hash(r@),
{
    sha256::digest(data)
}

/// The hash of a file's contents: `None` when the file could not be read
/// (`file_contents` is `None`), and otherwise the SHA-256 digest of its
/// bytes as lowercase hexadecimal.
pub fn hash_file(file_contents: Option<&[u8]>) -> (r: Option<String>)
    ensures
        file_contents is None ==> r is None,
        file_contents matches Some(c) ==> (r matches Some(h) && h@ == sha256_hex(c@) && is_hex_hash(
            h@,
        )),
{
    match file_contents {
        Some(contents) => Some(sha256_digest(contents)),
        None => None,
    }
}

// ---------------------------------------------------------------------------
// Paths
// ---------------------------------------------------------------------------

/// `dir + "/" + name`, the way the tool joins a folder and an entry name.
pub fn join_path(dir: &str, name: &str) -> (r: String)
    ensures
        r@ == dir@ + seq!['/'] + name@,
{
    let mut r = dir.to_owned();
    crate::text::string_push(&mut r, '/');
    r.append(name);
    r
}

/// A path that is a single plain name on every platform: non-empty, not
/// `"."` or `".."`, and without `/`, `\\` or `:`.
pub open spec fn is_plain_file_name(path: Seq<char>) -> bool {
    &&& path.len() > 0
    &&& path != "."@
    &&& path != ".."@
    &&& forall|i: int| 0 <= i < path.len() ==> path[i] != '/' && path[i] != '\\' && path[i] != ':'
}

/// A path that has no final component to name a file: empty, the root
/// `"/"`, the current folder `"."`, `".."`, or ending in `"/.."`.
pub open spec fn has_no_file_name(path: Seq<char>) -> bool {
    ||| path.len() == 0
    ||| path == "/"@
    ||| path == "."@
    ||| path == ".."@
    ||| (path.len() >= 3 && path.subrange(path.len() - 3, path.len() as int) == "/.."@)
}

/// The position of the last `/` in `s`, or -1 when there is none.
pub open spec fn last_slash(s: Seq<char>) -> int
    decreases s.len(),
{
    if s.len() == 0 {
        -1
    } else if s.last() == '/' {
        s.len() - 1
    } else {
        last_slash(s.drop_last())
    }
}

/// `s` holds no `:`.
pub open spec fn has_no_colon(s: Seq<char>) -> bool {
    forall|i: int| 0 <= i < s.len() ==> s[i] != ':'
}

/// The part of a path before its last `/` carries neither a Windows prefix
/// nor more than one leading separator: it holds no `:`, does not start
/// with `\\`, and when it starts with `/` (a root) the next character is not
/// a separator. It may be empty (the path is `"/" + n`).
pub open spec fn is_plain_folder_part(d: Seq<char>) -> bool {
    &&& has_no_colon(d)
    &&& (d.len() > 0 ==> d[0] != '\\')
    &&& (d.len() > 1 && d[0] == '/' ==> d[1] != '/' && d[1] != '\\')
    &&& d != "/"@
}

/// The file name that a path names on every platform, when it is plain to
/// see: a plain name is its own file name; a path `d + "/" + n` whose last
/// piece `n` is a plain name and whose folder part `d` is plain (see
/// [`is_plain_folder_part`]), such as `./dir/a.txt` or `/home/u/a.txt`,
/// names `n`.
pub open spec fn plain_file_name_of(path: Seq<char>) -> Option<Seq<char>> {
    if is_plain_file_name(path) {
        Some(path)
    } else {
        let k = last_slash(path);
        let d = path.take(k);
        let n = path.skip(k + 1);
        if k >= 0 && is_plain_file_name(n) && is_plain_folder_part(d) {
            Some(n)
        } else {
            None
        }
    }
}

/// What `Path::file_name` may give for a path: a non-empty piece of it;
/// the name that it plainly names (see [`plain_file_name_of`]); nothing when
/// it has no final component.
pub open spec fn file_name_facts(path: Seq<char>, name: Option<Seq<char>>) -> bool {
    &&& (name matches Some(n) ==> n.len() > 0 && contains_seq(path, n))
    &&& (plain_file_name_of(path) matches Some(n) ==> name == Some(n))
    &&& (has_no_file_name(path) ==> name is None)
}

/// The view of an optional string.
pub open spec fn opt_string_view(o: Option<String>) -> Option<Seq<char>> {
    match o {
        Some(s) => Some(s@),
        None => None,
    }
}

/// The last component of a path, as `Path::file_name` finds it.
///
/// Calls `std::path::Path::file_name`. Its documentation says that it gives
/// the final component of the path, if there is one, and nothing when the
/// path terminates in `..` (its examples include `"/"`); the component is a
/// non-empty part of the path, and `"."` alone, the current folder, has no
/// final component that names a file. `/` separates components on every
/// platform, so a plain name, alone or after a folder part that carries no
/// Windows prefix and at most a single leading root, is the final component
/// (see [`plain_file_name_of`]).
/// Where the final component starts in other paths depends on the platform
/// and is not stated.
#[verifier::external_body]
pub(crate) fn file_name(path: &str) -> (r: Option<String>)
    ensures
        file_name_facts(path@, opt_string_view(r)),
{
    match std::path::Path::new(path).file_name() {
        Some(n) => match n.to_str() {
            Some(s) => Some(s.to_owned()),
            None => None,
        },
        None => None,
    }
}

/// A path that is relative on every platform: empty, starting with `.`, or
/// starting with neither `/` nor `\\` and holding no `:` (so it has neither a
/// root nor a Windows prefix).
pub open spec fn is_surely_relative(path: Seq<char>) -> bool {
    ||| path.len() == 0
    ||| path[0] == '.'
    ||| (path[0] != '/' && path[0] != '\\' && has_no_colon(path))
}

/// Whether a path is relative, as `Path::is_relative` tells.
///
/// Calls `std::path::Path::is_relative`, which its documentation defines as
/// "not absolute": on Unix a path is absolute when it starts with the root,
/// on Windows when it has a prefix (which starts with `\\` or holds a `:`)
/// and starts with the root. So the paths of [`is_surely_relative`] are
/// relative everywhere; for other paths the answer depends on the platform
/// and is not stated.
#[verifier::external_body]
pub(crate) fn path_is_relative(path: &str) -> (r: bool)
    ensures
        is_surely_relative(path@) ==> r,
{
    std::path::Path::new(path).is_relative()
}


// ---------------------------------------------------------------------------
// Archives
// ---------------------------------------------------------------------------

#[verifier::external_type_specification]
#[verifier::external_body]
pub struct ExZipError(ZipError);

#[verifier::external_type_specification]
#[verifier::external_body]
pub struct ExIoError(std::io::Error);

/// An archive being written in memory. The writer's type is bounded by
/// `Write` and `Seek`, which cannot be named here, so the writer is held in
/// a private field and only the trusted items below touch it.
#[verifier::external_body]
pub struct MemoryArchive {
    writer: ZipWriter<Cursor<Vec<u8>>>,
}

/// What an archive being written holds: each file started in it, in the
/// order in which it was started, as the bytes of its name and the bytes
/// written into it so far; and whether the last file is still open for
/// writing.
pub uninterp spec fn archive_state(archive: MemoryArchive) -> (Seq<(Seq<u8>, Seq<u8>)>, bool);

/// The bytes of a finished archive whose files, each started with the
/// default file options, BZIP2 compression and the Unix system field, hold
/// these names and contents, in this order.
pub uninterp spec fn zip_bytes(files: Seq<(Seq<u8>, Seq<u8>)>) -> Seq<u8>;

/// How a file's contents are compressed in an archive.
pub enum ArchiveCompression {
    /// BZIP2 compression.
    Bzip2,
}

/// The bytes that open a ZIP local file header, `"PK\x03\x04"`.
pub open spec fn local_header_signature() -> Seq<u8> {
    seq![0x50u8, 0x4bu8, 0x03u8, 0x04u8]
}

/// `n` as four little-endian bytes.
pub open spec fn le_u32_bytes(n: nat) -> Seq<u8> {
    seq![(n % 256) as u8, ((n / 256) % 256) as u8, ((n / 65536) % 256) as u8, ((n / 16777216) % 256) as u8]
}

/// The bound below which a file's size fits the four-byte size fields of
/// an archive that is not marked for large files.
pub open spec fn small_file_limit() -> nat {
    0xffff_ffff
}

/// The largest contents for which a BZIP2-compressed file is sure to fit
/// an archive not marked for large files: compressed data is at most one
/// per cent larger than its input, plus 600 bytes.
pub open spec fn compressible_limit() -> nat {
    4_000_000_000
}

/// A single file named `name` holding `size` bytes fits an archive that is
/// not marked for large files: its local header (30 bytes and the name)
/// stays under 64 KiB and its compressed data under 4 GiB.
pub open spec fn archive_fits(name: Seq<char>, size: nat) -> bool {
    30 + vstd::utf8::encode_utf8(name).len() < 65535 && size <= compressible_limit()
}

/// `bytes` start with the local header of a file named `name` holding `size`
/// bytes: the header signature, fixed fields among which (at offset 22) the
/// uncompressed size, then the name.
pub open spec fn starts_with_local_file(bytes: Seq<u8>, name: Seq<u8>, size: nat) -> bool {
    &&& bytes.len() >= 30 + name.len()
    &&& bytes.take(4) == local_header_signature()
    &&& bytes.subrange(22, 26) == le_u32_bytes(size)
    &&& bytes.subrange(30, 30 + name.len() as int) == name
}

/// The files after `data` was written into the last one.
pub open spec fn appended_to_last(files: Seq<(Seq<u8>, Seq<u8>)>, data: Seq<u8>) -> Seq<(Seq<u8>, Seq<u8>)> {
    files.update(files.len() - 1, (files.last().0, files.last().1 + data))
}

/// A file is open in the archive, and `count` more bytes keep it under the
/// size at which an archive not marked for large files refuses it.
pub open spec fn can_write(state: (Seq<(Seq<u8>, Seq<u8>)>, bool), count: nat) -> bool {
    state.1 && state.0.len() > 0 && state.0.last().1.len() + count < small_file_limit()
}

/// A new, empty archive written into memory.
///
/// Calls `ZipWriter::new` on an empty in-memory cursor; in the crate's
/// source the new writer holds no file and none is open.
#[verifier::external_body]
fn new_archive() -> (r: MemoryArchive)
    ensures
        archive_state(r) == (Seq::<(Seq<u8>, Seq<u8>)>::empty(), false),
{
    MemoryArchive { writer: ZipWriter::new(Cursor::new(Vec::new())) }
}

/// Starts a file named `name` in the archive.
///
/// Calls `ZipWriter::start_file` with default file options, the given
/// compression method and the Unix system field (left to its default, the
/// field would follow the build target). In the crate's source a successful
/// call records the
/// file under the bytes of its name, after the files already there, with
/// nothing written into it yet, and leaves it open. On an archive that holds
/// no file the call fails only when the local header (30 bytes and the name)
/// would reach 64 KiB. What a failed call leaves behind is not stated.
#[verifier::external_body]
fn archive_start_file(archive: &mut MemoryArchive, name: &str, method: ArchiveCompression) -> (r:
    Result<(), ZipError>)
    ensures
        r is Ok ==> archive_state(*final(archive)) == (archive_state(*old(archive)).0.push(
            (vstd::utf8::encode_utf8(name@), Seq::<u8>::empty()),
        ), true),
        archive_state(*old(archive)).0.len() == 0 && 30 + vstd::utf8::encode_utf8(name@).len() < 65535
            ==> r is Ok,
{
    let method = match method {
        ArchiveCompression::Bzip2 => zip::CompressionMethod::Bzip2,
    };
    let options: zip::write::FullFileOptions = zip::write::FileOptions::default().compression_method(
        method,
    ).system(zip::System::Unix);
    archive.writer.start_file(name, options)
}

/// Writes all of `data` into the open file.
///
/// Calls `Write::write_all` on the archive; the writer keeps the trait's
/// default, which returns at once for empty data and otherwise calls
/// `write` until everything is taken. So an empty write always succeeds and
/// changes nothing; a successful write of some bytes appends them all to
/// the open file. In the crate's source `write` succeeds whenever a file is
/// open and the file stays under 4 GiB. The compressed bytes it produces
/// are described only through the finished archive; what a failed call
/// leaves behind is not stated.
#[verifier::external_body]
fn archive_write_all(archive: &mut MemoryArchive, data: &[u8]) -> (r: Result<(), std::io::Error>)
    ensures
        r is Ok && data@.len() == 0 ==> archive_state(*final(archive)) == archive_state(*old(archive)),
        r is Ok && data@.len() > 0 ==> archive_state(*old(archive)).1 && archive_state(
            *old(archive),
        ).0.len() > 0 && archive_state(*final(archive)) == (appended_to_last(
            archive_state(*old(archive)).0,
            data@,
        ), true),
        data@.len() == 0 || can_write(archive_state(*old(archive)), data@.len()) ==> r is Ok,
{
    archive.writer.write_all(data)
}

/// Writes a part of `data` into the open file.
///
/// Calls `Write::write` on the archive. In the crate's source the call
/// fails when no file is open; otherwise it hands the data to the BZIP2
/// encoder, which takes a non-empty part of non-empty data, appends that
/// part to the open file and reports its length, and the call fails only
/// when the file reaches 4 GiB. The compressed bytes are described only
/// through the finished archive; what a failed call leaves behind is not
/// stated.
#[verifier::external_body]
fn archive_write(archive: &mut MemoryArchive, data: &[u8]) -> (r: Result<usize, std::io::Error>)
    ensures
        r matches Ok(n) ==> n <= data@.len() && (data@.len() > 0 ==> n > 0) && archive_state(
            *old(archive),
        ).1 && archive_state(*old(archive)).0.len() > 0 && archive_state(*final(archive)) == (
        appended_to_last(archive_state(*old(archive)).0, data@.take(n as int)), true),
        can_write(archive_state(*old(archive)), data@.len()) ==> r is Ok,
{
    archive.writer.write(data)
}

/// Finishes the archive and gives its bytes.
///
/// Calls `ZipWriter::finish` and takes the bytes out of the cursor. The
/// output is a function of the files' names and contents, named
/// [`zip_bytes`]: every file is started with the same options, its system
/// field is set rather than taken from the build target, and, with the
/// crate's `time` feature off (it is not enabled here), the default
/// modification time is a fixed date rather than the clock's. In the crate's source the first file's local header opens
/// the output: the header signature, 26 bytes of fixed fields (among them
/// its uncompressed size as four little-endian bytes at offset 22, when
/// that is under 4 GiB), then the file's name. Finishing an archive whose
/// one file is open fails only when its compressed data reaches 4 GiB,
/// which BZIP2 (at most one per cent and 600 bytes over its input) does not
/// reach for contents of at most 4,000,000,000 bytes.
#[verifier::external_body]
fn archive_finish(archive: MemoryArchive) -> (r: Result<Vec<u8>, ZipError>)
    ensures
        r matches Ok(bytes) ==> bytes@ == zip_bytes(archive_state(archive).0),
        r matches Ok(bytes) ==> (archive_state(archive).0.len() > 0 && archive_state(archive).0[0].1.len()
            < small_file_limit() ==> starts_with_local_file(
            bytes@,
            archive_state(archive).0[0].0,
            archive_state(archive).0[0].1.len(),
        )),
        archive_state(archive).0.len() == 1 && archive_state(archive).1 && archive_state(archive).0[0].1.len()
            <= compressible_limit() ==> r is Ok,
{
    match archive.writer.finish() {
        Ok(cursor) => Ok(cursor.into_inner()),
        Err(e) => Err(e),
    }
}

/// A step of writing a single-file archive that failed.
#[derive(Debug, PartialEq, Eq, Clone, Copy, Structural)]
pub enum ArchiveError {
    /// The file could not be started.
    StartFile,
    /// The contents could not be written.
    Write,
    /// The archive could not be finished.
    Finish,
}

/// `bytes` open with the local header of a file named `name` that holds
/// `size` bytes of contents, the layout of the first file of an archive.
pub open spec fn is_single_file_archive(bytes: Seq<u8>, name: Seq<char>, size: nat) -> bool {
    starts_with_local_file(bytes, vstd::utf8::encode_utf8(name), size)
}

/// The archive holding one file named `name` with the given contents.
pub open spec fn single_file_archive(name: Seq<char>, contents: Seq<u8>) -> Seq<u8> {
    zip_bytes(seq![(vstd::utf8::encode_utf8(name), contents)])
}

/// A BZIP2-compressed archive holding one file named `zipped_filename` with
/// the given contents, as the tool stores a committed file. It is `None`
/// only when the file cannot be started, its contents cannot be written or
/// the archive cannot be finished, which does not happen when the file fits
/// (see [`archive_fits`]).
pub fn zip_file(zipped_filename: &str, contents: &[u8]) -> (r: Option<Vec<u8>>)
    ensures
        r matches Some(bytes) ==> bytes@ == single_file_archive(zipped_filename@, contents@),
        r matches Some(bytes) ==> (contents@.len() < small_file_limit() ==> is_single_file_archive(
            bytes@,
            zipped_filename@,
            contents@.len(),
        )),
        archive_fits(zipped_filename@, contents@.len()) ==> r is Some,
{
    match write_single_file_archive(zipped_filename, contents, true) {
        Ok((n, bytes)) => {
            assert(contents@.take(n as int) =~= contents@);
            Some(bytes)
        },
        Err(_) => None,
    }
}

/// Writes a BZIP2-compressed single-file archive: starts the file, writes
/// the contents (all of them when `write_everything`, otherwise with one
/// write, which takes a non-empty first part of non-empty contents) and
/// finishes. Gives how many bytes of the contents were written, and the
/// archive holding them. It fails only when a step fails, which does not
/// happen when the file fits (see [`archive_fits`]).
pub(crate) fn write_single_file_archive(name: &str, contents: &[u8], write_everything: bool) -> (r:
    Result<(usize, Vec<u8>), ArchiveError>)
    ensures
        r matches Ok((n, bytes)) ==> n <= contents@.len() && (contents@.len() > 0 ==> n > 0)
            && bytes@ == single_file_archive(name@, contents@.take(n as int)),
        r matches Ok((n, bytes)) ==> (n < small_file_limit() ==> is_single_file_archive(
            bytes@,
            name@,
            n as nat,
        )),
        r matches Ok((n, _)) ==> (write_everything ==> n == contents@.len()),
        archive_fits(name@, contents@.len()) ==> r is Ok,
{
    let mut archive = new_archive();
    match archive_start_file(&mut archive, name, ArchiveCompression::Bzip2) {
        Ok(()) => {},
        Err(_) => return Err(ArchiveError::StartFile),
    }
    let ghost started = archive_state(archive);
    assert(started.0 =~= seq![(vstd::utf8::encode_utf8(name@), Seq::<u8>::empty())]);
    let written = if write_everything {
        match archive_write_all(&mut archive, contents) {
            Ok(()) => contents.len(),
            Err(_) => return Err(ArchiveError::Write),
        }
    } else {
        match archive_write(&mut archive, contents) {
            Ok(n) => n,
            Err(_) => return Err(ArchiveError::Write),
        }
    };
    let ghost state = archive_state(archive);
    assert(state.1);
    assert(state.0 =~= seq![(vstd::utf8::encode_utf8(name@), contents@.take(written as int))]) by {
        if contents@.len() == 0 {
            assert(contents@.take(written as int) =~= Seq::<u8>::empty());
        } else {
            assert(Seq::<u8>::empty() + contents@.take(written as int) =~= contents@.take(written as int));
        }
        if write_everything {
            assert(contents@.take(contents@.len() as int) =~= contents@);
        }
    }
    match archive_finish(archive) {
        Ok(bytes) => Ok((written, bytes)),
        Err(_) => Err(ArchiveError::Finish),
    }
}

} // verus!
