//! The path-to-hash log: which content hash each recorded relative file path
//! had. It is kept in memory as an ordered list of entries and stored as one
//! line per entry, `"<hash> <relative path>\n"`.

use vstd::prelude::*;
use crate::text::{
    chars_of, first_field, first_index_of, lemma_first_index_of, lines, second_field, split_lines,
    strip_cr, string_push, two_fields, views,
};

verus! {

/// One recorded file: the hash of its contents and its relative path.
pub struct PathToHashEntry {
    hash: String,
    relative_filepath: String,
}

/// The recorded files, in the order in which they were recorded.
pub struct PathToHash {
    entries: Vec<PathToHashEntry>,
}

impl View for PathToHashEntry {
    type V = (Seq<char>, Seq<char>);

    closed spec fn view(&self) -> (Seq<char>, Seq<char>) {
        (self.hash@, self.relative_filepath@)
    }
}

impl View for PathToHash {
    type V = Seq<(Seq<char>, Seq<char>)>;

    closed spec fn view(&self) -> Seq<(Seq<char>, Seq<char>)> {
        self.entries@.map_values(|e: PathToHashEntry| e@)
    }
}

/// The hash of the first entry recorded for `path`, if any.
pub open spec fn first_hash_for(entries: Seq<(Seq<char>, Seq<char>)>, path: Seq<char>) -> Option<
    Seq<char>,
>
    decreases entries.len(),
{
    if entries.len() == 0 {
        None
    } else if entries[0].1 == path {
        Some(entries[0].0)
    } else {
        first_hash_for(entries.drop_first(), path)
    }
}

/// The path of the first entry recorded with `hash`, if any.
pub open spec fn first_path_for(entries: Seq<(Seq<char>, Seq<char>)>, hash: Seq<char>) -> Option<
    Seq<char>,
>
    decreases entries.len(),
{
    if entries.len() == 0 {
        None
    } else if entries[0].0 == hash {
        Some(entries[0].1)
    } else {
        first_path_for(entries.drop_first(), hash)
    }
}

/// The view of an optional string slice.
pub open spec fn opt_view(o: Option<&str>) -> Option<Seq<char>> {
    match o {
        Some(s) => Some(s@),
        None => None,
    }
}

/// The stored form of one entry: `"<hash> <relative path>\n"`.
pub open spec fn log_line(entry: (Seq<char>, Seq<char>)) -> Seq<char> {
    entry.0 + seq![' '] + entry.1 + seq!['\n']
}

/// The entry that one stored line stands for: its first field is the hash,
/// its second the relative path (missing fields are empty, further ones are
/// ignored).
pub open spec fn parse_log_line(line: Seq<char>) -> (Seq<char>, Seq<char>) {
    (first_field(line), second_field(line))
}

/// The entries that a stored log stands for, one per line.
pub open spec fn parse_log(contents: Seq<char>) -> Seq<(Seq<char>, Seq<char>)> {
    lines(contents).map_values(|l: Seq<char>| parse_log_line(l))
}

/// The texts joined in order.
pub open spec fn concat(texts: Seq<Seq<char>>) -> Seq<char>
    decreases texts.len(),
{
    if texts.len() == 0 {
        seq![]
    } else {
        texts[0] + concat(texts.drop_first())
    }
}

/// The stored form of a list of entries.
pub open spec fn serialize_log(entries: Seq<(Seq<char>, Seq<char>)>) -> Seq<char> {
    concat(entries.map_values(|e: (Seq<char>, Seq<char>)| log_line(e)))
}

/// Every entry's hash and path can stand as fields of a stored line.
pub open spec fn log_fields_well_formed(entries: Seq<(Seq<char>, Seq<char>)>) -> bool {
    forall|i: int| 0 <= i < entries.len() ==> is_log_field(#[trigger] entries[i].0) && is_log_field(entries[i].1)
}

/// A text that can stand as a field of a stored line and be read back as it
/// was: it holds no space, no line feed and no carriage return.
pub open spec fn is_log_field(s: Seq<char>) -> bool {
    forall|i: int| 0 <= i < s.len() ==> s[i] != ' ' && s[i] != '\n' && s[i] != '\r'
}

impl PathToHashEntry {
    /// An entry for `relative_filepath` whose contents hash to `hash`.
    pub fn new(hash: &str, relative_filepath: &str) -> (r: PathToHashEntry)
        ensures
            r@ == (hash@, relative_filepath@),
    {
        PathToHashEntry { hash: hash.to_owned(), relative_filepath: relative_filepath.to_owned() }
    }

    /// The hash of the recorded contents.
    pub fn hash(&self) -> (r: &str)
        ensures
            r@ == self@.0,
    {
        self.hash.as_str()
    }

    /// The recorded relative path.
    pub fn relative_filepath(&self) -> (r: &str)
        ensures
            r@ == self@.1,
    {
        self.relative_filepath.as_str()
    }

    /// The text that records this entry at the end of the stored log:
    /// `"<hash> <relative path>\n"`.
    pub fn record_hash_entry(&self) -> (r: String)
        ensures
            r@ == log_line(self@),
    {
        let mut r = self.hash.clone();
        string_push(&mut r, ' ');
        r.append(self.relative_filepath.as_str());
        string_push(&mut r, '\n');
        assert(r@ =~= log_line(self@));
        r
    }
}

impl PathToHash {
    /// An empty log.
    pub fn new() -> (r: PathToHash)
        ensures
            r@ == Seq::<(Seq<char>, Seq<char>)>::empty(),
    {
        let r = PathToHash { entries: Vec::new() };
        assert(r@ =~= Seq::<(Seq<char>, Seq<char>)>::empty());
        r
    }

    /// Number of recorded entries.
    pub fn len(&self) -> (r: usize)
        ensures
            r == self@.len(),
    {
        self.entries.len()
    }

    /// The entry at position `i`.
    pub fn entry(&self, i: usize) -> (r: &PathToHashEntry)
        requires
            i < self@.len(),
        ensures
            r@ == self@[i as int],
    {
        &self.entries[i]
    }

    /// The texts that record every entry at the end of the stored log, one
    /// per entry and in order.
    pub fn record_path_to_hashes(&self) -> (r: Vec<String>)
        ensures
            views(r@) == self@.map_values(|e: (Seq<char>, Seq<char>)| log_line(e)),
    {
        let mut r: Vec<String> = Vec::new();
        let n = self.entries.len();
        for i in 0..n
            invariant
                n == self.entries@.len(),
                views(r@) == self@.take(i as int).map_values(
                    |e: (Seq<char>, Seq<char>)| log_line(e),
                ),
        {
            let line = self.entries[i].record_hash_entry();
            let ghost before = r@;
            r.push(line);
            assert(views(r@) =~= views(before).push(line@));
            assert(self@.take(i + 1 as int) =~= self@.take(i as int).push(self@[i as int]));
            assert(self@.take(i + 1 as int).map_values(|e: (Seq<char>, Seq<char>)| log_line(e))
                =~= self@.take(i as int).map_values(|e: (Seq<char>, Seq<char>)| log_line(e)).push(
                log_line(self@[i as int]),
            ));
        }
        assert(self@.take(n as int) =~= self@);
        r
    }

    /// Records, after the existing entries, `relative_filepath` with the
    /// contents hash `file_hash`.
    pub fn record_new_entry(&mut self, file_hash: &str, relative_filepath: &str)
        ensures
            final(self)@ == old(self)@.push((file_hash@, relative_filepath@)),
    {
        let e = PathToHashEntry::new(file_hash, relative_filepath);
        self.entries.push(e);
        assert(final(self)@ =~= old(self)@.push((file_hash@, relative_filepath@)));
    }

    /// Records the given entries, in order, after the existing ones.
    pub fn record_new_entries(&mut self, new_entries: Vec<PathToHashEntry>)
        ensures
            final(self)@ == old(self)@ + new_entries@.map_values(|e: PathToHashEntry| e@),
    {
        let n = new_entries.len();
        for i in 0..n
            invariant
                n == new_entries@.len(),
                self@ == old(self)@ + new_entries@.take(i as int).map_values(
                    |e: PathToHashEntry| e@,
                ),
        {
            self.record_new_entry(new_entries[i].hash.as_str(), new_entries[i].relative_filepath.as_str());
            assert(new_entries@.take(i + 1 as int).map_values(|e: PathToHashEntry| e@)
                =~= new_entries@.take(i as int).map_values(|e: PathToHashEntry| e@).push(
                new_entries@[i as int]@,
            ));
        }
        assert(new_entries@.take(n as int) =~= new_entries@);
    }

    /// The hash of the first entry recorded for `relative_filepath`.
    pub fn get_hash(&self, relative_filepath: &str) -> (r: Option<&str>)
        ensures
            opt_view(r) == first_hash_for(self@, relative_filepath@),
    {
        let target = relative_filepath.to_owned();
        let n = self.entries.len();
        assert(self@.skip(0) =~= self@);
        for i in 0..n
            invariant
                n == self.entries@.len(),
                target@ == relative_filepath@,
                first_hash_for(self@.skip(i as int), target@) == first_hash_for(self@, target@),
        {
            assert(self@.skip(i as int).drop_first() =~= self@.skip(i + 1 as int));
            if self.entries[i].relative_filepath == target {
                return Some(self.entries[i].hash.as_str());
            }
        }
        None
    }

    /// The relative path of the first entry recorded with `file_hash`.
    pub fn get_relative_filepath(&self, file_hash: &str) -> (r: Option<&str>)
        ensures
            opt_view(r) == first_path_for(self@, file_hash@),
    {
        let target = file_hash.to_owned();
        let n = self.entries.len();
        assert(self@.skip(0) =~= self@);
        for i in 0..n
            invariant
                n == self.entries@.len(),
                target@ == file_hash@,
                first_path_for(self@.skip(i as int), target@) == first_path_for(self@, target@),
        {
            assert(self@.skip(i as int).drop_first() =~= self@.skip(i + 1 as int));
            if self.entries[i].hash == target {
                return Some(self.entries[i].relative_filepath.as_str());
            }
        }
        None
    }
}


/// Reads a stored log: one entry per line (see [`parse_log`]).
pub fn parse_path_to_hashes(contents: &str) -> (r: PathToHash)
    ensures
        r@ == parse_log(contents@),
{
    let ls = split_lines(contents);
    let n = ls.len();
    let mut entries: Vec<PathToHashEntry> = Vec::new();
    for i in 0..n
        invariant
            n == ls@.len(),
            views(ls@) == lines(contents@),
            entries@.map_values(|e: PathToHashEntry| e@) == lines(contents@).take(i as int).map_values(
                |l: Seq<char>| parse_log_line(l),
            ),
    {
        let cs = chars_of(ls[i].as_str());
        let (hash, relative_filepath) = two_fields(&cs);
        let ghost before = entries@;
        entries.push(PathToHashEntry { hash, relative_filepath });
        assert(views(ls@)[i as int] == ls@[i as int]@);
        assert(entries@.map_values(|e: PathToHashEntry| e@) =~= before.map_values(
            |e: PathToHashEntry| e@,
        ).push(parse_log_line(lines(contents@)[i as int])));
        assert(lines(contents@).take(i + 1 as int) =~= lines(contents@).take(i as int).push(
            lines(contents@)[i as int],
        ));
        assert(lines(contents@).take(i + 1 as int).map_values(|l: Seq<char>| parse_log_line(l))
            =~= lines(contents@).take(i as int).map_values(|l: Seq<char>| parse_log_line(l)).push(
            parse_log_line(lines(contents@)[i as int]),
        ));
    }
    assert(lines(contents@).take(n as int) =~= lines(contents@));
    let r = PathToHash { entries };
    assert(r@ =~= parse_log(contents@));
    r
}

/// Where the log is stored inside the metadata folder.
pub fn path_to_hash_log_path(metadata_folder_path: &str) -> (r: String)
    ensures
        r@ == metadata_folder_path@ + "/path_to_hash.txt"@,
{
    let mut r = metadata_folder_path.to_owned();
    r.append("/path_to_hash.txt");
    r
}

/// The log a repository starts from. `metadata_folder_exists` tells whether
/// the metadata folder exists; `log_contents` is the stored log when it
/// exists and could be read; `log_created` tells whether an empty log file
/// could be created in its place when it could not.
///
/// There is no log without a metadata folder; a log that could be read is
/// parsed; otherwise the log is empty if its file could be created, and
/// missing if not.
pub fn init_path_to_obj_hash_file(
    metadata_folder_exists: bool,
    log_contents: Option<&str>,
    log_created: bool,
) -> (r: Option<PathToHash>)
    ensures
        !metadata_folder_exists ==> r is None,
        metadata_folder_exists && log_contents is Some ==> (r matches Some(p) && p@ == parse_log(
            log_contents->0@,
        )),
        metadata_folder_exists && log_contents is None ==> (r is Some <==> log_created),
        metadata_folder_exists && log_contents is None && log_created ==> (r matches Some(p)
            && p@.len() == 0),
{
    if !metadata_folder_exists {
        return None;
    }
    match log_contents {
        Some(contents) => Some(parse_path_to_hashes(contents)),
        None => {
            if log_created {
                Some(PathToHash::new())
            } else {
                None
            }
        },
    }
}

/// The first `c` in `a + b` is the first in `a` when `a` holds one, and
/// otherwise comes after all of `a`.
proof fn lemma_first_index_of_concat(a: Seq<char>, b: Seq<char>, c: char)
    ensures
        first_index_of(a + b, c) == if first_index_of(a, c) < a.len() {
            first_index_of(a, c) as int
        } else {
            (a.len() + first_index_of(b, c)) as int
        },
    decreases a.len(),
{
    if a.len() > 0 {
        assert((a + b).drop_first() =~= a.drop_first() + b);
        lemma_first_index_of_concat(a.drop_first(), b, c);
    } else {
        assert(a + b =~= b);
    }
}

proof fn lemma_first_index_of_bound(s: Seq<char>, c: char)
    ensures
        first_index_of(s, c) <= s.len(),
        first_index_of(s, c) < s.len() ==> s[first_index_of(s, c) as int] == c,
        forall|j: int| 0 <= j < first_index_of(s, c) ==> s[j] != c,
    decreases s.len(),
{
    if s.len() > 0 && s[0] != c {
        lemma_first_index_of_bound(s.drop_first(), c);
        assert forall|j: int| 0 <= j < first_index_of(s, c) implies s[j] != c by {
            if j > 0 {
                assert(s[j] == s.drop_first()[j - 1]);
            }
        }
    }
}

/// The lines of two texts, the first of which is empty or ends with a line
/// feed, are the lines of the first followed by those of the second.
pub proof fn lemma_lines_append(a: Seq<char>, b: Seq<char>)
    requires
        a.len() == 0 || a.last() == '\n',
    ensures
        lines(a + b) == lines(a) + lines(b),
    decreases a.len(),
{
    if a.len() == 0 {
        assert(a + b =~= b);
        assert(lines(a) =~= Seq::<Seq<char>>::empty());
        assert(lines(a) + lines(b) =~= lines(b));
    } else {
        let e = first_index_of(a, '\n');
        lemma_first_index_of_bound(a, '\n');
        if e >= a.len() {
            lemma_first_index_of(a, '\n', a.len() - 1);
        }
        lemma_first_index_of_concat(a, b, '\n');
        assert((a + b).take(e as int) =~= a.take(e as int));
        assert((a + b).skip(e + 1 as int) =~= a.skip(e + 1 as int) + b);
        let rest = a.skip(e + 1 as int);
        if rest.len() > 0 {
            assert(rest.last() == a.last());
        }
        lemma_lines_append(rest, b);
        assert(lines(a + b) =~= lines(a) + lines(b));
    }
}

/// A stored line of well-formed fields reads back as its entry.
proof fn lemma_log_line_round_trip(entry: (Seq<char>, Seq<char>))
    requires
        is_log_field(entry.0),
        is_log_field(entry.1),
    ensures
        lines(log_line(entry)) == seq![entry.0 + seq![' '] + entry.1],
        parse_log_line(entry.0 + seq![' '] + entry.1) == entry,
{
    let (h, p) = entry;
    let body = h + seq![' '] + p;
    let l = log_line(entry);
    assert(l =~= body + seq!['\n']);
    lemma_first_index_of(l, '\n', body.len() as int);
    assert(l.take(body.len() as int) =~= body);
    assert(l.skip(body.len() + 1 as int) =~= Seq::<char>::empty());
    assert(strip_cr(body) == body);
    assert(lines(l.skip(body.len() + 1 as int)) =~= Seq::<Seq<char>>::empty());
    assert(lines(l) =~= seq![body]);
    lemma_first_index_of(body, ' ', h.len() as int);
    assert(body.take(h.len() as int) =~= h);
    let r = body.skip(h.len() + 1 as int);
    assert(r =~= p);
    lemma_first_index_of(r, ' ', r.len() as int);
    assert(r.take(r.len() as int) =~= p);
}

/// Reading back a log to which well-formed entries were appended, each as
/// the text that records it: what was there before is read as before, and
/// after it come exactly the appended entries, in order.
pub proof fn law_log_round_trip(existing: Seq<char>, entries: Seq<(Seq<char>, Seq<char>)>)
    requires
        existing.len() == 0 || existing.last() == '\n',
        log_fields_well_formed(entries),
    ensures
        parse_log(existing + serialize_log(entries)) == parse_log(existing) + entries,
    decreases entries.len(),
{
    lemma_lines_append(existing, serialize_log(entries));
    lemma_serialized_lines(entries);
    assert(parse_log(existing + serialize_log(entries)) =~= parse_log(existing) + entries);
}

/// The lines of a stored list of well-formed entries are the entries' bodies.
proof fn lemma_serialized_lines(entries: Seq<(Seq<char>, Seq<char>)>)
    requires
        log_fields_well_formed(entries),
    ensures
        lines(serialize_log(entries)).map_values(|l: Seq<char>| parse_log_line(l)) == entries,
    decreases entries.len(),
{
    let ls = entries.map_values(|e: (Seq<char>, Seq<char>)| log_line(e));
    if entries.len() == 0 {
        assert(lines(serialize_log(entries)) =~= Seq::<Seq<char>>::empty());
        assert(lines(serialize_log(entries)).map_values(|l: Seq<char>| parse_log_line(l)) =~= entries);
    } else {
        let rest = entries.drop_first();
        assert(ls.drop_first() =~= rest.map_values(|e: (Seq<char>, Seq<char>)| log_line(e)));
        assert(serialize_log(entries) == log_line(entries[0]) + serialize_log(rest));
        lemma_log_line_round_trip(entries[0]);
        assert forall|i: int| 0 <= i < rest.len() implies is_log_field(#[trigger] rest[i].0)
            && is_log_field(rest[i].1) by {
            assert(rest[i] == entries[i + 1]);
        }
        assert(log_fields_well_formed(rest));
        lemma_serialized_lines(rest);
        lemma_lines_append(log_line(entries[0]), serialize_log(rest));
        let body = entries[0].0 + seq![' '] + entries[0].1;
        let tail = lines(serialize_log(rest));
        assert(lines(serialize_log(entries)) =~= seq![body] + tail);
        assert((seq![body] + tail).map_values(|l: Seq<char>| parse_log_line(l)) =~= seq![
            parse_log_line(body),
        ] + tail.map_values(|l: Seq<char>| parse_log_line(l)));
        assert(seq![entries[0]] + rest =~= entries);
    }
}

/// Looking a path up after recording an entry: the first entry recorded for
/// a path stays its answer; a path that had none is answered by the new
/// entry when it is the new entry's path.
pub proof fn law_get_hash_after_record(
    entries: Seq<(Seq<char>, Seq<char>)>,
    hash: Seq<char>,
    path: Seq<char>,
    query: Seq<char>,
)
    ensures
        first_hash_for(entries.push((hash, path)), query) == if first_hash_for(entries, query) is Some {
            first_hash_for(entries, query)
        } else if query == path {
            Some(hash)
        } else {
            None
        },
    decreases entries.len(),
{
    if entries.len() > 0 {
        assert(entries.push((hash, path)).drop_first() =~= entries.drop_first().push((hash, path)));
        law_get_hash_after_record(entries.drop_first(), hash, path, query);
    } else {
        assert(entries.push((hash, path)).drop_first() =~= entries);
    }
}

/// Looking a hash up after recording an entry: the first entry recorded
/// with a hash stays its answer; a hash that had none is answered by the
/// new entry when it is the new entry's hash.
pub proof fn law_get_relative_filepath_after_record(
    entries: Seq<(Seq<char>, Seq<char>)>,
    hash: Seq<char>,
    path: Seq<char>,
    query: Seq<char>,
)
    ensures
        first_path_for(entries.push((hash, path)), query) == if first_path_for(entries, query) is Some {
            first_path_for(entries, query)
        } else if query == hash {
            Some(path)
        } else {
            None
        },
    decreases entries.len(),
{
    if entries.len() > 0 {
        assert(entries.push((hash, path)).drop_first() =~= entries.drop_first().push((hash, path)));
        law_get_relative_filepath_after_record(entries.drop_first(), hash, path, query);
    } else {
        assert(entries.push((hash, path)).drop_first() =~= entries);
    }
}


/// A content hash as the tool computes it (64 lowercase hexadecimal digits)
/// can stand as a field of a stored line, so entries recorded with such
/// hashes read back as written whenever their paths can.
pub proof fn law_content_hash_is_log_field(hash: Seq<char>)
    requires
        crate::utils::is_hex_hash(hash),
    ensures
        is_log_field(hash),
{
    assert forall|i: int| 0 <= i < hash.len() implies hash[i] != ' ' && hash[i] != '\n' && hash[i] != '\r' by {
        assert(crate::utils::is_lower_hex_digit(hash[i]));
    }
}

} // verus!
