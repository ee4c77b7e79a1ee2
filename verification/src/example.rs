//! A sample archive: a passage of placeholder text, repeated, stored as one
//! BZIP2-compressed file.

use vstd::prelude::*;
use crate::utils::{is_single_file_archive, single_file_archive, write_single_file_archive, ArchiveError};

verus! {

/// The passage the sample archive repeats.
pub const LOREM_IPSUM: &'static str = "Contrary to popular belief, Lorem Ipsum is not simply random text. It has roots in a piece of classical Latin literature from 45 BC, making it over 2000 years old. Richard McClintock, a Latin professor at Hampden-Sydney College in Virginia, looked up one of the more obscure Latin words, consectetur, from a Lorem Ipsum passage, and going through the cites of the word in classical literature, discovered the undoubtable source. Lorem Ipsum comes from sections 1.10.32 and 1.10.33 of";

/// The name of the file inside the sample archive.
pub const EXAMPLE_ARCHIVE_NAME: &'static str = "archive.bzip";

/// `s` written `n` times in a row.
pub open spec fn repeat_text(s: Seq<char>, n: nat) -> Seq<char>
    decreases n,
{
    if n == 0 {
        seq![]
    } else {
        repeat_text(s, (n - 1) as nat) + s
    }
}

/// The sample text: the passage ten times over.
pub fn example_text() -> (r: String)
    ensures
        r@ == repeat_text(LOREM_IPSUM@, 10),
{
    let mut r = String::new();
    let mut i: usize = 0;
    while i < 10
        invariant
            i <= 10,
            r@ == repeat_text(LOREM_IPSUM@, i as nat),
        decreases 10 - i,
    {
        r.append(LOREM_IPSUM);
        i = i + 1;
    }
    r
}

/// Every character takes at most four bytes in UTF-8.
proof fn lemma_utf8_length_bound(s: Seq<char>)
    ensures
        vstd::utf8::encode_utf8(s).len() <= 4 * s.len(),
    decreases s.len(),
{
    if s.len() > 0 {
        lemma_utf8_length_bound(s.drop_first());
    }
}

/// `s` written `n` times is `n` times as long.
proof fn lemma_repeat_text_length(s: Seq<char>, n: nat)
    ensures
        repeat_text(s, n).len() == n * s.len(),
    decreases n,
{
    if n > 0 {
        lemma_repeat_text_length(s, (n - 1) as nat);
        let m = (n - 1) as nat;
        assert(repeat_text(s, n).len() == m * s.len() + s.len());
        assert(m * s.len() + s.len() == n * s.len()) by (nonlinear_arith)
            requires
                m + 1 == n,
        ;
    } else {
        assert(n * s.len() == 0) by (nonlinear_arith)
            requires
                n == 0,
        ;
    }
}

/// The sample text written as UTF-8.
pub open spec fn example_bytes() -> Seq<u8> {
    vstd::utf8::encode_utf8(repeat_text(LOREM_IPSUM@, 10))
}

/// Builds the sample archive: one BZIP2-compressed file named
/// `"archive.bzip"` into which the sample text is written with a single
/// write. It succeeds, and gives how many bytes of the text that write took
/// (some, and at most all of them) and the archive's bytes, whose one file
/// holds those first bytes of the text.
pub fn doit() -> (r: Result<(usize, Vec<u8>), ArchiveError>)
    ensures
        r matches Ok((n, bytes)) && 0 < n <= example_bytes().len() && bytes@ == single_file_archive(
            EXAMPLE_ARCHIVE_NAME@,
            example_bytes().take(n as int),
        ) && is_single_file_archive(bytes@, EXAMPLE_ARCHIVE_NAME@, n as nat),
{
    let text = example_text();
    proof {
        reveal_strlit("archive.bzip");
        reveal_strlit("Contrary to popular belief, Lorem Ipsum is not simply random text. It has roots in a piece of classical Latin literature from 45 BC, making it over 2000 years old. Richard McClintock, a Latin professor at Hampden-Sydney College in Virginia, looked up one of the more obscure Latin words, consectetur, from a Lorem Ipsum passage, and going through the cites of the word in classical literature, discovered the undoubtable source. Lorem Ipsum comes from sections 1.10.32 and 1.10.33 of");
        assert(LOREM_IPSUM@.len() < 1000);
        lemma_repeat_text_length(LOREM_IPSUM@, 10);
        lemma_utf8_length_bound(repeat_text(LOREM_IPSUM@, 10));
        lemma_utf8_length_bound(EXAMPLE_ARCHIVE_NAME@);
    }
    write_single_file_archive(EXAMPLE_ARCHIVE_NAME, text.as_str().as_bytes(), false)
}

} // verus!
