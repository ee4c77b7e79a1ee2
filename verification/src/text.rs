//! Character-level text handling shared by the log formats: splitting into
//! lines and fields, substring search, and building strings.

use vstd::prelude::*;

verus! {

/// Index of the first occurrence of `c` in `s`, or `s.len()` when there is none.
pub open spec fn first_index_of(s: Seq<char>, c: char) -> nat
    decreases s.len(),
{
    if s.len() == 0 {
        0
    } else if s[0] == c {
        0
    } else {
        1 + first_index_of(s.drop_first(), c)
    }
}

/// `first_index_of` is the position `k` before which `c` does not occur and
/// at which `c` occurs (or the sequence ends).
pub proof fn lemma_first_index_of(s: Seq<char>, c: char, k: int)
    requires
        0 <= k <= s.len(),
        forall|j: int| 0 <= j < k ==> s[j] != c,
        k == s.len() || s[k] == c,
    ensures
        first_index_of(s, c) == k,
    decreases k,
{
    if k > 0 {
        lemma_first_index_of(s.drop_first(), c, k - 1);
    }
}

/// Appends one character to a string.
///
/// Calls `String::push`, whose documentation says that it appends the given
/// `char` to the end of the string; the contract claims exactly that.
#[verifier::external_body]
pub(crate) fn string_push(s: &mut String, c: char)
    ensures
        final(s)@ == old(s)@.push(c),
{
    s.push(c)
}

/// The characters of a string slice, in order.
pub fn chars_of(s: &str) -> (v: Vec<char>)
    ensures
        v@ == s@,
{
    let mut v: Vec<char> = Vec::new();
    for c in it: s.chars()
        invariant
            it.seq() == s@,
            v@ == it.seq().take(it.index()),
    {
        v.push(c);
    }
    v
}


/// The characters `from..to` of `cs` as a new string.
pub fn string_of_range(cs: &Vec<char>, from: usize, to: usize) -> (r: String)
    requires
        from <= to <= cs@.len(),
    ensures
        r@ == cs@.subrange(from as int, to as int),
{
    let mut r = String::new();
    let mut i = from;
    while i < to
        invariant
            from <= i <= to <= cs@.len(),
            r@ == cs@.subrange(from as int, i as int),
        decreases to - i,
    {
        string_push(&mut r, cs[i]);
        assert(cs@.subrange(from as int, i + 1) =~= cs@.subrange(from as int, i as int).push(cs@[i as int]));
        i = i + 1;
    }
    r
}

/// The position of the first `c` at or after `from` and before `to`, or `to`.
pub fn find_char(cs: &Vec<char>, c: char, from: usize, to: usize) -> (r: usize)
    requires
        from <= to <= cs@.len(),
    ensures
        r == from + first_index_of(cs@.subrange(from as int, to as int), c),
        from <= r <= to,
{
    let mut i = from;
    while i < to
        invariant
            from <= i <= to <= cs@.len(),
            forall|j: int| from <= j < i ==> cs@[j] != c,
        decreases to - i,
    {
        if cs[i] == c {
            proof {
                lemma_first_index_of(cs@.subrange(from as int, to as int), c, i - from);
            }
            return i;
        }
        i = i + 1;
    }
    proof {
        lemma_first_index_of(cs@.subrange(from as int, to as int), c, to - from);
    }
    to
}

/// A line without a final carriage return.
pub open spec fn strip_cr(t: Seq<char>) -> Seq<char> {
    if t.len() > 0 && t.last() == '\r' {
        t.drop_last()
    } else {
        t
    }
}

/// The lines of a text, as `str::lines` gives them: the text is cut after
/// each `'\n'`; a line that ended in `'\n'` loses it and then one `'\r'`
/// before it, if there is one; a final line without `'\n'` is kept as it
/// is, and an empty text, or the empty rest after a final `'\n'`, gives no
/// line.
pub open spec fn lines(s: Seq<char>) -> Seq<Seq<char>>
    decreases s.len(),
{
    if s.len() == 0 {
        seq![]
    } else {
        let e = first_index_of(s, '\n');
        if e >= s.len() {
            seq![s]
        } else {
            seq![strip_cr(s.take(e as int))] + lines(s.skip(e + 1 as int))
        }
    }
}

/// The views of a sequence of strings.
pub open spec fn views(v: Seq<String>) -> Seq<Seq<char>> {
    v.map_values(|x: String| x@)
}

/// Splits a text into its lines (see [`lines`]).
pub fn split_lines(s: &str) -> (r: Vec<String>)
    ensures
        views(r@) == lines(s@),
{
    let cs = chars_of(s);
    let n = cs.len();
    let mut result: Vec<String> = Vec::new();
    let mut start: usize = 0;
    let mut i: usize = 0;
    assert(cs@.skip(0) =~= cs@);
    assert(views(result@) + lines(cs@) =~= lines(cs@));
    while i < n
        invariant
            0 <= start <= i <= n,
            n == cs@.len(),
            cs@ == s@,
            forall|j: int| start <= j < i ==> cs@[j] != '\n',
            views(result@) + lines(cs@.skip(start as int)) == lines(cs@),
        decreases n - i,
    {
        if cs[i] == '\n' {
            let ghost rest = cs@.skip(start as int);
            proof {
                lemma_first_index_of(rest, '\n', i - start);
                assert(rest.take(i - start) =~= cs@.subrange(start as int, i as int));
                assert(rest.skip(i - start + 1) =~= cs@.skip(i + 1));
            }
            let mut end = i;
            if end > start && cs[end - 1] == '\r' {
                end = end - 1;
            }
            let line = string_of_range(&cs, start, end);
            assert(line@ == strip_cr(cs@.subrange(start as int, i as int)));
            let ghost before = result@;
            result.push(line);
            assert(views(result@) =~= views(before).push(line@));
            start = i + 1;
        }
        i = i + 1;
    }
    if start < n {
        let ghost rest = cs@.skip(start as int);
        proof {
            lemma_first_index_of(rest, '\n', n - start);
            assert(rest =~= cs@.subrange(start as int, n as int));
        }
        let line = string_of_range(&cs, start, n);
        let ghost before = result@;
        result.push(line);
        assert(views(result@) =~= views(before).push(line@));
        assert(lines(rest) =~= seq![line@]);
    } else {
        assert(cs@.skip(start as int).len() == 0);
    }
    assert(views(result@) =~= lines(cs@));
    result
}


/// The text before the first space (all of it when there is none): the
/// first piece that `split(" ")` gives.
pub open spec fn first_field(s: Seq<char>) -> Seq<char> {
    s.take(first_index_of(s, ' ') as int)
}

/// The text between the first and the second space (up to the end when
/// there is no second one), or the empty text when there is no space: the
/// second piece that `split(" ")` gives, or nothing.
pub open spec fn second_field(s: Seq<char>) -> Seq<char> {
    let e = first_index_of(s, ' ');
    if e < s.len() {
        let r = s.skip(e + 1 as int);
        r.take(first_index_of(r, ' ') as int)
    } else {
        seq![]
    }
}

/// The first and second space-separated fields of a line.
pub fn two_fields(cs: &Vec<char>) -> (r: (String, String))
    ensures
        r.0@ == first_field(cs@),
        r.1@ == second_field(cs@),
{
    let n = cs.len();
    let e = find_char(cs, ' ', 0, n);
    assert(cs@.subrange(0, n as int) =~= cs@);
    let first = string_of_range(cs, 0, e);
    assert(cs@.take(e as int) =~= cs@.subrange(0, e as int));
    if e < n {
        let f = find_char(cs, ' ', e + 1, n);
        let second = string_of_range(cs, e + 1, f);
        assert(cs@.skip(e + 1 as int) =~= cs@.subrange(e + 1 as int, n as int));
        assert(cs@.skip(e + 1 as int).take(f - (e + 1)) =~= cs@.subrange(e + 1 as int, f as int));
        (first, second)
    } else {
        (first, String::new())
    }
}

/// `p` occurs in `t` starting at position `i`.
pub open spec fn occurs_at(t: Seq<char>, p: Seq<char>, i: int) -> bool {
    0 <= i && i + p.len() <= t.len() && t.subrange(i, i + p.len()) == p
}

/// `p` occurs somewhere in `t` (the empty text occurs in every text).
pub open spec fn contains_seq(t: Seq<char>, p: Seq<char>) -> bool {
    exists|i: int| occurs_at(t, p, i)
}

/// Whether `pattern` occurs in `text`, as `str::contains` with a string
/// pattern answers it.
pub fn str_contains(text: &str, pattern: &str) -> (r: bool)
    ensures
        r == contains_seq(text@, pattern@),
{
    let t = chars_of(text);
    let p = chars_of(pattern);
    let tn = t.len();
    let pn = p.len();
    if pn > tn {
        assert forall|i: int| !occurs_at(t@, p@, i) by {}
        return false;
    }
    if pn == 0 {
        assert(t@.subrange(0, 0) =~= p@);
        assert(occurs_at(t@, p@, 0));
        return true;
    }
    let last = tn - pn;
    let mut i: usize = 0;
    while i <= last
        invariant
            tn == t@.len(),
            pn == p@.len(),
            1 <= pn <= tn,
            last == tn - pn,
            i <= last + 1,
            t@ == text@,
            p@ == pattern@,
            forall|k: int| 0 <= k < i ==> !occurs_at(t@, p@, k),
        decreases last + 1 - i,
    {
        let mut j: usize = 0;
        let mut matched = true;
        while j < pn
            invariant
                tn == t@.len(),
                pn == p@.len(),
                i + pn <= tn,
                j <= pn,
                matched ==> forall|m: int| 0 <= m < j ==> t@[i + m] == p@[m],
                !matched ==> !occurs_at(t@, p@, i as int),
            decreases pn - j,
        {
            if t[i + j] != p[j] {
                if matched {
                    assert(t@.subrange(i as int, i + pn)[j as int] != p@[j as int]);
                }
                matched = false;
            }
            j = j + 1;
        }
        if matched {
            assert(t@.subrange(i as int, i + pn) =~= p@);
            assert(occurs_at(t@, p@, i as int));
            return true;
        }
        i = i + 1;
    }
    assert forall|k: int| !occurs_at(t@, p@, k) by {
        if 0 <= k && k + pn <= tn {
            assert(k < i);
        }
    }
    false
}

/// The characters that have the Unicode `White_Space` property (the ones
/// `char::is_whitespace` accepts).
pub open spec fn is_white_space(c: char) -> bool {
    let u = c as u32;
    ||| 0x9 <= u <= 0xd
    ||| u == 0x20
    ||| u == 0x85
    ||| u == 0xa0
    ||| u == 0x1680
    ||| 0x2000 <= u <= 0x200a
    ||| u == 0x2028
    ||| u == 0x2029
    ||| u == 0x202f
    ||| u == 0x205f
    ||| u == 0x3000
}

/// Whether a character has the Unicode `White_Space` property.
pub fn is_white_space_char(c: char) -> (r: bool)
    ensures
        r == is_white_space(c),
{
    let u = c as u32;
    (0x9 <= u && u <= 0xd) || u == 0x20 || u == 0x85 || u == 0xa0 || u == 0x1680 || (0x2000
        <= u && u <= 0x200a) || u == 0x2028 || u == 0x2029 || u == 0x202f || u == 0x205f || u
        == 0x3000
}

/// Number of white-space characters at the start of `s`.
pub open spec fn leading_white_space(s: Seq<char>) -> nat
    decreases s.len(),
{
    if s.len() > 0 && is_white_space(s[0]) {
        1 + leading_white_space(s.drop_first())
    } else {
        0
    }
}

/// Number of white-space characters at the end of `s`.
pub open spec fn trailing_white_space(s: Seq<char>) -> nat
    decreases s.len(),
{
    if s.len() > 0 && is_white_space(s.last()) {
        1 + trailing_white_space(s.drop_last())
    } else {
        0
    }
}

/// `s` without its leading and trailing white space, as `str::trim` gives it.
pub open spec fn trimmed(s: Seq<char>) -> Seq<char> {
    let rest = s.skip(leading_white_space(s) as int);
    rest.take(rest.len() - trailing_white_space(rest))
}

proof fn lemma_leading_white_space(s: Seq<char>, k: int)
    requires
        0 <= k <= s.len(),
        forall|j: int| 0 <= j < k ==> is_white_space(s[j]),
        k == s.len() || !is_white_space(s[k]),
    ensures
        leading_white_space(s) == k,
    decreases k,
{
    if k > 0 {
        lemma_leading_white_space(s.drop_first(), k - 1);
    }
}

proof fn lemma_trailing_white_space(s: Seq<char>, k: int)
    requires
        0 <= k <= s.len(),
        forall|j: int| s.len() - k <= j < s.len() ==> is_white_space(s[j]),
        k == s.len() || !is_white_space(s[s.len() - 1 - k]),
    ensures
        trailing_white_space(s) == k,
    decreases k,
{
    if k > 0 {
        lemma_trailing_white_space(s.drop_last(), k - 1);
    }
}

/// `s` without leading and trailing white space (see [`trimmed`]).
pub fn trim(s: &str) -> (r: String)
    ensures
        r@ == trimmed(s@),
{
    let cs = chars_of(s);
    let n = cs.len();
    let mut a: usize = 0;
    while a < n && is_white_space_char(cs[a])
        invariant
            a <= n == cs@.len(),
            forall|j: int| 0 <= j < a ==> is_white_space(cs@[j]),
        decreases n - a,
    {
        a = a + 1;
    }
    proof {
        lemma_leading_white_space(cs@, a as int);
    }
    let ghost rest = cs@.skip(a as int);
    let mut b: usize = n;
    while b > a && is_white_space_char(cs[b - 1])
        invariant
            a <= b <= n == cs@.len(),
            forall|j: int| b <= j < n ==> is_white_space(cs@[j]),
        decreases b - a,
    {
        b = b - 1;
    }
    proof {
        lemma_trailing_white_space(rest, n - b);
        assert(rest.take(rest.len() - (n - b)) =~= cs@.subrange(a as int, b as int));
    }
    string_of_range(&cs, a, b)
}

/// What `str::to_lowercase` gives for a text: its lowercase form under the
/// Unicode case mappings.
pub uninterp spec fn lowercased(s: Seq<char>) -> Seq<char>;

/// The lowercase form of a text.
///
/// Calls `str::to_lowercase`. The contract only names the result: it is the
/// same for the same text. The Unicode case mapping the call applies is not
/// written out here.
#[verifier::external_body]
pub(crate) fn to_lowercase(s: &str) -> (r: String)
    ensures
        r@ == lowercased(s@),
{
    s.to_lowercase()
}

} // verus!
