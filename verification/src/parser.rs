//! Reading the command line: which command it names, its arguments and its
//! flags.

use vstd::prelude::*;
use crate::commands::{command_from_name, command_named, normalize, normalized, CommandType};
use crate::text::views;

verus! {

/// A normalized word is a flag when it starts with `-` and is longer than
/// one byte; as `-` takes one byte, that is when it has more than one
/// character.
pub open spec fn is_flag(s: Seq<char>) -> bool {
    s.len() > 1 && s[0] == '-'
}

/// The words that are not flags, in order.
pub open spec fn non_flags(words: Seq<Seq<char>>) -> Seq<Seq<char>>
    decreases words.len(),
{
    if words.len() == 0 {
        seq![]
    } else if is_flag(words.last()) {
        non_flags(words.drop_last())
    } else {
        non_flags(words.drop_last()).push(words.last())
    }
}

/// The words that are flags, in order.
pub open spec fn flags(words: Seq<Seq<char>>) -> Seq<Seq<char>>
    decreases words.len(),
{
    if words.len() == 0 {
        seq![]
    } else if is_flag(words.last()) {
        flags(words.drop_last()).push(words.last())
    } else {
        flags(words.drop_last())
    }
}

/// All words but the second (the one that names the command).
pub open spec fn without_command_word(words: Seq<Seq<char>>) -> Seq<Seq<char>> {
    if words.len() > 1 {
        words.take(1) + words.skip(2)
    } else {
        words
    }
}

/// The command the words name: the command the second word names, if it
/// names one; otherwise none.
pub open spec fn command_of(words: Seq<Seq<char>>) -> CommandType {
    if words.len() > 1 {
        match command_named(words[1]) {
            Some(c) => c,
            None => CommandType::Unknown,
        }
    } else {
        CommandType::Unknown
    }
}

/// The normalized command-line words.
pub open spec fn normalized_words(args: Seq<String>) -> Seq<Seq<char>> {
    args.map_values(|a: String| normalized(a@))
}

/// What a command line says.
pub struct ParsedCommand {
    /// Every word, normalized.
    pub normalized_args: Vec<String>,
    /// The command the second word names.
    pub command_type: CommandType,
    /// The other words that are not flags.
    pub command_args: Vec<String>,
    /// The other words that are flags.
    pub command_flags: Vec<String>,
}

proof fn lemma_without_command_word_step(words: Seq<Seq<char>>, i: int)
    requires
        0 <= i < words.len(),
    ensures
        without_command_word(words.take(i + 1)) == if i == 1 {
            without_command_word(words.take(i))
        } else {
            without_command_word(words.take(i)).push(words[i])
        },
{
    if i == 1 {
        assert(without_command_word(words.take(2)) =~= without_command_word(words.take(1)));
    } else if i == 0 {
        assert(without_command_word(words.take(1)) =~= without_command_word(words.take(0)).push(words[0]));
    } else {
        assert(without_command_word(words.take(i + 1)) =~= without_command_word(words.take(i)).push(
            words[i],
        ));
    }
}

/// Classifies normalized command-line words: the command the second word
/// names; of the other words, those that start with `-` and are longer
/// than one byte are flags and the rest are arguments, each in order.
pub fn classify_words(words: &Vec<String>) -> (r: (CommandType, Vec<String>, Vec<String>))
    ensures
        r.0 == command_of(views(words@)),
        views(r.1@) == non_flags(without_command_word(views(words@))),
        views(r.2@) == flags(without_command_word(views(words@))),
{
    let ghost ws = views(words@);
    let mut command_type = CommandType::Unknown;
    let mut command_args: Vec<String> = Vec::new();
    let mut command_flags: Vec<String> = Vec::new();
    let n = words.len();
    for index in 0..n
        invariant
            n == words@.len(),
            ws == views(words@),
            command_type == command_of(ws.take(index as int)),
            views(command_args@) == non_flags(without_command_word(ws.take(index as int))),
            views(command_flags@) == flags(without_command_word(ws.take(index as int))),
    {
        let word = words[index].as_str();
        assert(word@ == ws[index as int]);
        proof {
            lemma_without_command_word_step(ws, index as int);
            assert(ws.take(index + 1 as int) =~= ws.take(index as int).push(ws[index as int]));
        }
        let ghost w = without_command_word(ws.take(index as int));
        if index == 1 {
            match command_from_name(word) {
                Some(c) => {
                    command_type = c;
                },
                None => {},
            }
        } else {
            let mut flag = false;
            if word.unicode_len() > 1 {
                flag = word.get_char(0) == '-';
            }
            assert(flag == is_flag(ws[index as int]));
            assert(w.push(ws[index as int]).drop_last() =~= w);
            if flag {
                let ghost before = command_flags@;
                command_flags.push(word.to_owned());
                assert(views(command_flags@) =~= views(before).push(ws[index as int]));
            } else {
                let ghost before = command_args@;
                command_args.push(word.to_owned());
                assert(views(command_args@) =~= views(before).push(ws[index as int]));
            }
        }
    }
    assert(ws.take(n as int) =~= ws);
    (command_type, command_args, command_flags)
}

/// Reads a command line. Every word is normalized (trimmed, lowercased),
/// and the normalized words are classified (see [`classify_words`]).
/// (The first word, the program's own name, is read like the others.)
pub fn parse_command_line(args: &Vec<String>) -> (r: ParsedCommand)
    ensures
        views(r.normalized_args@) == normalized_words(args@),
        r.command_type == command_of(normalized_words(args@)),
        views(r.command_args@) == non_flags(without_command_word(normalized_words(args@))),
        views(r.command_flags@) == flags(without_command_word(normalized_words(args@))),
{
    let ghost words = normalized_words(args@);
    let mut normalized_args: Vec<String> = Vec::new();
    let n = args.len();
    for index in 0..n
        invariant
            n == args@.len(),
            words == normalized_words(args@),
            views(normalized_args@) == words.take(index as int),
    {
        let lowercase_arg = normalize(args[index].as_str());
        let ghost before_norm = normalized_args@;
        normalized_args.push(lowercase_arg);
        assert(views(normalized_args@) =~= views(before_norm).push(words[index as int]));
        assert(words.take(index + 1 as int) =~= words.take(index as int).push(words[index as int]));
    }
    assert(words.take(n as int) =~= words);
    let (command_type, command_args, command_flags) = classify_words(&normalized_args);
    ParsedCommand { normalized_args, command_type, command_args, command_flags }
}

/// Reads a command line (see [`parse_command_line`]): the command and its
/// arguments.
pub fn parse(args: &Vec<String>) -> (r: (CommandType, Vec<String>))
    ensures
        r.0 == command_of(normalized_words(args@)),
        views(r.1@) == non_flags(without_command_word(normalized_words(args@))),
{
    let parsed = parse_command_line(args);
    (parsed.command_type, parsed.command_args)
}


/// Every word other than the command word is either an argument or a flag:
/// together they are as many as those words.
pub proof fn law_arguments_and_flags_partition(words: Seq<Seq<char>>)
    ensures
        non_flags(words).len() + flags(words).len() == words.len(),
    decreases words.len(),
{
    if words.len() > 0 {
        law_arguments_and_flags_partition(words.drop_last());
    }
}

/// The flags are exactly the words that have more than one character and
/// start with `-`; every other word is an argument. Each flag is such a
/// word, each argument is not, and each word lands among the flags or the
/// arguments as it starts with `-` (and is longer than `-` alone) or not.
pub proof fn law_flags_are_words_starting_with_a_dash(words: Seq<Seq<char>>)
    ensures
        forall|j: int|
            0 <= j < flags(words).len() ==> (#[trigger] flags(words)[j]).len() > 1 && flags(words)[j][0]
                == '-',
        forall|j: int|
            0 <= j < non_flags(words).len() ==> !((#[trigger] non_flags(words)[j]).len() > 1
                && non_flags(words)[j][0] == '-'),
        forall|i: int|
            0 <= i < words.len() && (#[trigger] words[i]).len() > 1 && words[i][0] == '-' ==> flags(
                words,
            ).contains(words[i]),
        forall|i: int|
            0 <= i < words.len() && !((#[trigger] words[i]).len() > 1 && words[i][0] == '-')
                ==> non_flags(words).contains(words[i]),
    decreases words.len(),
{
    if words.len() > 0 {
        let rest = words.drop_last();
        law_flags_are_words_starting_with_a_dash(rest);
        let w = words.last();
        if is_flag(w) {
            assert(flags(words) == flags(rest).push(w));
            assert(non_flags(words) == non_flags(rest));
            assert forall|j: int| 0 <= j < flags(words).len() implies (#[trigger] flags(words)[j]).len() > 1
                && flags(words)[j][0] == '-' by {
                if j < flags(rest).len() {
                    assert(flags(words)[j] == flags(rest)[j]);
                }
            }
            assert forall|i: int|
                0 <= i < words.len() && (#[trigger] words[i]).len() > 1 && words[i][0] == '-' implies flags(
                    words,
                ).contains(words[i]) by {
                if i < rest.len() {
                    assert(words[i] == rest[i]);
                    let k = choose|k: int| 0 <= k < flags(rest).len() && flags(rest)[k] == rest[i];
                    assert(flags(words)[k] == flags(rest)[k]);
                } else {
                    assert(flags(words)[flags(rest).len() as int] == w);
                }
            }
            assert forall|i: int|
                0 <= i < words.len() && !((#[trigger] words[i]).len() > 1 && words[i][0] == '-')
                    implies non_flags(words).contains(words[i]) by {
                assert(i < rest.len());
                assert(words[i] == rest[i]);
            }
        } else {
            assert(non_flags(words) == non_flags(rest).push(w));
            assert(flags(words) == flags(rest));
            assert forall|j: int| 0 <= j < non_flags(words).len() implies !((
            #[trigger] non_flags(words)[j]).len() > 1 && non_flags(words)[j][0] == '-') by {
                if j < non_flags(rest).len() {
                    assert(non_flags(words)[j] == non_flags(rest)[j]);
                }
            }
            assert forall|i: int|
                0 <= i < words.len() && !((#[trigger] words[i]).len() > 1 && words[i][0] == '-')
                    implies non_flags(words).contains(words[i]) by {
                if i < rest.len() {
                    assert(words[i] == rest[i]);
                    let k = choose|k: int| 0 <= k < non_flags(rest).len() && non_flags(rest)[k] == rest[i];
                    assert(non_flags(words)[k] == non_flags(rest)[k]);
                } else {
                    assert(non_flags(words)[non_flags(rest).len() as int] == w);
                }
            }
            assert forall|i: int|
                0 <= i < words.len() && (#[trigger] words[i]).len() > 1 && words[i][0] == '-' implies flags(
                    words,
                ).contains(words[i]) by {
                assert(i < rest.len());
                assert(words[i] == rest[i]);
            }
        }
    }
}

} // verus!
