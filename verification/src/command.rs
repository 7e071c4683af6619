//! The command that an inverse search runs in the user's editor.

use crate::number::{decimal, signed_decimal, to_decimal, to_signed_decimal};
use crate::text::{begins_with, chars_of, holds_at};
use vstd::prelude::*;
use vstd::string::*;

verus! {

/// A command line with these texts in place of every `{file}`, `{line}` and
/// `{col}`. The texts themselves are not looked through for placeholders.
pub open spec fn filled_in(
    command: Seq<char>,
    file: Seq<char>,
    line: Seq<char>,
    column: Seq<char>,
) -> Seq<char>
    decreases command.len(),
    via filled_in_decreases
{
    if command.len() == 0 {
        Seq::empty()
    } else if begins_with(command, "{file}"@) {
        file + filled_in(command.skip("{file}"@.len() as int), file, line, column)
    } else if begins_with(command, "{line}"@) {
        line + filled_in(command.skip("{line}"@.len() as int), file, line, column)
    } else if begins_with(command, "{col}"@) {
        column + filled_in(command.skip("{col}"@.len() as int), file, line, column)
    } else {
        seq![command[0]] + filled_in(command.drop_first(), file, line, column)
    }
}

#[via_fn]
proof fn filled_in_decreases(
    command: Seq<char>,
    file: Seq<char>,
    line: Seq<char>,
    column: Seq<char>,
) {
    reveal_strlit("{file}");
    reveal_strlit("{line}");
    reveal_strlit("{col}");
}

/// What a command line becomes for a line and a column of a file.
pub open spec fn expanded(
    command: Seq<char>,
    file: Seq<char>,
    line: nat,
    column: int,
) -> Seq<char> {
    filled_in(command, file, decimal(line), signed_decimal(column))
}

/// Fills in the placeholders `{file}`, `{line}` and `{col}` of a command line.
pub fn expand_command(command: &str, file: &str, line: usize, column: i32) -> (text: String)
    ensures
        text@ == expanded(command@, file@, line as nat, column as int),
{
    let chars = chars_of(command);
    let file_mark = chars_of("{file}");
    let line_mark = chars_of("{line}");
    let column_mark = chars_of("{col}");
    let line_text = to_decimal(line as u64);
    let column_text = to_signed_decimal(column as i64);
    let mut text = String::new();
    let mut i: usize = 0;
    proof {
        reveal_strlit("{file}");
        reveal_strlit("{line}");
        reveal_strlit("{col}");
        assert(command@.skip(0) == command@);
    }
    while i < chars.len()
        invariant
            i <= chars.len(),
            chars@ == command@,
            file_mark@ == "{file}"@,
            line_mark@ == "{line}"@,
            column_mark@ == "{col}"@,
            file_mark.len() > 0,
            line_mark.len() > 0,
            column_mark.len() > 0,
            filled_in(command@, file@, line_text@, column_text@) == text@ + filled_in(
                command@.skip(i as int),
                file@,
                line_text@,
                column_text@,
            ),
        decreases chars.len() - i,
    {
        let ghost rest = command@.skip(i as int);
        let ghost before = text@;
        let ghost at = i as int;
        let ghost added: Seq<char>;
        if holds_at(&chars, i, &file_mark) {
            text.append(file);
            i = i + file_mark.len();
            proof {
                added = file@;
            }
        } else if holds_at(&chars, i, &line_mark) {
            text.append(line_text.as_str());
            i = i + line_mark.len();
            proof {
                added = line_text@;
            }
        } else if holds_at(&chars, i, &column_mark) {
            text.append(column_text.as_str());
            i = i + column_mark.len();
            proof {
                added = column_text@;
            }
        } else {
            text.push(chars[i]);
            i = i + 1;
            proof {
                added = seq![rest[0]];
                assert(rest.drop_first() == rest.skip(1));
            }
        }
        proof {
            let tail = filled_in(command@.skip(i as int), file@, line_text@, column_text@);
            assert(rest.skip(i - at) == command@.skip(i as int));
            assert(before + (added + tail) == text@ + tail);
        }
    }
    assert(text@ + filled_in(command@.skip(i as int), file@, line_text@, column_text@) == text@);
    text
}

/// A piece of a command line.
pub enum Piece {
    /// Words of the user
    Words(Seq<char>),
    /// Where the file goes
    File,
    /// Where the line goes
    Line,
    /// Where the column goes
    Column,
}

/// The command line of some pieces, with these texts for the file, the line
/// and the column.
pub open spec fn assembled(
    pieces: Seq<Piece>,
    file: Seq<char>,
    line: Seq<char>,
    column: Seq<char>,
) -> Seq<char>
    decreases pieces.len(),
{
    if pieces.len() == 0 {
        Seq::empty()
    } else {
        let rest = assembled(pieces.drop_first(), file, line, column);
        match pieces[0] {
            Piece::Words(words) => words + rest,
            Piece::File => file + rest,
            Piece::Line => line + rest,
            Piece::Column => column + rest,
        }
    }
}

/// The command line of some pieces as the user writes it.
pub open spec fn template(pieces: Seq<Piece>) -> Seq<char> {
    assembled(pieces, "{file}"@, "{line}"@, "{col}"@)
}

/// Whether a placeholder begins at the place `at` of `text`.
pub open spec fn placeholder_at(text: Seq<char>, at: int) -> bool {
    let left = text.skip(at);
    "{file}"@.is_prefix_of(left) || "{line}"@.is_prefix_of(left) || "{col}"@.is_prefix_of(left)
}

proof fn lemma_begins_with(text: Seq<char>, word: Seq<char>)
    ensures
        begins_with(text, word) == word.is_prefix_of(text),
{
    let n = word.len() as int;
    if n <= text.len() {
        assert(text.take(n) == text.subrange(0, n));
    }
}

/// Whether no placeholder begins in the words of the user.
pub open spec fn words_are_plain(pieces: Seq<Piece>) -> bool
    decreases pieces.len(),
{
    if pieces.len() == 0 {
        true
    } else {
        &&& pieces[0] matches Piece::Words(words) ==> forall|i: int|
            0 <= i < words.len() ==> !#[trigger] placeholder_at(template(pieces), i)
        &&& words_are_plain(pieces.drop_first())
    }
}

proof fn lemma_plain_words_stay(
    words: Seq<char>,
    rest: Seq<char>,
    file: Seq<char>,
    line: Seq<char>,
    column: Seq<char>,
)
    requires
        forall|i: int| 0 <= i < words.len() ==> !#[trigger] placeholder_at(words + rest, i),
    ensures
        filled_in(words + rest, file, line, column) == words + filled_in(rest, file, line, column),
    decreases words.len(),
{
    let whole = words + rest;
    let filled = filled_in(rest, file, line, column);
    if words.len() == 0 {
        assert(whole == rest);
        assert(words + filled == filled);
    } else {
        let tail = words.drop_first();
        assert(whole.drop_first() == tail + rest);
        assert(whole.skip(0) == whole);
        assert(!placeholder_at(whole, 0));
        lemma_begins_with(whole, "{file}"@);
        lemma_begins_with(whole, "{line}"@);
        lemma_begins_with(whole, "{col}"@);
        assert forall|i: int| 0 <= i < tail.len() implies !#[trigger] placeholder_at(
            tail + rest,
            i,
        ) by {
            assert(!placeholder_at(whole, i + 1));
            assert((tail + rest).skip(i) == whole.skip(i + 1));
        }
        lemma_plain_words_stay(tail, rest, file, line, column);
        assert(words + filled == seq![whole[0]] + (tail + filled));
    }
}

proof fn lemma_placeholder_is_filled_in(
    rest: Seq<char>,
    file: Seq<char>,
    line: Seq<char>,
    column: Seq<char>,
)
    ensures
        filled_in("{file}"@ + rest, file, line, column) == file + filled_in(
            rest,
            file,
            line,
            column,
        ),
        filled_in("{line}"@ + rest, file, line, column) == line + filled_in(
            rest,
            file,
            line,
            column,
        ),
        filled_in("{col}"@ + rest, file, line, column) == column + filled_in(
            rest,
            file,
            line,
            column,
        ),
{
    reveal_strlit("{file}");
    reveal_strlit("{line}");
    reveal_strlit("{col}");
    let f = "{file}"@ + rest;
    assert(f.take(6) == "{file}"@);
    assert(f.skip(6) == rest);
    let l = "{line}"@ + rest;
    assert(l.take(6)[1] == 'l');
    assert(l.take(6) == "{line}"@);
    assert(l.skip(6) == rest);
    assert(!begins_with(l, "{file}"@)) by {
        assert("{file}"@[1] == 'f');
    }
    let c = "{col}"@ + rest;
    assert(!begins_with(c, "{file}"@)) by {
        assert("{file}"@[1] == 'f');
        if begins_with(c, "{file}"@) {
            assert(c.take(6)[1] == 'c');
        }
    }
    assert(!begins_with(c, "{line}"@)) by {
        assert("{line}"@[1] == 'l');
        if begins_with(c, "{line}"@) {
            assert(c.take(6)[1] == 'c');
        }
    }
    assert(c.take(5) == "{col}"@);
    assert(c.skip(5) == rest);
}

proof fn lemma_pieces_are_filled_in(
    pieces: Seq<Piece>,
    file: Seq<char>,
    line: Seq<char>,
    column: Seq<char>,
)
    requires
        words_are_plain(pieces),
    ensures
        filled_in(template(pieces), file, line, column) == assembled(pieces, file, line, column),
    decreases pieces.len(),
{
    if pieces.len() > 0 {
        let tail = pieces.drop_first();
        lemma_pieces_are_filled_in(tail, file, line, column);
        match pieces[0] {
            Piece::Words(words) => {
                assert(template(pieces) == words + template(tail));
                lemma_plain_words_stay(words, template(tail), file, line, column);
            },
            _ => {
                lemma_placeholder_is_filled_in(template(tail), file, line, column);
            },
        }
    }
}

/// Every placeholder of a command line stands for its value, whatever the
/// value is, and nothing else of the line changes.
pub proof fn law_placeholders_are_filled_in(
    pieces: Seq<Piece>,
    file: Seq<char>,
    line: nat,
    column: int,
)
    requires
        words_are_plain(pieces),
    ensures
        expanded(template(pieces), file, line, column) == assembled(
            pieces,
            file,
            decimal(line),
            signed_decimal(column),
        ),
{
    lemma_pieces_are_filled_in(pieces, file, decimal(line), signed_decimal(column));
}

/// A command without placeholders is run as it is.
pub proof fn law_plain_command_is_left_alone(
    command: &str,
    file: &str,
    line: usize,
    column: i32,
    text: String,
)
    requires
        call_ensures(expand_command, (command, file, line, column), text),
        forall|i: int| 0 <= i < command@.len() ==> !#[trigger] placeholder_at(command@, i),
    ensures
        text@ == command@,
{
    let none = Seq::<char>::empty();
    assert(command@ + none == command@);
    lemma_plain_words_stay(
        command@,
        none,
        file@,
        decimal(line as nat),
        signed_decimal(column as int),
    );
    assert(command@ + none == command@);
}

/// Words before and after a command stay where they are, and each placeholder
/// between them becomes the file, the line or the column, whatever these are
/// and whatever follows.
pub proof fn law_placeholder_becomes_its_value(
    words: Seq<char>,
    rest: Seq<char>,
    file: Seq<char>,
    line: nat,
    column: int,
)
    requires
        !words.contains('{'),
    ensures
        expanded(words + ("{file}"@ + rest), file, line, column) == words + (file + expanded(
            rest,
            file,
            line,
            column,
        )),
        expanded(words + ("{line}"@ + rest), file, line, column) == words + (decimal(line)
            + expanded(rest, file, line, column)),
        expanded(words + ("{col}"@ + rest), file, line, column) == words + (signed_decimal(column)
            + expanded(rest, file, line, column)),
        expanded(words + rest, file, line, column) == words + expanded(rest, file, line, column),
{
    let l = decimal(line);
    let c = signed_decimal(column);
    lemma_placeholder_is_filled_in(rest, file, l, c);
    lemma_words_without_braces(words, "{file}"@ + rest);
    lemma_words_without_braces(words, "{line}"@ + rest);
    lemma_words_without_braces(words, "{col}"@ + rest);
    lemma_words_without_braces(words, rest);
    lemma_plain_words_stay(words, "{file}"@ + rest, file, l, c);
    lemma_plain_words_stay(words, "{line}"@ + rest, file, l, c);
    lemma_plain_words_stay(words, "{col}"@ + rest, file, l, c);
    lemma_plain_words_stay(words, rest, file, l, c);
}

proof fn lemma_words_without_braces(words: Seq<char>, rest: Seq<char>)
    requires
        !words.contains('{'),
    ensures
        forall|i: int| 0 <= i < words.len() ==> !#[trigger] placeholder_at(words + rest, i),
{
    reveal_strlit("{file}");
    reveal_strlit("{line}");
    reveal_strlit("{col}");
    assert forall|i: int| 0 <= i < words.len() implies !#[trigger] placeholder_at(
        words + rest,
        i,
    ) by {
        let left = (words + rest).skip(i);
        assert(left[0] == words[i]);
        if "{file}"@.is_prefix_of(left) {
            assert(left.subrange(0, 6)[0] == '{');
        }
        if "{line}"@.is_prefix_of(left) {
            assert(left.subrange(0, 6)[0] == '{');
        }
        if "{col}"@.is_prefix_of(left) {
            assert(left.subrange(0, 5)[0] == '{');
        }
    }
}

} // verus!
