//! The answers of the `synctex` command: records between an opening and a
//! closing line.

use crate::text::{
    is_whitespace, law_cut_finds_both_sides, lemma_first_index, same, split_first, split_once, trim,
    trim_end, trim_start, trimmed,
};
use vstd::prelude::*;
use vstd::string::*;

verus! {

/// The lines of a text, each without the whitespace at its ends.
pub open spec fn trimmed_lines(text: Seq<char>) -> Seq<Seq<char>>
    decreases text.len(),
    via trimmed_lines_decreases
{
    match split_first(text, '\n') {
        None => seq![trimmed(text)],
        Some((line, rest)) => seq![trimmed(line)] + trimmed_lines(rest),
    }
}

#[via_fn]
proof fn trimmed_lines_decreases(text: Seq<char>) {
    if text.contains('\n') {
        text.index_of_first_ensures('\n');
    }
}

/// The line before the records of an answer.
pub open spec fn block_begin() -> Seq<char> {
    "SyncTeX result begin"@
}

/// The line after the records of an answer.
pub open spec fn block_end() -> Seq<char> {
    "SyncTeX result end"@
}

/// The lines of an answer that hold its records: those after the first
/// opening line, as far as the first closing line of the whole answer.
pub open spec fn block(lines: Seq<Seq<char>>) -> Seq<Seq<char>> {
    let open = if lines.contains(block_end()) {
        lines.take(lines.index_of_first(block_end()).unwrap())
    } else {
        lines
    };
    if open.contains(block_begin()) {
        open.skip(open.index_of_first(block_begin()).unwrap() + 1)
    } else {
        Seq::empty()
    }
}

/// The records in the lines of a block: of each line with a colon, what
/// stands before the first one, and what stands after it without the
/// whitespace around it.
pub open spec fn records_of(lines: Seq<Seq<char>>) -> Seq<(Seq<char>, Seq<char>)>
    decreases lines.len(),
{
    if lines.len() == 0 {
        Seq::empty()
    } else {
        let before = records_of(lines.drop_last());
        match split_first(lines.last(), ':') {
            Some((key, value)) => before.push((key, trimmed(value))),
            None => before,
        }
    }
}

/// The records in an answer of the command.
pub open spec fn records(output: Seq<char>) -> Seq<(Seq<char>, Seq<char>)> {
    records_of(block(trimmed_lines(output)))
}

/// The value of the last record under `key`.
pub open spec fn last_value(
    records: Seq<(Seq<char>, Seq<char>)>,
    key: Seq<char>,
) -> Option<Seq<char>>
    decreases records.len(),
{
    if records.len() == 0 {
        None
    } else if records.last().0 == key {
        Some(records.last().1)
    } else {
        last_value(records.drop_last(), key)
    }
}

/// What a vector of borrowed records holds.
pub open spec fn record_views(records: Seq<(&str, &str)>) -> Seq<(Seq<char>, Seq<char>)> {
    records.map_values(|r: (&str, &str)| (r.0@, r.1@))
}

proof fn lemma_begin_is_no_record()
    ensures
        split_first(block_begin(), ':') is None,
        block_begin() != block_end(),
{
    reveal_strlit("SyncTeX result begin");
    reveal_strlit("SyncTeX result end");
    assert(block_begin().len() == 20);
    assert(block_end().len() == 18);
}

/// What one more line adds to the records before it.
proof fn lemma_next_line(done: Seq<Seq<char>>, line: Seq<char>)
    requires
        !done.contains(block_end()),
        line != block_end(),
    ensures
        !done.push(line).contains(block_end()),
        done.push(line).contains(block_begin()) == (done.contains(block_begin()) || line
            == block_begin()),
        records_of(block(done.push(line))) == if !done.contains(block_begin()) || line
            == block_begin() {
            records_of(block(done))
        } else {
            match split_first(line, ':') {
                Some((key, value)) => records_of(block(done)).push((key, trimmed(value))),
                None => records_of(block(done)),
            }
        },
{
    let next = done.push(line);
    assert forall|i: int| 0 <= i < next.len() implies next[i] != block_end() by {
        if i < done.len() {
            assert(done[i] == next[i]);
        }
    }
    lemma_begin_is_no_record();
    if done.contains(block_begin()) {
        done.index_of_first_ensures(block_begin());
        let k = done.index_of_first(block_begin()).unwrap();
        assert(next[k] == block_begin());
        next.index_of_first_ensures(block_begin());
        let m = next.index_of_first(block_begin()).unwrap();
        assert(m == k) by {
            if m < k {
                assert(done[m] == next[m]);
            }
        }
        assert(block(next) == block(done).push(line));
        assert(block(next).drop_last() == block(done));
    } else if line == block_begin() {
        assert(next[next.len() - 1] == block_begin());
        next.index_of_first_ensures(block_begin());
        let m = next.index_of_first(block_begin()).unwrap();
        assert(m == next.len() - 1) by {
            if m < done.len() {
                assert(done[m] == next[m]);
            }
        }
        assert(block(next) == Seq::<Seq<char>>::empty());
    } else {
        assert(!next.contains(block_begin())) by {
            assert forall|i: int| 0 <= i < next.len() implies next[i] != block_begin() by {
                if i < done.len() {
                    assert(done[i] == next[i]);
                }
            }
        }
    }
}

/// Nothing after the first closing line matters.
proof fn lemma_closing_line(done: Seq<Seq<char>>, rest: Seq<Seq<char>>)
    requires
        !done.contains(block_end()),
        rest.len() > 0,
        rest[0] == block_end(),
    ensures
        block(done + rest) == block(done),
{
    let all = done + rest;
    assert(all[done.len() as int] == block_end());
    all.index_of_first_ensures(block_end());
    let k = all.index_of_first(block_end()).unwrap();
    assert(k == done.len()) by {
        if k < done.len() {
            assert(done[k] == all[k]);
        }
    }
    assert(all.take(k) == done);
}

/// The records in an answer of the command.
pub fn result_records(output: &str) -> (found: Vec<(&str, &str)>)
    ensures
        record_views(found@) == records(output@),
{
    let mut found: Vec<(&str, &str)> = Vec::new();
    let mut in_result = false;
    let mut rest: &str = output;
    let ghost mut done: Seq<Seq<char>> = Seq::empty();
    assert(done + trimmed_lines(rest@) == trimmed_lines(output@));
    loop
        invariant
            trimmed_lines(output@) == done + trimmed_lines(rest@),
            !done.contains(block_end()),
            in_result == done.contains(block_begin()),
            record_views(found@) == records_of(block(done)),
        decreases rest@.len(),
    {
        let (raw, next) = match split_once(rest, '\n') {
            Some((head, tail)) => (head, Some(tail)),
            None => (rest, None),
        };
        let line = trim(raw);
        proof {
            assert(trimmed_lines(rest@)[0] == line@);
        }
        if same(line, "SyncTeX result end") {
            proof {
                lemma_closing_line(done, trimmed_lines(rest@));
            }
            return found;
        }
        proof {
            lemma_next_line(done, line@);
        }
        if same(line, "SyncTeX result begin") {
            in_result = true;
        } else if in_result {
            if let Some((key, value)) = split_once(line, ':') {
                let ghost before = found@;
                found.push((key, trim(value)));
                assert(record_views(found@) == record_views(before).push((key@, trimmed(value@))));
            }
        }
        proof {
            let ghost after = match next {
                Some(tail) => trimmed_lines(tail@),
                None => Seq::empty(),
            };
            assert(trimmed_lines(rest@) == seq![line@] + after);
            assert(done + trimmed_lines(rest@) == done.push(line@) + after);
            done = done.push(line@);
        }
        match next {
            Some(tail) => {
                proof {
                    rest@.index_of_first_ensures('\n');
                }
                rest = tail;
            },
            None => {
                assert(trimmed_lines(output@) == done);
                return found;
            },
        }
    }
}

/// The value of the last record under `key`.
pub fn find_last<'a>(found: &Vec<(&'a str, &'a str)>, key: &str) -> (value: Option<&'a str>)
    ensures
        match value {
            Some(v) => last_value(record_views(found@), key@) == Some(v@),
            None => last_value(record_views(found@), key@) is None,
        },
{
    let ghost all = record_views(found@);
    let mut i: usize = found.len();
    assert(all.take(i as int) == all);
    while i > 0
        invariant
            i <= found.len(),
            all == record_views(found@),
            last_value(all, key@) == last_value(all.take(i as int), key@),
        decreases i,
    {
        let (k, v) = found[i - 1];
        assert(all.take(i as int).last() == (k@, v@));
        assert(all.take(i as int).drop_last() == all.take(i - 1));
        if same(k, key) {
            return Some(v);
        }
        i = i - 1;
    }
    None
}

/// The lines of two texts with a line break between them.
proof fn lemma_lines_of_both(a: Seq<char>, b: Seq<char>)
    ensures
        trimmed_lines(a + seq!['\n'] + b) == trimmed_lines(a) + trimmed_lines(b),
    decreases a.len(),
{
    let whole = a + seq!['\n'] + b;
    if a.contains('\n') {
        a.index_of_first_ensures('\n');
        let i = a.index_of_first('\n').unwrap();
        assert(whole[i] == '\n');
        whole.index_of_first_ensures('\n');
        let k = whole.index_of_first('\n').unwrap();
        assert(k == i) by {
            if k < i {
                assert(a[k] == whole[k]);
            }
        }
        lemma_lines_of_both(a.skip(i + 1), b);
        assert(whole.take(i) == a.take(i));
        assert(whole.skip(i + 1) == a.skip(i + 1) + seq!['\n'] + b);
        assert(trimmed_lines(whole) == trimmed_lines(a) + trimmed_lines(b));
    } else {
        assert(whole[a.len() as int] == '\n');
        whole.index_of_first_ensures('\n');
        let k = whole.index_of_first('\n').unwrap();
        assert(k == a.len()) by {
            if k < a.len() {
                assert(a[k] == whole[k]);
            }
        }
        assert(whole.take(k) == a);
        assert(whole.skip(k + 1) == b);
        assert(trimmed_lines(whole) == trimmed_lines(a) + trimmed_lines(b));
    }
}

/// An answer ends with its first closing line: nothing that follows it counts.
pub proof fn law_nothing_counts_after_the_closing_line(answer: Seq<char>, more: Seq<char>)
    requires
        trimmed_lines(answer).contains(block_end()),
    ensures
        records(answer + seq!['\n'] + more) == records(answer),
{
    lemma_lines_of_both(answer, more);
    let lines = trimmed_lines(answer);
    lines.index_of_first_ensures(block_end());
    let k = lines.index_of_first(block_end()).unwrap();
    let done = lines.take(k);
    assert(!done.contains(block_end()));
    lemma_closing_line(done, lines.skip(k));
    lemma_closing_line(done, lines.skip(k) + trimmed_lines(more));
    assert(done + lines.skip(k) == lines);
    assert(done + (lines.skip(k) + trimmed_lines(more)) == lines + trimmed_lines(more));
}

/// An answer begins with its opening line: nothing that precedes it counts,
/// unless a closing line is there to end the answer early.
pub proof fn law_nothing_counts_before_the_opening_line(preamble: Seq<char>, answer: Seq<char>)
    requires
        !trimmed_lines(preamble).contains(block_begin()),
        !trimmed_lines(preamble).contains(block_end()),
    ensures
        records(preamble + seq!['\n'] + answer) == records(answer),
{
    lemma_lines_of_both(preamble, answer);
    let before = trimmed_lines(preamble);
    let lines = trimmed_lines(answer);
    let all = before + lines;
    if lines.contains(block_end()) {
        lines.index_of_first_ensures(block_end());
        let k = lines.index_of_first(block_end()).unwrap();
        let done = before + lines.take(k);
        assert(!done.contains(block_end())) by {
            assert forall|i: int| 0 <= i < done.len() implies done[i] != block_end() by {
                if i < before.len() {
                    assert(before[i] == done[i]);
                } else {
                    assert(lines[i - before.len()] == done[i]);
                }
            }
        }
        lemma_closing_line(done, lines.skip(k));
        assert(done + lines.skip(k) == all);
        lemma_closing_line(lines.take(k), lines.skip(k));
        assert(lines.take(k) + lines.skip(k) == lines);
        lemma_preamble(before, lines.take(k));
    } else {
        lemma_preamble(before, lines);
    }
}

proof fn lemma_preamble(before: Seq<Seq<char>>, lines: Seq<Seq<char>>)
    requires
        !before.contains(block_begin()),
        !before.contains(block_end()),
        !lines.contains(block_end()),
    ensures
        block(before + lines) == block(lines),
{
    let all = before + lines;
    assert(!all.contains(block_end())) by {
        assert forall|i: int| 0 <= i < all.len() implies all[i] != block_end() by {
            if i < before.len() {
                assert(before[i] == all[i]);
            } else {
                assert(lines[i - before.len()] == all[i]);
            }
        }
    }
    if lines.contains(block_begin()) {
        lines.index_of_first_ensures(block_begin());
        let k = lines.index_of_first(block_begin()).unwrap();
        assert(all[before.len() + k] == block_begin());
        all.index_of_first_ensures(block_begin());
        let m = all.index_of_first(block_begin()).unwrap();
        assert(m == before.len() + k) by {
            if m < before.len() {
                assert(before[m] == all[m]);
            } else {
                assert(lines[m - before.len()] == all[m]);
            }
        }
        assert(all.skip(m + 1) == lines.skip(k + 1));
    } else {
        assert forall|i: int| 0 <= i < all.len() implies all[i] != block_begin() by {
            if i < before.len() {
                assert(before[i] == all[i]);
            } else {
                assert(lines[i - before.len()] == all[i]);
            }
        }
    }
}

/// The line of a record.
pub open spec fn record_line(record: (Seq<char>, Seq<char>)) -> Seq<char> {
    record.0 + seq![':'] + record.1
}

/// Whether a record fits on a line, and keeps its ends there.
pub open spec fn fits_a_line(record: (Seq<char>, Seq<char>)) -> bool {
    &&& !record.0.contains(':')
    &&& !record.0.contains('\n')
    &&& !record.1.contains('\n')
    &&& record.0.len() > 0 ==> !is_whitespace(record.0[0])
    &&& trimmed(record.1) == record.1
}

/// The lines of some records, and the closing line.
pub open spec fn written(records: Seq<(Seq<char>, Seq<char>)>) -> Seq<char>
    decreases records.len(),
{
    if records.len() == 0 {
        block_end()
    } else {
        record_line(records[0]) + seq!['\n'] + written(records.drop_first())
    }
}

/// An answer of these records.
pub open spec fn answer_of(records: Seq<(Seq<char>, Seq<char>)>) -> Seq<char> {
    block_begin() + seq!['\n'] + written(records)
}

proof fn lemma_markers_are_lines()
    ensures
        trimmed_lines(block_begin()) == seq![block_begin()],
        trimmed_lines(block_end()) == seq![block_end()],
{
    reveal_strlit("SyncTeX result begin");
    reveal_strlit("SyncTeX result end");
    assert(!block_begin().contains('\n'));
    assert(!block_end().contains('\n'));
    assert(block_begin()[0] == 'S' && block_begin().last() == 'n');
    assert(block_end()[0] == 'S' && block_end().last() == 'd');
    assert(trimmed(block_begin()) == block_begin());
    assert(trimmed(block_end()) == block_end());
}

proof fn lemma_record_is_a_line(record: (Seq<char>, Seq<char>))
    requires
        fits_a_line(record),
    ensures
        trimmed_lines(record_line(record)) == seq![record_line(record)],
        split_first(record_line(record), ':') == Some(record),
        record_line(record) != block_begin(),
        record_line(record) != block_end(),
{
    let (key, value) = record;
    let line = record_line(record);
    let n = key.len() as int;
    assert(line[n] == ':');
    assert forall|i: int| 0 <= i < n implies line[i] != ':' by {
        assert(key[i] == line[i]);
    }
    lemma_first_index(line, ':', n);
    assert(line.take(n) == key);
    assert(line.skip(n + 1) == value);
    assert(!line.contains('\n')) by {
        assert forall|i: int| 0 <= i < line.len() implies line[i] != '\n' by {
            if i < n {
                assert(key[i] == line[i]);
            } else if i > n {
                assert(value[i - n - 1] == line[i]);
            }
        }
    }
    assert(trim_start(line) == line) by {
        if n > 0 {
            assert(line[0] == key[0]);
        }
    }
    assert(trim_end(line) == line) by {
        if value.len() > 0 {
            lemma_trimmed_ends(value);
            assert(line.last() == value.last());
        } else {
            assert(line.last() == ':');
        }
    }
    lemma_begin_is_no_record();
    reveal_strlit("SyncTeX result end");
    assert(!block_end().contains(':'));
}

proof fn lemma_trimmed_ends(s: Seq<char>)
    requires
        trimmed(s) == s,
        s.len() > 0,
    ensures
        !is_whitespace(s.last()),
{
    lemma_trim_start_shortens(s);
    lemma_trim_end_shortens(trim_start(s));
    assert(trim_start(s) == s);
    if is_whitespace(s.last()) {
        lemma_trim_end_shortens(s.drop_last());
    }
}

proof fn lemma_trim_start_shortens(s: Seq<char>)
    ensures
        trim_start(s).len() <= s.len(),
        trim_start(s).len() == s.len() ==> trim_start(s) == s,
    decreases s.len(),
{
    if s.len() > 0 && is_whitespace(s[0]) {
        lemma_trim_start_shortens(s.drop_first());
    }
}

proof fn lemma_trim_end_shortens(s: Seq<char>)
    ensures
        trim_end(s).len() <= s.len(),
    decreases s.len(),
{
    if s.len() > 0 && is_whitespace(s.last()) {
        lemma_trim_end_shortens(s.drop_last());
    }
}

proof fn lemma_lines_of_records(records: Seq<(Seq<char>, Seq<char>)>)
    requires
        forall|i: int| 0 <= i < records.len() ==> fits_a_line(#[trigger] records[i]),
    ensures
        trimmed_lines(written(records)) == records.map_values(
            |r: (Seq<char>, Seq<char>)| record_line(r),
        ).push(block_end()),
    decreases records.len(),
{
    let lines = records.map_values(|r: (Seq<char>, Seq<char>)| record_line(r));
    if records.len() == 0 {
        lemma_markers_are_lines();
        assert(lines.push(block_end()) == seq![block_end()]);
    } else {
        let tail = records.drop_first();
        assert forall|i: int| 0 <= i < tail.len() implies fits_a_line(#[trigger] tail[i]) by {
            assert(tail[i] == records[i + 1]);
        }
        lemma_lines_of_records(tail);
        lemma_record_is_a_line(records[0]);
        lemma_lines_of_both(record_line(records[0]), written(tail));
        assert(lines.push(block_end()) == seq![record_line(records[0])] + tail.map_values(
            |r: (Seq<char>, Seq<char>)| record_line(r),
        ).push(block_end()));
    }
}

proof fn lemma_records_of_lines(records: Seq<(Seq<char>, Seq<char>)>)
    requires
        forall|i: int| 0 <= i < records.len() ==> fits_a_line(#[trigger] records[i]),
    ensures
        records_of(records.map_values(|r: (Seq<char>, Seq<char>)| record_line(r))) == records,
    decreases records.len(),
{
    let lines = records.map_values(|r: (Seq<char>, Seq<char>)| record_line(r));
    if records.len() > 0 {
        let front = records.drop_last();
        assert forall|i: int| 0 <= i < front.len() implies fits_a_line(#[trigger] front[i]) by {
            assert(front[i] == records[i]);
        }
        lemma_records_of_lines(front);
        assert(lines.drop_last() == front.map_values(
            |r: (Seq<char>, Seq<char>)| record_line(r),
        ));
        assert(fits_a_line(records[records.len() - 1]));
        lemma_record_is_a_line(records.last());
        assert(front.push(records.last()) == records);
    }
}

/// The records that an answer is made of are the records read from it, all of
/// them and in their order.
pub proof fn law_records_read_back(list: Seq<(Seq<char>, Seq<char>)>)
    requires
        forall|i: int| 0 <= i < list.len() ==> fits_a_line(#[trigger] list[i]),
    ensures
        records(answer_of(list)) == list,
{
    let lines = list.map_values(|r: (Seq<char>, Seq<char>)| record_line(r));
    let done = seq![block_begin()] + lines;
    lemma_markers_are_lines();
    lemma_begin_is_no_record();
    lemma_lines_of_both(block_begin(), written(list));
    lemma_lines_of_records(list);
    assert(trimmed_lines(answer_of(list)) == done + seq![block_end()]);
    assert forall|i: int| 0 <= i < done.len() implies done[i] != block_end() by {
        if i > 0 {
            assert(fits_a_line(list[i - 1]));
            lemma_record_is_a_line(list[i - 1]);
        }
    }
    lemma_closing_line(done, seq![block_end()]);
    assert(done[0] == block_begin());
    done.index_of_first_ensures(block_begin());
    assert(done.index_of_first(block_begin()).unwrap() == 0);
    assert(done.skip(1) == lines);
    lemma_records_of_lines(list);
}

proof fn lemma_white_end_is_trimmed(s: Seq<char>, w: char)
    requires
        is_whitespace(w),
    ensures
        trimmed(s.push(w)) == trimmed(s),
    decreases s.len(),
{
    let longer = s.push(w);
    if s.len() == 0 {
        assert(longer.drop_first() == s);
    } else if is_whitespace(s[0]) {
        assert(longer.drop_first() == s.drop_first().push(w));
        lemma_white_end_is_trimmed(s.drop_first(), w);
    } else {
        assert(longer.drop_last() == s);
    }
}

proof fn lemma_white_at_the_ends(text: Seq<char>, w: char)
    requires
        is_whitespace(w),
        w != '\n',
    ensures
        trimmed_lines(text.push(w)) == trimmed_lines(text),
        trimmed_lines(seq![w] + text) == trimmed_lines(text),
    decreases text.len(),
{
    let after = text.push(w);
    let before = seq![w] + text;
    if text.contains('\n') {
        text.index_of_first_ensures('\n');
        let i = text.index_of_first('\n').unwrap();
        let line = text.take(i);
        let rest = text.skip(i + 1);
        assert forall|j: int| 0 <= j < i implies after[j] != '\n' by {
            assert(text[j] == after[j]);
        }
        lemma_first_index(after, '\n', i);
        assert(after.take(i) == line);
        assert(after.skip(i + 1) == rest.push(w));
        lemma_white_at_the_ends(rest, w);
        assert forall|j: int| 0 <= j < i + 1 implies before[j] != '\n' by {
            if j > 0 {
                assert(text[j - 1] == before[j]);
            }
        }
        lemma_first_index(before, '\n', i + 1);
        assert(before.take(i + 1) == seq![w] + line);
        assert(before.skip(i + 2) == rest);
        assert((seq![w] + line).drop_first() == line);
    } else {
        assert(!after.contains('\n')) by {
            assert forall|j: int| 0 <= j < after.len() implies after[j] != '\n' by {
                if j < text.len() {
                    assert(text[j] == after[j]);
                }
            }
        }
        assert(!before.contains('\n')) by {
            assert forall|j: int| 0 <= j < before.len() implies before[j] != '\n' by {
                if j > 0 {
                    assert(text[j - 1] == before[j]);
                }
            }
        }
        lemma_white_end_is_trimmed(text, w);
        assert(before.drop_first() == text);
    }
}

/// How lines end does not matter, with a carriage return or without, nor do
/// blanks at their ends or before them.
pub proof fn law_blanks_around_lines_do_not_count(a: Seq<char>, b: Seq<char>, w: char)
    requires
        is_whitespace(w),
        w != '\n',
    ensures
        records(a.push(w) + seq!['\n'] + b) == records(a + seq!['\n'] + b),
        records(a + seq!['\n'] + (seq![w] + b)) == records(a + seq!['\n'] + b),
{
    lemma_lines_of_both(a, b);
    lemma_lines_of_both(a.push(w), b);
    lemma_lines_of_both(a, seq![w] + b);
    lemma_white_at_the_ends(a, w);
    lemma_white_at_the_ends(b, w);
}

/// Whether a line says nothing about `key`: it is no marker, and no record
/// under that key.
pub open spec fn is_foreign(line: Seq<char>, key: Seq<char>) -> bool {
    &&& line != block_begin()
    &&& line != block_end()
    &&& split_first(line, ':') matches Some((other, _)) ==> other != key
}

proof fn lemma_foreign_line(
    before: Seq<Seq<char>>,
    line: Seq<char>,
    after: Seq<Seq<char>>,
    key: Seq<char>,
)
    requires
        is_foreign(line, key),
    ensures
        last_value(records_of(block(before + seq![line] + after)), key) == last_value(
            records_of(block(before + after)),
            key,
        ),
    decreases after.len(),
{
    let with = before + seq![line] + after;
    let without = before + after;
    if before.contains(block_end()) {
        before.index_of_first_ensures(block_end());
        let k = before.index_of_first(block_end()).unwrap();
        let done = before.take(k);
        lemma_closing_line(done, before.skip(k) + seq![line] + after);
        lemma_closing_line(done, before.skip(k) + after);
        assert(done + (before.skip(k) + seq![line] + after) == with);
        assert(done + (before.skip(k) + after) == without);
    } else if after.len() == 0 {
        lemma_next_line(before, line);
        assert(with == before.push(line));
        assert(without == before);
        if let Some((other, value)) = split_first(line, ':') {
            let found = records_of(block(before));
            assert(found.push((other, trimmed(value))).drop_last() == found);
        }
    } else {
        let front = after.drop_last();
        let last = after.last();
        let with_front = before + seq![line] + front;
        let without_front = before + front;
        lemma_foreign_line(before, line, front, key);
        assert(with == with_front.push(last));
        assert(without == without_front.push(last));
        assert(front.contains(block_end()) == with_front.contains(block_end())) by {
            lemma_contains_either(before + seq![line], front, block_end());
            lemma_contains_either(before, seq![line], block_end());
            assert(seq![line][0] == line);
        }
        lemma_contains_either(before, front, block_end());
        if front.contains(block_end()) {
            lemma_line_after_the_end(with_front, last);
            lemma_line_after_the_end(without_front, last);
        } else if last == block_end() {
            lemma_closing_line(with_front, seq![last]);
            lemma_closing_line(without_front, seq![last]);
            assert(with_front + seq![last] == with);
            assert(without_front + seq![last] == without);
        } else {
            lemma_next_line(with_front, last);
            lemma_next_line(without_front, last);
            lemma_contains_either(before + seq![line], front, block_begin());
            lemma_contains_either(before, seq![line], block_begin());
            lemma_contains_either(before, front, block_begin());
            if let Some((other, value)) = split_first(last, ':') {
                let x = records_of(block(with_front));
                let y = records_of(block(without_front));
                assert(x.push((other, trimmed(value))).drop_last() == x);
                assert(y.push((other, trimmed(value))).drop_last() == y);
            }
        }
    }
}

proof fn lemma_contains_either(a: Seq<Seq<char>>, b: Seq<Seq<char>>, line: Seq<char>)
    ensures
        (a + b).contains(line) == (a.contains(line) || b.contains(line)),
{
    let both = a + b;
    if a.contains(line) {
        let i = choose|i: int| 0 <= i < a.len() && a[i] == line;
        assert(both[i] == line);
    }
    if b.contains(line) {
        let i = choose|i: int| 0 <= i < b.len() && b[i] == line;
        assert(both[a.len() + i] == line);
    }
    if both.contains(line) {
        let i = choose|i: int| 0 <= i < both.len() && both[i] == line;
        if i < a.len() {
            assert(a[i] == line);
        } else {
            assert(b[i - a.len()] == line);
        }
    }
}

proof fn lemma_line_after_the_end(lines: Seq<Seq<char>>, line: Seq<char>)
    requires
        lines.contains(block_end()),
    ensures
        block(lines.push(line)) == block(lines),
{
    lines.index_of_first_ensures(block_end());
    let k = lines.index_of_first(block_end()).unwrap();
    let done = lines.take(k);
    lemma_closing_line(done, lines.skip(k));
    lemma_closing_line(done, lines.skip(k).push(line));
    assert(done + lines.skip(k) == lines);
    assert(done + lines.skip(k).push(line) == lines.push(line));
}

/// A line that is no marker and no record under a key, blank lines among them,
/// does not change the value under that key, wherever it stands.
pub proof fn law_foreign_lines_do_not_count(
    a: Seq<char>,
    line: Seq<char>,
    b: Seq<char>,
    key: Seq<char>,
)
    requires
        !line.contains('\n'),
        is_foreign(trimmed(line), key),
    ensures
        last_value(records(a + seq!['\n'] + (line + seq!['\n'] + b)), key) == last_value(
            records(a + seq!['\n'] + b),
            key,
        ),
{
    let x = trimmed_lines(a);
    let y = trimmed_lines(b);
    lemma_lines_of_both(a, b);
    lemma_lines_of_both(line, b);
    lemma_lines_of_both(a, line + seq!['\n'] + b);
    assert(trimmed_lines(line) == seq![trimmed(line)]);
    assert(x + (seq![trimmed(line)] + y) == x + seq![trimmed(line)] + y);
    lemma_foreign_line(x, trimmed(line), y, key);
}

/// Whether the record at `i` is the last one under `key`.
pub open spec fn is_last(list: Seq<(Seq<char>, Seq<char>)>, key: Seq<char>, i: int) -> bool {
    &&& 0 <= i < list.len()
    &&& list[i].0 == key
    &&& forall|j: int| i < j < list.len() ==> (#[trigger] list[j]).0 != key
}

/// Whether there is no record under `key`.
pub open spec fn lacks(list: Seq<(Seq<char>, Seq<char>)>, key: Seq<char>) -> bool {
    forall|j: int| 0 <= j < list.len() ==> (#[trigger] list[j]).0 != key
}

/// The last record under a key decides, wherever it stands and whatever stands
/// before it; where there is none, there is no value.
pub proof fn law_last_record_decides(
    list: Seq<(Seq<char>, Seq<char>)>,
    key: Seq<char>,
    i: int,
)
    ensures
        is_last(list, key, i) ==> last_value(list, key) == Some(list[i].1),
        lacks(list, key) ==> last_value(list, key) is None,
        last_value(list, key) is None ==> lacks(list, key),
    decreases list.len(),
{
    if list.len() > 0 {
        let front = list.drop_last();
        let last = list.len() - 1;
        law_last_record_decides(front, key, i);
        if is_last(list, key, i) && i != last {
            assert(list[last].0 != key);
            assert forall|j: int| i < j < front.len() implies (#[trigger] front[j]).0 != key by {
                assert(list[j].0 != key);
            }
            assert(is_last(front, key, i));
        }
        if lacks(list, key) {
            assert(list[last].0 != key);
            assert forall|j: int| 0 <= j < front.len() implies (#[trigger] front[j]).0 != key by {
                assert(list[j].0 != key);
            }
        }
        if last_value(list, key) is None {
            assert forall|j: int| 0 <= j < list.len() implies (#[trigger] list[j]).0 != key by {
                if j < last {
                    assert(front[j] == list[j]);
                }
            }
        }
    }
}

/// One more record under a key gives the value, and leaves the values under all
/// other keys as they were.
pub proof fn law_further_record_decides(
    list: Seq<(Seq<char>, Seq<char>)>,
    key: Seq<char>,
    value: Seq<char>,
    other: Seq<char>,
)
    ensures
        last_value(list.push((key, value)), key) == Some(value),
        other != key ==> last_value(list.push((key, value)), other) == last_value(list, other),
{
    let longer = list.push((key, value));
    assert(longer.drop_last() == list);
}

/// Lines are what stands between line breaks, each without the whitespace at
/// its ends, in their order.
pub proof fn law_lines_stand_between_breaks(a: Seq<char>, b: Seq<char>)
    ensures
        trimmed_lines(a + seq!['\n'] + b) == trimmed_lines(a) + trimmed_lines(b),
        !a.contains('\n') ==> trimmed_lines(a) == seq![trimmed(a)],
{
    lemma_lines_of_both(a, b);
}

/// Without an opening line there are no records.
pub proof fn law_no_opening_line_no_records(text: Seq<char>)
    requires
        !trimmed_lines(text).contains("SyncTeX result begin"@),
    ensures
        records(text).len() == 0,
{
    let lines = trimmed_lines(text);
    if lines.contains(block_end()) {
        lines.index_of_first_ensures(block_end());
        let k = lines.index_of_first(block_end()).unwrap();
        let open = lines.take(k);
        assert forall|i: int| 0 <= i < open.len() implies open[i] != block_begin() by {
            assert(lines[i] == open[i]);
        }
        assert(block(lines).len() == 0);
    }
}

/// What one more line adds to an answer that is open: a line with a colon adds
/// what stands before and after the first one, as the last record, and every
/// other line adds nothing. Before the opening line nothing is added.
pub proof fn law_one_more_line(
    answer: Seq<char>,
    line: Seq<char>,
    key: Seq<char>,
    value: Seq<char>,
)
    requires
        !trimmed_lines(answer).contains("SyncTeX result end"@),
        !line.contains('\n'),
        !key.contains(':'),
    ensures
        ({
            let longer = answer + seq!['\n'] + line;
            let opened = trimmed_lines(answer).contains("SyncTeX result begin"@);
            &&& trimmed(line) == key + seq![':'] + value && opened ==> records(longer) == records(
                answer,
            ).push((key, trimmed(value)))
            &&& !trimmed(line).contains(':') ==> records(longer) == records(answer)
            &&& !opened ==> records(longer) == records(answer)
        }),
{
    let lines = trimmed_lines(answer);
    let last = trimmed(line);
    lemma_lines_of_both(answer, line);
    assert(trimmed_lines(line) == seq![last]);
    assert(lines + seq![last] == lines.push(last));
    lemma_begin_is_no_record();
    if last == key + seq![':'] + value {
        law_cut_finds_both_sides(key, ':', value);
        reveal_strlit("SyncTeX result end");
        assert(last[key.len() as int] == ':');
        assert(!block_end().contains(':'));
        assert(last != block_end());
        assert(last != block_begin());
    }
    if last == block_end() {
        lemma_closing_line(lines, seq![last]);
    } else {
        lemma_next_line(lines, last);
    }
}

/// An answer that was cut off before its closing line keeps the records that
/// it has.
pub proof fn law_open_answer_keeps_its_records(
    answer: Seq<char>,
    more: Seq<char>,
)
    requires
        !trimmed_lines(answer).contains("SyncTeX result end"@),
        trimmed_lines(more)[0] == "SyncTeX result end"@,
    ensures
        records(answer + seq!['\n'] + more) == records(answer),
{
    lemma_lines_of_both(answer, more);
    assert(trimmed_lines(more).len() > 0);
    lemma_closing_line(trimmed_lines(answer), trimmed_lines(more));
}

/// The value that is looked up is that of the last record under the key.
pub proof fn law_lookup_finds_the_last(
    found: &Vec<(&str, &str)>,
    key: &str,
    value: Option<&str>,
    i: int,
)
    requires
        call_ensures(find_last, (found, key), value),
        0 <= i < found@.len(),
        found@[i].0@ == key@,
        forall|j: int| i < j < found@.len() ==> (#[trigger] found@[j]).0@ != key@,
    ensures
        value matches Some(v) && v@ == found@[i].1@,
{
    let list = record_views(found@);
    assert(list[i] == (found@[i].0@, found@[i].1@));
    assert forall|j: int| i < j < list.len() implies (#[trigger] list[j]).0 != key@ by {
        assert(found@[j].0@ != key@);
    }
    law_last_record_decides(list, key@, i);
}

/// The records of an answer are handed out one by one, keys and values as they
/// stand in it.
pub proof fn law_records_are_handed_out(output: &str, found: Vec<(&str, &str)>, i: int)
    requires
        call_ensures(result_records, (output,), found),
        0 <= i < found@.len(),
    ensures
        found@.len() == records(output@).len(),
        found@[i].0@ == records(output@)[i].0,
        found@[i].1@ == records(output@)[i].1,
{
    let views = record_views(found@);
    assert(views.len() == found@.len());
    assert(views[i] == (found@[i].0@, found@[i].1@));
}

} // verus!
