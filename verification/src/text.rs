//! Plain text: the few string operations that the rest of the library is
//! written with, each stated over sequences of characters.

use vstd::prelude::*;
use vstd::string::*;
use vstd::utf8::{decode_utf8, valid_utf8};

verus! {

/// Whether `c` has the Unicode property `White_Space`.
pub open spec fn is_whitespace(c: char) -> bool {
    ||| '\u{9}' <= c <= '\u{d}'
    ||| c == ' '
    ||| c == '\u{85}'
    ||| c == '\u{a0}'
    ||| c == '\u{1680}'
    ||| '\u{2000}' <= c <= '\u{200a}'
    ||| c == '\u{2028}'
    ||| c == '\u{2029}'
    ||| c == '\u{202f}'
    ||| c == '\u{205f}'
    ||| c == '\u{3000}'
}

/// `s` without the whitespace it begins with.
pub open spec fn trim_start(s: Seq<char>) -> Seq<char>
    decreases s.len(),
{
    if s.len() > 0 && is_whitespace(s[0]) {
        trim_start(s.drop_first())
    } else {
        s
    }
}

/// `s` without the whitespace it ends with.
pub open spec fn trim_end(s: Seq<char>) -> Seq<char>
    decreases s.len(),
{
    if s.len() > 0 && is_whitespace(s.last()) {
        trim_end(s.drop_last())
    } else {
        s
    }
}

/// `s` without the whitespace at either end.
pub open spec fn trimmed(s: Seq<char>) -> Seq<char> {
    trim_end(trim_start(s))
}

/// Whether `s` begins with `prefix`.
pub open spec fn begins_with(s: Seq<char>, prefix: Seq<char>) -> bool {
    prefix.len() <= s.len() && s.take(prefix.len() as int) == prefix
}

/// `s` without the `prefix` it begins with, however often it is repeated.
pub open spec fn without_prefix(s: Seq<char>, prefix: Seq<char>) -> Seq<char>
    decreases s.len(),
{
    if prefix.len() > 0 && begins_with(s, prefix) {
        without_prefix(s.skip(prefix.len() as int), prefix)
    } else {
        s
    }
}

/// What stands before and after the first `c` of `s`.
pub open spec fn split_first(s: Seq<char>, c: char) -> Option<(Seq<char>, Seq<char>)> {
    if s.contains(c) {
        let i = s.index_of_first(c).unwrap();
        Some((s.take(i), s.skip(i + 1)))
    } else {
        None
    }
}

pub proof fn lemma_first_index(s: Seq<char>, c: char, i: int)
    requires
        0 <= i < s.len(),
        s[i] == c,
        forall|j: int| 0 <= j < i ==> s[j] != c,
    ensures
        split_first(s, c) == Some((s.take(i), s.skip(i + 1))),
{
    assert(s.contains(c));
    s.index_of_first_ensures(c);
    let k = s.index_of_first(c).unwrap();
    assert(k == i);
}

/// Whitespace at the end of a text is the whitespace at the end of its last
/// part, and more only where that part is nothing else.
pub proof fn lemma_trim_end_of_both(a: Seq<char>, b: Seq<char>)
    ensures
        trim_end(a + b) == if trim_end(b).len() > 0 {
            a + trim_end(b)
        } else {
            trim_end(a)
        },
    decreases b.len(),
{
    if b.len() == 0 {
        assert(a + b == a);
    } else {
        assert((a + b).last() == b.last());
        assert((a + b).drop_last() == a + b.drop_last());
        if is_whitespace(b.last()) {
            lemma_trim_end_of_both(a, b.drop_last());
        }
    }
}

/// `String::push`: appends one character.
pub assume_specification[ String::push ](s: &mut String, c: char)
    ensures
        final(s)@ == old(s)@.push(c),
;

/// Whether `c` is whitespace.
pub fn char_is_whitespace(c: char) -> (white: bool)
    ensures
        white == is_whitespace(c),
{
    ('\u{9}' <= c && c <= '\u{d}') || c == ' ' || c == '\u{85}' || c == '\u{a0}' || c == '\u{1680}'
        || ('\u{2000}' <= c && c <= '\u{200a}') || c == '\u{2028}' || c == '\u{2029}' || c
        == '\u{202f}' || c == '\u{205f}' || c == '\u{3000}'
}

/// The characters of `s`, in order.
pub fn chars_of(s: &str) -> (chars: Vec<char>)
    ensures
        chars@ == s@,
{
    let mut chars: Vec<char> = Vec::new();
    for c in it: s.chars()
        invariant
            it.seq() == s@,
            chars@ == s@.take(it.index() as int),
    {
        chars.push(c);
    }
    chars
}

/// Whether `a` and `b` hold the same characters.
pub fn same(a: &str, b: &str) -> (equal: bool)
    ensures
        equal == (a@ == b@),
{
    let x = chars_of(a);
    let y = chars_of(b);
    if x.len() != y.len() {
        return false;
    }
    let mut i: usize = 0;
    while i < x.len()
        invariant
            i <= x.len(),
            x.len() == y.len(),
            x@ == a@,
            y@ == b@,
            a@.take(i as int) == b@.take(i as int),
        decreases x.len() - i,
    {
        if x[i] != y[i] {
            assert(a@[i as int] != b@[i as int]);
            return false;
        }
        assert(a@.take(i + 1) == a@.take(i as int).push(a@[i as int]));
        assert(b@.take(i + 1) == b@.take(i as int).push(b@[i as int]));
        i = i + 1;
    }
    assert(a@.take(i as int) == a@);
    assert(b@.take(i as int) == b@);
    true
}

/// `s` without the whitespace at either end.
pub fn trim(s: &str) -> (inner: &str)
    ensures
        inner@ == trimmed(s@),
{
    let chars = chars_of(s);
    let mut from: usize = 0;
    assert(s@.skip(0) == s@);
    while from < chars.len() && char_is_whitespace(chars[from])
        invariant
            from <= chars.len(),
            chars@ == s@,
            trim_start(s@) == trim_start(s@.skip(from as int)),
        decreases chars.len() - from,
    {
        assert(s@.skip(from as int).drop_first() == s@.skip(from + 1));
        from = from + 1;
    }
    let ghost rest = s@.skip(from as int);
    assert(trim_start(s@) == rest);
    let mut to: usize = chars.len();
    assert(rest.take(to - from) == rest);
    while from < to && char_is_whitespace(chars[to - 1])
        invariant
            from <= to <= chars.len(),
            chars@ == s@,
            rest == s@.skip(from as int),
            trim_end(rest) == trim_end(rest.take(to - from)),
        decreases to - from,
    {
        assert(rest.take(to - from).drop_last() == rest.take(to - from - 1));
        to = to - 1;
    }
    assert(trim_end(rest) == rest.take(to - from));
    assert(s@.subrange(from as int, to as int) == rest.take(to - from));
    s.substring_char(from, to)
}

/// The part of `s` before its first `c` and the part after it.
pub fn split_once(s: &str, c: char) -> (parts: Option<(&str, &str)>)
    ensures
        match parts {
            Some((head, tail)) => split_first(s@, c) == Some((head@, tail@)),
            None => split_first(s@, c) is None,
        },
{
    let len: usize = s.unicode_len();
    let mut i: usize = 0;
    for x in it: s.chars()
        invariant
            it.seq() == s@,
            len == s@.len(),
            i == it.index(),
            forall|j: int| 0 <= j < i ==> s@[j] != c,
    {
        if x == c {
            proof {
                lemma_first_index(s@, c, i as int);
            }
            return Some((s.substring_char(0, i), s.substring_char(i + 1, len)));
        }
        i = i + 1;
    }
    None
}

/// Whether `chars` holds `part` at the place `at`.
pub(crate) fn holds_at(chars: &Vec<char>, at: usize, part: &Vec<char>) -> (held: bool)
    requires
        at <= chars.len(),
    ensures
        held == begins_with(chars@.skip(at as int), part@),
{
    let ghost rest = chars@.skip(at as int);
    if part.len() > chars.len() - at {
        return false;
    }
    let mut i: usize = 0;
    while i < part.len()
        invariant
            i <= part.len(),
            at + part.len() <= chars.len(),
            rest == chars@.skip(at as int),
            rest.take(i as int) == part@.take(i as int),
        decreases part.len() - i,
    {
        if chars[at + i] != part[i] {
            assert(rest.take(part@.len() as int)[i as int] == rest[i as int]);
            return false;
        }
        assert(rest.take(i + 1) == rest.take(i as int).push(rest[i as int]));
        assert(part@.take(i + 1) == part@.take(i as int).push(part@[i as int]));
        i = i + 1;
    }
    assert(part@.take(i as int) == part@);
    true
}

/// `s` without the `prefix` it begins with, however often it is repeated.
pub fn strip_prefix_all<'a>(s: &'a str, prefix: &str) -> (rest: &'a str)
    requires
        prefix@.len() > 0,
    ensures
        rest@ == without_prefix(s@, prefix@),
{
    let chars = chars_of(s);
    let part = chars_of(prefix);
    let mut i: usize = 0;
    assert(s@.skip(0) == s@);
    while holds_at(&chars, i, &part)
        invariant
            i <= chars.len(),
            chars@ == s@,
            part@ == prefix@,
            part.len() > 0,
            without_prefix(s@, prefix@) == without_prefix(s@.skip(i as int), prefix@),
        decreases chars.len() - i,
    {
        assert(s@.skip(i as int).skip(prefix@.len() as int) == s@.skip(i + prefix@.len()));
        i = i + part.len();
    }
    s.substring_char(i, chars.len())
}

/// The text of some bytes, with a replacement for what is not UTF-8.
pub uninterp spec fn utf8_lossy_text(bytes: Seq<u8>) -> Seq<char>;

/// `String::from_utf8_lossy`: the text that the bytes encode, if they are
/// UTF-8. Of other bytes nothing is claimed but that they determine the text.
#[verifier::external_body]
pub(crate) fn utf8_lossy(bytes: &Vec<u8>) -> (text: String)
    ensures
        text@ == utf8_lossy_text(bytes@),
        valid_utf8(bytes@) ==> text@ == decode_utf8(bytes@),
{
    String::from_utf8_lossy(bytes).into_owned()
}

/// The message of the error with which `String::from_utf8` refuses `bytes`.
pub uninterp spec fn utf8_error_text(bytes: Seq<u8>) -> Seq<char>;

/// `String::from_utf8`: the text that the bytes encode, if they are UTF-8. Of
/// the message that the error displays nothing is claimed but that the bytes
/// determine it.
#[verifier::external_body]
pub(crate) fn utf8_text(bytes: Vec<u8>) -> (text: Result<String, String>)
    ensures
        match text {
            Ok(t) => valid_utf8(bytes@) && t@ == decode_utf8(bytes@),
            Err(message) => !valid_utf8(bytes@) && message@ == utf8_error_text(bytes@),
        },
{
    String::from_utf8(bytes).map_err(|e| e.to_string())
}

/// A text is cut at its first `c` and nowhere else: what stands before holds no
/// `c`, and nothing is lost.
pub proof fn law_cut_at_the_first(s: Seq<char>, c: char)
    ensures
        match split_first(s, c) {
            Some((before, after)) => s == before + seq![c] + after && !before.contains(c),
            None => !s.contains(c),
        },
{
    if s.contains(c) {
        s.index_of_first_ensures(c);
        let i = s.index_of_first(c).unwrap();
        assert(s == s.take(i) + seq![c] + s.skip(i + 1));
    }
}

/// What stands around a `c` is found again, where there is no `c` before it.
pub proof fn law_cut_finds_both_sides(before: Seq<char>, c: char, after: Seq<char>)
    requires
        !before.contains(c),
    ensures
        split_first(before + seq![c] + after, c) == Some((before, after)),
{
    let whole = before + seq![c] + after;
    let n = before.len() as int;
    assert forall|j: int| 0 <= j < n implies whole[j] != c by {
        assert(before[j] == whole[j]);
    }
    lemma_first_index(whole, c, n);
    assert(whole.take(n) == before);
    assert(whole.skip(n + 1) == after);
}

proof fn lemma_trim_start_cuts(s: Seq<char>) -> (i: int)
    ensures
        0 <= i <= s.len(),
        trim_start(s) == s.skip(i),
        forall|k: int| 0 <= k < i ==> is_whitespace(#[trigger] s[k]),
        i < s.len() ==> !is_whitespace(s[i]),
    decreases s.len(),
{
    if s.len() > 0 && is_whitespace(s[0]) {
        let j = lemma_trim_start_cuts(s.drop_first());
        assert(s.drop_first().skip(j) == s.skip(j + 1));
        assert forall|k: int| 0 <= k < j + 1 implies is_whitespace(#[trigger] s[k]) by {
            if k > 0 {
                assert(s.drop_first()[k - 1] == s[k]);
            }
        }
        j + 1
    } else {
        assert(s.skip(0) == s);
        0
    }
}

proof fn lemma_trim_end_cuts(s: Seq<char>) -> (j: int)
    ensures
        0 <= j <= s.len(),
        trim_end(s) == s.take(j),
        forall|k: int| j <= k < s.len() ==> is_whitespace(#[trigger] s[k]),
        j > 0 ==> !is_whitespace(s[j - 1]),
    decreases s.len(),
{
    if s.len() > 0 && is_whitespace(s.last()) {
        let j = lemma_trim_end_cuts(s.drop_last());
        assert(s.drop_last().take(j) == s.take(j));
        assert forall|k: int| j <= k < s.len() implies is_whitespace(#[trigger] s[k]) by {
            if k < s.len() - 1 {
                assert(s.drop_last()[k] == s[k]);
            }
        }
        j
    } else {
        assert(s.take(s.len() as int) == s);
        s.len() as int
    }
}

/// Trimming takes whitespace away from both ends, all of it, and nothing else.
pub proof fn law_trimming_takes_the_ends(s: Seq<char>)
    ensures
        exists|i: int, j: int|
            {
                &&& 0 <= i <= j <= s.len()
                &&& trimmed(s) == #[trigger] s.subrange(i, j)
                &&& forall|k: int| 0 <= k < i ==> is_whitespace(#[trigger] s[k])
                &&& forall|k: int| j <= k < s.len() ==> is_whitespace(#[trigger] s[k])
            },
        trimmed(s).len() > 0 ==> !is_whitespace(trimmed(s)[0]) && !is_whitespace(
            trimmed(s).last(),
        ),
{
    let i = lemma_trim_start_cuts(s);
    let rest = s.skip(i);
    let n = lemma_trim_end_cuts(rest);
    let j = i + n;
    assert(rest.take(n) == s.subrange(i, j));
    assert forall|k: int| j <= k < s.len() implies is_whitespace(#[trigger] s[k]) by {
        assert(rest[k - i] == s[k]);
    }
    if n > 0 {
        assert(rest[0] == s[i]);
        assert(trimmed(s)[0] == rest[0]);
        assert(trimmed(s).last() == rest[n - 1]);
    }
}

/// A prefix is taken away as often as it is repeated, and is then no longer
/// there; what is left is the end of the text.
pub proof fn law_prefix_is_taken_away(s: Seq<char>, prefix: Seq<char>)
    requires
        prefix.len() > 0,
    ensures
        without_prefix(prefix + s, prefix) == without_prefix(s, prefix),
        !prefix.is_prefix_of(s) ==> without_prefix(s, prefix) == s,
        !prefix.is_prefix_of(without_prefix(s, prefix)),
        without_prefix(s, prefix).is_suffix_of(s),
    decreases s.len(),
{
    let n = prefix.len() as int;
    let longer = prefix + s;
    assert(longer.take(n) == prefix);
    assert(longer.skip(n) == s);
    if begins_with(s, prefix) {
        law_prefix_is_taken_away(s.skip(n), prefix);
        assert(prefix.is_prefix_of(s));
        let rest = without_prefix(s.skip(n), prefix);
        let m = rest.len() as int;
        assert(rest == s.skip(n).subrange(s.skip(n).len() - m, s.skip(n).len() as int));
        assert(rest == s.subrange(s.len() - m, s.len() as int));
    } else {
        if prefix.is_prefix_of(s) {
            assert(s.take(n) == prefix);
        }
        assert(s == s.subrange(0, s.len() as int));
    }
}

} // verus!
