//! The size of the terminal, in cells and in pixels.

use crate::number::{
    decimal, is_digit, law_decimal_reads_back, parse_u16, u16_error_text, unsigned_up_to,
};
use crate::text::{
    begins_with, chars_of, strip_prefix_all, utf8_error_text, utf8_text, without_prefix,
};
use vstd::prelude::*;
use vstd::string::*;
use vstd::utf8::{
    decode_utf8, encode_utf8, encode_utf8_decode_utf8, encode_utf8_valid_utf8, valid_utf8,
};

verus! {

/// Whether a field of a size report ends before `c`.
pub open spec fn is_field_end(c: char) -> bool {
    c == ';' || c == 't'
}

/// Where the first field of a size report ends.
pub open spec fn field_end(s: Seq<char>) -> int
    decreases s.len(),
{
    if s.len() == 0 || is_field_end(s[0]) {
        0
    } else {
        1 + field_end(s.drop_first())
    }
}

/// What a terminal says of its size in pixels.
pub enum SizeReport {
    /// The size
    Size { width: nat, height: nat },
    /// What is wrong with what it says
    Bad { message: Seq<char> },
}

/// What a terminal says of its size: `\x1b[4;<height>;<width>`, as far as the
/// final `t`.
pub open spec fn size_report(bytes: Seq<u8>) -> SizeReport {
    if !valid_utf8(bytes) {
        SizeReport::Bad {
            message:
                "The terminal responded to our request for its font size by providing non-utf8 data: "@
                + utf8_error_text(bytes),
        }
    } else {
        size_fields(without_prefix(without_prefix(decode_utf8(bytes), "\x1b[4"@), ";"@))
    }
}

/// The height and the width, with a `;` between them.
pub open spec fn size_fields(text: Seq<char>) -> SizeReport {
    if field_end(text) == text.len() {
        SizeReport::Bad {
            message: "Terminal responded with unparseable size response '"@ + text + "'"@,
        }
    } else {
        let height = text.take(field_end(text));
        let rest = text.skip(field_end(text) + 1);
        let width = rest.take(field_end(rest));
        match (unsigned_up_to(height, 0xffff), unsigned_up_to(width, 0xffff)) {
            (Some(h), Some(w)) => SizeReport::Size { width: w, height: h },
            (None, _) => SizeReport::Bad {
                message: "Your terminal said its height is "@ + height
                    + ", but that is not a 16-bit unsigned integer: "@ + u16_error_text(height),
            },
            (_, None) => SizeReport::Bad {
                message: "Your terminal said its width is "@ + width
                    + ", but that is not a 16-bit unsigned integer: "@ + u16_error_text(width),
            },
        }
    }
}

/// The first field of a size report, and what follows the character that ends
/// it.
fn split_field(s: &str) -> (parts: (&str, Option<&str>))
    ensures
        parts.0@ == s@.take(field_end(s@)),
        0 <= field_end(s@) <= s@.len(),
        match parts.1 {
            Some(rest) => field_end(s@) < s@.len() && rest@ == s@.skip(field_end(s@) + 1),
            None => field_end(s@) == s@.len(),
        },
{
    let chars = chars_of(s);
    let mut i: usize = 0;
    assert(s@.skip(0) == s@);
    while i < chars.len() && chars[i] != ';' && chars[i] != 't'
        invariant
            i <= chars.len(),
            chars@ == s@,
            field_end(s@) == i + field_end(s@.skip(i as int)),
        decreases chars.len() - i,
    {
        assert(s@.skip(i as int).drop_first() == s@.skip(i + 1));
        i = i + 1;
    }
    let field = s.substring_char(0, i);
    if i < chars.len() {
        (field, Some(s.substring_char(i + 1, chars.len())))
    } else {
        (field, None)
    }
}

/// Reads the height and the width of a size report, with a `;` between them.
fn parse_size_fields(text: &str) -> (size: Result<(u16, u16), String>)
    ensures
        match size_fields(text@) {
            SizeReport::Size { width, height } => size matches Ok(s) && s.0 == width && s.1
                == height,
            SizeReport::Bad { message } => size matches Err(m) && m@ == message,
        },
{
    let (height, rest) = split_field(text);
    let rest = match rest {
        Some(rest) => rest,
        None => return Err(
            "Terminal responded with unparseable size response '".to_owned().concat(text).concat(
                "'",
            ),
        ),
    };
    let (width, _) = split_field(rest);
    let h: u16 = match parse_u16(height) {
        Ok(h) => h,
        Err(e) => return Err(
            "Your terminal said its height is ".to_owned().concat(height).concat(
                ", but that is not a 16-bit unsigned integer: ",
            ).concat(e.as_str()),
        ),
    };
    let w: u16 = match parse_u16(width) {
        Ok(w) => w,
        Err(e) => return Err(
            "Your terminal said its width is ".to_owned().concat(width).concat(
                ", but that is not a 16-bit unsigned integer: ",
            ).concat(e.as_str()),
        ),
    };
    Ok((w, h))
}

/// Reads what a terminal said of its size in pixels, as far as the final `t`:
/// the width and the height.
pub fn parse_size_report(bytes: Vec<u8>) -> (size: Result<(u16, u16), String>)
    ensures
        match size_report(bytes@) {
            SizeReport::Size { width, height } => size matches Ok(s) && s.0 == width && s.1
                == height,
            SizeReport::Bad { message } => size matches Err(m) && m@ == message,
        },
{
    let text = match utf8_text(bytes) {
        Ok(text) => text,
        Err(e) => return Err(
            "The terminal responded to our request for its font size by providing non-utf8 data: ".to_owned().concat(
            e.as_str()),
        ),
    };
    proof {
        reveal_strlit("\x1b[4");
        reveal_strlit(";");
    }
    let body = strip_prefix_all(strip_prefix_all(text.as_str(), "\x1b[4"), ";");
    parse_size_fields(body)
}

/// The byte that ends a size report.
pub open spec fn report_end() -> u8 {
    0x74
}

/// A size report that comes in byte by byte.
pub struct SizeReply {
    /// What has come, as far as the end
    pub received: Vec<u8>,
    /// Whether the end has come
    pub ended: bool,
}

impl SizeReply {
    /// A report of which nothing has come.
    pub fn new() -> (reply: Self)
        ensures
            reply.received@ == Seq::<u8>::empty(),
            !reply.ended,
    {
        SizeReply { received: Vec::new(), ended: false }
    }

    /// Takes in the next byte. What comes after the end is ignored.
    pub fn put(&mut self, byte: u8)
        ensures
            final(self).ended == (old(self).ended || byte == report_end()),
            final(self).received@ == if final(self).ended {
                old(self).received@
            } else {
                old(self).received@.push(byte)
            },
    {
        if byte == 't' as u8 {
            self.ended = true;
        } else if !self.ended {
            self.received.push(byte);
        }
    }
}

/// The size of a terminal window.
#[derive(Debug, Clone, Copy)]
pub struct WindowSize {
    /// Its rows of cells
    pub rows: u16,
    /// Its columns of cells
    pub columns: u16,
    /// Its width in pixels
    pub width: u16,
    /// Its height in pixels
    pub height: u16,
}

impl WindowSize {
    /// Whether the size in pixels is missing, so that the terminal has to be
    /// asked for it.
    pub fn lacks_pixels(&self) -> (lacking: bool)
        ensures
            lacking == (self.width == 0 || self.height == 0),
    {
        self.width == 0 || self.height == 0
    }

    /// The same window with its size in pixels filled in.
    pub fn with_pixels(self, width: u16, height: u16) -> (size: WindowSize)
        ensures
            size == (WindowSize { rows: self.rows, columns: self.columns, width, height }),
    {
        WindowSize { rows: self.rows, columns: self.columns, width, height }
    }

    /// The width and the height of a cell in pixels, rounded down.
    pub fn cell(&self) -> (cell: (u16, u16))
        requires
            self.rows > 0,
            self.columns > 0,
        ensures
            cell.0 == self.width / self.columns,
            cell.1 == self.height / self.rows,
    {
        (self.width / self.columns, self.height / self.rows)
    }

    /// The font size to go by where the terminal tells none: that of a cell,
    /// if the window has a size at all.
    pub fn fallback_font_size(&self) -> (font: Option<(u16, u16)>)
        ensures
            match font {
                Some(f) => {
                    &&& self.width != 0 && self.height != 0 && self.columns != 0 && self.rows != 0
                    &&& f.0 == self.width / self.columns
                    &&& f.1 == self.height / self.rows
                },
                None => self.width == 0 || self.height == 0 || self.columns == 0 || self.rows == 0,
            },
    {
        if self.width != 0 && self.height != 0 && self.columns != 0 && self.rows != 0 {
            Some(self.cell())
        } else {
            None
        }
    }
}

proof fn lemma_digits_are_a_field(digits: Seq<char>, rest: Seq<char>)
    requires
        forall|i: int| 0 <= i < digits.len() ==> is_digit(#[trigger] digits[i]),
        rest.len() > 0 ==> is_field_end(rest[0]),
    ensures
        field_end(digits + rest) == digits.len(),
    decreases digits.len(),
{
    if digits.len() == 0 {
        assert(digits + rest == rest);
    } else {
        assert(is_digit(digits[0]));
        assert((digits + rest).drop_first() == digits.drop_first() + rest);
        assert forall|i: int| 0 <= i < digits.drop_first().len() implies is_digit(
            #[trigger] digits.drop_first()[i],
        ) by {
            assert(is_digit(digits[i + 1]));
        }
        lemma_digits_are_a_field(digits.drop_first(), rest);
    }
}

proof fn lemma_prefix_is_stripped(prefix: Seq<char>, rest: Seq<char>)
    requires
        prefix.len() > 0,
        rest.len() > 0,
        rest[0] != prefix[0],
    ensures
        without_prefix(prefix + rest, prefix) == rest,
{
    let s = prefix + rest;
    assert(s.take(prefix.len() as int) == prefix);
    assert(s.skip(prefix.len() as int) == rest);
    if begins_with(rest, prefix) {
        assert(rest.take(prefix.len() as int)[0] == prefix[0]);
    }
    assert(without_prefix(rest, prefix) == rest);
}

proof fn lemma_fields_are_read(width: u16, height: u16)
    ensures
        size_fields(decimal(height as nat) + seq![';'] + decimal(width as nat)) == (
        SizeReport::Size { width: width as nat, height: height as nat }),
{
    let h = decimal(height as nat);
    let w = decimal(width as nat);
    law_decimal_reads_back(height as nat);
    law_decimal_reads_back(width as nat);
    let body = h + seq![';'] + w;
    assert(body == h + (seq![';'] + w));
    lemma_digits_are_a_field(h, seq![';'] + w);
    assert(body.take(h.len() as int) == h);
    assert(body.skip(h.len() as int + 1) == w);
    assert(w == w + Seq::<char>::empty());
    lemma_digits_are_a_field(w, Seq::empty());
    assert(w.take(w.len() as int) == w);
}

/// A terminal that reports its size as it should is understood.
pub proof fn law_size_report_is_understood(width: u16, height: u16)
    ensures
        size_report(
            encode_utf8(
                "\x1b[4;"@ + decimal(height as nat) + seq![';'] + decimal(width as nat),
            ),
        ) == (SizeReport::Size { width: width as nat, height: height as nat }),
{
    broadcast use {encode_utf8_decode_utf8, encode_utf8_valid_utf8};

    reveal_strlit("\x1b[4");
    reveal_strlit(";");
    reveal_strlit("\x1b[4;");
    law_decimal_reads_back(height as nat);
    let fields = decimal(height as nat) + seq![';'] + decimal(width as nat);
    let text = "\x1b[4;"@ + decimal(height as nat) + seq![';'] + decimal(width as nat);
    assert(text == "\x1b[4"@ + (";"@ + fields));
    lemma_prefix_is_stripped("\x1b[4"@, ";"@ + fields);
    assert(is_digit(fields[0]));
    lemma_prefix_is_stripped(";"@, fields);
    lemma_fields_are_read(width, height);
}

proof fn lemma_field_ends(field: Seq<char>, rest: Seq<char>)
    requires
        !field.contains(';'),
        !field.contains('t'),
        rest.len() > 0 ==> rest[0] == ';' || rest[0] == 't',
    ensures
        field_end(field + rest) == field.len(),
    decreases field.len(),
{
    if field.len() == 0 {
        assert(field + rest == rest);
    } else {
        let tail = field.drop_first();
        assert((field + rest).drop_first() == tail + rest);
        assert(field[0] != ';' && field[0] != 't');
        assert forall|i: int| 0 <= i < tail.len() implies tail[i] != ';' && tail[i] != 't' by {
            assert(field[i + 1] == tail[i]);
        }
        lemma_field_ends(tail, rest);
    }
}

/// How a size report is read: after the introduction, however often it is
/// repeated, come the height and the width, in this order, with a `;` or a `t`
/// between them; what follows the width does not matter. What is no number of
/// sixteen bits is complained of, the height first, and so is a report of one
/// field.
pub proof fn law_size_report_is_read(
    bytes: Vec<u8>,
    size: Result<(u16, u16), String>,
    height: Seq<char>,
    separator: char,
    width: Seq<char>,
    rest: Seq<char>,
)
    requires
        call_ensures(parse_size_report, (bytes,), size),
        valid_utf8(bytes@),
        !height.contains(';'),
        !height.contains('t'),
        !width.contains(';'),
        !width.contains('t'),
        separator == ';' || separator == 't',
        rest.len() > 0 ==> rest[0] == ';' || rest[0] == 't',
    ensures
        ({
            let body = without_prefix(without_prefix(decode_utf8(bytes@), "\x1b[4"@), ";"@);
            let h = unsigned_up_to(height, 0xffff);
            let w = unsigned_up_to(width, 0xffff);
            &&& body == height + seq![separator] + width + rest ==> {
                &&& size is Ok <==> h is Some && w is Some
                &&& size is Ok ==> size->Ok_0.0 == w->0 && size->Ok_0.1 == h->0
                &&& h is None ==> size->Err_0@ == "Your terminal said its height is "@ + height
                    + ", but that is not a 16-bit unsigned integer: "@ + u16_error_text(height)
                &&& h is Some && w is None ==> size->Err_0@ == "Your terminal said its width is "@
                    + width + ", but that is not a 16-bit unsigned integer: "@ + u16_error_text(
                    width,
                )
            }
            &&& body == height ==> size is Err && size->Err_0@
                == "Terminal responded with unparseable size response '"@ + height + "'"@
        }),
{
    let after = width + rest;
    let text = height + (seq![separator] + after);
    assert(height + seq![separator] + width + rest == text);
    lemma_field_ends(height, seq![separator] + after);
    lemma_field_ends(width, rest);
    let n = height.len() as int;
    assert(text.take(n) == height);
    assert(text.skip(n + 1) == after);
    assert(after.take(width.len() as int) == width);
    assert(height + Seq::<char>::empty() == height);
    lemma_field_ends(height, Seq::empty());
}

/// A report that is no text is refused with what is wrong with it.
pub proof fn law_report_has_to_be_text(bytes: Vec<u8>, size: Result<(u16, u16), String>)
    requires
        call_ensures(parse_size_report, (bytes,), size),
        !valid_utf8(bytes@),
    ensures
        size is Err,
        size->Err_0@
            == "The terminal responded to our request for its font size by providing non-utf8 data: "@
            + utf8_error_text(bytes@),
{
}

/// A cell is as wide and as high as fits the window, so many times beside and
/// above each other, and no pixel more would fit.
pub proof fn law_cells_fill_the_window(window: &WindowSize, cell: (u16, u16))
    requires
        call_ensures(WindowSize::cell, (window,), cell),
        window.rows > 0,
        window.columns > 0,
    ensures
        cell.0 * window.columns <= window.width < (cell.0 + 1) * window.columns,
        cell.1 * window.rows <= window.height < (cell.1 + 1) * window.rows,
{
    let (w, c) = (window.width as int, window.columns as int);
    let (h, r) = (window.height as int, window.rows as int);
    assert((w / c) * c <= w < (w / c + 1) * c) by (nonlinear_arith)
        requires
            c > 0,
            w >= 0,
    ;
    assert((h / r) * r <= h < (h / r + 1) * r) by (nonlinear_arith)
        requires
            r > 0,
            h >= 0,
    ;
}

/// The terminal is asked for its size in pixels where one of them is missing,
/// and what it answers takes their place, the cells staying as they are. There
/// is a font size to fall back on exactly where nothing is missing: that of a
/// cell.
pub proof fn law_missing_pixels_are_filled_in(
    window: WindowSize,
    lacking: bool,
    width: u16,
    height: u16,
    filled: WindowSize,
    font: Option<(u16, u16)>,
    cell: (u16, u16),
)
    requires
        call_ensures(WindowSize::lacks_pixels, (&window,), lacking),
        call_ensures(WindowSize::with_pixels, (window, width, height), filled),
        call_ensures(WindowSize::fallback_font_size, (&window,), font),
        window.rows > 0 && window.columns > 0 ==> call_ensures(
            WindowSize::cell,
            (&window,),
            cell,
        ),
    ensures
        lacking <==> window.width == 0 || window.height == 0,
        filled.width == width && filled.height == height,
        filled.rows == window.rows && filled.columns == window.columns,
        font is Some <==> !lacking && window.rows > 0 && window.columns > 0,
        font is Some ==> font->0 == cell,
{
}

/// A report is gathered byte by byte, each in its turn, until a `t` comes;
/// nothing that comes after it is taken in.
pub proof fn law_report_is_gathered(reply: &mut SizeReply, byte: u8)
    requires
        call_ensures(SizeReply::put, (reply, byte), ()),
    ensures
        final(reply).ended <==> old(reply).ended || byte == 't' as u8,
        old(reply).ended || byte == 't' as u8 ==> final(reply).received@ == old(reply).received@,
        !old(reply).ended && byte != 't' as u8 ==> final(reply).received@
            == old(reply).received@.push(byte),
{
}

} // verus!
