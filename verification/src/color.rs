//! Colors on the command line, in CSS notation.

use crate::number::{hex, hex_char, law_hex_is_plain};
use vstd::prelude::*;
use vstd::string::*;

verus! {

/// A color as one number: the blue byte lowest, green above it, red above
/// that, and nothing on top.
pub open spec fn packed(red: u8, green: u8, blue: u8) -> int {
    red * 0x1_0000 + green * 0x100 + blue
}

/// The color of red, green, blue and alpha bytes as one number; the alpha
/// byte is dropped.
pub fn pack_rgb(rgba: [u8; 4]) -> (color: i32)
    ensures
        color == packed(rgba[0], rgba[1], rgba[2]),
        0 <= color <= 0xff_ffff,
{
    (rgba[0] as i32) * 0x1_0000 + (rgba[1] as i32) * 0x100 + (rgba[2] as i32)
}

/// `c` with an ASCII capital letter made small.
pub open spec fn lower(c: char) -> char {
    if 'A' <= c <= 'Z' {
        (c as int + 32) as char
    } else {
        c
    }
}

/// Whether `word`, in small letters, occurs somewhere in `text`.
pub open spec fn mentions(text: Seq<char>, word: Seq<char>) -> bool {
    exists|i: int|
        0 <= i && i + word.len() <= text.len() && (#[trigger] text.subrange(
            i,
            i + word.len(),
        )).map_values(|c: char| lower(c)) == word
}

/// Whether `text` mentions an angle in radians, `rad` that is no part of
/// `grad`.
pub open spec fn mentions_radians(text: Seq<char>) -> bool {
    exists|i: int|
        0 <= i && i + 3 <= text.len() && (#[trigger] text.subrange(i, i + 3)).map_values(
            |c: char| lower(c),
        ) == "rad"@ && !(i > 0 && lower(text[i - 1]) == 'g')
}

/// Whether a notation keeps clear of what takes roots, powers and angles to
/// convert: `lab()`, `lch()`, `oklab()`, `oklch()`, the spaces of `color()`
/// other than `srgb`, and radians.
pub open spec fn plain_notation(text: Seq<char>) -> bool {
    &&& !mentions(text, "lab"@)
    &&& !mentions(text, "lch"@)
    &&& !mentions(text, "srgb-linear"@)
    &&& !mentions(text, "xyz"@)
    &&& !mentions_radians(text)
}

/// The number that a hexadecimal digit stands for.
pub open spec fn hex_value(c: char) -> Option<int> {
    if '0' <= c <= '9' {
        Some(c as int - '0' as int)
    } else if 'a' <= c <= 'f' {
        Some(c as int - 'a' as int + 10)
    } else if 'A' <= c <= 'F' {
        Some(c as int - 'A' as int + 10)
    } else {
        None
    }
}

/// The byte that two hexadecimal digits stand for.
pub open spec fn hex_byte(high: char, low: char) -> u8 {
    (hex_value(high).unwrap() * 16 + hex_value(low).unwrap()) as u8
}

/// Red, green and blue of a color of six hexadecimal digits, which a `#` may
/// precede.
pub open spec fn hex_color(text: Seq<char>) -> Option<(u8, u8, u8)> {
    let digits = if text.len() > 0 && text[0] == '#' {
        text.drop_first()
    } else {
        text
    };
    if digits.len() == 6 && forall|i: int| 0 <= i < 6 ==> hex_value(#[trigger] digits[i]) is Some {
        Some(
            (
                hex_byte(digits[0], digits[1]),
                hex_byte(digits[2], digits[3]),
                hex_byte(digits[4], digits[5]),
            ),
        )
    } else {
        None
    }
}

/// Red, green, blue and alpha of a color in CSS notation, or what is wrong
/// with the notation.
pub uninterp spec fn css_color(text: Seq<char>) -> Result<(u8, u8, u8, u8), Seq<char>>;

/// `csscolorparser::parse`, and of the color that it gives `Color::to_rgba8`;
/// of its error what it displays.
///
/// Six hexadecimal digits, with or without `#`, give the bytes they spell and
/// full alpha. The text determines every other color too, in the notations
/// that the crate converts with plain arithmetic. For those that take roots,
/// powers and angles the last bit may depend on the machine, and nothing is
/// claimed of them. The crate counts open parentheses in 32 bits.
#[verifier::external_body]
fn css_rgba8(text: &str) -> (color: Result<[u8; 4], String>)
    requires
        text@.len() <= i32::MAX,
    ensures
        plain_notation(text@) ==> match color {
            Ok(c) => css_color(text@) matches Ok(named) && named == (c[0], c[1], c[2], c[3]),
            Err(message) => css_color(text@) matches Err(why) && why == message@,
        },
        match hex_color(text@) {
            Some((red, green, blue)) => color matches Ok(c) && c[0] == red && c[1] == green && c[2]
                == blue && c[3] == 0xff,
            None => true,
        },
{
    csscolorparser::parse(text).map(|c| c.to_rgba8()).map_err(|e| e.to_string())
}

/// The color written in `text` as one number, or what is wrong with the
/// notation.
pub open spec fn css_number(text: Seq<char>) -> Result<int, Seq<char>> {
    match css_color(text) {
        Ok((red, green, blue, _)) => Ok(packed(red, green, blue)),
        Err(why) => Err(why),
    }
}

/// Whether `outcome` is what the parser of colors made of `text`.
pub closed spec fn parsed_as(text: &str, outcome: Result<[u8; 4], String>) -> bool {
    call_ensures(css_rgba8, (text,), outcome)
}

/// The color of what the parser of colors came to, as one number: its red,
/// green and blue, or its error as it is.
pub fn color_of(outcome: Result<[u8; 4], String>) -> (color: Result<i32, String>)
    ensures
        match outcome {
            Ok(rgba) => color matches Ok(c) && c == packed(rgba[0], rgba[1], rgba[2]) && 0 <= c
                <= 0xff_ffff,
            Err(message) => color == Err::<i32, String>(message),
        },
{
    match outcome {
        Ok(rgba) => Ok(pack_rgb(rgba)),
        Err(message) => Err(message),
    }
}

/// What `parse` makes of `text`.
fn outcome_of<F: Fn(&str) -> Result<[u8; 4], String>>(text: &str, parse: F) -> (outcome: Result<
    [u8; 4],
    String,
>)
    requires
        call_requires(parse, (text,)),
    ensures
        call_ensures(parse, (text,), outcome),
{
    parse(text)
}

/// Reads a color in CSS notation (e.g. "FFFFFF" or "rgb(255, 255, 255)").
pub fn parse_color_to_i32(cs: &str) -> (color: Result<i32, String>)
    requires
        cs@.len() <= i32::MAX,
    ensures
        exists|outcome: Result<[u8; 4], String>|
            {
                &&& #[trigger] parsed_as(cs, outcome)
                &&& match outcome {
                    Ok(rgba) => color matches Ok(c) && c == packed(rgba[0], rgba[1], rgba[2]),
                    Err(message) => color == Err::<i32, String>(message),
                }
            },
        plain_notation(cs@) ==> match color {
            Ok(c) => css_number(cs@) == Ok::<int, Seq<char>>(c as int),
            Err(message) => css_number(cs@) == Err::<int, Seq<char>>(message@),
        },
        hex_color(cs@) matches Some((red, green, blue)) ==> (color matches Ok(c) && c == packed(
            red,
            green,
            blue,
        )),
        color matches Ok(c) ==> 0 <= c <= 0xff_ffff,
{
    let outcome = outcome_of(cs, css_rgba8);
    assert(parsed_as(cs, outcome));
    color_of(outcome)
}

/// A text in quotes, with escapes for what does not print.
pub uninterp spec fn quoted_text(text: Seq<char>) -> Seq<char>;

/// Whether a character needs no escape between quotes.
pub open spec fn needs_no_escape(c: char) -> bool {
    ' ' <= c <= '~' && c != '"' && c != '\'' && c != '\\'
}

/// The `Debug` form of a text: the text in quotes, where no character of it
/// needs an escape. Of other texts nothing is claimed but that they determine
/// it.
#[verifier::external_body]
fn quoted(text: &str) -> (quote: String)
    ensures
        quote@ == quoted_text(text@),
        (forall|i: int| 0 <= i < text@.len() ==> needs_no_escape(#[trigger] text@[i])) ==> quote@
            == seq!['"'] + text@ + seq!['"'],
{
    format!("{text:?}")
}

/// What the user is told of a color that could not be read.
pub open spec fn color_complaint(which: Seq<char>, text: Seq<char>, why: Seq<char>) -> Seq<char> {
    "Couldn't parse "@ + which + " color "@ + quoted_text(text) + ": "@ + why
        + " - is it formatted like a CSS color?"@
}

/// The color that an option gives, `default` where the option is not there.
/// `which` color it is, a complaint says.
pub fn color_or(option: Option<&str>, default: i32, which: &str) -> (color: Result<i32, String>)
    requires
        option matches Some(cs) ==> cs@.len() <= i32::MAX,
    ensures
        match option {
            Some(cs) => {
                &&& plain_notation(cs@) ==> match css_number(cs@) {
                    Ok(n) => color matches Ok(c) && c == n,
                    Err(why) => color matches Err(m) && m@ == color_complaint(which@, cs@, why),
                }
                &&& hex_color(cs@) matches Some((red, green, blue)) ==> (color matches Ok(c) && c
                    == packed(red, green, blue))
                &&& color matches Ok(c) ==> 0 <= c <= 0xff_ffff
                &&& exists|outcome: Result<[u8; 4], String>|
                    {
                        &&& #[trigger] parsed_as(cs, outcome)
                        &&& match outcome {
                            Ok(rgba) => color matches Ok(c) && c == packed(
                                rgba[0],
                                rgba[1],
                                rgba[2],
                            ),
                            Err(why) => color matches Err(m) && m@ == color_complaint(
                                which@,
                                cs@,
                                why@,
                            ),
                        }
                    }
            },
            None => color == Ok::<i32, String>(default),
        },
{
    match option {
        Some(cs) => match parse_color_to_i32(cs) {
            Ok(c) => Ok(c),
            Err(why) => {
                let message = "Couldn't parse ".to_owned().concat(which).concat(" color ").concat(
                    quoted(cs).as_str(),
                ).concat(": ").concat(why.as_str()).concat(
                    " - is it formatted like a CSS color?",
                );
                assert(message@ == color_complaint(which@, cs@, why@));
                Err(message)
            },
        },
        None => Ok(default),
    }
}

/// The six hexadecimal digits of a number are the color of that number.
pub proof fn law_hex_color_is_its_number(n: nat)
    requires
        n <= 0xff_ffff,
    ensures
        hex_color(hex(n, 6)) matches Some((red, green, blue)) && packed(red, green, blue) == n,
{
    reveal_with_fuel(hex, 7);
    let d = hex(n, 6);
    assert(d.len() == 6);
    assert(forall|i: nat| i < 16 ==> hex_value(#[trigger] hex_char(i)) == Some(i as int));
    assert(d[5] == hex_char(n % 16));
    assert(d[4] == hex_char(n / 16 % 16));
    assert(d[3] == hex_char(n / 16 / 16 % 16));
    assert(d[2] == hex_char(n / 16 / 16 / 16 % 16));
    assert(d[1] == hex_char(n / 16 / 16 / 16 / 16 % 16));
    assert(d[0] == hex_char(n / 16 / 16 / 16 / 16 / 16 % 16));
    assert(hex_value(d[0]) is Some);
}

/// Red, green and blue can be told from the number of a color, each from its
/// own byte; alpha leaves no trace.
pub proof fn law_color_keeps_its_parts(rgba: [u8; 4], color: i32)
    requires
        call_ensures(pack_rgb, (rgba,), color),
    ensures
        0 <= color <= 0xff_ffff,
        color / 0x1_0000 == rgba[0],
        color / 0x100 % 0x100 == rgba[1],
        color % 0x100 == rgba[2],
{
}

/// What the parser of colors came to is passed on: a color by its parts, an
/// error as it is.
pub proof fn law_outcome_is_passed_on(
    outcome: Result<[u8; 4], String>,
    color: Result<i32, String>,
)
    requires
        call_ensures(color_of, (outcome,), color),
    ensures
        outcome is Ok <==> color is Ok,
        color is Ok ==> {
            &&& 0 <= color->Ok_0 <= 0xff_ffff
            &&& color->Ok_0 / 0x1_0000 == outcome->Ok_0[0]
            &&& color->Ok_0 / 0x100 % 0x100 == outcome->Ok_0[1]
            &&& color->Ok_0 % 0x100 == outcome->Ok_0[2]
        },
        outcome is Err ==> color->Err_0@ == outcome->Err_0@,
{
}

/// A color that is read has the parts that the parser found in the very text
/// that was given, and is refused exactly where the parser refuses it.
pub proof fn law_color_is_what_the_parser_found(cs: &str, color: Result<i32, String>)
    requires
        call_ensures(parse_color_to_i32, (cs,), color),
    ensures
        exists|outcome: Result<[u8; 4], String>|
            {
                &&& #[trigger] parsed_as(cs, outcome)
                &&& outcome is Ok <==> color is Ok
                &&& color is Ok ==> {
                    &&& color->Ok_0 / 0x1_0000 == outcome->Ok_0[0]
                    &&& color->Ok_0 / 0x100 % 0x100 == outcome->Ok_0[1]
                    &&& color->Ok_0 % 0x100 == outcome->Ok_0[2]
                }
                &&& outcome is Err ==> color->Err_0@ == outcome->Err_0@
            },
{
}

proof fn lemma_hex_digit_has_a_value(n: nat, width: nat, i: int)
    requires
        0 <= i < width,
    ensures
        hex(n, width).len() == width,
        hex_value(hex(n, width)[i]) is Some,
    decreases width,
{
    law_hex_is_plain(n, width);
    if i < width - 1 {
        lemma_hex_digit_has_a_value(n / 16, (width - 1) as nat, i);
        assert(hex(n, width).drop_last()[i] == hex(n, width)[i]);
    } else {
        assert(hex_value(hex_char(n % 16)) is Some);
    }
}

/// Six hexadecimal digits, with `#` or without, are read as the number that
/// they spell.
pub proof fn law_hex_digits_are_read(cs: &str, color: Result<i32, String>, n: nat)
    requires
        call_ensures(parse_color_to_i32, (cs,), color),
        n <= 0xff_ffff,
        cs@ == hex(n, 6) || cs@ == seq!['#'] + hex(n, 6),
    ensures
        color is Ok,
        color->Ok_0 == n,
{
    law_hex_color_is_its_number(n);
    law_hex_is_plain(n, 6);
    let d = hex(n, 6);
    let marked = seq!['#'] + d;
    assert(marked.drop_first() == d);
    assert(d[0] != '#') by {
        if d[0] == '#' {
            assert(d.drop_first().len() == 5);
        }
    }
    assert forall|i: int| 0 <= i < 6 implies hex_value(#[trigger] marked.drop_first()[i])
        is Some by {
        lemma_hex_digit_has_a_value(n, 6, i);
    }
    assert(hex_color(marked) == hex_color(d));
}

/// An option that is not there leaves the default, and one that is there gives
/// the color that it spells, or a complaint with the color, the text and what
/// is wrong with it.
pub proof fn law_color_option_is_read(
    option: Option<&str>,
    default: i32,
    which: &str,
    color: Result<i32, String>,
)
    requires
        call_ensures(color_or, (option, default, which), color),
    ensures
        option is None ==> color is Ok && color->Ok_0 == default,
        option is Some ==> exists|outcome: Result<[u8; 4], String>|
            {
                &&& #[trigger] parsed_as(option->0, outcome)
                &&& outcome is Ok <==> color is Ok
                &&& color is Ok ==> {
                    &&& color->Ok_0 / 0x1_0000 == outcome->Ok_0[0]
                    &&& color->Ok_0 / 0x100 % 0x100 == outcome->Ok_0[1]
                    &&& color->Ok_0 % 0x100 == outcome->Ok_0[2]
                }
                &&& outcome is Err ==> color->Err_0@ == "Couldn't parse "@ + which@ + " color "@
                    + quoted_text(option->0@) + ": "@ + outcome->Err_0@
                    + " - is it formatted like a CSS color?"@
            },
{
}

} // verus!
