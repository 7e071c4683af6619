//! SyncTeX lookups in both directions: what is asked of the `synctex`
//! command, and how its answers are read.

use crate::number::{
    decimal, is_digit, law_decimal_reads_back, law_signed_decimal_reads_back, parse_i32,
    parse_usize, signed_decimal, signed_literal, to_decimal, unsigned_literal, unsigned_up_to,
};
use crate::options::{law_position_with_column_reads_back, position, Position};
use crate::paths::{
    dot, dotted, ends_in_name, entry_of, joined, lemma_no_components, parent_bytes, path_buf_bytes,
    path_bytes, path_is_relative, path_join, path_lossy, path_lossy_text, path_of, path_parent,
    path_parts, path_str, path_text, path_with_extension, relative, separator, undotted_name,
    with_extension_bytes,
};
use crate::records::{
    answer_of, find_last, fits_a_line, is_last, lacks, last_value, law_further_record_decides,
    law_last_record_decides, law_records_read_back, record_views, records, result_records,
};
use crate::text::{law_cut_finds_both_sides, split_first, utf8_lossy, utf8_lossy_text};
use std::path::{Path, PathBuf};
use vstd::prelude::*;
use vstd::string::*;
use vstd::utf8::{decode_utf8, encode_utf8, encode_utf8_decode_utf8, valid_utf8};

verus! {

/// Result of a forward SyncTeX lookup (source to PDF position). The
/// coordinates are of whatever type the caller reads numbers into.
#[derive(Debug)]
pub struct ForwardResult<T> {
    /// 0-based page number
    pub page: usize,
    /// x coordinate in PDF points (from top-left)
    pub x: T,
    /// y coordinate in PDF points (from top-left)
    pub y: T,
    /// horizontal origin of enclosing box
    pub h: T,
    /// vertical origin of enclosing box
    pub v: T,
    /// width of enclosing box
    pub width: T,
    /// height of enclosing box
    pub height: T,
}

/// Result of an inverse SyncTeX lookup (PDF position to source).
#[derive(Debug)]
pub struct InverseResult {
    /// The source file
    pub input: String,
    /// The line in it
    pub line: usize,
    /// The column in the line, -1 where the command gave none
    pub column: i32,
}

/// What can go wrong in a lookup.
#[derive(Debug)]
pub enum SyncTexError {
    /// The synctex CLI binary was not found
    NotFound,
    /// The synctex command failed
    CommandFailed(String),
    /// Could not parse the output
    ParseError(String),
    /// No .synctex.gz file found
    NoSyncTexFile,
}

/// Whether `e` says that an answer could not be parsed, for the reason `why`.
pub open spec fn is_parse_error(e: SyncTexError, why: Seq<char>) -> bool {
    e matches SyncTexError::ParseError(m) && m@ == why
}

/// The 0-based page in an answer to a forward lookup. The command counts
/// pages from one; page zero stays zero.
pub open spec fn forward_page(output: Seq<char>) -> Option<usize> {
    match last_value(records(output), "Page"@) {
        Some(text) => match unsigned_up_to(text, usize::MAX as nat) {
            Some(n) => Some(
                if n == 0 {
                    0
                } else {
                    (n - 1) as usize
                },
            ),
            None => None,
        },
        None => None,
    }
}

/// Whether `value` is what `number` made of the last record under `key`,
/// nothing where there is no such record.
pub open spec fn read_by<T, F: Fn(&str) -> Option<T>>(
    number: F,
    records: Seq<(Seq<char>, Seq<char>)>,
    key: Seq<char>,
    value: Option<T>,
) -> bool {
    match last_value(records, key) {
        Some(text) => exists|s: &str| s@ == text && #[trigger] call_ensures(number, (s,), value),
        None => value is None,
    }
}

/// The result that all seven fields of an answer make, or the error where one
/// of them is missing.
pub open spec fn is_forward_result<T>(
    result: Result<ForwardResult<T>, SyncTexError>,
    page: Option<usize>,
    x: Option<T>,
    y: Option<T>,
    h: Option<T>,
    v: Option<T>,
    width: Option<T>,
    height: Option<T>,
) -> bool {
    if page is Some && x is Some && y is Some && h is Some && v is Some && width is Some
        && height is Some {
        result == Ok::<ForwardResult<T>, SyncTexError>(
            ForwardResult {
                page: page->0,
                x: x->0,
                y: y->0,
                h: h->0,
                v: v->0,
                width: width->0,
                height: height->0,
            },
        )
    } else {
        result matches Err(e) && is_parse_error(
            e,
            "missing required fields in synctex view output"@,
        )
    }
}

/// The result that the fields of an answer make.
pub fn forward_result<T>(
    page: Option<usize>,
    x: Option<T>,
    y: Option<T>,
    h: Option<T>,
    v: Option<T>,
    width: Option<T>,
    height: Option<T>,
) -> (result: Result<ForwardResult<T>, SyncTexError>)
    ensures
        is_forward_result(result, page, x, y, h, v, width, height),
{
    match (page, x, y, h, v, width, height) {
        (Some(page), Some(x), Some(y), Some(h), Some(v), Some(width), Some(height)) => Ok(
            ForwardResult { page, x, y, h, v, width, height },
        ),
        _ => Err(
            SyncTexError::ParseError(
                "missing required fields in synctex view output".to_owned(),
            ),
        ),
    }
}

/// Whether `result` is what the answer `output` to a forward lookup says, its
/// coordinates read with `number`.
pub open spec fn is_forward_answer<T, F: Fn(&str) -> Option<T>>(
    result: Result<ForwardResult<T>, SyncTexError>,
    output: Seq<char>,
    number: F,
) -> bool {
    exists|
        x: Option<T>,
        y: Option<T>,
        h: Option<T>,
        v: Option<T>,
        width: Option<T>,
        height: Option<T>,
    |
        {
            &&& #[trigger] read_by(number, records(output), "x"@, x)
            &&& #[trigger] read_by(number, records(output), "y"@, y)
            &&& #[trigger] read_by(number, records(output), "h"@, h)
            &&& #[trigger] read_by(number, records(output), "v"@, v)
            &&& #[trigger] read_by(number, records(output), "W"@, width)
            &&& #[trigger] read_by(number, records(output), "H"@, height)
            &&& is_forward_result(result, forward_page(output), x, y, h, v, width, height)
        }
}

/// What `number` makes of the last record under `key`.
fn read_number<T, F: Fn(&str) -> Option<T>>(
    found: &Vec<(&str, &str)>,
    key: &str,
    number: &F,
) -> (value: Option<T>)
    requires
        forall|s: &str| call_requires(*number, (s,)),
    ensures
        read_by(*number, record_views(found@), key@, value),
{
    match find_last(found, key) {
        Some(text) => {
            let value = number(text);
            assert(call_ensures(*number, (text,), value));
            value
        },
        None => None,
    }
}

/// Reads the answer to a forward lookup, its coordinates with `number`.
pub fn parse_forward_output<T, F: Fn(&str) -> Option<T>>(output: &str, number: &F) -> (result:
    Result<ForwardResult<T>, SyncTexError>)
    requires
        forall|s: &str| call_requires(*number, (s,)),
    ensures
        is_forward_answer(result, output@, *number),
{
    let found = result_records(output);
    let page = match find_last(&found, "Page") {
        Some(value) => match parse_usize(value) {
            Ok(n) => Some(n.saturating_sub(1)),
            Err(_) => None,
        },
        None => None,
    };
    let x = read_number(&found, "x", number);
    let y = read_number(&found, "y", number);
    let h = read_number(&found, "h", number);
    let v = read_number(&found, "v", number);
    let width = read_number(&found, "W", number);
    let height = read_number(&found, "H", number);
    forward_result(page, x, y, h, v, width, height)
}

/// The line in an answer to an inverse lookup.
pub open spec fn inverse_line(output: Seq<char>) -> Option<nat> {
    match last_value(records(output), "Line"@) {
        Some(text) => unsigned_up_to(text, usize::MAX as nat),
        None => None,
    }
}

/// The column in an answer to an inverse lookup, -1 where it is missing or
/// no number.
pub open spec fn inverse_column(output: Seq<char>) -> int {
    match last_value(records(output), "Column"@) {
        Some(text) => match signed_literal(text) {
            Some(n) => if i32::MIN <= n <= i32::MAX {
                n
            } else {
                -1
            },
            None => -1,
        },
        None => -1,
    }
}

/// Whether `result` is what the answer `output` to an inverse lookup says.
pub open spec fn is_inverse_answer(
    result: Result<InverseResult, SyncTexError>,
    output: Seq<char>,
) -> bool {
    match (last_value(records(output), "Input"@), inverse_line(output)) {
        (Some(input), Some(line)) => result matches Ok(r) && r.input@ == input && r.line == line
            && r.column == inverse_column(output),
        _ => result matches Err(e) && is_parse_error(
            e,
            "missing required fields in synctex edit output"@,
        ),
    }
}

/// Reads the answer to an inverse lookup.
pub fn parse_inverse_output(output: &str) -> (result: Result<InverseResult, SyncTexError>)
    ensures
        is_inverse_answer(result, output@),
{
    let found = result_records(output);
    let input = find_last(&found, "Input");
    let line = match find_last(&found, "Line") {
        Some(value) => match parse_usize(value) {
            Ok(n) => Some(n),
            Err(_) => None,
        },
        None => None,
    };
    let column = match find_last(&found, "Column") {
        Some(value) => match parse_i32(value) {
            Some(n) => n,
            None => -1,
        },
        None => -1,
    };
    match (input, line) {
        (Some(input), Some(line)) => Ok(InverseResult { input: input.to_owned(), line, column }),
        _ => Err(
            SyncTexError::ParseError(
                "missing required fields in synctex edit output".to_owned(),
            ),
        ),
    }
}

/// What an error says to the user.
pub open spec fn error_text(e: SyncTexError) -> Seq<char> {
    match e {
        SyncTexError::NotFound => "synctex command not found"@,
        SyncTexError::CommandFailed(m) => "synctex command failed: "@ + m@,
        SyncTexError::ParseError(m) => "could not parse synctex output: "@ + m@,
        SyncTexError::NoSyncTexFile => "no .synctex.gz file found for this PDF"@,
    }
}

impl SyncTexError {
    /// What the error says to the user.
    pub fn message(&self) -> (text: String)
        ensures
            text@ == error_text(*self),
    {
        match self {
            SyncTexError::NotFound => "synctex command not found".to_owned(),
            SyncTexError::CommandFailed(m) => "synctex command failed: ".to_owned().concat(
                m.as_str(),
            ),
            SyncTexError::ParseError(m) => "could not parse synctex output: ".to_owned().concat(
                m.as_str(),
            ),
            SyncTexError::NoSyncTexFile => "no .synctex.gz file found for this PDF".to_owned(),
        }
    }
}

/// What a command left behind when it ended.
pub struct CommandOutput {
    /// Whether it ended with success
    pub success: bool,
    /// What it wrote to its standard output
    pub stdout: Vec<u8>,
    /// What it wrote to its standard error
    pub stderr: Vec<u8>,
}

/// Why a command could not be run.
pub enum RunError {
    /// There is no such program
    NotFound,
    /// Anything else, in the words of the system
    Other(String),
}

/// What a command answered, if it ran and ended with success.
pub open spec fn answer_text(outcome: Result<CommandOutput, RunError>) -> Option<Seq<char>> {
    match outcome {
        Ok(output) => if output.success {
            Some(utf8_lossy_text(output.stdout@))
        } else {
            None
        },
        Err(_) => None,
    }
}

/// Whether `e` says why a command gave no answer: its program is missing, it
/// could not be run, or it failed with these words.
pub open spec fn is_command_error(
    e: SyncTexError,
    outcome: Result<CommandOutput, RunError>,
) -> bool {
    match outcome {
        Ok(output) => e matches SyncTexError::CommandFailed(m) && m@ == utf8_lossy_text(
            output.stderr@,
        ),
        Err(RunError::NotFound) => e is NotFound,
        Err(RunError::Other(why)) => e matches SyncTexError::CommandFailed(m) && m@ == why@,
    }
}

/// What a command answered.
pub fn command_answer(outcome: Result<CommandOutput, RunError>) -> (answer: Result<
    String,
    SyncTexError,
>)
    ensures
        match answer {
            Ok(text) => answer_text(outcome) == Some(text@),
            Err(e) => answer_text(outcome) is None && is_command_error(e, outcome),
        },
{
    match outcome {
        Ok(output) => if output.success {
            Ok(utf8_lossy(&output.stdout))
        } else {
            Err(SyncTexError::CommandFailed(utf8_lossy(&output.stderr)))
        },
        Err(RunError::NotFound) => Err(SyncTexError::NotFound),
        Err(RunError::Other(why)) => Err(SyncTexError::CommandFailed(why)),
    }
}

/// What the arguments of a command say.
pub open spec fn argument_views(arguments: Seq<String>) -> Seq<Seq<char>> {
    arguments.map_values(|a: String| a@)
}

/// The arguments of a forward lookup.
pub open spec fn forward_arguments(
    line: nat,
    column: nat,
    input_file: Seq<char>,
    pdf: Seq<char>,
) -> Seq<Seq<char>> {
    seq![
        "view"@,
        "-i"@,
        decimal(line) + ":"@ + decimal(column) + ":"@ + input_file,
        "-o"@,
        pdf,
    ]
}

/// The arguments of an inverse lookup.
pub open spec fn inverse_arguments(
    page: nat,
    x: Seq<char>,
    y: Seq<char>,
    pdf: Seq<char>,
) -> Seq<Seq<char>> {
    seq!["edit"@, "-o"@, decimal(page) + ":"@ + x + ":"@ + y + ":"@ + pdf]
}

/// The arguments with which to ask the command where a source line is in the
/// PDF.
pub fn forward_query(line: usize, column: usize, input_file: &str, pdf_path: &Path) -> (query:
    Result<Vec<String>, SyncTexError>)
    ensures
        match path_text(path_bytes(pdf_path)) {
            Some(pdf) => query matches Ok(arguments) && argument_views(arguments@)
                == forward_arguments(line as nat, column as nat, input_file@, pdf),
            None => query matches Err(e) && is_parse_error(e, "PDF path is not valid UTF-8"@),
        },
{
    let input = to_decimal(line as u64).concat(":").concat(to_decimal(column as u64).as_str()).concat(
        ":",
    ).concat(input_file);
    match path_str(pdf_path) {
        Some(pdf) => {
            let arguments = vec![
                "view".to_owned(),
                "-i".to_owned(),
                input,
                "-o".to_owned(),
                pdf.to_owned(),
            ];
            assert(argument_views(arguments@) == forward_arguments(
                line as nat,
                column as nat,
                input_file@,
                pdf@,
            ));
            Ok(arguments)
        },
        None => Err(SyncTexError::ParseError("PDF path is not valid UTF-8".to_owned())),
    }
}

/// The arguments with which to ask the command what source stands at a place
/// of a page, the coordinates already in words.
pub fn inverse_query(page: usize, x: &str, y: &str, pdf_path: &Path) -> (query: Result<
    Vec<String>,
    SyncTexError,
>)
    ensures
        match path_text(path_bytes(pdf_path)) {
            Some(pdf) => query matches Ok(arguments) && argument_views(arguments@)
                == inverse_arguments(page as nat, x@, y@, pdf),
            None => query matches Err(e) && is_parse_error(e, "PDF path is not valid UTF-8"@),
        },
{
    match path_str(pdf_path) {
        Some(pdf) => {
            let output = to_decimal(page as u64).concat(":").concat(x).concat(":").concat(y).concat(
                ":",
            ).concat(pdf);
            let arguments = vec!["edit".to_owned(), "-o".to_owned(), output];
            assert(argument_views(arguments@) == inverse_arguments(page as nat, x@, y@, pdf@));
            Ok(arguments)
        },
        None => Err(SyncTexError::ParseError("PDF path is not valid UTF-8".to_owned())),
    }
}

/// Whether `result` is what a run of the command for a forward lookup comes
/// to.
pub open spec fn is_forward_outcome<T, F: Fn(&str) -> Option<T>>(
    result: Result<ForwardResult<T>, SyncTexError>,
    outcome: Result<CommandOutput, RunError>,
    number: F,
) -> bool {
    match answer_text(outcome) {
        Some(text) => is_forward_answer(result, text, number),
        None => result matches Err(e) && is_command_error(e, outcome),
    }
}

/// Reads what a run of the command for a forward lookup came to.
pub fn forward_outcome<T, F: Fn(&str) -> Option<T>>(
    outcome: Result<CommandOutput, RunError>,
    number: &F,
) -> (result: Result<ForwardResult<T>, SyncTexError>)
    requires
        forall|s: &str| call_requires(*number, (s,)),
    ensures
        is_forward_outcome(result, outcome, *number),
{
    match command_answer(outcome) {
        Ok(text) => parse_forward_output(text.as_str(), number),
        Err(e) => Err(e),
    }
}

/// Forward search: given a source line, find the corresponding PDF position.
///
/// `line` is 1-based, `column` is 0-based (pass 0 if unknown). `run` runs the
/// `synctex` command with the arguments it is given, and `number` reads a
/// coordinate.
pub fn forward_search<T, R, F>(
    line: usize,
    column: usize,
    input_file: &str,
    pdf_path: &Path,
    run: &R,
    number: &F,
) -> (result: Result<ForwardResult<T>, SyncTexError>) where
    R: Fn(&Vec<String>) -> Result<CommandOutput, RunError>,
    F: Fn(&str) -> Option<T>,

    requires
        forall|arguments: &Vec<String>| call_requires(*run, (arguments,)),
        forall|s: &str| call_requires(*number, (s,)),
    ensures
        match path_text(path_bytes(pdf_path)) {
            Some(pdf) => exists|
                arguments: &Vec<String>,
                outcome: Result<CommandOutput, RunError>,
            |
                {
                    &&& #[trigger] call_ensures(*run, (arguments,), outcome)
                    &&& argument_views(arguments@) == forward_arguments(
                        line as nat,
                        column as nat,
                        input_file@,
                        pdf,
                    )
                    &&& is_forward_outcome(result, outcome, *number)
                },
            None => result matches Err(e) && is_parse_error(e, "PDF path is not valid UTF-8"@),
        },
{
    let arguments = match forward_query(line, column, input_file, pdf_path) {
        Ok(arguments) => arguments,
        Err(e) => return Err(e),
    };
    let outcome = run(&arguments);
    assert(call_ensures(*run, (&arguments,), outcome));
    forward_outcome(outcome, number)
}

/// Whether `search` was asked for a line and a column of a source file and
/// came back with `found`.
pub open spec fn searched<T, S>(
    search: S,
    line: nat,
    column: nat,
    file: Seq<char>,
    found: Result<ForwardResult<T>, SyncTexError>,
) -> bool where S: Fn(usize, usize, &str) -> Result<ForwardResult<T>, SyncTexError> {
    exists|l: usize, c: usize, name: &str|
        {
            &&& #[trigger] call_ensures(search, (l, c, name), found)
            &&& l == line
            &&& c == column
            &&& name@ == file
        }
}

/// The directory of the PDF, the current one where its path names none.
pub open spec fn working_dir(pdf: Seq<u8>) -> Seq<u8> {
    match parent_bytes(pdf) {
        Some(dir) => if dir.len() == 0 {
            encode_utf8("."@)
        } else {
            dir
        },
        None => encode_utf8("."@),
    }
}

/// The directory of the PDF, the current one where its path names none: that
/// of a bare file name is empty, and no command can run there.
fn command_dir(pdf_path: &Path) -> (dir: &Path)
    ensures
        path_bytes(dir) == working_dir(path_bytes(pdf_path)),
{
    match path_parent(pdf_path) {
        Some(dir) => if path_is_relative(dir) && path_parent(dir).is_none() {
            proof {
                lemma_no_components(path_bytes(dir));
            }
            path_of(".")
        } else {
            proof {
                if path_bytes(dir).len() == 0 {
                    assert(!path_bytes(dir).contains(separator()));
                }
            }
            dir
        },
        None => path_of("."),
    }
}

/// A source file that the command named by a relative path, in the directory
/// of the PDF.
pub open spec fn beside_pdf(input: Seq<char>, pdf: Seq<u8>) -> Option<Seq<u8>> {
    if relative(encode_utf8(input)) {
        match parent_bytes(pdf) {
            Some(dir) => Some(joined(dir, encode_utf8(input))),
            None => None,
        }
    } else {
        None
    }
}

/// The path of a source file that the command named by a relative path,
/// taken from the directory of the PDF. An absolute path is left alone.
pub fn absolute_input(input: &str, pdf_path: &Path) -> (absolute: Option<PathBuf>)
    ensures
        match absolute {
            Some(path) => beside_pdf(input@, path_bytes(pdf_path)) == Some(path_buf_bytes(&path)),
            None => beside_pdf(input@, path_bytes(pdf_path)) is None,
        },
        forall|dir: Seq<u8>, name: Seq<u8>| #[trigger]
            entry_of(dir, name) == path_bytes(pdf_path) && ends_in_name(dir) && ends_in_name(name)
                && !name.contains(separator()) && relative(encode_utf8(input@)) ==> (
            absolute matches Some(path) && path_buf_bytes(&path) == entry_of(
                dir,
                encode_utf8(input@),
            )),
        !relative(path_bytes(pdf_path)) ==> (absolute matches Some(path) ==> !relative(
            path_buf_bytes(&path),
        )),
        relative(encode_utf8(input@)) && path_parts(path_bytes(pdf_path)).len() > 0 ==> absolute
            is Some,
{
    let path = path_of(input);
    if path_is_relative(path) {
        match path_parent(pdf_path) {
            Some(dir) => Some(path_join(dir, path)),
            None => None,
        }
    } else {
        None
    }
}

/// The name of the source file: its canonical path where there is one, else
/// the absolute one.
pub fn source_name(absolute: &PathBuf, canonical: Option<PathBuf>) -> (name: String)
    ensures
        match canonical {
            Some(path) => name@ == path_lossy_text(path_buf_bytes(&path)) && relative(
                encode_utf8(name@),
            ) == relative(path_buf_bytes(&path)),
            None => name@ == path_lossy_text(path_buf_bytes(absolute)) && relative(
                encode_utf8(name@),
            ) == relative(path_buf_bytes(absolute)),
        },
{
    match canonical {
        Some(path) => path_lossy(path.as_path()),
        None => path_lossy(absolute.as_path()),
    }
}

/// Whether `canonicalize` gives absolute paths only.
pub open spec fn gives_absolute<C: Fn(&Path) -> Option<PathBuf>>(canonicalize: C) -> bool {
    forall|path: &Path, canonical: Option<PathBuf>| #[trigger]
        call_ensures(canonicalize, (path,), canonical) ==> (canonical matches Some(c) ==> !relative(
            path_buf_bytes(&c),
        ))
}

/// Whether a source file named `input` can be found from any directory: where
/// the PDF has an absolute path, not that of the root, and canonical paths are
/// absolute, it is absolute too.
pub open spec fn is_findable<C: Fn(&Path) -> Option<PathBuf>>(
    input: Seq<char>,
    pdf: Seq<u8>,
    canonicalize: C,
) -> bool {
    !relative(pdf) && path_parts(pdf).len() > 0 && gives_absolute(canonicalize) ==> !relative(
        encode_utf8(input),
    )
}

/// Whether `name` is the source file `input` resolved: relative to the PDF,
/// and as `canonicalize` has it where that succeeds.
pub open spec fn is_resolved<C: Fn(&Path) -> Option<PathBuf>>(
    name: Seq<char>,
    input: Seq<char>,
    pdf: Seq<u8>,
    canonicalize: C,
) -> bool {
    match beside_pdf(input, pdf) {
        None => name == input,
        Some(absolute) => exists|path: &Path, canonical: Option<PathBuf>|
            {
                &&& #[trigger] call_ensures(canonicalize, (path,), canonical)
                &&& path_bytes(path) == absolute
                &&& name == match canonical {
                    Some(c) => path_lossy_text(path_buf_bytes(&c)),
                    None => path_lossy_text(absolute),
                }
            },
    }
}

/// Whether `result` is what a run of the command for an inverse lookup comes
/// to: what its answer says, with the source file resolved.
pub open spec fn is_inverse_outcome<C: Fn(&Path) -> Option<PathBuf>>(
    result: Result<InverseResult, SyncTexError>,
    outcome: Result<CommandOutput, RunError>,
    pdf: Seq<u8>,
    canonicalize: C,
) -> bool {
    match answer_text(outcome) {
        Some(text) => match (last_value(records(text), "Input"@), inverse_line(text)) {
            (Some(input), Some(line)) => result matches Ok(r) && r.line == line && r.column
                == inverse_column(text) && is_resolved(r.input@, input, pdf, canonicalize),
            _ => result matches Err(e) && is_parse_error(
                e,
                "missing required fields in synctex edit output"@,
            ),
        },
        None => result matches Err(e) && is_command_error(e, outcome),
    }
}

/// Resolves the source file of a lookup. The command may name it by a path
/// relative to the PDF, under which an editor would not find it.
pub fn resolve_input<C: Fn(&Path) -> Option<PathBuf>>(
    found: InverseResult,
    pdf_path: &Path,
    canonicalize: &C,
) -> (result: InverseResult)
    requires
        forall|path: &Path| call_requires(*canonicalize, (path,)),
    ensures
        result.line == found.line,
        result.column == found.column,
        is_resolved(result.input@, found.input@, path_bytes(pdf_path), *canonicalize),
        is_findable(result.input@, path_bytes(pdf_path), *canonicalize),
{
    match absolute_input(found.input.as_str(), pdf_path) {
        Some(absolute) => {
            let path = absolute.as_path();
            let canonical = canonicalize(path);
            assert(call_ensures(*canonicalize, (path,), canonical));
            let input = source_name(&absolute, canonical);
            InverseResult { input, line: found.line, column: found.column }
        },
        None => found,
    }
}

/// Reads what a run of the command for an inverse lookup came to.
pub fn inverse_outcome<C: Fn(&Path) -> Option<PathBuf>>(
    outcome: Result<CommandOutput, RunError>,
    pdf_path: &Path,
    canonicalize: &C,
) -> (result: Result<InverseResult, SyncTexError>)
    requires
        forall|path: &Path| call_requires(*canonicalize, (path,)),
    ensures
        is_inverse_outcome(result, outcome, path_bytes(pdf_path), *canonicalize),
        result matches Ok(r) ==> is_findable(r.input@, path_bytes(pdf_path), *canonicalize),
{
    match command_answer(outcome) {
        Ok(text) => match parse_inverse_output(text.as_str()) {
            Ok(found) => Ok(resolve_input(found, pdf_path, canonicalize)),
            Err(e) => Err(e),
        },
        Err(e) => Err(e),
    }
}

/// Inverse search: given a PDF page and coordinates, find the source location.
///
/// `page` is 1-based, `x` and `y` are in PDF points (72 dpi), in words. `run`
/// runs the `synctex` command with the arguments it is given, in the
/// directory it is given, and `canonicalize` looks up the canonical form of a
/// path.
pub fn inverse_search<R, C>(
    page: usize,
    x: &str,
    y: &str,
    pdf_path: &Path,
    run: &R,
    canonicalize: &C,
) -> (result: Result<InverseResult, SyncTexError>) where
    R: Fn(&Vec<String>, &Path) -> Result<CommandOutput, RunError>,
    C: Fn(&Path) -> Option<PathBuf>,

    requires
        forall|arguments: &Vec<String>, dir: &Path| call_requires(*run, (arguments, dir)),
        forall|path: &Path| call_requires(*canonicalize, (path,)),
    ensures
        match path_text(path_bytes(pdf_path)) {
            Some(pdf) => exists|
                arguments: &Vec<String>,
                dir: &Path,
                outcome: Result<CommandOutput, RunError>,
            |
                {
                    &&& #[trigger] call_ensures(*run, (arguments, dir), outcome)
                    &&& argument_views(arguments@) == inverse_arguments(page as nat, x@, y@, pdf)
                    &&& path_bytes(dir) == working_dir(path_bytes(pdf_path))
                    &&& is_inverse_outcome(
                        result,
                        outcome,
                        path_bytes(pdf_path),
                        *canonicalize,
                    )
                },
            None => result matches Err(e) && is_parse_error(e, "PDF path is not valid UTF-8"@),
        },
        result matches Ok(r) ==> is_findable(r.input@, path_bytes(pdf_path), *canonicalize),
{
    let arguments = match inverse_query(page, x, y, pdf_path) {
        Ok(arguments) => arguments,
        Err(e) => return Err(e),
    };
    let dir = command_dir(pdf_path);
    let outcome = run(&arguments, dir);
    assert(call_ensures(*run, (&arguments, dir), outcome));
    inverse_outcome(outcome, pdf_path, canonicalize)
}

/// Where the SyncTeX data of a PDF is looked for: under the name of the PDF,
/// with another extension.
pub open spec fn companion(pdf: Seq<u8>, extension: Seq<char>) -> Seq<u8> {
    with_extension_bytes(pdf, extension)
}

/// Whether `present` was asked about the path `bytes` and answered `answer`.
pub open spec fn answered<P: Fn(&Path) -> bool>(present: P, bytes: Seq<u8>, answer: bool) -> bool {
    exists|path: &Path|
        path_bytes(path) == bytes && #[trigger] call_ensures(present, (path,), answer)
}

/// Check if a .synctex.gz or .synctex file exists for the given PDF.
/// `present` looks whether there is a file under a path.
pub fn has_synctex_file<P: Fn(&Path) -> bool>(pdf_path: &Path, present: &P) -> (found: bool)
    requires
        forall|path: &Path| call_requires(*present, (path,)),
    ensures
        found ==> answered(*present, companion(path_bytes(pdf_path), "synctex.gz"@), true)
            || answered(*present, companion(path_bytes(pdf_path), "synctex"@), true),
        !found ==> answered(*present, companion(path_bytes(pdf_path), "synctex.gz"@), false)
            && answered(*present, companion(path_bytes(pdf_path), "synctex"@), false),
        forall|base: Seq<u8>, extension: Seq<u8>| #[trigger]
            dotted(base, extension) == path_bytes(pdf_path) && ends_in_name(base)
                && extension.len() > 0 && !extension.contains(separator()) && !extension.contains(
                dot(),
            ) ==> {
                &&& companion(path_bytes(pdf_path), "synctex.gz"@) == dotted(
                    base,
                    encode_utf8("synctex.gz"@),
                )
                &&& companion(path_bytes(pdf_path), "synctex"@) == dotted(
                    base,
                    encode_utf8("synctex"@),
                )
            },
        undotted_name(path_bytes(pdf_path)) ==> {
            &&& companion(path_bytes(pdf_path), "synctex.gz"@) == dotted(
                path_bytes(pdf_path),
                encode_utf8("synctex.gz"@),
            )
            &&& companion(path_bytes(pdf_path), "synctex"@) == dotted(
                path_bytes(pdf_path),
                encode_utf8("synctex"@),
            )
        },
{
    proof {
        reveal_strlit("synctex.gz");
        reveal_strlit("synctex");
    }
    let gz = path_with_extension(pdf_path, "synctex.gz");
    let plain = path_with_extension(pdf_path, "synctex");
    let gz_path = gz.as_path();
    let gz_present = present(gz_path);
    assert(call_ensures(*present, (gz_path,), gz_present));
    if gz_present {
        return true;
    }
    let plain_path = plain.as_path();
    let plain_present = present(plain_path);
    assert(call_ensures(*present, (plain_path,), plain_present));
    plain_present
}

/// Pages are counted from zero within the viewer and from one by the command:
/// one more than the page of an answer is the number that the answer gave.
pub proof fn law_pages_are_counted_back(output: Seq<char>, text: Seq<char>, n: nat)
    requires
        last_value(records(output), "Page"@) == Some(text),
        unsigned_up_to(text, usize::MAX as nat) == Some(n),
        n > 0,
    ensures
        forward_page(output) matches Some(page) && page < usize::MAX && page + 1 == n,
{
}

/// The place that an answer of `synctex edit` gives is that of its last
/// records: the last file, the last line and the last column that stand in it,
/// each by itself. A column that is missing, or no number, is -1.
pub proof fn law_inverse_answer_is_read(
    output: &str,
    result: Result<InverseResult, SyncTexError>,
    i: int,
    j: int,
    n: nat,
    k: int,
    c: int,
)
    requires
        call_ensures(parse_inverse_output, (output,), result),
        is_last(records(output@), "Input"@, i),
        is_last(records(output@), "Line"@, j),
        unsigned_literal(records(output@)[j].1) == Some(n),
        n <= usize::MAX,
    ensures
        result matches Ok(r) && r.input@ == records(output@)[i].1 && r.line == n && {
            &&& lacks(records(output@), "Column"@) ==> r.column == -1
            &&& is_last(records(output@), "Column"@, k) && signed_literal(
                records(output@)[k].1,
            ) == Some(c) ==> r.column == if i32::MIN <= c <= i32::MAX {
                c
            } else {
                -1
            }
            &&& is_last(records(output@), "Column"@, k) && signed_literal(records(output@)[k].1)
                is None ==> r.column == -1
        },
{
    let list = records(output@);
    law_last_record_decides(list, "Input"@, i);
    law_last_record_decides(list, "Line"@, j);
    law_last_record_decides(list, "Column"@, k);
}

/// An answer of `synctex edit` without a file, or without a number for the
/// line, gives no place, and the error says so.
pub proof fn law_inverse_answer_needs_a_file_and_a_line(
    output: &str,
    result: Result<InverseResult, SyncTexError>,
    j: int,
)
    requires
        call_ensures(parse_inverse_output, (output,), result),
        ({
            let list = records(output@);
            ||| lacks(list, "Input"@)
            ||| lacks(list, "Line"@)
            ||| is_last(list, "Line"@, j) && unsigned_literal(list[j].1) is None
            ||| is_last(list, "Line"@, j) && unsigned_literal(list[j].1)->0 > usize::MAX
        }),
    ensures
        result matches Err(SyncTexError::ParseError(m)) && m@
            == "missing required fields in synctex edit output"@,
{
    let list = records(output@);
    law_last_record_decides(list, "Input"@, j);
    law_last_record_decides(list, "Line"@, j);
}

/// Of several candidates in an answer the last one is given, as a whole: its
/// file, its line and its column, whatever stands before it.
pub proof fn law_last_candidate_is_given(
    output: &str,
    result: Result<InverseResult, SyncTexError>,
    before: Seq<(Seq<char>, Seq<char>)>,
    file: Seq<char>,
    n: nat,
    c: int,
)
    requires
        call_ensures(parse_inverse_output, (output,), result),
        n <= usize::MAX,
        i32::MIN <= c <= i32::MAX,
        records(output@) == before + seq![
            ("Input"@, file),
            ("Line"@, decimal(n)),
            ("Column"@, signed_decimal(c)),
        ],
    ensures
        result matches Ok(r) && r.input@ == file && r.line == n && r.column == c,
{
    reveal_strlit("Input");
    reveal_strlit("Line");
    reveal_strlit("Column");
    assert("Input"@.len() == 5 && "Line"@.len() == 4 && "Column"@.len() == 6);
    let list = records(output@);
    let b = before.len() as int;
    law_decimal_reads_back(n);
    law_signed_decimal_reads_back(c);
    assert(list[b] == ("Input"@, file));
    assert(list[b + 1] == ("Line"@, decimal(n)));
    assert(list[b + 2] == ("Column"@, signed_decimal(c)));
    law_inverse_answer_is_read(output, result, b, b + 1, n, b + 2, c);
}

/// An answer written out, with a candidate at its end, gives that candidate.
pub proof fn law_written_candidate_is_given(
    output: &str,
    result: Result<InverseResult, SyncTexError>,
    before: Seq<(Seq<char>, Seq<char>)>,
    file: Seq<char>,
    n: nat,
    c: int,
)
    requires
        call_ensures(parse_inverse_output, (output,), result),
        n <= usize::MAX,
        i32::MIN <= c <= i32::MAX,
        forall|i: int| 0 <= i < before.len() ==> fits_a_line(#[trigger] before[i]),
        fits_a_line(("Input"@, file)),
        fits_a_line(("Line"@, decimal(n))),
        fits_a_line(("Column"@, signed_decimal(c))),
        output@ == answer_of(
            before + seq![
                ("Input"@, file),
                ("Line"@, decimal(n)),
                ("Column"@, signed_decimal(c)),
            ],
        ),
    ensures
        result matches Ok(r) && r.input@ == file && r.line == n && r.column == c,
{
    let list = before + seq![
        ("Input"@, file),
        ("Line"@, decimal(n)),
        ("Column"@, signed_decimal(c)),
    ];
    assert forall|i: int| 0 <= i < list.len() implies fits_a_line(#[trigger] list[i]) by {
        if i < before.len() {
            assert(list[i] == before[i]);
        }
    }
    law_records_read_back(list);
    law_last_candidate_is_given(output, result, before, file, n, c);
}

/// One more record under `Line` makes the line that record's number, and
/// changes neither the file nor the column.
pub proof fn law_further_line_decides(
    output: &str,
    result: Result<InverseResult, SyncTexError>,
    longer: &str,
    further: Result<InverseResult, SyncTexError>,
    n: nat,
)
    requires
        call_ensures(parse_inverse_output, (output,), result),
        call_ensures(parse_inverse_output, (longer,), further),
        result is Ok,
        n <= usize::MAX,
        records(longer@) == records(output@).push(("Line"@, decimal(n))),
    ensures
        further matches Ok(r) && r.line == n && r.input@ == result->Ok_0.input@ && r.column
            == result->Ok_0.column,
{
    reveal_strlit("Input");
    reveal_strlit("Line");
    reveal_strlit("Column");
    assert("Input"@.len() == 5 && "Line"@.len() == 4 && "Column"@.len() == 6);
    law_decimal_reads_back(n);
    let list = records(output@);
    law_further_record_decides(list, "Line"@, decimal(n), "Input"@);
    law_further_record_decides(list, "Line"@, decimal(n), "Column"@);
}

/// Whether `value` is what `number` made of the last record under `key`.
pub open spec fn came_from<T, F: Fn(&str) -> Option<T>>(
    number: F,
    list: Seq<(Seq<char>, Seq<char>)>,
    key: Seq<char>,
    value: T,
) -> bool {
    exists|i: int, s: &str|
        {
            &&& #[trigger] is_last(list, key, i)
            &&& s@ == list[i].1
            &&& #[trigger] call_ensures(number, (s,), Some(value))
        }
}

proof fn lemma_value_came_from<T, F: Fn(&str) -> Option<T>>(
    number: F,
    list: Seq<(Seq<char>, Seq<char>)>,
    key: Seq<char>,
    value: Option<T>,
)
    requires
        read_by(number, list, key, value),
    ensures
        value matches Some(v) ==> came_from(number, list, key, v),
{
    if let Some(v) = value {
        let i = lemma_last_exists(list, key);
        law_last_record_decides(list, key, i);
        let s = choose|s: &str|
            s@ == list[i].1 && #[trigger] call_ensures(number, (s,), value);
        assert(call_ensures(number, (s,), Some(v)));
    }
}

proof fn lemma_last_exists(list: Seq<(Seq<char>, Seq<char>)>, key: Seq<char>) -> (i: int)
    requires
        last_value(list, key) is Some,
    ensures
        is_last(list, key, i),
    decreases list.len(),
{
    if list.last().0 == key {
        list.len() - 1
    } else {
        let front = list.drop_last();
        let i = lemma_last_exists(front, key);
        assert forall|j: int| i < j < list.len() implies (#[trigger] list[j]).0 != key by {
            if j < front.len() {
                assert(front[j] == list[j]);
            }
        }
        assert(front[i] == list[i]);
        i
    }
}

/// The place that an answer of `synctex view` gives: the page is one less than
/// the last page number in it, with zero for zero, and each of the six
/// measures is read from the last record under its own key.
pub proof fn law_forward_answer_is_read<T, F: Fn(&str) -> Option<T>>(
    output: &str,
    number: &F,
    result: Result<ForwardResult<T>, SyncTexError>,
    i: int,
)
    requires
        call_ensures(parse_forward_output::<T, F>, (output, number), result),
        is_last(records(output@), "Page"@, i),
        result is Ok,
    ensures
        ({
            let r = result->Ok_0;
            let list = records(output@);
            &&& unsigned_literal(list[i].1) matches Some(n) && n <= usize::MAX && {
                &&& n > 0 ==> r.page == n - 1
                &&& n == 0 ==> r.page == 0
            }
            &&& came_from(*number, list, "x"@, r.x)
            &&& came_from(*number, list, "y"@, r.y)
            &&& came_from(*number, list, "h"@, r.h)
            &&& came_from(*number, list, "v"@, r.v)
            &&& came_from(*number, list, "W"@, r.width)
            &&& came_from(*number, list, "H"@, r.height)
        }),
{
    let list = records(output@);
    law_last_record_decides(list, "Page"@, i);
    lemma_forward_values(output@, *number, result);
}

proof fn lemma_forward_values<T, F: Fn(&str) -> Option<T>>(
    output: Seq<char>,
    number: F,
    result: Result<ForwardResult<T>, SyncTexError>,
)
    requires
        is_forward_answer(result, output, number),
        result is Ok,
    ensures
        ({
            let r = result->Ok_0;
            let list = records(output);
            &&& forward_page(output) == Some(r.page)
            &&& came_from(number, list, "x"@, r.x)
            &&& came_from(number, list, "y"@, r.y)
            &&& came_from(number, list, "h"@, r.h)
            &&& came_from(number, list, "v"@, r.v)
            &&& came_from(number, list, "W"@, r.width)
            &&& came_from(number, list, "H"@, r.height)
        }),
{
    let list = records(output);
    let r = result->Ok_0;
    let (x, y, h, v, width, height) = choose|
        x: Option<T>,
        y: Option<T>,
        h: Option<T>,
        v: Option<T>,
        width: Option<T>,
        height: Option<T>,
    |
        {
            &&& #[trigger] read_by(number, records(output), "x"@, x)
            &&& #[trigger] read_by(number, records(output), "y"@, y)
            &&& #[trigger] read_by(number, records(output), "h"@, h)
            &&& #[trigger] read_by(number, records(output), "v"@, v)
            &&& #[trigger] read_by(number, records(output), "W"@, width)
            &&& #[trigger] read_by(number, records(output), "H"@, height)
            &&& is_forward_result(result, forward_page(output), x, y, h, v, width, height)
        };
    lemma_value_came_from(number, list, "x"@, x);
    lemma_value_came_from(number, list, "y"@, y);
    lemma_value_came_from(number, list, "h"@, h);
    lemma_value_came_from(number, list, "v"@, v);
    lemma_value_came_from(number, list, "W"@, width);
    lemma_value_came_from(number, list, "H"@, height);
}

/// Whether `number` reads the last record under `key`, and every time it is
/// asked.
pub open spec fn is_readable<T, F: Fn(&str) -> Option<T>>(
    number: F,
    list: Seq<(Seq<char>, Seq<char>)>,
    key: Seq<char>,
) -> bool {
    &&& !lacks(list, key)
    &&& forall|i: int, s: &str, value: Option<T>| #[trigger]
        is_last(list, key, i) && s@ == list[i].1 && #[trigger] call_ensures(number, (s,), value)
            ==> value is Some
}

/// An answer of `synctex view` with a page number and six measures that can be
/// read is understood; one without a page number is not, and neither is one
/// that lacks a measure.
pub proof fn law_forward_answer_needs_seven_fields<T, F: Fn(&str) -> Option<T>>(
    output: &str,
    number: &F,
    result: Result<ForwardResult<T>, SyncTexError>,
    i: int,
)
    requires
        call_ensures(parse_forward_output::<T, F>, (output, number), result),
    ensures
        ({
            let list = records(output@);
            &&& is_last(list, "Page"@, i) && unsigned_literal(list[i].1) is Some
                && unsigned_literal(list[i].1)->0 <= usize::MAX && is_readable(
                *number,
                list,
                "x"@,
            ) && is_readable(*number, list, "y"@) && is_readable(*number, list, "h"@)
                && is_readable(*number, list, "v"@) && is_readable(*number, list, "W"@)
                && is_readable(*number, list, "H"@) ==> result is Ok
            &&& lacks(list, "Page"@) || lacks(list, "x"@) || lacks(list, "y"@) || lacks(
                list,
                "h"@,
            ) || lacks(list, "v"@) || lacks(list, "W"@) || lacks(list, "H"@) ==> result is Err
            &&& is_last(list, "Page"@, i) && unsigned_literal(list[i].1) is None ==> result is Err
            &&& result is Err ==> (result matches Err(SyncTexError::ParseError(m)) && m@
                == "missing required fields in synctex view output"@)
        }),
{
    let list = records(output@);
    law_last_record_decides(list, "Page"@, i);
    let (x, y, h, v, width, height) = choose|
        x: Option<T>,
        y: Option<T>,
        h: Option<T>,
        v: Option<T>,
        width: Option<T>,
        height: Option<T>,
    |
        {
            &&& #[trigger] read_by(*number, records(output@), "x"@, x)
            &&& #[trigger] read_by(*number, records(output@), "y"@, y)
            &&& #[trigger] read_by(*number, records(output@), "h"@, h)
            &&& #[trigger] read_by(*number, records(output@), "v"@, v)
            &&& #[trigger] read_by(*number, records(output@), "W"@, width)
            &&& #[trigger] read_by(*number, records(output@), "H"@, height)
            &&& is_forward_result(result, forward_page(output@), x, y, h, v, width, height)
        };
    lemma_readable_is_read(*number, list, "x"@, x);
    lemma_readable_is_read(*number, list, "y"@, y);
    lemma_readable_is_read(*number, list, "h"@, h);
    lemma_readable_is_read(*number, list, "v"@, v);
    lemma_readable_is_read(*number, list, "W"@, width);
    lemma_readable_is_read(*number, list, "H"@, height);
}

proof fn lemma_readable_is_read<T, F: Fn(&str) -> Option<T>>(
    number: F,
    list: Seq<(Seq<char>, Seq<char>)>,
    key: Seq<char>,
    value: Option<T>,
)
    requires
        read_by(number, list, key, value),
    ensures
        is_readable(number, list, key) ==> value is Some,
        lacks(list, key) ==> value is None,
{
    law_last_record_decides(list, key, 0);
    if is_readable(number, list, key) {
        let i = lemma_last_exists(list, key);
        law_last_record_decides(list, key, i);
        let s = choose|s: &str| s@ == list[i].1 && #[trigger] call_ensures(number, (s,), value);
        assert(is_last(list, key, i) && call_ensures(number, (s,), value));
    }
}

/// What an error says: which of the four it is, and the words it came with.
pub proof fn law_errors_keep_their_words(m: String)
    ensures
        error_text(SyncTexError::NotFound) == "synctex command not found"@,
        error_text(SyncTexError::CommandFailed(m)) == "synctex command failed: "@ + m@,
        error_text(SyncTexError::ParseError(m)) == "could not parse synctex output: "@ + m@,
        error_text(SyncTexError::NoSyncTexFile) == "no .synctex.gz file found for this PDF"@,
{
}

/// What a command comes to: its output where it succeeds, and else why it gave
/// none, in the words that fit: none for a missing program, those of the system
/// where it could not run, and its own where it failed.
pub proof fn law_command_comes_to(
    outcome: Result<CommandOutput, RunError>,
    answer: Result<String, SyncTexError>,
)
    requires
        call_ensures(command_answer, (outcome,), answer),
    ensures
        answer is Ok <==> outcome is Ok && outcome->Ok_0.success,
        answer matches Ok(text) ==> text@ == utf8_lossy_text(outcome->Ok_0.stdout@),
        outcome is Ok && !outcome->Ok_0.success ==> (answer matches Err(
            SyncTexError::CommandFailed(m),
        ) && m@ == utf8_lossy_text(outcome->Ok_0.stderr@)),
        outcome == Err::<CommandOutput, RunError>(RunError::NotFound) ==> answer is Err
            && answer->Err_0 is NotFound,
        outcome matches Err(RunError::Other(why)) ==> (answer matches Err(
            SyncTexError::CommandFailed(m),
        ) && m@ == why@),
{
}

/// The command is asked about the line, the column and the file of a forward
/// search, in the way in which such a place is written everywhere else, and
/// about the PDF.
pub proof fn law_forward_query_names_the_place(
    line: usize,
    column: usize,
    input_file: &str,
    pdf_path: &Path,
    query: Result<Vec<String>, SyncTexError>,
)
    requires
        call_ensures(forward_query, (line, column, input_file, pdf_path), query),
    ensures
        valid_utf8(path_bytes(pdf_path)) <==> query is Ok,
        query matches Ok(arguments) ==> {
            &&& arguments@.len() == 5
            &&& arguments@[0]@ == "view"@
            &&& arguments@[1]@ == "-i"@
            &&& position(arguments@[2]@) == (Position::At {
                line: line as nat,
                column: column as nat,
                file: input_file@,
            })
            &&& arguments@[3]@ == "-o"@
            &&& arguments@[4]@ == decode_utf8(path_bytes(pdf_path))
        },
        query matches Err(e) ==> (e matches SyncTexError::ParseError(m) && m@
            == "PDF path is not valid UTF-8"@),
{
    if let Ok(arguments) = query {
        let pdf = decode_utf8(path_bytes(pdf_path));
        let views = argument_views(arguments@);
        assert(views.len() == arguments@.len());
        assert(forall|i: int|
            0 <= i < arguments@.len() ==> views[i] == #[trigger] arguments@[i]@);
        lemma_forward_arguments_name_the_place(
            line,
            column,
            input_file@,
            pdf,
        );
    }
}

proof fn lemma_forward_arguments_name_the_place(
    line: usize,
    column: usize,
    input_file: Seq<char>,
    pdf: Seq<char>,
)
    ensures
        ({
            let arguments = forward_arguments(line as nat, column as nat, input_file, pdf);
            &&& arguments.len() == 5
            &&& arguments[0] == "view"@
            &&& arguments[1] == "-i"@
            &&& position(arguments[2]) == (Position::At {
                line: line as nat,
                column: column as nat,
                file: input_file,
            })
            &&& arguments[3] == "-o"@
            &&& arguments[4] == pdf
        }),
{
    reveal_strlit(":");
    law_position_with_column_reads_back(line, column, input_file);
    assert(decimal(line as nat) + ":"@ + decimal(column as nat) + ":"@ + input_file == decimal(
        line as nat,
    ) + seq![':'] + decimal(column as nat) + seq![':'] + input_file);
}

/// The command is asked about the page, the coordinates and the PDF of an
/// inverse search, with a colon after each of the first three.
pub proof fn law_inverse_query_names_the_place(
    page: usize,
    x: &str,
    y: &str,
    pdf_path: &Path,
    query: Result<Vec<String>, SyncTexError>,
)
    requires
        call_ensures(inverse_query, (page, x, y, pdf_path), query),
    ensures
        valid_utf8(path_bytes(pdf_path)) <==> query is Ok,
        query matches Ok(arguments) ==> {
            &&& arguments@.len() == 3
            &&& arguments@[0]@ == "edit"@
            &&& arguments@[1]@ == "-o"@
            &&& split_first(arguments@[2]@, ':') matches Some((p, after)) && unsigned_literal(p)
                == Some(page as nat) && after == x@ + seq![':'] + y@ + seq![':'] + decode_utf8(
                path_bytes(pdf_path),
            )
        },
        query matches Err(e) ==> (e matches SyncTexError::ParseError(m) && m@
            == "PDF path is not valid UTF-8"@),
{
    if let Ok(arguments) = query {
        let pdf = decode_utf8(path_bytes(pdf_path));
        let views = argument_views(arguments@);
        assert(views.len() == arguments@.len());
        assert(forall|i: int|
            0 <= i < arguments@.len() ==> views[i] == #[trigger] arguments@[i]@);
        lemma_inverse_arguments_name_the_place(page, x@, y@, pdf);
    }
}

proof fn lemma_inverse_arguments_name_the_place(
    page: usize,
    x: Seq<char>,
    y: Seq<char>,
    pdf: Seq<char>,
)
    ensures
        ({
            let arguments = inverse_arguments(page as nat, x, y, pdf);
            &&& arguments.len() == 3
            &&& arguments[0] == "edit"@
            &&& arguments[1] == "-o"@
            &&& split_first(arguments[2], ':') matches Some((p, after)) && unsigned_literal(p)
                == Some(page as nat) && after == x + seq![':'] + y + seq![':'] + pdf
        }),
{
    reveal_strlit(":");
    let p = decimal(page as nat);
    let after = x + seq![':'] + y + seq![':'] + pdf;
    law_decimal_reads_back(page as nat);
    assert(!p.contains(':')) by {
        assert forall|i: int| 0 <= i < p.len() implies p[i] != ':' by {
            assert(is_digit(p[i]));
        }
    }
    law_cut_finds_both_sides(p, ':', after);
    assert(inverse_arguments(page as nat, x, y, pdf)[2] == p + seq![':'] + after);
}

/// A forward search runs the command on the place it was asked about, and what
/// it returns is what that run came to: the page and the box of the answer, or
/// why there is none.
pub proof fn law_forward_search_returns_what_was_found<T, R, F>(
    line: usize,
    column: usize,
    input_file: &str,
    pdf_path: &Path,
    run: &R,
    number: &F,
    result: Result<ForwardResult<T>, SyncTexError>,
) where
    R: Fn(&Vec<String>) -> Result<CommandOutput, RunError>,
    F: Fn(&str) -> Option<T>,

    requires
        call_ensures(
            forward_search::<T, R, F>,
            (line, column, input_file, pdf_path, run, number),
            result,
        ),
    ensures
        valid_utf8(path_bytes(pdf_path)) ==> exists|
            arguments: &Vec<String>,
            outcome: Result<CommandOutput, RunError>,
        |
            {
                &&& #[trigger] call_ensures(*run, (arguments,), outcome)
                &&& arguments@.len() == 5
                &&& arguments@[0]@ == "view"@
                &&& arguments@[1]@ == "-i"@
                &&& position(arguments@[2]@) == (Position::At {
                    line: line as nat,
                    column: column as nat,
                    file: input_file@,
                })
                &&& arguments@[3]@ == "-o"@
                &&& arguments@[4]@ == decode_utf8(path_bytes(pdf_path))
                &&& outcome == Err::<CommandOutput, RunError>(RunError::NotFound) ==> result is Err
                    && result->Err_0 is NotFound
                &&& outcome matches Err(RunError::Other(why)) ==> (result matches Err(
                    SyncTexError::CommandFailed(m),
                ) && m@ == why@)
                &&& outcome is Ok && !outcome->Ok_0.success ==> (result matches Err(
                    SyncTexError::CommandFailed(m),
                ) && m@ == utf8_lossy_text(outcome->Ok_0.stderr@))
                &&& result matches Ok(r) ==> {
                    let list = records(utf8_lossy_text(outcome->Ok_0.stdout@));
                    &&& outcome is Ok && outcome->Ok_0.success
                    &&& last_value(list, "Page"@) is Some
                    &&& unsigned_literal(last_value(list, "Page"@)->0) is Some
                    &&& r.page == if unsigned_literal(last_value(list, "Page"@)->0)->0 == 0 {
                        0
                    } else {
                        unsigned_literal(last_value(list, "Page"@)->0)->0 - 1
                    }
                    &&& came_from(*number, list, "x"@, r.x)
                    &&& came_from(*number, list, "y"@, r.y)
                    &&& came_from(*number, list, "h"@, r.h)
                    &&& came_from(*number, list, "v"@, r.v)
                    &&& came_from(*number, list, "W"@, r.width)
                    &&& came_from(*number, list, "H"@, r.height)
                }
            },
        !valid_utf8(path_bytes(pdf_path)) ==> (result matches Err(SyncTexError::ParseError(m))
            && m@ == "PDF path is not valid UTF-8"@),
{
    if valid_utf8(path_bytes(pdf_path)) {
        let pdf = decode_utf8(path_bytes(pdf_path));
        let (arguments, outcome) = choose|
            arguments: &Vec<String>,
            outcome: Result<CommandOutput, RunError>,
        |
            {
                &&& #[trigger] call_ensures(*run, (arguments,), outcome)
                &&& argument_views(arguments@) == forward_arguments(
                    line as nat,
                    column as nat,
                    input_file@,
                    pdf,
                )
                &&& is_forward_outcome(result, outcome, *number)
            };
        let views = argument_views(arguments@);
        assert(views.len() == arguments@.len());
        assert(forall|i: int|
            0 <= i < arguments@.len() ==> views[i] == #[trigger] arguments@[i]@);
        lemma_forward_arguments_name_the_place(line, column, input_file@, pdf);
        if result is Ok {
            lemma_forward_values(utf8_lossy_text(outcome->Ok_0.stdout@), *number, result);
        }
        assert(call_ensures(*run, (arguments,), outcome));
    }
}

/// An inverse search runs the command on the place it was asked about, beside
/// the PDF, and what it returns is what that run came to: the last file, line
/// and column of the answer, or why there is none.
pub proof fn law_inverse_search_returns_what_was_found<R, C>(
    page: usize,
    x: &str,
    y: &str,
    pdf_path: &Path,
    run: &R,
    canonicalize: &C,
    result: Result<InverseResult, SyncTexError>,
) where
    R: Fn(&Vec<String>, &Path) -> Result<CommandOutput, RunError>,
    C: Fn(&Path) -> Option<PathBuf>,

    requires
        call_ensures(inverse_search::<R, C>, (page, x, y, pdf_path, run, canonicalize), result),
    ensures
        valid_utf8(path_bytes(pdf_path)) ==> exists|
            arguments: &Vec<String>,
            dir: &Path,
            outcome: Result<CommandOutput, RunError>,
        |
            {
                &&& #[trigger] call_ensures(*run, (arguments, dir), outcome)
                &&& arguments@.len() == 3
                &&& arguments@[0]@ == "edit"@
                &&& arguments@[1]@ == "-o"@
                &&& (split_first(arguments@[2]@, ':') matches Some((p, after)) && unsigned_literal(
                    p,
                ) == Some(page as nat) && after == x@ + seq![':'] + y@ + seq![':'] + decode_utf8(
                    path_bytes(pdf_path),
                ))
                &&& parent_bytes(path_bytes(pdf_path)) is Some && parent_bytes(
                    path_bytes(pdf_path),
                )->0.len() > 0 ==> path_bytes(dir) == parent_bytes(path_bytes(pdf_path))->0
                &&& parent_bytes(path_bytes(pdf_path)) is None || parent_bytes(
                    path_bytes(pdf_path),
                )->0.len() == 0 ==> path_bytes(dir) == encode_utf8("."@)
                &&& outcome == Err::<CommandOutput, RunError>(RunError::NotFound) ==> result is Err
                    && result->Err_0 is NotFound
                &&& outcome matches Err(RunError::Other(why)) ==> (result matches Err(
                    SyncTexError::CommandFailed(m),
                ) && m@ == why@)
                &&& outcome is Ok && !outcome->Ok_0.success ==> (result matches Err(
                    SyncTexError::CommandFailed(m),
                ) && m@ == utf8_lossy_text(outcome->Ok_0.stderr@))
                &&& outcome is Ok && outcome->Ok_0.success ==> {
                    let list = records(utf8_lossy_text(outcome->Ok_0.stdout@));
                    let file = last_value(list, "Input"@);
                    let number = last_value(list, "Line"@);
                    let n = unsigned_literal(number->0);
                    if file is Some && number is Some && n is Some && n->0 <= usize::MAX {
                        &&& result is Ok
                        &&& result->Ok_0.line == n->0
                        &&& last_value(list, "Column"@) is None ==> result->Ok_0.column == -1
                        &&& last_value(list, "Column"@) is Some && signed_literal(
                            last_value(list, "Column"@)->0,
                        ) is Some && i32::MIN <= signed_literal(
                            last_value(list, "Column"@)->0,
                        )->0 <= i32::MAX ==> result->Ok_0.column == signed_literal(
                            last_value(list, "Column"@)->0,
                        )->0
                        &&& !relative(encode_utf8(file->0)) ==> result->Ok_0.input@ == file->0
                        &&& is_resolved(
                            result->Ok_0.input@,
                            file->0,
                            path_bytes(pdf_path),
                            *canonicalize,
                        )
                    } else {
                        result matches Err(SyncTexError::ParseError(m)) && m@
                            == "missing required fields in synctex edit output"@
                    }
                }
            },
        !valid_utf8(path_bytes(pdf_path)) ==> (result matches Err(SyncTexError::ParseError(m))
            && m@ == "PDF path is not valid UTF-8"@),
{
    if valid_utf8(path_bytes(pdf_path)) {
        let pdf = decode_utf8(path_bytes(pdf_path));
        let (arguments, dir, outcome) = choose|
            arguments: &Vec<String>,
            dir: &Path,
            outcome: Result<CommandOutput, RunError>,
        |
            {
                &&& #[trigger] call_ensures(*run, (arguments, dir), outcome)
                &&& argument_views(arguments@) == inverse_arguments(page as nat, x@, y@, pdf)
                &&& path_bytes(dir) == working_dir(path_bytes(pdf_path))
                &&& is_inverse_outcome(result, outcome, path_bytes(pdf_path), *canonicalize)
            };
        let views = argument_views(arguments@);
        assert(views.len() == arguments@.len());
        assert(forall|i: int|
            0 <= i < arguments@.len() ==> views[i] == #[trigger] arguments@[i]@);
        lemma_inverse_arguments_name_the_place(page, x@, y@, pdf);
        assert(call_ensures(*run, (arguments, dir), outcome));
    }
}

/// The directory that a name is taken from and the name, with a separator
/// between them where one is missing.
pub open spec fn beneath(dir: Seq<u8>, name: Seq<u8>) -> Seq<u8> {
    if dir.len() == 0 || dir[dir.len() - 1] == separator() {
        dir + name
    } else {
        dir + seq![separator()] + name
    }
}

/// Resolving a source file changes its name alone. An absolute name stays; a
/// relative one is taken from the directory of the PDF, and is what
/// `canonicalize` makes of it, or the path itself where that fails.
pub proof fn law_source_is_taken_from_beside_the_pdf<C: Fn(&Path) -> Option<PathBuf>>(
    found: InverseResult,
    pdf_path: &Path,
    canonicalize: &C,
    result: InverseResult,
    dir: Seq<u8>,
)
    requires
        call_ensures(resolve_input::<C>, (found, pdf_path, canonicalize), result),
    ensures
        result.line == found.line && result.column == found.column,
        !relative(encode_utf8(found.input@)) ==> result.input@ == found.input@,
        parent_bytes(path_bytes(pdf_path)) is None ==> result.input@ == found.input@,
        relative(encode_utf8(found.input@)) && parent_bytes(path_bytes(pdf_path)) == Some(dir)
            ==> exists|path: &Path, canonical: Option<PathBuf>|
            {
                &&& #[trigger] call_ensures(*canonicalize, (path,), canonical)
                &&& path_bytes(path) == beneath(dir, encode_utf8(found.input@))
                &&& canonical matches Some(c) ==> result.input@ == path_lossy_text(
                    path_buf_bytes(&c),
                )
                &&& canonical is None ==> result.input@ == path_lossy_text(
                    beneath(dir, encode_utf8(found.input@)),
                )
            },
{
}

/// A source file is looked for beside the PDF exactly where its name is
/// relative and the PDF has a directory, and under that name there.
pub proof fn law_relative_source_stands_beside_the_pdf(
    input: &str,
    pdf_path: &Path,
    absolute: Option<PathBuf>,
)
    requires
        call_ensures(absolute_input, (input, pdf_path), absolute),
    ensures
        absolute is Some <==> relative(encode_utf8(input@)) && parent_bytes(path_bytes(pdf_path))
            is Some,
        absolute is Some ==> path_buf_bytes(&absolute->0) == beneath(
            parent_bytes(path_bytes(pdf_path))->0,
            encode_utf8(input@),
        ),
{
}

/// The canonical path gives the name of a source file where there is one, and
/// the absolute path where there is none.
pub proof fn law_canonical_name_is_preferred(
    absolute: &PathBuf,
    canonical: Option<PathBuf>,
    name: String,
)
    requires
        call_ensures(source_name, (absolute, canonical), name),
    ensures
        canonical is Some ==> name@ == path_lossy_text(path_buf_bytes(&canonical->0)),
        canonical is None ==> name@ == path_lossy_text(path_buf_bytes(absolute)),
{
}

/// For a PDF with an absolute path, an editor can find the source from any
/// directory: its name is absolute, provided that canonical paths are.
pub proof fn law_source_of_an_absolute_pdf_is_absolute<R, C>(
    page: usize,
    x: &str,
    y: &str,
    pdf_path: &Path,
    run: &R,
    canonicalize: &C,
    result: Result<InverseResult, SyncTexError>,
) where
    R: Fn(&Vec<String>, &Path) -> Result<CommandOutput, RunError>,
    C: Fn(&Path) -> Option<PathBuf>,

    requires
        call_ensures(inverse_search::<R, C>, (page, x, y, pdf_path, run, canonicalize), result),
        path_bytes(pdf_path).len() > 0,
        path_bytes(pdf_path)[0] == separator(),
        path_parts(path_bytes(pdf_path)).len() > 0,
        forall|path: &Path, canonical: Option<PathBuf>| #[trigger]
            call_ensures(*canonicalize, (path,), canonical) && canonical is Some ==> {
                let bytes = path_buf_bytes(&canonical->0);
                bytes.len() > 0 && bytes[0] == separator()
            },
        result is Ok,
    ensures
        encode_utf8(result->Ok_0.input@).len() > 0,
        encode_utf8(result->Ok_0.input@)[0] == separator(),
{
    assert(gives_absolute(*canonicalize)) by {
        assert forall|path: &Path, canonical: Option<PathBuf>| #[trigger]
            call_ensures(*canonicalize, (path,), canonical) implies (canonical matches Some(c)
            ==> !relative(path_buf_bytes(&c))) by {
        }
    }
}

/// The SyncTeX data of `base.pdf`, or of a PDF with any other extension, is
/// found where `base.synctex.gz` or `base.synctex` is there, and not found
/// where neither is, however many dots the base has.
pub proof fn law_data_of_a_pdf_is_found<P: Fn(&Path) -> bool>(
    pdf_path: &Path,
    present: &P,
    found: bool,
    base: Seq<u8>,
    extension: Seq<u8>,
)
    requires
        call_ensures(has_synctex_file::<P>, (pdf_path, present), found),
        path_bytes(pdf_path) == dotted(base, extension),
        ends_in_name(base),
        extension.len() > 0,
        !extension.contains(separator()),
        !extension.contains(dot()),
    ensures
        found ==> exists|path: &Path| #[trigger]
            call_ensures(*present, (path,), true) && (path_bytes(path) == base + seq![dot()]
                + encode_utf8("synctex.gz"@) || path_bytes(path) == base + seq![dot()]
                + encode_utf8("synctex"@)),
        !found ==> exists|path: &Path| #[trigger]
            call_ensures(*present, (path,), false) && path_bytes(path) == base + seq![dot()]
                + encode_utf8("synctex.gz"@),
        !found ==> exists|path: &Path| #[trigger]
            call_ensures(*present, (path,), false) && path_bytes(path) == base + seq![dot()]
                + encode_utf8("synctex"@),
{
    let pdf = path_bytes(pdf_path);
    assert(dotted(base, extension) == pdf);
    broadcast use encode_utf8_decode_utf8;

    reveal_strlit("synctex.gz");
    reveal_strlit("synctex");
    assert(encode_utf8("synctex.gz"@).len() > 0) by {
        assert(decode_utf8(encode_utf8("synctex.gz"@)) == "synctex.gz"@);
    }
    assert(encode_utf8("synctex"@).len() > 0) by {
        assert(decode_utf8(encode_utf8("synctex"@)) == "synctex"@);
    }
    assert(companion(pdf, "synctex.gz"@) == base + seq![dot()] + encode_utf8("synctex.gz"@));
    assert(companion(pdf, "synctex"@) == base + seq![dot()] + encode_utf8("synctex"@));
}

/// The SyncTeX data of a PDF without an extension stands under its name with
/// the extension added.
pub proof fn law_data_of_a_pdf_without_extension_is_found<P: Fn(&Path) -> bool>(
    pdf_path: &Path,
    present: &P,
    found: bool,
)
    requires
        call_ensures(has_synctex_file::<P>, (pdf_path, present), found),
        undotted_name(path_bytes(pdf_path)),
    ensures
        found ==> exists|path: &Path| #[trigger]
            call_ensures(*present, (path,), true) && (path_bytes(path) == dotted(
                path_bytes(pdf_path),
                encode_utf8("synctex.gz"@),
            ) || path_bytes(path) == dotted(path_bytes(pdf_path), encode_utf8("synctex"@))),
        !found ==> exists|path: &Path| #[trigger]
            call_ensures(*present, (path,), false) && path_bytes(path) == dotted(
                path_bytes(pdf_path),
                encode_utf8("synctex.gz"@),
            ),
        !found ==> exists|path: &Path| #[trigger]
            call_ensures(*present, (path,), false) && path_bytes(path) == dotted(
                path_bytes(pdf_path),
                encode_utf8("synctex"@),
            ),
{
}

} // verus!
