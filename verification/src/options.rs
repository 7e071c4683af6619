//! What the command line asks for.

use crate::ipc::{command_text, law_forward_command_is_understood, request, Request};
use crate::messages::{
    is_report, jump, jump_to, law_found_box_is_shown, shows, BottomMessage, Jump,
};
use crate::number::{
    decimal, is_digit, law_decimal_reads_back, parse_usize, unsigned_up_to, usize_error_text,
};
use crate::synctex::{error_text, searched, ForwardResult, SyncTexError};
use crate::text::{
    law_cut_finds_both_sides, lemma_first_index, split_first, split_once, trim_end,
};
use vstd::prelude::*;
use vstd::string::*;

verus! {

/// What an argument says of a place in a source file.
pub enum Position {
    /// The place
    At { line: nat, column: nat, file: Seq<char> },
    /// What is wrong with the argument
    Bad { message: Seq<char> },
}

/// The place that `line:col:file` or `line:file` speaks of.
pub open spec fn position(arg: Seq<char>) -> Position {
    let max = usize::MAX as nat;
    match split_first(arg, ':') {
        None => Position::Bad { message: "expected format line:col:file or line:file"@ },
        Some((line, rest)) => match unsigned_up_to(line, max) {
            None => Position::Bad {
                message: "invalid line number: "@ + usize_error_text(line, max),
            },
            Some(n) => match split_first(rest, ':') {
                None => Position::At { line: n, column: 0, file: rest },
                Some((column, file)) => match unsigned_up_to(column, max) {
                    None => Position::Bad {
                        message: "invalid column number: "@ + usize_error_text(column, max),
                    },
                    Some(m) => Position::At { line: n, column: m, file },
                },
            },
        },
    }
}

/// Parse a synctex forward argument in the format "line:col:file" or "line:file".
pub fn parse_synctex_arg(arg: &str) -> (parsed: Result<(usize, usize, String), String>)
    ensures
        match position(arg@) {
            Position::At { line, column, file } => parsed matches Ok(p) && p.0 == line && p.1
                == column && p.2@ == file,
            Position::Bad { message } => parsed matches Err(m) && m@ == message,
        },
{
    match split_once(arg, ':') {
        None => Err("expected format line:col:file or line:file".to_owned()),
        Some((line, rest)) => {
            let line: usize = match parse_usize(line) {
                Ok(n) => n,
                Err(e) => return Err("invalid line number: ".to_owned().concat(e.as_str())),
            };
            match split_once(rest, ':') {
                None => Ok((line, 0, rest.to_owned())),
                Some((column, file)) => match parse_usize(column) {
                    Ok(column) => Ok((line, column, file.to_owned())),
                    Err(e) => Err("invalid column number: ".to_owned().concat(e.as_str())),
                },
            }
        },
    }
}

/// What the program is started to do. Paths are of whatever type the caller
/// has them in.
pub enum Mode<P> {
    /// Print the version and exit
    Version,
    /// Print the socket path for a PDF and exit
    SocketPath(P),
    /// Ask the viewer of a PDF for a forward search, and exit
    Forward { pdf: P, line: u32, column: u32, file: String },
    /// Show a PDF
    View(P),
}

/// `n` in the 32 bits that a request has for it.
fn word(n: usize) -> (narrow: Option<u32>)
    ensures
        match narrow {
            Some(w) => w == n,
            None => n > u32::MAX,
        },
{
    if n <= 0xffff_ffff {
        Some(n as u32)
    } else {
        None
    }
}

/// What the options of the command line ask for. The version comes before
/// everything else, and what prints and exits before what shows a PDF. A
/// request to a running viewer has 32 bits for a line and for a column, and a
/// larger one is refused.
pub fn choose_mode<P>(
    version: bool,
    socket_path: Option<P>,
    forward: Option<&str>,
    file: Option<P>,
) -> (mode: Result<Mode<P>, String>)
    ensures
        if version {
            mode matches Ok(m) && m is Version
        } else if socket_path is Some {
            mode == Ok::<Mode<P>, String>(Mode::SocketPath(socket_path->0))
        } else if forward is Some {
            match (file, position(forward->0@)) {
                (None, _) => mode matches Err(m) && m@ == "--forward requires a PDF file argument"@,
                (Some(f), Position::At { line, column, file }) => if line > u32::MAX {
                    mode matches Err(m) && m@ == "invalid --forward argument: line is too large"@
                } else if column > u32::MAX {
                    mode matches Err(m) && m@ == "invalid --forward argument: column is too large"@
                } else {
                    mode matches Ok(Mode::Forward { pdf, line: l, column: c, file: n }) && pdf == f
                        && l == line && c == column && n@ == file
                },
                (Some(_), Position::Bad { message }) => mode matches Err(m) && m@
                    == "invalid --forward argument: "@ + message,
            }
        } else {
            match file {
                Some(f) => mode == Ok::<Mode<P>, String>(Mode::View(f)),
                None => mode matches Err(m) && m@
                    == "Please specify the file to open, e.g. `pdftui ./my_example_pdf.pdf`"@,
            }
        },
{
    if version {
        return Ok(Mode::Version);
    }
    if let Some(path) = socket_path {
        return Ok(Mode::SocketPath(path));
    }
    if let Some(arg) = forward {
        return match file {
            None => Err("--forward requires a PDF file argument".to_owned()),
            Some(pdf) => match parse_synctex_arg(arg) {
                Ok((line, column, file)) => match (word(line), word(column)) {
                    (Some(line), Some(column)) => Ok(Mode::Forward { pdf, line, column, file }),
                    (None, _) => Err("invalid --forward argument: line is too large".to_owned()),
                    (_, None) => Err("invalid --forward argument: column is too large".to_owned()),
                },
                Err(e) => Err("invalid --forward argument: ".to_owned().concat(e.as_str())),
            },
        };
    }
    match file {
        Some(path) => Ok(Mode::View(path)),
        None => Err(
            "Please specify the file to open, e.g. `pdftui ./my_example_pdf.pdf`".to_owned(),
        ),
    }
}

/// How many pages around the shown one are rendered ahead.
#[derive(Debug, Clone, Copy, PartialEq, Eq, Structural)]
pub enum PrerenderLimit {
    /// All of them
    All,
    /// This many, at least one
    Limited(usize),
}

/// The limit that an option gives; 0 means no limit, and so does its absence.
pub fn prerender_limit(option: Option<usize>) -> (limit: PrerenderLimit)
    ensures
        limit == match option {
            Some(n) => if n == 0 {
                PrerenderLimit::All
            } else {
                PrerenderLimit::Limited(n)
            },
            None => PrerenderLimit::All,
        },
{
    match option {
        Some(n) => if n == 0 {
            PrerenderLimit::All
        } else {
            PrerenderLimit::Limited(n)
        },
        None => PrerenderLimit::All,
    }
}

/// How long a file has to stay as it is before it is reloaded, in
/// milliseconds, where no option says it.
pub const DEFAULT_RELOAD_DELAY: u64 = 50;

/// How long a file has to stay as it is before it is reloaded, in
/// milliseconds.
pub fn reload_delay(option: Option<u64>) -> (delay: u64)
    ensures
        delay == match option {
            Some(n) => n,
            None => DEFAULT_RELOAD_DELAY,
        },
{
    match option {
        Some(n) => n,
        None => DEFAULT_RELOAD_DELAY,
    }
}

/// What a forward search at the start comes to.
pub enum Opening<T, Z, I> {
    /// The place was found
    Found(Jump<T, Z, I>),
    /// It was not, and the bottom line says why
    Complaint(BottomMessage),
}

/// Does the forward search that an option asks for at the start: one search,
/// with the line, the column and the file of the option.
pub fn opening_search<T, Z, I, S>(arg: &str, search: &S) -> (result: Result<
    Opening<T, Z, I>,
    String,
>) where S: Fn(usize, usize, &str) -> Result<ForwardResult<T>, SyncTexError>
    requires
        forall|line: usize, column: usize, file: &str|
            call_requires(*search, (line, column, file)),
    ensures
        match position(arg@) {
            Position::At { line, column, file } => exists|
                found: Result<ForwardResult<T>, SyncTexError>,
            |
                {
                    &&& #[trigger] searched(*search, line, column, file, found)
                    &&& match found {
                        Ok(r) => result == Ok::<Opening<T, Z, I>, String>(
                            Opening::Found(jump_to(r)),
                        ),
                        Err(e) => result matches Ok(Opening::Complaint(m)) && is_report(
                            m,
                            "SyncTeX: "@ + error_text(e),
                        ),
                    }
                },
            Position::Bad { message } => result matches Err(m) && m@
                == "Invalid --synctex-forward argument: "@ + message,
        },
{
    match parse_synctex_arg(arg) {
        Ok((line, column, file)) => {
            let name = file.as_str();
            let found = search(line, column, name);
            assert(call_ensures(*search, (line, column, name), found));
            assert(searched(*search, line as nat, column as nat, file@, found));
            match found {
                Ok(result) => Ok(Opening::Found(jump(result))),
                Err(e) => Ok(
                    Opening::Complaint(
                        BottomMessage::Error("SyncTeX: ".to_owned().concat(e.message().as_str())),
                    ),
                ),
            }
        },
        Err(e) => Err("Invalid --synctex-forward argument: ".to_owned().concat(e.as_str())),
    }
}

proof fn lemma_split_after_number(n: nat, rest: Seq<char>)
    ensures
        split_first(decimal(n) + seq![':'] + rest, ':') == Some((decimal(n), rest)),
        unsigned_up_to(decimal(n), n) == Some(n),
{
    law_decimal_reads_back(n);
    let d = decimal(n);
    let whole = d + seq![':'] + rest;
    assert forall|j: int| 0 <= j < d.len() implies whole[j] != ':' by {
        assert(is_digit(d[j]));
    }
    lemma_first_index(whole, ':', d.len() as int);
    assert(whole.take(d.len() as int) == d);
    assert(whole.skip(d.len() as int + 1) == rest);
}

/// A place written as `line:col:file` is read back, whatever the file's name.
pub proof fn law_position_with_column_reads_back(line: usize, column: usize, file: Seq<char>)
    ensures
        position(
            decimal(line as nat) + seq![':'] + decimal(column as nat) + seq![':'] + file,
        ) == (Position::At { line: line as nat, column: column as nat, file }),
{
    let after = decimal(column as nat) + seq![':'] + file;
    assert(decimal(line as nat) + seq![':'] + decimal(column as nat) + seq![':'] + file == decimal(
        line as nat,
    ) + seq![':'] + after);
    lemma_split_after_number(line as nat, after);
    lemma_split_after_number(column as nat, file);
}

/// A place written as `line:file` is read back, with column zero, where no
/// colon in the file's name makes a column of its beginning.
pub proof fn law_position_without_column_reads_back(line: usize, file: Seq<char>)
    requires
        !file.contains(':'),
    ensures
        position(decimal(line as nat) + seq![':'] + file) == (Position::At {
            line: line as nat,
            column: 0,
            file,
        }),
{
    lemma_split_after_number(line as nat, file);
}

/// What a client is asked for on its command line, the viewer that it turns to
/// searches for: the same line and column of the same file, but for whitespace
/// at the end of the file's name.
pub proof fn law_client_passes_a_position_on(line: u32, column: u32, file: Seq<char>)
    requires
        !file.contains('\n'),
        trim_end(file).len() > 0,
    ensures
        ({
            let arg = decimal(line as nat) + seq![':'] + decimal(column as nat) + seq![':'] + file;
            &&& position(arg) == (Position::At { line: line as nat, column: column as nat, file })
            &&& request(command_text(line as nat, column as nat, file)) == (Request::Forward {
                line: line as nat,
                column: column as nat,
                file: trim_end(file),
            })
        }),
{
    law_position_with_column_reads_back(line as usize, column as usize, file);
    law_forward_command_is_understood(line, column, file);
}

/// How a place is read: up to the first colon stands the line; up to the
/// second the column, where there is one; and all that follows is the file.
/// What is no number is complained of, the line first.
pub proof fn law_position_is_read(
    arg: &str,
    parsed: Result<(usize, usize, String), String>,
    first: Seq<char>,
    second: Seq<char>,
    file: Seq<char>,
)
    requires
        call_ensures(parse_synctex_arg, (arg,), parsed),
        !first.contains(':'),
        !second.contains(':'),
    ensures
        ({
            let max = usize::MAX as nat;
            let l = unsigned_up_to(first, max);
            let c = unsigned_up_to(second, max);
            &&& arg@ == first + seq![':'] + second + seq![':'] + file ==> {
                &&& parsed is Ok <==> l is Some && c is Some
                &&& parsed is Ok ==> parsed->Ok_0.0 == l->0 && parsed->Ok_0.1 == c->0
                    && parsed->Ok_0.2@ == file
                &&& l is None ==> parsed->Err_0@ == "invalid line number: "@ + usize_error_text(
                    first,
                    max,
                )
                &&& l is Some && c is None ==> parsed->Err_0@ == "invalid column number: "@
                    + usize_error_text(second, max)
            }
            &&& arg@ == first + seq![':'] + second ==> {
                &&& parsed is Ok <==> l is Some
                &&& parsed is Ok ==> parsed->Ok_0.0 == l->0 && parsed->Ok_0.1 == 0
                    && parsed->Ok_0.2@ == second
                &&& l is None ==> parsed->Err_0@ == "invalid line number: "@ + usize_error_text(
                    first,
                    max,
                )
            }
            &&& arg@ == first ==> parsed is Err && parsed->Err_0@
                == "expected format line:col:file or line:file"@
        }),
{
    law_cut_finds_both_sides(first, ':', second + seq![':'] + file);
    law_cut_finds_both_sides(first, ':', second);
    law_cut_finds_both_sides(second, ':', file);
    assert(first + seq![':'] + second + seq![':'] + file == first + seq![':'] + (second + seq![':']
        + file));
}

/// What the command line asks for, one thing at a time and in this order: the
/// version; the socket of the PDF that is named for it; a request, about the
/// place that is named, to the viewer of the PDF that is named; and else to
/// show that PDF.
pub proof fn law_modes_come_in_order<P>(
    version: bool,
    socket_path: Option<P>,
    forward: Option<&str>,
    file: Option<P>,
    mode: Result<Mode<P>, String>,
    parsed: Result<(usize, usize, String), String>,
)
    requires
        call_ensures(choose_mode::<P>, (version, socket_path, forward, file), mode),
        forward is Some ==> call_ensures(parse_synctex_arg, (forward->0,), parsed),
    ensures
        version <==> mode is Ok && mode->Ok_0 is Version,
        !version && socket_path is Some <==> mode is Ok && mode->Ok_0 is SocketPath,
        mode is Ok && mode->Ok_0 is SocketPath ==> socket_path == Some(mode->Ok_0->SocketPath_0),
        mode is Ok && mode->Ok_0 is View <==> !version && socket_path is None && forward is None
            && file is Some,
        mode is Ok && mode->Ok_0 is View ==> file == Some(mode->Ok_0->View_0),
        mode is Ok && mode->Ok_0 is Forward <==> !version && socket_path is None && forward is Some
            && file is Some && parsed is Ok && parsed->Ok_0.0 <= u32::MAX && parsed->Ok_0.1
            <= u32::MAX,
        mode is Ok && mode->Ok_0 is Forward ==> {
            &&& file == Some(mode->Ok_0->pdf)
            &&& mode->Ok_0->line == parsed->Ok_0.0
            &&& mode->Ok_0->column == parsed->Ok_0.1
            &&& mode->Ok_0->file@ == parsed->Ok_0.2@
        },
        !version && socket_path is None && forward is Some && file is None ==> mode is Err
            && mode->Err_0@ == "--forward requires a PDF file argument"@,
        !version && socket_path is None && forward is Some && file is Some && parsed is Err
            ==> mode is Err && mode->Err_0@ == "invalid --forward argument: "@ + parsed->Err_0@,
        !version && socket_path is None && forward is None && file is None ==> mode is Err
            && mode->Err_0@
            == "Please specify the file to open, e.g. `pdftui ./my_example_pdf.pdf`"@,
{
}

/// A limit of none, or of zero, is no limit; every other is kept as it is.
pub proof fn law_zero_means_no_limit(option: Option<usize>, limit: PrerenderLimit)
    requires
        call_ensures(prerender_limit, (option,), limit),
    ensures
        limit is All <==> option is None || option->0 == 0,
        limit is Limited ==> option == Some(limit->Limited_0),
{
}

/// The delay before a reload is the one that was asked for, and fifty
/// milliseconds where none was.
pub proof fn law_delay_defaults_to_fifty(option: Option<u64>, delay: u64)
    requires
        call_ensures(reload_delay, (option,), delay),
    ensures
        option is Some ==> delay == option->0,
        option is None ==> delay == 50,
{
}

/// A forward search at the start is for the line, the column and the file of
/// its option. What is found is shown with its box, on whatever page; what goes
/// wrong, the user reads; and a bad option ends the program.
pub proof fn law_opening_search_is_done<T, Z, I, S>(
    arg: &str,
    search: &S,
    result: Result<Opening<T, Z, I>, String>,
    parsed: Result<(usize, usize, String), String>,
) where S: Fn(usize, usize, &str) -> Result<ForwardResult<T>, SyncTexError>
    requires
        call_ensures(opening_search::<T, Z, I, S>, (arg, search), result),
        call_ensures(parse_synctex_arg, (arg,), parsed),
    ensures
        parsed is Err ==> result is Err && result->Err_0@
            == "Invalid --synctex-forward argument: "@ + parsed->Err_0@,
        parsed is Ok ==> exists|
            line: usize,
            column: usize,
            name: &str,
            found: Result<ForwardResult<T>, SyncTexError>,
        |
            {
                &&& #[trigger] call_ensures(*search, (line, column, name), found)
                &&& line == parsed->Ok_0.0
                &&& column == parsed->Ok_0.1
                &&& name@ == parsed->Ok_0.2@
                &&& result is Ok
                &&& found is Ok <==> result->Ok_0 is Found
                &&& found is Ok ==> shows(result->Ok_0->Found_0, found->Ok_0)
                &&& found is Err ==> result->Ok_0->Complaint_0 is Error
                    && result->Ok_0->Complaint_0->Error_0@ == "SyncTeX: "@ + error_text(
                    found->Err_0,
                )
            },
{
    if parsed is Ok {
        let found = choose|found: Result<ForwardResult<T>, SyncTexError>|
            {
                &&& #[trigger] searched(
                    *search,
                    parsed->Ok_0.0 as nat,
                    parsed->Ok_0.1 as nat,
                    parsed->Ok_0.2@,
                    found,
                )
                &&& match found {
                    Ok(r) => result == Ok::<Opening<T, Z, I>, String>(Opening::Found(jump_to(r))),
                    Err(e) => result matches Ok(Opening::Complaint(m)) && is_report(
                        m,
                        "SyncTeX: "@ + error_text(e),
                    ),
                }
            };
        let (line, column, name) = choose|line: usize, column: usize, name: &str|
            {
                &&& #[trigger] call_ensures(*search, (line, column, name), found)
                &&& line == parsed->Ok_0.0
                &&& column == parsed->Ok_0.1
                &&& name@ == parsed->Ok_0.2@
            };
        if found is Ok {
            law_found_box_is_shown(found->Ok_0, result->Ok_0->Found_0);
        }
        assert(call_ensures(*search, (line, column, name), found));
    }
}

} // verus!
