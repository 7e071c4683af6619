//! The socket over which an editor talks to a running viewer, and the lines
//! that they exchange on it.

use crate::number::{
    decimal, hex, hex_char, is_digit, law_decimal_reads_back, parse_usize, to_decimal,
    to_hex16, unsigned_literal, unsigned_up_to, usize_error_text,
};
use crate::messages::{jump, jump_to, law_found_box_is_shown, shows, Jump};
use crate::paths::{
    dot, entry_of, is_entry_name, law_entry_adds_a_component, law_spelling_keeps_the_components,
    path_buf_bytes, path_buf_of, path_bytes, path_hash, path_hash_input, path_parts, relative,
};
use crate::synctex::{error_text, searched, ForwardResult, SyncTexError};
use crate::text::{
    is_whitespace, lemma_first_index, lemma_trim_end_of_both, same, split_first, split_once, trim,
    trim_end, trim_start, trimmed,
};
use std::collections::hash_map::DefaultHasher;
use std::hash::Hasher;
use std::path::{Path, PathBuf};
use vstd::prelude::*;
use vstd::std_specs::hash::DefaultHasherAdditionalSpecFns;
use vstd::string::*;
use vstd::utf8::{decode_utf8, encode_utf8, encode_utf8_decode_utf8};

verus! {

/// The hash of a path.
pub open spec fn path_digest(bytes: Seq<u8>) -> u64 {
    DefaultHasher::spec_finish(
        path_hash_input(!relative(bytes), path_parts(bytes), usize::MAX as nat),
    )
}

/// The name of the socket for a PDF whose path has this hash.
pub open spec fn socket_text(hash: u64) -> Seq<char> {
    "/tmp/pdftui-"@ + hex(hash as nat, 16) + ".sock"@
}

/// The name of the socket for a PDF whose path has this hash.
pub fn socket_name(hash: u64) -> (name: String)
    ensures
        name@ == socket_text(hash),
{
    "/tmp/pdftui-".to_owned().concat(to_hex16(hash).as_str()).concat(".sock")
}

/// Compute the deterministic socket path for a given PDF file.
#[must_use]
pub fn socket_path(pdf_path: &Path) -> (socket: PathBuf)
    ensures
        path_buf_bytes(&socket) == encode_utf8(socket_text(path_digest(path_bytes(pdf_path)))),
{
    let mut hasher = DefaultHasher::new();
    path_hash(pdf_path, &mut hasher);
    assert(hasher@ == path_hash_input(
        !relative(path_bytes(pdf_path)),
        path_parts(path_bytes(pdf_path)),
        usize::MAX as nat,
    ));
    path_buf_of(socket_name(hasher.finish()))
}

/// What a line that came over the socket asks for.
pub enum Request {
    /// Show the place in the PDF of a line and a column of a source file
    Forward { line: nat, column: nat, file: Seq<char> },
    /// Nothing that can be done, and what to answer
    Refused { message: Seq<char> },
}

/// The text up to the first space.
pub open spec fn first_word(text: Seq<char>) -> Seq<char> {
    match split_first(text, ' ') {
        Some((word, _)) => word,
        None => text,
    }
}

/// What follows the first word of a text: two more words, and the rest.
pub open spec fn operands(text: Seq<char>) -> Option<(Seq<char>, Seq<char>, Seq<char>)> {
    match split_first(text, ' ') {
        None => None,
        Some((_, after)) => match split_first(after, ' ') {
            None => None,
            Some((first, after)) => match split_first(after, ' ') {
                None => None,
                Some((second, rest)) => Some((first, second, rest)),
            },
        },
    }
}

/// What a line that came over the socket asks for.
pub open spec fn request(line: Seq<char>) -> Request {
    let text = trimmed(line);
    let max = usize::MAX as nat;
    if first_word(text) != "forward"@ {
        Request::Refused { message: "unknown command: "@ + first_word(text) }
    } else {
        match operands(text) {
            None => Request::Refused { message: "usage: forward <line> <col> <file>"@ },
            Some((line, column, file)) => match (
                unsigned_up_to(line, max),
                unsigned_up_to(column, max),
            ) {
                (Some(line), Some(column)) => Request::Forward { line, column, file },
                (None, _) => Request::Refused { message: "bad line: "@ + usize_error_text(line, max) },
                (_, None) => Request::Refused {
                    message: "bad col: "@ + usize_error_text(column, max),
                },
            },
        }
    }
}

/// A request to show the place of a source line in the PDF.
pub struct ForwardRequest {
    /// The line, counted from one
    pub line: usize,
    /// The column, counted from zero
    pub column: usize,
    /// The source file
    pub file: String,
}

/// Reads a line that came over the socket.
pub fn parse_ipc_line(line: &str) -> (parsed: Result<ForwardRequest, String>)
    ensures
        match request(line@) {
            Request::Forward { line, column, file } => parsed matches Ok(r) && r.line == line
                && r.column == column && r.file@ == file,
            Request::Refused { message } => parsed matches Err(m) && m@ == message,
        },
{
    let text = trim(line);
    let (word, after) = match split_once(text, ' ') {
        Some((word, after)) => (word, Some(after)),
        None => (text, None),
    };
    if !same(word, "forward") {
        return Err("unknown command: ".to_owned().concat(word));
    }
    let usage = "usage: forward <line> <col> <file>";
    let (first, after) = match after {
        Some(after) => match split_once(after, ' ') {
            Some(parts) => parts,
            None => return Err(usage.to_owned()),
        },
        None => return Err(usage.to_owned()),
    };
    let (second, file) = match split_once(after, ' ') {
        Some(parts) => parts,
        None => return Err(usage.to_owned()),
    };
    let line: usize = match parse_usize(first) {
        Ok(n) => n,
        Err(e) => return Err("bad line: ".to_owned().concat(e.as_str())),
    };
    let column: usize = match parse_usize(second) {
        Ok(n) => n,
        Err(e) => return Err("bad col: ".to_owned().concat(e.as_str())),
    };
    Ok(ForwardRequest { line, column, file: file.to_owned() })
}

/// Does what a line that came over the socket asks for: one search, with the
/// line, the column and the file of the request. The result is what the search
/// sets in motion, or what to answer where the line is refused or the search
/// fails.
pub fn handle_ipc_line<T, Z, I, S>(line: &str, search: &S) -> (result: Result<
    Jump<T, Z, I>,
    String,
>) where S: Fn(usize, usize, &str) -> Result<ForwardResult<T>, SyncTexError>
    requires
        forall|line: usize, column: usize, file: &str|
            call_requires(*search, (line, column, file)),
    ensures
        match request(line@) {
            Request::Forward { line, column, file } => exists|
                found: Result<ForwardResult<T>, SyncTexError>,
            |
                {
                    &&& #[trigger] searched(*search, line, column, file, found)
                    &&& match found {
                        Ok(r) => result == Ok::<Jump<T, Z, I>, String>(jump_to(r)),
                        Err(e) => result matches Err(m) && m@ == error_text(e),
                    }
                },
            Request::Refused { message } => result matches Err(m) && m@ == message,
        },
{
    match parse_ipc_line(line) {
        Ok(r) => {
            let name = r.file.as_str();
            let found = search(r.line, r.column, name);
            assert(call_ensures(*search, (r.line, r.column, name), found));
            assert(searched(*search, r.line as nat, r.column as nat, r.file@, found));
            match found {
                Ok(result) => Ok(jump(result)),
                Err(e) => Err(e.message()),
            }
        },
        Err(message) => Err(message),
    }
}

/// The answer to a line: the page that was found, or what went wrong.
pub open spec fn response_text(result: Result<usize, Seq<char>>) -> Seq<char> {
    match result {
        Ok(page) => "ok "@ + decimal(page as nat) + "\n"@,
        Err(message) => "error "@ + message + "\n"@,
    }
}

/// The answer to a line: the page that was found, or what went wrong.
pub fn response(result: Result<usize, &str>) -> (text: String)
    ensures
        text@ == response_text(
            match result {
                Ok(page) => Ok(page),
                Err(message) => Err(message@),
            },
        ),
{
    match result {
        Ok(page) => "ok ".to_owned().concat(to_decimal(page as u64).as_str()).concat("\n"),
        Err(message) => "error ".to_owned().concat(message).concat("\n"),
    }
}

/// The line that asks a running viewer for a forward search.
pub open spec fn command_text(line: nat, column: nat, file: Seq<char>) -> Seq<char> {
    "forward "@ + decimal(line) + " "@ + decimal(column) + " "@ + file
}

/// The line, with its end, that asks a running viewer for a forward search.
pub fn forward_command(line: u32, column: u32, file: &str) -> (text: String)
    ensures
        text@ == command_text(line as nat, column as nat, file@) + "\n"@,
{
    "forward ".to_owned().concat(to_decimal(line as u64).as_str()).concat(" ").concat(
        to_decimal(column as u64).as_str(),
    ).concat(" ").concat(file).concat("\n")
}

/// What a client reports of the line that it read, nothing where the viewer
/// said nothing.
pub fn client_report(line: Option<String>) -> (text: String)
    ensures
        text@ == match line {
            Some(line) => trimmed(line@),
            None => Seq::empty(),
        },
{
    match line {
        Some(line) => trim(line.as_str()).to_owned(),
        None => String::new(),
    }
}

proof fn lemma_split_after_word(word: Seq<char>, rest: Seq<char>)
    requires
        !word.contains(' '),
    ensures
        split_first(word + seq![' '] + rest, ' ') == Some((word, rest)),
{
    let whole = word + seq![' '] + rest;
    let n = word.len() as int;
    assert forall|j: int| 0 <= j < n implies whole[j] != ' ' by {
        assert(word[j] == whole[j]);
    }
    lemma_first_index(whole, ' ', n);
    assert(whole.take(n) == word);
    assert(whole.skip(n + 1) == rest);
}

proof fn lemma_decimal_is_a_word(n: nat)
    ensures
        !decimal(n).contains(' '),
        decimal(n).len() > 0,
        !is_whitespace(decimal(n).last()),
{
    law_decimal_reads_back(n);
    let d = decimal(n);
    assert(is_digit(d[d.len() - 1]));
    assert forall|i: int| 0 <= i < d.len() implies d[i] != ' ' by {
        assert(is_digit(d[i]));
    }
}

proof fn lemma_first_line(line: Seq<char>)
    requires
        !line.contains('\n'),
    ensures
        split_first(line + "\n"@, '\n') == Some((line, Seq::<char>::empty())),
{
    reveal_strlit("\n");
    let whole = line + "\n"@;
    let n = line.len() as int;
    assert forall|j: int| 0 <= j < n implies whole[j] != '\n' by {
        assert(line[j] == whole[j]);
    }
    lemma_first_index(whole, '\n', n);
    assert(whole.take(n) == line);
    assert(whole.skip(n + 1) == Seq::<char>::empty());
}

/// What one end writes the other end reads. The text that asks for a forward
/// search is one line, and that line is understood as the search it asks for,
/// but for whitespace at the end of the file's name, which is lost.
pub proof fn law_forward_command_is_understood(line: u32, column: u32, file: Seq<char>)
    requires
        !file.contains('\n'),
        trim_end(file).len() > 0,
    ensures
        split_first(command_text(line as nat, column as nat, file) + "\n"@, '\n') == Some(
            (command_text(line as nat, column as nat, file), Seq::<char>::empty()),
        ),
        request(command_text(line as nat, column as nat, file)) == (Request::Forward {
            line: line as nat,
            column: column as nat,
            file: trim_end(file),
        }),
{
    reveal_strlit("forward ");
    reveal_strlit("forward");
    reveal_strlit(" ");
    let l = decimal(line as nat);
    let c = decimal(column as nat);
    let text = command_text(line as nat, column as nat, file);
    let name = trim_end(file);
    let front = "forward "@ + l + " "@ + c + " "@;
    assert(text == front + file);
    assert(text[0] == 'f');
    assert(trim_start(text) == text);
    lemma_trim_end_of_both(front, file);
    assert(trimmed(text) == front + name);
    lemma_decimal_is_a_word(line as nat);
    lemma_decimal_is_a_word(column as nat);
    law_decimal_reads_back(line as nat);
    law_decimal_reads_back(column as nat);
    let after = l + seq![' '] + (c + seq![' '] + name);
    assert(!"forward"@.contains(' '));
    lemma_split_after_word("forward"@, after);
    assert(front + name == "forward"@ + seq![' '] + after);
    lemma_split_after_word(l, c + seq![' '] + name);
    lemma_split_after_word(c, name);
    assert(!front.contains('\n')) by {
        assert(!"forward "@.contains('\n'));
        assert forall|i: int| 0 <= i < front.len() implies front[i] != '\n' by {
            let n = "forward "@.len() as int;
            if i < n {
                assert("forward "@[i] == front[i]);
            } else if n <= i < n + l.len() {
                assert(is_digit(l[i - n]));
            } else if n + l.len() < i < n + l.len() + 1 + c.len() {
                assert(is_digit(c[i - n - l.len() - 1]));
            }
        }
    }
    assert(!text.contains('\n')) by {
        assert forall|i: int| 0 <= i < text.len() implies text[i] != '\n' by {
            if i < front.len() {
                assert(front[i] == text[i]);
            } else {
                assert(file[i - front.len()] == text[i]);
            }
        }
    }
    lemma_first_line(text);
}

/// A client reports the page that the viewer answers with: the answer is one
/// line, and nothing of that line is lost.
pub proof fn law_page_is_reported(page: usize)
    ensures
        ({
            let line = "ok "@ + decimal(page as nat);
            &&& split_first(response_text(Ok(page)), '\n') == Some((line, Seq::<char>::empty()))
            &&& trimmed(line) == line
        }),
{
    reveal_strlit("ok ");
    let d = decimal(page as nat);
    let line = "ok "@ + d;
    lemma_decimal_is_a_word(page as nat);
    law_decimal_reads_back(page as nat);
    assert(line[0] == 'o');
    assert(trim_start(line) == line);
    assert(line.last() == d.last());
    assert forall|i: int| 0 <= i < line.len() implies line[i] != '\n' by {
        if i >= 3 {
            assert(is_digit(d[i - 3]));
        }
    }
    lemma_first_line(line);
}

/// A client reports what went wrong: a complaint of one line comes back whole,
/// but for whitespace at its end.
pub proof fn law_complaint_is_reported(message: Seq<char>)
    requires
        !message.contains('\n'),
        trim_end(message).len() > 0,
    ensures
        ({
            let line = "error "@ + message;
            &&& split_first(response_text(Err(message)), '\n') == Some(
                (line, Seq::<char>::empty()),
            )
            &&& trimmed(line) == "error "@ + trim_end(message)
        }),
{
    reveal_strlit("error ");
    let line = "error "@ + message;
    assert(line[0] == 'e');
    assert(trim_start(line) == line);
    lemma_trim_end_of_both("error "@, message);
    assert forall|i: int| 0 <= i < line.len() implies line[i] != '\n' by {
        if i >= 6 {
            assert(message[i - 6] == line[i]);
        }
    }
    lemma_first_line(line);
}

proof fn lemma_hex_tells_apart(a: nat, b: nat, width: nat)
    requires
        hex(a, width) == hex(b, width),
        a < vstd::arithmetic::power::pow(16, width),
        b < vstd::arithmetic::power::pow(16, width),
    ensures
        a == b,
    decreases width,
{
    reveal(vstd::arithmetic::power::pow);
    if width > 0 {
        let w = (width - 1) as nat;
        assert(hex(a, width).drop_last() == hex(a / 16, w));
        assert(hex(b, width).drop_last() == hex(b / 16, w));
        assert(hex(a, width).last() == hex_char(a % 16));
        assert(hex(b, width).last() == hex_char(b % 16));
        let p = vstd::arithmetic::power::pow(16, w);
        assert(vstd::arithmetic::power::pow(16, width) == 16 * p);
        lemma_hex_tells_apart(a / 16, b / 16, w);
    }
}

/// PDFs whose paths have different hashes get different sockets.
pub proof fn law_sockets_of_different_hashes_differ(a: u64, b: u64)
    requires
        a != b,
    ensures
        socket_text(a) != socket_text(b),
{
    if socket_text(a) == socket_text(b) {
        lemma_hex_length(a as nat, 16);
        lemma_hex_length(b as nat, 16);
        let n = "/tmp/pdftui-"@.len() as int;
        assert(hex(a as nat, 16) == socket_text(a).subrange(n, n + 16));
        assert(hex(b as nat, 16) == socket_text(b).subrange(n, n + 16));
        assert(vstd::arithmetic::power::pow(16, 16) == 0x1_0000_0000_0000_0000) by {
            reveal_with_fuel(vstd::arithmetic::power::pow, 17);
        }
        lemma_hex_tells_apart(a as nat, b as nat, 16);
    }
}

/// Paths with the same components get the same socket.
pub proof fn law_equal_paths_share_a_socket(p: Seq<u8>, q: Seq<u8>)
    requires
        relative(p) == relative(q),
        path_parts(p) == path_parts(q),
    ensures
        socket_text(path_digest(p)) == socket_text(path_digest(q)),
{
}

/// However a path is spelled, with separators repeated or at its end, or with
/// dots on the way, its PDF has one socket.
pub proof fn law_spellings_share_a_socket(a: Seq<u8>, b: Seq<u8>)
    ensures
        ({
            let plain = entry_of(a, b);
            let doubled = entry_of(a, entry_of(Seq::empty(), b));
            let detour = entry_of(a, entry_of(seq![dot()], b));
            let ended = entry_of(plain, Seq::empty());
            &&& socket_text(path_digest(doubled)) == socket_text(path_digest(plain))
            &&& socket_text(path_digest(detour)) == socket_text(path_digest(plain))
            &&& socket_text(path_digest(ended)) == socket_text(path_digest(plain))
        }),
{
    law_spelling_keeps_the_components(a, b);
}

proof fn lemma_hex_length(n: nat, width: nat)
    ensures
        hex(n, width).len() == width,
    decreases width,
{
    if width > 0 {
        lemma_hex_length(n / 16, (width - 1) as nat);
    }
}

/// What is hashed for a socket is the whole path of the PDF: whether it begins
/// at the root, and every one of its components, the last as well as the
/// first.
pub proof fn law_socket_is_named_by_the_whole_path(pdf_path: &Path, socket: PathBuf)
    requires
        call_ensures(socket_path, (pdf_path,), socket),
    ensures
        path_buf_bytes(&socket) == encode_utf8(
            "/tmp/pdftui-"@ + hex(
                DefaultHasher::spec_finish(
                    path_hash_input(
                        !relative(path_bytes(pdf_path)),
                        path_parts(path_bytes(pdf_path)),
                        usize::MAX as nat,
                    ),
                ) as nat,
                16,
            ) + ".sock"@,
        ),
{
}

/// Two PDFs share a socket only if their whole paths have the same hash.
pub proof fn law_shared_socket_means_shared_hash(
    p: &Path,
    q: &Path,
    socket: PathBuf,
    other: PathBuf,
)
    requires
        call_ensures(socket_path, (p,), socket),
        call_ensures(socket_path, (q,), other),
        path_buf_bytes(&socket) == path_buf_bytes(&other),
    ensures
        DefaultHasher::spec_finish(
            path_hash_input(
                !relative(path_bytes(p)),
                path_parts(path_bytes(p)),
                usize::MAX as nat,
            ),
        ) == DefaultHasher::spec_finish(
            path_hash_input(
                !relative(path_bytes(q)),
                path_parts(path_bytes(q)),
                usize::MAX as nat,
            ),
        ),
{
    broadcast use encode_utf8_decode_utf8;

    let a = path_digest(path_bytes(p));
    let b = path_digest(path_bytes(q));
    assert(decode_utf8(encode_utf8(socket_text(a))) == socket_text(a));
    assert(decode_utf8(encode_utf8(socket_text(b))) == socket_text(b));
    if a != b {
        law_sockets_of_different_hashes_differ(a, b);
    }
}

/// Two PDFs of one directory, at any depth, share a socket only if the hash
/// makes no difference between their names.
pub proof fn law_neighbors_have_their_own_sockets(
    p: &Path,
    q: &Path,
    socket: PathBuf,
    other: PathBuf,
    dir: Seq<u8>,
    name: Seq<u8>,
    other_name: Seq<u8>,
)
    requires
        call_ensures(socket_path, (p,), socket),
        call_ensures(socket_path, (q,), other),
        dir.len() > 0,
        is_entry_name(name),
        is_entry_name(other_name),
        path_bytes(p) == entry_of(dir, name),
        path_bytes(q) == entry_of(dir, other_name),
        DefaultHasher::spec_finish(
            path_hash_input(!relative(dir), path_parts(dir).push(name), usize::MAX as nat),
        ) != DefaultHasher::spec_finish(
            path_hash_input(!relative(dir), path_parts(dir).push(other_name), usize::MAX as nat),
        ),
    ensures
        path_buf_bytes(&socket) != path_buf_bytes(&other),
{
    law_entry_adds_a_component(dir, name);
    law_entry_adds_a_component(dir, other_name);
    if path_buf_bytes(&socket) == path_buf_bytes(&other) {
        law_shared_socket_means_shared_hash(p, q, socket, other);
    }
}

/// A line that asks for a forward search: after the word `forward` come two
/// words and the file, with one space between each. The words are the line and
/// the column, in this order, if they are numbers; the file is all that
/// follows, spaces included.
pub proof fn law_forward_line_is_read(
    line: &str,
    parsed: Result<ForwardRequest, String>,
    first: Seq<char>,
    second: Seq<char>,
    file: Seq<char>,
)
    requires
        call_ensures(parse_ipc_line, (line,), parsed),
        !first.contains(' '),
        !second.contains(' '),
        trimmed(line@) == "forward"@ + seq![' '] + first + seq![' '] + second + seq![' '] + file,
    ensures
        ({
            let max = usize::MAX as nat;
            let l = unsigned_up_to(first, max);
            let c = unsigned_up_to(second, max);
            &&& parsed is Ok <==> l is Some && c is Some
            &&& parsed is Ok ==> parsed->Ok_0.line == l->0 && parsed->Ok_0.column == c->0
                && parsed->Ok_0.file@ == file
            &&& l is None ==> parsed->Err_0@ == "bad line: "@ + usize_error_text(first, max)
            &&& l is Some && c is None ==> parsed->Err_0@ == "bad col: "@ + usize_error_text(
                second,
                max,
            )
        }),
{
    lemma_forward_operands(trimmed(line@), first, second, file);
}

proof fn lemma_forward_operands(
    text: Seq<char>,
    first: Seq<char>,
    second: Seq<char>,
    file: Seq<char>,
)
    requires
        !first.contains(' '),
        !second.contains(' '),
        text == "forward"@ + seq![' '] + first + seq![' '] + second + seq![' '] + file,
    ensures
        first_word(text) == "forward"@,
        operands(text) == Some((first, second, file)),
{
    reveal_strlit("forward");
    assert(!"forward"@.contains(' '));
    let after = first + seq![' '] + (second + seq![' '] + file);
    assert(text == "forward"@ + seq![' '] + after);
    lemma_split_after_word("forward"@, after);
    lemma_split_after_word(first, second + seq![' '] + file);
    lemma_split_after_word(second, file);
}

/// A line that begins with any other word is refused, and the refusal names
/// the word.
pub proof fn law_other_commands_are_refused(
    line: &str,
    parsed: Result<ForwardRequest, String>,
    word: Seq<char>,
    rest: Seq<char>,
)
    requires
        call_ensures(parse_ipc_line, (line,), parsed),
        !word.contains(' '),
        word != "forward"@,
        trimmed(line@) == word || trimmed(line@) == word + seq![' '] + rest,
    ensures
        parsed matches Err(m) && m@ == "unknown command: "@ + word,
{
    lemma_split_after_word(word, rest);
}

/// A line that asks for a forward search but lacks a word is refused with how
/// it should be.
pub proof fn law_short_commands_are_refused(
    line: &str,
    parsed: Result<ForwardRequest, String>,
    first: Seq<char>,
    second: Seq<char>,
)
    requires
        call_ensures(parse_ipc_line, (line,), parsed),
        !first.contains(' '),
        !second.contains(' '),
        trimmed(line@) == "forward"@ || trimmed(line@) == "forward"@ + seq![' '] + first || trimmed(
            line@,
        ) == "forward"@ + seq![' '] + (first + seq![' '] + second),
    ensures
        parsed matches Err(m) && m@ == "usage: forward <line> <col> <file>"@,
{
    reveal_strlit("forward");
    assert(!"forward"@.contains(' '));
    lemma_split_after_word("forward"@, first);
    lemma_split_after_word("forward"@, first + seq![' '] + second);
    lemma_split_after_word(first, second);
}

/// A line that asks for a forward search leads to one search, for its line, its
/// column and its file. What is found is shown with its box, on whatever page;
/// what goes wrong is said.
pub proof fn law_forward_line_is_done<T, Z, I, S>(
    line: &str,
    search: &S,
    result: Result<Jump<T, Z, I>, String>,
    first: Seq<char>,
    second: Seq<char>,
    file: Seq<char>,
) where S: Fn(usize, usize, &str) -> Result<ForwardResult<T>, SyncTexError>
    requires
        call_ensures(handle_ipc_line::<T, Z, I, S>, (line, search), result),
        !first.contains(' '),
        !second.contains(' '),
        trimmed(line@) == "forward"@ + seq![' '] + first + seq![' '] + second + seq![' '] + file,
        unsigned_up_to(first, usize::MAX as nat) is Some,
        unsigned_up_to(second, usize::MAX as nat) is Some,
    ensures
        exists|l: usize, c: usize, name: &str, found: Result<ForwardResult<T>, SyncTexError>|
            {
                &&& #[trigger] call_ensures(*search, (l, c, name), found)
                &&& unsigned_literal(first) == Some(l as nat)
                &&& unsigned_literal(second) == Some(c as nat)
                &&& name@ == file
                &&& found is Ok <==> result is Ok
                &&& found is Ok ==> shows(result->Ok_0, found->Ok_0)
                &&& found is Err ==> result->Err_0@ == error_text(found->Err_0)
            },
{
    lemma_forward_operands(trimmed(line@), first, second, file);
    let max = usize::MAX as nat;
    let found = choose|found: Result<ForwardResult<T>, SyncTexError>|
        {
            &&& #[trigger] searched(
                *search,
                unsigned_up_to(first, max)->0,
                unsigned_up_to(second, max)->0,
                file,
                found,
            )
            &&& match found {
                Ok(r) => result == Ok::<Jump<T, Z, I>, String>(jump_to(r)),
                Err(e) => result matches Err(m) && m@ == error_text(e),
            }
        };
    let (l, c, name) = choose|l: usize, c: usize, name: &str|
        {
            &&& #[trigger] call_ensures(*search, (l, c, name), found)
            &&& l == unsigned_up_to(first, max)->0
            &&& c == unsigned_up_to(second, max)->0
            &&& name@ == file
        };
    if found is Ok {
        law_found_box_is_shown(found->Ok_0, result->Ok_0);
    }
    assert(call_ensures(*search, (l, c, name), found));
}

/// A line that is refused leads to no search and shows nothing.
pub proof fn law_refused_line_shows_nothing<T, Z, I, S>(
    line: &str,
    search: &S,
    result: Result<Jump<T, Z, I>, String>,
    parsed: Result<ForwardRequest, String>,
) where S: Fn(usize, usize, &str) -> Result<ForwardResult<T>, SyncTexError>
    requires
        call_ensures(handle_ipc_line::<T, Z, I, S>, (line, search), result),
        call_ensures(parse_ipc_line, (line,), parsed),
        parsed is Err,
    ensures
        result matches Err(m) && m@ == parsed->Err_0@,
{
}

/// The answer to a line is the word `ok` and the page, or the word `error` and
/// the complaint, and then the end of the line.
pub proof fn law_answer_says_page_or_complaint(
    result: Result<usize, &str>,
    text: String,
)
    requires
        call_ensures(response, (result,), text),
    ensures
        result matches Ok(page) ==> text@ == "ok "@ + decimal(page as nat) + "\n"@,
        result matches Err(message) ==> text@ == "error "@ + message@ + "\n"@,
{
}

/// The line that a client sends is read as the search that it was asked for:
/// the same line and column, and the file, but for whitespace at its end.
pub proof fn law_sent_line_is_read(
    line: u32,
    column: u32,
    file: &str,
    text: String,
    received: &str,
    parsed: Result<ForwardRequest, String>,
)
    requires
        call_ensures(forward_command, (line, column, file), text),
        call_ensures(parse_ipc_line, (received,), parsed),
        received@ + "\n"@ == text@,
        !file@.contains('\n'),
        trim_end(file@).len() > 0,
    ensures
        text@ == "forward "@ + decimal(line as nat) + " "@ + decimal(column as nat) + " "@ + file@
            + "\n"@,
        parsed matches Ok(r) && r.line == line && r.column == column && r.file@ == trim_end(file@),
{
    reveal_strlit("\n");
    let command = command_text(line as nat, column as nat, file@);
    assert(received@ == text@.drop_last());
    assert(received@ == command);
    law_forward_command_is_understood(line, column, file@);
}

/// A client reports the line that it read without the whitespace at its ends,
/// and nothing where it read none.
pub proof fn law_client_reports_the_line(line: Option<String>, text: String)
    requires
        call_ensures(client_report, (line,), text),
    ensures
        line matches Some(l) ==> text@ == trimmed(l@),
        line is None ==> text@.len() == 0,
{
}

/// The name of a socket: its directory, sixteen hexadecimal digits, which tell
/// one hash from every other, and the ending.
pub proof fn law_socket_name_holds_the_hash(hash: u64, name: String)
    requires
        call_ensures(socket_name, (hash,), name),
    ensures
        name@ == "/tmp/pdftui-"@ + hex(hash as nat, 16) + ".sock"@,
        hex(hash as nat, 16).len() == 16,
{
    lemma_hex_length(hash as nat, 16);
}

} // verus!
