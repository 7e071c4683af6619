use std::cell::RefCell;
use std::collections::hash_map::DefaultHasher;
use std::hash::{Hash, Hasher};
use std::path::{Path, PathBuf};

use pdftui::ipc::{
    client_report, forward_command, handle_ipc_line, parse_ipc_line, response, socket_name,
    socket_path,
};
use pdftui::messages::{ConverterMsg, Jump, RenderNotif};
use pdftui::options::{choose_mode, Mode};
use pdftui::synctex::{ForwardResult, SyncTexError};

type Motion = Jump<f32, (), ()>;

fn never(_: usize, _: usize, _: &str) -> Result<ForwardResult<f32>, SyncTexError> {
    panic!("not asked for")
}

fn refusal(line: &str) -> String {
    let result: Result<Motion, String> = handle_ipc_line(line, &never);
    result.err().unwrap()
}

#[test]
fn socket_is_named_by_the_hash_of_the_path() {
    let pdf = Path::new("/home/me/main.pdf");
    let mut hasher = DefaultHasher::new();
    pdf.hash(&mut hasher);
    assert_eq!(
        socket_path(pdf),
        PathBuf::from(format!("/tmp/pdftui-{:016x}.sock", hasher.finish()))
    );
    assert_eq!(socket_path(pdf), socket_path(Path::new("/home/me/main.pdf")));
    assert_ne!(socket_path(pdf), socket_path(Path::new("/home/me/other.pdf")));
}

#[test]
fn spellings_of_a_path_share_a_socket() {
    let plain = socket_path(Path::new("/a/b.pdf"));
    for path in ["/a//b.pdf", "/a/./b.pdf", "/a/b.pdf/", "//a/b.pdf", "/./a/././b.pdf/."] {
        assert_eq!(Path::new(path), Path::new("/a/b.pdf"));
        assert_eq!(socket_path(Path::new(path)), plain);
    }
    assert_ne!(socket_path(Path::new("/a/../b.pdf")), plain);
}

#[test]
fn socket_name_has_sixteen_digits() {
    assert_eq!(socket_name(0), "/tmp/pdftui-0000000000000000.sock");
    assert_eq!(socket_name(0xdead_beef), "/tmp/pdftui-00000000deadbeef.sock");
    assert_eq!(socket_name(u64::MAX), "/tmp/pdftui-ffffffffffffffff.sock");
    assert_ne!(socket_name(16), socket_name(1));
}

#[test]
fn forward_command_is_understood() {
    let text = forward_command(42, u32::MAX, "my main.tex");
    assert_eq!(text, "forward 42 4294967295 my main.tex\n");
    let request = parse_ipc_line(text.lines().next().unwrap()).unwrap();
    assert_eq!(request.line, 42);
    assert_eq!(request.column, 4294967295);
    assert_eq!(request.file, "my main.tex");
}

#[test]
fn space_at_the_end_of_a_file_is_lost() {
    let text = forward_command(1, 2, " a.tex ");
    let request = parse_ipc_line(&text).unwrap();
    assert_eq!(request.file, " a.tex");
}

#[test]
fn forward_line_sets_a_jump_in_motion() {
    let asked: RefCell<Vec<(usize, usize, String)>> = RefCell::new(Vec::new());
    let search = |line: usize, column: usize, file: &str| {
        asked.borrow_mut().push((line, column, file.to_string()));
        Ok(ForwardResult { page: 6, x: 1.0, y: 2.0, h: 3.0, v: 4.0, width: 5.0, height: 6.0 })
    };
    let motion: Motion = handle_ipc_line("  forward 10 2 a.tex\r", &search).unwrap();
    assert_eq!(motion.page, 6);
    assert!(matches!(motion.to_converter, ConverterMsg::GoToPage(6)));
    match motion.to_renderer {
        RenderNotif::SyncTexJump { page, h, v, width, height } => {
            assert_eq!((page, h, v, width, height), (6, 3.0, 4.0, 5.0, 6.0));
        }
        _ => panic!("no jump"),
    }
    assert_eq!(asked.into_inner(), vec![(10, 2, "a.tex".to_string())]);
}

#[test]
fn failed_search_is_reported() {
    let search = |_: usize, _: usize, _: &str| -> Result<ForwardResult<f32>, SyncTexError> {
        Err(SyncTexError::NotFound)
    };
    let result: Result<Motion, String> = handle_ipc_line("forward 1 0 a.tex", &search);
    assert_eq!(result.err().unwrap(), "synctex command not found");
}

#[test]
fn other_lines_are_refused() {
    assert_eq!(refusal("backward 1 2 a.tex"), "unknown command: backward");
    assert_eq!(refusal(""), "unknown command: ");
    assert_eq!(refusal("   "), "unknown command: ");
    assert_eq!(refusal("forward"), "usage: forward <line> <col> <file>");
    assert_eq!(refusal("forward 1"), "usage: forward <line> <col> <file>");
    assert_eq!(refusal("forward 1 2"), "usage: forward <line> <col> <file>");
    assert_eq!(refusal("forward x y a.tex"), "bad line: invalid digit found in string");
    assert_eq!(refusal("forward 1 y a.tex"), "bad col: invalid digit found in string");
    assert_eq!(
        refusal("forward  1 2 a.tex"),
        "bad line: cannot parse integer from empty string"
    );
    assert_eq!(
        refusal("forward 99999999999999999999999 2 a.tex"),
        "bad line: number too large to fit in target type"
    );
}

#[test]
fn page_is_reported() {
    let text = response(Ok(3));
    assert_eq!(text, "ok 3\n");
    assert_eq!(client_report(text.lines().next().map(str::to_string)), "ok 3");
}

#[test]
fn complaint_is_reported() {
    let text = response(Err("bad line: x "));
    assert_eq!(text, "error bad line: x \n");
    assert_eq!(client_report(text.lines().next().map(str::to_string)), "error bad line: x");
    assert_eq!(client_report(None), "");
}

#[test]
fn client_passes_a_position_on() {
    match choose_mode(false, None, Some("42:7:my main.tex"), Some("main.pdf")) {
        Ok(Mode::Forward { pdf, line, column, file }) => {
            assert_eq!(pdf, "main.pdf");
            let request = parse_ipc_line(&forward_command(line, column, &file)).unwrap();
            assert_eq!(request.line, 42);
            assert_eq!(request.column, 7);
            assert_eq!(request.file, "my main.tex");
        }
        _ => panic!("another mode"),
    }
}
