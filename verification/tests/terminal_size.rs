use pdftui::terminal::{parse_size_report, SizeReply, WindowSize};

fn report(text: &str) -> Result<(u16, u16), String> {
    parse_size_report(text.as_bytes().to_vec())
}

#[test]
fn size_report_is_understood() {
    assert_eq!(report("\x1b[4;768;1024"), Ok((1024, 768)));
    assert_eq!(report("\x1b[4;0;65535"), Ok((65535, 0)));
    assert_eq!(report("4;3"), Ok((3, 4)));
    assert_eq!(report("\x1b[4\x1b[4;;;7;8;9"), Ok((8, 7)));
}

#[test]
fn bad_size_reports() {
    assert_eq!(
        report("\x1b[4;768"),
        Err("Terminal responded with unparseable size response '768'".to_string())
    );
    assert_eq!(
        report(""),
        Err("Terminal responded with unparseable size response ''".to_string())
    );
    assert_eq!(
        report("\x1b[4;x;1024"),
        Err(
            "Your terminal said its height is x, but that is not a 16-bit unsigned integer: \
             invalid digit found in string"
                .to_string()
        )
    );
    assert_eq!(
        report("\x1b[4;768;65536"),
        Err(
            "Your terminal said its width is 65536, but that is not a 16-bit unsigned integer: \
             number too large to fit in target type"
                .to_string()
        )
    );
    assert_eq!(
        report("\x1b[4;768;"),
        Err(
            "Your terminal said its width is , but that is not a 16-bit unsigned integer: \
             cannot parse integer from empty string"
                .to_string()
        )
    );
    let bytes = b"\x1b[4;\xff".to_vec();
    let why = String::from_utf8(bytes.clone()).unwrap_err();
    assert_eq!(
        parse_size_report(bytes),
        Err(format!(
            "The terminal responded to our request for its font size by providing non-utf8 \
             data: {why}"
        ))
    );
}

#[test]
fn reply_ends_with_its_last_byte() {
    let mut reply = SizeReply::new();
    for byte in b"\x1b[4;600;800t;1t2" {
        reply.put(*byte);
    }
    assert!(reply.ended);
    assert_eq!(reply.received, b"\x1b[4;600;800");
    assert_eq!(parse_size_report(reply.received), Ok((800, 600)));
}

#[test]
fn cells_of_a_window() {
    let window = WindowSize { rows: 50, columns: 80, width: 0, height: 1000 };
    assert!(window.lacks_pixels());
    assert_eq!(window.fallback_font_size(), None);
    let window = window.with_pixels(1000, 999);
    assert!(!window.lacks_pixels());
    assert_eq!(window.cell(), (12, 19));
    assert_eq!(window.fallback_font_size(), Some((12, 19)));
    let window = WindowSize { rows: 0, columns: 80, width: 10, height: 10 };
    assert_eq!(window.fallback_font_size(), None);
}
