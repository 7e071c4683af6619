use pdftui::color::{color_of, color_or, pack_rgb, parse_color_to_i32};
use pdftui::messages::BottomMessage;
use pdftui::options::{
    choose_mode, opening_search, parse_synctex_arg, prerender_limit, reload_delay, Mode, Opening,
    PrerenderLimit,
};
use pdftui::synctex::{ForwardResult, SyncTexError};

#[test]
fn position_with_a_column() {
    assert_eq!(parse_synctex_arg("42:7:main.tex"), Ok((42, 7, "main.tex".to_string())));
    assert_eq!(parse_synctex_arg("42:0:a:b.tex"), Ok((42, 0, "a:b.tex".to_string())));
    assert_eq!(
        parse_synctex_arg(&format!("{}:{}:", usize::MAX, usize::MAX)),
        Ok((usize::MAX, usize::MAX, String::new()))
    );
}

#[test]
fn position_without_a_column() {
    assert_eq!(parse_synctex_arg("42:main.tex"), Ok((42, 0, "main.tex".to_string())));
    assert_eq!(parse_synctex_arg("+7:"), Ok((7, 0, String::new())));
}

#[test]
fn bad_positions() {
    assert_eq!(
        parse_synctex_arg("main.tex"),
        Err("expected format line:col:file or line:file".to_string())
    );
    assert_eq!(
        parse_synctex_arg("x:main.tex"),
        Err("invalid line number: invalid digit found in string".to_string())
    );
    assert_eq!(
        parse_synctex_arg(":1:main.tex"),
        Err("invalid line number: cannot parse integer from empty string".to_string())
    );
    assert_eq!(
        parse_synctex_arg("1:main.tex:"),
        Err("invalid column number: invalid digit found in string".to_string())
    );
    assert_eq!(
        parse_synctex_arg("-1:main.tex"),
        Err("invalid line number: invalid digit found in string".to_string())
    );
}

#[test]
fn modes_have_an_order() {
    assert!(matches!(
        choose_mode(true, Some("s"), Some("1:a"), Some("f")),
        Ok(Mode::Version)
    ));
    assert!(matches!(
        choose_mode(false, Some("s"), Some("1:a"), Some("f")),
        Ok(Mode::SocketPath("s"))
    ));
    assert!(matches!(
        choose_mode(false, None, Some("1:2:a"), Some("f")),
        Ok(Mode::Forward { pdf: "f", line: 1, column: 2, file }) if file == "a"
    ));
    assert!(matches!(choose_mode(false, None, None, Some("f")), Ok(Mode::View("f"))));
}

#[test]
fn modes_that_lack_something() {
    let message = |forward: Option<&str>, file: Option<&'static str>| {
        choose_mode::<&str>(false, None, forward, file).err().unwrap()
    };
    assert_eq!(message(Some("x"), None), "--forward requires a PDF file argument");
    assert_eq!(
        message(Some("x"), Some("f")),
        "invalid --forward argument: expected format line:col:file or line:file"
    );
    assert_eq!(
        message(None, None),
        "Please specify the file to open, e.g. `pdftui ./my_example_pdf.pdf`"
    );
}

#[test]
fn large_lines_are_refused() {
    let message = |forward: &str| {
        choose_mode(false, None, Some(forward), Some("f")).err().unwrap()
    };
    assert_eq!(message("4294967296:0:a"), "invalid --forward argument: line is too large");
    assert_eq!(message("0:4294967296:a"), "invalid --forward argument: column is too large");
    assert!(matches!(
        choose_mode(false, None, Some("4294967295:4294967295:a"), Some("f")),
        Ok(Mode::Forward { line: u32::MAX, column: u32::MAX, .. })
    ));
}

#[test]
fn prerender_zero_means_no_limit() {
    assert_eq!(prerender_limit(None), PrerenderLimit::All);
    assert_eq!(prerender_limit(Some(0)), PrerenderLimit::All);
    assert_eq!(prerender_limit(Some(20)), PrerenderLimit::Limited(20));
}

#[test]
fn reload_delay_defaults_to_fifty() {
    assert_eq!(reload_delay(None), 50);
    assert_eq!(reload_delay(Some(0)), 0);
    assert_eq!(reload_delay(Some(1000)), 1000);
}

#[test]
fn opening_search_finds_or_complains() {
    let search = |line: usize, column: usize, file: &str| {
        assert_eq!((line, column, file), (42, 0, "main.tex"));
        Ok(ForwardResult { page: 3, x: 1, y: 2, h: 3, v: 4, width: 5, height: 6 })
    };
    let opening: Result<Opening<i32, (), ()>, String> = opening_search("42:0:main.tex", &search);
    assert!(matches!(opening, Ok(Opening::Found(motion)) if motion.page == 3));
    let opening: Result<Opening<i32, (), ()>, String> = opening_search("42", &search);
    assert_eq!(
        opening.err().unwrap(),
        "Invalid --synctex-forward argument: expected format line:col:file or line:file"
    );
    let search = |_: usize, _: usize, _: &str| -> Result<ForwardResult<i32>, SyncTexError> {
        Err(SyncTexError::NotFound)
    };
    let opening: Result<Opening<i32, (), ()>, String> = opening_search("1:a.tex", &search);
    assert!(matches!(
        opening,
        Ok(Opening::Complaint(BottomMessage::Error(m)))
            if m == "SyncTeX: synctex command not found"
    ));
}

#[test]
fn colors_in_css() {
    assert_eq!(parse_color_to_i32("FFFFFF"), Ok(0xff_ffff));
    assert_eq!(parse_color_to_i32("rgb(255, 255, 255)"), Ok(0xff_ffff));
    assert_eq!(parse_color_to_i32("000000"), Ok(0));
    assert_eq!(parse_color_to_i32("rgb(0, 0, 0)"), Ok(0));
    assert_eq!(parse_color_to_i32("#123456"), Ok(0x12_3456));
    assert_eq!(parse_color_to_i32("aBcDeF"), Ok(0xab_cdef));
    assert_eq!(parse_color_to_i32("#f0a"), Ok(0xff_00aa));
    assert_eq!(parse_color_to_i32("red"), Ok(0xff_0000));
    assert_eq!(parse_color_to_i32("#11223300"), Ok(0x11_2233));
    assert_eq!(parse_color_to_i32("color(srgb 1 0 0)"), Ok(0xff_0000));
    assert_eq!(parse_color_to_i32("hsl(120deg 100% 50%)"), Ok(0x00_ff00));
    assert_eq!(parse_color_to_i32("lab(100% 0 0)"), Ok(0xff_ffff));
    assert!(parse_color_to_i32("no such color").is_err());
}

#[test]
fn hex_color_is_its_number() {
    for n in [0, 1, 0xff, 0x100, 0xab_cdef, 0xff_ffff] {
        assert_eq!(parse_color_to_i32(&format!("{n:06x}")), Ok(n));
    }
}

#[test]
fn outcome_of_the_parser_is_passed_on() {
    assert_eq!(color_of(Ok([0x12, 0x34, 0x56, 0x78])), Ok(0x12_3456));
    assert_eq!(color_of(Err("why".to_string())), Err("why".to_string()));
}

#[test]
fn alpha_is_dropped() {
    assert_eq!(pack_rgb([1, 2, 3, 4]), 0x01_0203);
    assert_eq!(pack_rgb([0xff, 0xff, 0xff, 0]), 0xff_ffff);
}

#[test]
fn color_options() {
    assert_eq!(color_or(None, 7, "black"), Ok(7));
    assert_eq!(color_or(Some("00ff00"), 7, "black"), Ok(0xff00));
    let message = color_or(Some("no\n"), 7, "white").err().unwrap();
    let why = parse_color_to_i32("no\n").err().unwrap();
    assert_eq!(
        message,
        format!("Couldn't parse white color \"no\\n\": {why} - is it formatted like a CSS color?")
    );
}
