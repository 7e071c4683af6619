use pdftui::records::result_records;
use pdftui::synctex::{
    command_answer, forward_result, parse_forward_output, parse_inverse_output, CommandOutput,
    RunError, SyncTexError,
};

fn float(text: &str) -> Option<f32> {
    text.parse::<f32>().ok()
}

const VIEW: &str = "This is SyncTeX command line utility, version 1.5\n\
SyncTeX result begin\n\
Output:/home/me/main.pdf\n\
Page:3\n\
x:133.768356\n\
y:242.5\n\
h:133.768356\n\
v:244.625\n\
W:343.711060\n\
H:8.965748\n\
before:\n\
offset:0\n\
middle:\n\
after:\n\
SyncTeX result end\n";

const EDIT: &str = "This is SyncTeX command line utility, version 1.5\n\
SyncTeX result begin\n\
Output:/home/me/main.pdf\n\
Input:/home/me/./main.tex\n\
Line:42\n\
Column:-1\n\
Offset:0\n\
Context:\n\
SyncTeX result end\n";

#[test]
fn view_answer_is_read() {
    let found = parse_forward_output(VIEW, &float).unwrap();
    assert_eq!(found.page, 2);
    assert_eq!(found.x, 133.768356);
    assert_eq!(found.y, 242.5);
    assert_eq!(found.h, 133.768356);
    assert_eq!(found.v, 244.625);
    assert_eq!(found.width, 343.71106);
    assert_eq!(found.height, 8.965748);
}

#[test]
fn page_zero_stays_zero() {
    let answer = "SyncTeX result begin\nPage:0\nx:1\ny:2\nh:3\nv:4\nW:5\nH:6\nSyncTeX result end";
    let found = parse_forward_output(answer, &float).unwrap();
    assert_eq!(found.page, 0);
    assert_eq!(found.height, 6.0);
}

#[test]
fn last_record_counts() {
    let answer = "SyncTeX result begin\nPage:1\nx:1\ny:2\nh:3\nv:4\nW:5\nH:6\nPage: 8 \nx:  9\n";
    let found = parse_forward_output(answer, &float).unwrap();
    assert_eq!(found.page, 7);
    assert_eq!(found.x, 9.0);
    assert_eq!(found.y, 2.0);
}

#[test]
fn bad_last_record_counts_too() {
    let answer = "SyncTeX result begin\nPage:1\nx:1\ny:2\nh:3\nv:4\nW:5\nH:6\nH:tall\n";
    assert!(matches!(
        parse_forward_output(answer, &float),
        Err(SyncTexError::ParseError(m)) if m == "missing required fields in synctex view output"
    ));
}

#[test]
fn missing_field_is_an_error() {
    for field in ["Page", "x", "y", "h", "v", "W", "H"] {
        let answer: String = VIEW
            .lines()
            .filter(|line| !line.starts_with(&format!("{field}:")))
            .map(|line| format!("{line}\n"))
            .collect();
        assert!(
            matches!(
                parse_forward_output(&answer, &float),
                Err(SyncTexError::ParseError(m))
                    if m == "missing required fields in synctex view output"
            ),
            "{field}"
        );
    }
}

#[test]
fn all_fields_make_a_result() {
    let found = forward_result(Some(4), Some(1), Some(2), Some(3), Some(4), Some(5), Some(6));
    let found = found.unwrap();
    assert_eq!(
        (found.page, found.x, found.y, found.h, found.v, found.width, found.height),
        (4, 1, 2, 3, 4, 5, 6)
    );
    assert!(forward_result(None, Some(1), Some(2), Some(3), Some(4), Some(5), Some(6)).is_err());
}

#[test]
fn edit_answer_is_read() {
    let found = parse_inverse_output(EDIT).unwrap();
    assert_eq!(found.input, "/home/me/./main.tex");
    assert_eq!(found.line, 42);
    assert_eq!(found.column, -1);
}

#[test]
fn column_is_optional() {
    let answer = "SyncTeX result begin\nInput:a:b.tex\nLine:7\nSyncTeX result end\n";
    let found = parse_inverse_output(answer).unwrap();
    assert_eq!(found.input, "a:b.tex");
    assert_eq!(found.column, -1);
    let answer = "SyncTeX result begin\nInput:a\nLine:7\nColumn:12\nSyncTeX result end\n";
    assert_eq!(parse_inverse_output(answer).unwrap().column, 12);
    let answer = "SyncTeX result begin\nInput:a\nLine:7\nColumn:12\nColumn:no\n";
    assert_eq!(parse_inverse_output(answer).unwrap().column, -1);
    let answer = "SyncTeX result begin\nInput:a\nLine:7\nColumn:2147483648\n";
    assert_eq!(parse_inverse_output(answer).unwrap().column, -1);
    let answer = "SyncTeX result begin\nInput:a\nLine:7\nColumn:-2147483648\n";
    assert_eq!(parse_inverse_output(answer).unwrap().column, -2147483648);
}

#[test]
fn input_and_line_are_not_optional() {
    for answer in [
        "SyncTeX result begin\nInput:a\nSyncTeX result end\n",
        "SyncTeX result begin\nLine:7\nSyncTeX result end\n",
        "SyncTeX result begin\nInput:a\nLine:-7\nSyncTeX result end\n",
        "Input:a\nLine:7\n",
        "",
    ] {
        assert!(matches!(
            parse_inverse_output(answer),
            Err(SyncTexError::ParseError(m))
                if m == "missing required fields in synctex edit output"
        ));
    }
}

#[test]
fn nothing_counts_outside_the_lines_of_a_result() {
    let inner = "Input:b.tex\nLine:2";
    let plain = format!("SyncTeX result begin\n{inner}\nSyncTeX result end");
    let more = format!(
        "Input:a.tex\nLine:1\n{plain}\nInput:c.tex\nSyncTeX result begin\nLine:3\n"
    );
    assert_eq!(result_records(&plain), result_records(&more));
    assert_eq!(result_records(&more), vec![("Input", "b.tex"), ("Line", "2")]);
    let early = format!("SyncTeX result end\n{plain}");
    assert!(result_records(&early).is_empty());
}

#[test]
fn records_of_an_answer_are_read_back() {
    let list = vec![("Page", "3"), ("", "x:y"), ("a b", ""), ("Page", "4")];
    let mut answer = String::from("SyncTeX result begin\n");
    for (key, value) in &list {
        answer.push_str(&format!("{key}:{value}\n"));
    }
    answer.push_str("SyncTeX result end");
    assert_eq!(result_records(&answer), list);
}

#[test]
fn whitespace_around_lines_and_values_is_dropped() {
    let answer = "\u{a0}SyncTeX result begin \r\n\tLine :\u{2003}7 \r\n  no record\r\n";
    assert_eq!(result_records(answer), vec![("Line ", "7")]);
}

#[test]
fn answer_of_a_command() {
    let output = |success: bool| {
        Ok(CommandOutput { success, stdout: b"out\xff".to_vec(), stderr: b"err\xff".to_vec() })
    };
    assert_eq!(command_answer(output(true)).unwrap(), "out\u{fffd}");
    assert!(matches!(
        command_answer(output(false)),
        Err(SyncTexError::CommandFailed(m)) if m == "err\u{fffd}"
    ));
    assert!(matches!(command_answer(Err(RunError::NotFound)), Err(SyncTexError::NotFound)));
    assert!(matches!(
        command_answer(Err(RunError::Other("denied".to_string()))),
        Err(SyncTexError::CommandFailed(m)) if m == "denied"
    ));
}

#[test]
fn errors_speak_to_the_user() {
    assert_eq!(SyncTexError::NotFound.message(), "synctex command not found");
    assert_eq!(
        SyncTexError::CommandFailed("why".to_string()).message(),
        "synctex command failed: why"
    );
    assert_eq!(
        SyncTexError::ParseError("why".to_string()).message(),
        "could not parse synctex output: why"
    );
    assert_eq!(
        SyncTexError::NoSyncTexFile.message(),
        "no .synctex.gz file found for this PDF"
    );
}

#[test]
fn pages_are_counted_back() {
    for n in [1usize, 2, 99, usize::MAX] {
        let answer = format!("SyncTeX result begin\nPage:{n}\nx:1\ny:2\nh:3\nv:4\nW:5\nH:6\n");
        let found = parse_forward_output(&answer, &float).unwrap();
        assert_eq!(found.page + 1, n);
    }
}

#[test]
fn line_ends_and_blanks_do_not_count() {
    let plain = parse_inverse_output(EDIT).unwrap();
    for text in [EDIT.replace('\n', "\r\n"), EDIT.replace('\n', " \n\t")] {
        let found = parse_inverse_output(&text).unwrap();
        assert_eq!(found.input, plain.input);
        assert_eq!(found.line, plain.line);
        assert_eq!(found.column, plain.column);
    }
}

#[test]
fn foreign_lines_do_not_count() {
    let lines: Vec<&str> = EDIT.lines().collect();
    for at in 0..=lines.len() {
        for foreign in ["", "no record", "line:9", "Linear: 9", "SyncTeX result"] {
            let mut longer = lines.clone();
            longer.insert(at, foreign);
            let found = parse_inverse_output(&longer.join("\n")).unwrap();
            assert_eq!(found.line, 42);
            assert_eq!(found.input, "/home/me/./main.tex");
        }
    }
}
