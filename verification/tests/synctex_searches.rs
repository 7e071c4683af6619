use std::cell::RefCell;
use std::path::{Path, PathBuf};

use pdftui::synctex::{
    absolute_input, forward_query, forward_search, has_synctex_file, inverse_query,
    inverse_search, resolve_input, source_name, CommandOutput, InverseResult, RunError,
    SyncTexError,
};

fn float(text: &str) -> Option<f32> {
    text.parse::<f32>().ok()
}

fn says(text: &str) -> Result<CommandOutput, RunError> {
    Ok(CommandOutput { success: true, stdout: text.as_bytes().to_vec(), stderr: Vec::new() })
}

#[test]
fn forward_search_asks_and_reads() {
    let asked: RefCell<Vec<Vec<String>>> = RefCell::new(Vec::new());
    let run = |arguments: &Vec<String>| {
        asked.borrow_mut().push(arguments.clone());
        says("SyncTeX result begin\nPage:5\nx:1.5\ny:2\nh:3\nv:4\nW:5\nH:6\nSyncTeX result end\n")
    };
    let found = forward_search(42, 7, "main.tex", Path::new("/d/main.pdf"), &run, &float).unwrap();
    assert_eq!(found.page, 4);
    assert_eq!(found.x, 1.5);
    assert_eq!(asked.into_inner(), vec![vec!["view", "-i", "42:7:main.tex", "-o", "/d/main.pdf"]]);
}

#[test]
fn forward_search_reports_what_went_wrong() {
    let pdf = Path::new("/d/main.pdf");
    let missing = |_: &Vec<String>| Err(RunError::NotFound);
    assert!(matches!(
        forward_search(1, 0, "a.tex", pdf, &missing, &float),
        Err(SyncTexError::NotFound)
    ));
    let failing = |_: &Vec<String>| {
        Ok(CommandOutput { success: false, stdout: Vec::new(), stderr: b"no data".to_vec() })
    };
    assert!(matches!(
        forward_search(1, 0, "a.tex", pdf, &failing, &float),
        Err(SyncTexError::CommandFailed(m)) if m == "no data"
    ));
    let silent = |_: &Vec<String>| says("");
    assert!(matches!(
        forward_search(1, 0, "a.tex", pdf, &silent, &float),
        Err(SyncTexError::ParseError(_))
    ));
}

#[test]
fn queries_are_spelled_out() {
    let pdf = Path::new("/d/main.pdf");
    assert_eq!(
        forward_query(usize::MAX, 0, "a b.tex", pdf).unwrap()[2],
        format!("{}:0:a b.tex", usize::MAX)
    );
    assert_eq!(
        inverse_query(3, "1.5", "-2", pdf).unwrap(),
        vec!["edit", "-o", "3:1.5:-2:/d/main.pdf"]
    );
}

#[test]
fn inverse_search_runs_beside_the_pdf() {
    let asked: RefCell<Vec<(Vec<String>, PathBuf)>> = RefCell::new(Vec::new());
    let run = |arguments: &Vec<String>, dir: &Path| {
        asked.borrow_mut().push((arguments.clone(), dir.to_path_buf()));
        says("SyncTeX result begin\nInput:./a.tex\nLine:9\nColumn:3\nSyncTeX result end\n")
    };
    let canonicalize = |path: &Path| {
        assert_eq!(path, Path::new("/d/./a.tex"));
        Some(PathBuf::from("/real/a.tex"))
    };
    let pdf = Path::new("/d/main.pdf");
    let found = inverse_search(2, "10", "20.25", pdf, &run, &canonicalize).unwrap();
    assert_eq!(found.input, "/real/a.tex");
    assert_eq!(found.line, 9);
    assert_eq!(found.column, 3);
    let asked = asked.into_inner();
    assert_eq!(asked.len(), 1);
    assert_eq!(asked[0].0, vec!["edit", "-o", "2:10:20.25:/d/main.pdf"]);
    assert_eq!(asked[0].1, PathBuf::from("/d"));
}

#[test]
fn inverse_search_without_a_directory_runs_here() {
    let run = |_: &Vec<String>, dir: &Path| {
        assert_eq!(dir, Path::new("."));
        Err(RunError::Other("stop".to_string()))
    };
    let canonicalize = |_: &Path| None;
    assert!(matches!(
        inverse_search(1, "1", "1", Path::new("/"), &run, &canonicalize),
        Err(SyncTexError::CommandFailed(m)) if m == "stop"
    ));
}

#[test]
fn inverse_search_of_a_bare_name_runs_here() {
    let run = |arguments: &Vec<String>, dir: &Path| {
        assert_eq!(arguments[2], "1:1:1:main.pdf");
        assert_eq!(dir.as_os_str(), ".");
        says("SyncTeX result begin\nInput:a.tex\nLine:1\nSyncTeX result end\n")
    };
    let canonicalize = |path: &Path| {
        assert_eq!(path.as_os_str(), "a.tex");
        Some(PathBuf::from("/here/a.tex"))
    };
    let found = inverse_search(1, "1", "1", Path::new("main.pdf"), &run, &canonicalize).unwrap();
    assert_eq!(found.input, "/here/a.tex");
    let run = |_: &Vec<String>, dir: &Path| {
        assert_eq!(dir.as_os_str(), "sub");
        Err(RunError::NotFound)
    };
    assert!(inverse_search(1, "1", "1", Path::new("sub/main.pdf"), &run, &canonicalize).is_err());
    let run = |_: &Vec<String>, dir: &Path| {
        assert_eq!(dir.as_os_str(), "/");
        Err(RunError::NotFound)
    };
    assert!(inverse_search(1, "1", "1", Path::new("/main.pdf"), &run, &canonicalize).is_err());
}

#[test]
fn absolute_source_is_left_alone() {
    let canonicalize = |_: &Path| panic!("not asked for");
    let found = InverseResult { input: "/src/a.tex".to_string(), line: 1, column: -1 };
    let found = resolve_input(found, Path::new("/d/main.pdf"), &canonicalize);
    assert_eq!(found.input, "/src/a.tex");
}

#[test]
fn relative_source_stands_beside_the_pdf() {
    let absolute = absolute_input("sub/a.tex", Path::new("/d/main.pdf")).unwrap();
    assert_eq!(absolute.as_os_str(), "/d/sub/a.tex");
    let absolute = absolute_input("a.tex", Path::new("/main.pdf")).unwrap();
    assert_eq!(absolute.as_os_str(), "/a.tex");
    let absolute = absolute_input("a.tex", Path::new("main.pdf")).unwrap();
    assert_eq!(absolute.as_os_str(), "a.tex");
    assert!(absolute_input("/a.tex", Path::new("/d/main.pdf")).is_none());
    assert!(absolute_input("a.tex", Path::new("/")).is_none());
    let canonicalize = |_: &Path| None;
    let found = InverseResult { input: "a.tex".to_string(), line: 1, column: -1 };
    let found = resolve_input(found, Path::new("/d/main.pdf"), &canonicalize);
    assert_eq!(found.input, "/d/a.tex");
}

#[test]
fn source_name_is_readable() {
    let absolute = PathBuf::from("/d/a.tex");
    assert_eq!(source_name(&absolute, None), "/d/a.tex");
    assert_eq!(source_name(&absolute, Some(PathBuf::from("/ä/a.tex"))), "/ä/a.tex");
}

#[test]
fn synctex_data_stands_beside_the_pdf() {
    let asked: RefCell<Vec<PathBuf>> = RefCell::new(Vec::new());
    let never = |path: &Path| {
        asked.borrow_mut().push(path.to_path_buf());
        false
    };
    assert!(!has_synctex_file(Path::new("/d/main.pdf"), &never));
    assert_eq!(
        asked.into_inner(),
        vec![PathBuf::from("/d/main.synctex.gz"), PathBuf::from("/d/main.synctex")]
    );
    let zipped = |path: &Path| path == Path::new("/d/main.synctex.gz");
    assert!(has_synctex_file(Path::new("/d/main.pdf"), &zipped));
    let plain = |path: &Path| path == Path::new("/d/main.synctex");
    assert!(has_synctex_file(Path::new("/d/main.pdf"), &plain));
}

#[test]
fn synctex_data_of_a_dotted_name() {
    let found = |path: &Path| path == Path::new("/d.d/a.b.synctex.gz");
    assert!(has_synctex_file(Path::new("/d.d/a.b.pdf"), &found));
    let found = |path: &Path| path == Path::new("/d.d/a.synctex.gz");
    assert!(!has_synctex_file(Path::new("/d.d/a.b.pdf"), &found));
    let files = ["/d/paper.v2.pdf", "/d/paper.v2.synctex.gz"];
    let found = |path: &Path| files.iter().any(|file| path == Path::new(file));
    assert!(has_synctex_file(Path::new("/d/paper.v2.pdf"), &found));
    let found = |path: &Path| path == Path::new("/d.d/a.synctex");
    assert!(has_synctex_file(Path::new("/d.d/a"), &found));
}
