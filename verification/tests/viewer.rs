use std::path::PathBuf;

use pdftui::command::expand_command;
use pdftui::messages::{Area, BottomMessage, ConverterMsg, RenderNotif};
use pdftui::session::{
    inverse_report, on_display_failure, on_layout, ConvertedPage, DisplayError, Event,
    InputAction, PageInfo, RenderInfo, ScreenUpdate, Session, Step, Task,
};
use pdftui::synctex::{InverseResult, SyncTexError};
use pdftui::watch::{title, watched_name, Change, ChangeKind, Settled, Watch, WatchError};

type Happening = Event<bool, &'static str, &'static str, f32, u8>;
type Answer = Step<f32, bool, PageInfo<&'static str>, &'static str, f32, u8>;

fn step(event: Happening) -> Answer {
    Session { fullscreen: false }.handle(event)
}

fn input(action: InputAction<bool>) -> Answer {
    step(Event::Input(Some(action)))
}

fn is_quiet(answer: &Answer) -> bool {
    answer.screen.is_none()
        && answer.to_renderer.is_none()
        && answer.to_converter.is_none()
        && matches!(answer.task, Task::Nothing)
}

#[test]
fn input_for_nothing_is_not_drawn() {
    let answer = step(Event::Input(None));
    assert!(is_quiet(&answer) && !answer.redraw && !answer.quit);
    let answer = input(InputAction::Redraw);
    assert!(is_quiet(&answer) && answer.redraw && !answer.quit);
}

#[test]
fn only_the_user_quits() {
    let answer = input(InputAction::QuitApp);
    assert!(is_quiet(&answer) && answer.quit);
    assert!(!step(Event::Rendered(Err(1))).quit);
}

#[test]
fn both_learn_of_a_page() {
    let answer = input(InputAction::JumpingToPage(9));
    assert!(matches!(answer.to_renderer, Some(RenderNotif::JumpToPage(9))));
    assert!(matches!(answer.to_converter, Some(ConverterMsg::GoToPage(9))));
    assert!(answer.redraw);
}

#[test]
fn renderer_is_told_what_the_user_asks_for() {
    assert!(matches!(
        input(InputAction::Search("term".to_string())).to_renderer,
        Some(RenderNotif::Search(term)) if term == "term"
    ));
    assert!(matches!(input(InputAction::Invert).to_renderer, Some(RenderNotif::Invert)));
    assert!(matches!(input(InputAction::Rotate).to_renderer, Some(RenderNotif::Rotate)));
    assert!(matches!(
        input(InputAction::SwitchRenderZoom(true)).to_renderer,
        Some(RenderNotif::SwitchFitOrFill(true))
    ));
}

#[test]
fn fullscreen_twice_is_nothing() {
    let mut session = Session { fullscreen: false };
    let toggle = || Happening::Input(Some(InputAction::Fullscreen));
    let answer: Answer = session.handle(toggle());
    assert!(is_quiet(&answer) && session.fullscreen);
    let answer: Answer = session.handle(Event::Input(None));
    assert!(is_quiet(&answer) && session.fullscreen);
    let answer: Answer = session.handle(toggle());
    assert!(is_quiet(&answer) && !session.fullscreen);
}

#[test]
fn inverse_search_counts_from_one() {
    let answer = input(InputAction::InverseSearch {
        page: 0,
        pdf_x: "1.5".to_string(),
        pdf_y: "2".to_string(),
    });
    assert!(matches!(
        answer.task,
        Task::InverseSearch { page: 1, x, y } if x == "1.5" && y == "2"
    ));
}

#[test]
fn reports_of_the_renderer_are_passed_on() {
    let answer = step(Event::Rendered(Ok(RenderInfo::NumPages(12))));
    assert!(matches!(answer.screen, Some(ScreenUpdate::SetPages(12))));
    assert!(matches!(answer.to_converter, Some(ConverterMsg::NumPages(12))));
    let page = PageInfo { page_num: 3, num_results: 2, image: "image" };
    let answer = step(Event::Rendered(Ok(RenderInfo::Page(page))));
    assert!(matches!(
        answer.screen,
        Some(ScreenUpdate::Results { page_num: 3, num_results: 2 })
    ));
    assert!(matches!(
        answer.to_converter,
        Some(ConverterMsg::AddImg(info)) if info.page_num == 3 && info.image == "image"
    ));
    let answer = step(Event::Rendered(Ok(RenderInfo::Reloaded)));
    assert!(matches!(answer.screen, Some(ScreenUpdate::Message(BottomMessage::Reloaded))));
    let answer =
        step(Event::Rendered(Ok(RenderInfo::SearchResults { page_num: 4, num_results: 5 })));
    assert!(matches!(
        answer.screen,
        Some(ScreenUpdate::Results { page_num: 4, num_results: 5 })
    ));
    assert!(answer.to_converter.is_none());
    let answer = step(Event::Rendered(Err(7)));
    assert!(matches!(answer.screen, Some(ScreenUpdate::ShowError(7))));
}

#[test]
fn converted_pages_are_shown() {
    let page = ConvertedPage { page: "pixels", num: 3, num_results: 1, scale_factor: 1.5 };
    let answer = step(Event::Converted(Ok(page)));
    assert!(matches!(
        answer.screen,
        Some(ScreenUpdate::PageReady(page))
            if page.num == 3 && page.page == "pixels" && page.scale_factor == 1.5
    ));
    assert!(answer.redraw);
    let answer = step(Event::Converted(Err(7)));
    assert!(matches!(answer.screen, Some(ScreenUpdate::ShowError(7))));
}

#[test]
fn page_of_an_editor_is_shown() {
    let answer = step(Event::IpcPage(4));
    assert!(matches!(
        answer.screen,
        Some(ScreenUpdate::GoTo { page: 4, message: BottomMessage::Error(m) })
            if m == "SyncTeX → page 5"
    ));
    assert!(matches!(
        answer.task,
        Task::NotifyLater { seconds: 2, notif: RenderNotif::ClearSyncTexHighlight }
    ));
    assert!(answer.to_renderer.is_none());
    assert!(answer.redraw);
}

#[test]
fn new_area_is_told_and_drawn() {
    let area = Area { x: 1, y: 2, width: 3, height: 4 };
    let (notice, redraw) = on_layout::<f32, bool>(true, area, false);
    assert!(matches!(notice, Some(RenderNotif::Area(a)) if a == area));
    assert!(redraw);
    let (notice, redraw) = on_layout::<f32, bool>(false, area, false);
    assert!(notice.is_none() && !redraw);
    let (notice, redraw) = on_layout::<f32, bool>(false, area, true);
    assert!(notice.is_none() && redraw);
}

#[test]
fn inverse_search_is_reported() {
    let found = || Ok(InverseResult { input: "/d/a.tex".to_string(), line: 42, column: -1 });
    let (run, message) = inverse_report(found(), Some("nvr --remote-silent +{line} {file}"));
    assert_eq!(run.unwrap(), "nvr --remote-silent +42 /d/a.tex");
    assert!(matches!(message, BottomMessage::Error(m) if m == "SyncTeX → /d/a.tex:42"));
    let (run, message) = inverse_report(found(), None);
    assert!(run.is_none());
    assert!(matches!(message, BottomMessage::Error(m) if m == "SyncTeX → /d/a.tex:42"));
    let (run, message) = inverse_report(Err(SyncTexError::NotFound), Some("x"));
    assert!(run.is_none());
    assert!(matches!(
        message,
        BottomMessage::Error(m) if m == "synctex not found (install texlive)"
    ));
    let (run, message) = inverse_report(Err(SyncTexError::NoSyncTexFile), Some("x"));
    assert!(run.is_none());
    assert!(matches!(
        message,
        BottomMessage::Error(m)
            if m == "SyncTeX inverse: no .synctex.gz file found for this PDF"
    ));
}

#[test]
fn placeholders_are_filled_in() {
    assert_eq!(expand_command("ed", "a.tex", 1, 2), "ed");
    assert_eq!(
        expand_command("ed +{line}:{col} {file} {file} {lines}", "a b.tex", 12, -1),
        "ed +12:-1 a b.tex a b.tex {lines}"
    );
    assert_eq!(expand_command("{{file}}{line", "{file}", 1, 2), "{{file}}{line");
    assert_eq!(expand_command("{fi{line}le}{", "a", 1, 2), "{fi1le}{");
    assert_eq!(expand_command("{col}{line}", "a", 0, i32::MIN), "-21474836480");
}

#[test]
fn file_named_like_a_placeholder_stays_as_it_is() {
    assert_eq!(expand_command("ed {file}", "{line}.tex", 7, 0), "ed {line}.tex");
    assert_eq!(expand_command("{{file}}", "line", 7, 0), "{line}");
}

#[test]
fn lost_pages_are_rendered_again() {
    let pages = vec![3, 1, 2];
    let (message, notices) =
        on_display_failure::<f32, bool>(&pages, "Couldn't show", DisplayError::NoEntity);
    assert!(message.is_none());
    let again: Vec<usize> = notices
        .iter()
        .map(|notice| match notice {
            RenderNotif::PageNeedsReRender(page) => *page,
            _ => panic!("another notice"),
        })
        .collect();
    assert_eq!(again, pages);
    let error = DisplayError::Other("no room".to_string());
    let (message, notices) = on_display_failure::<f32, bool>(&Vec::new(), "Couldn't show", error);
    assert!(notices.is_empty());
    assert!(matches!(
        message,
        Some(BottomMessage::Error(m)) if m == "Couldn't show: no room"
    ));
}

fn change(kind: ChangeKind, path: &str) -> Result<Change, u8> {
    Ok(Change { kind, paths: vec![PathBuf::from("/d/x"), PathBuf::from(path)] })
}

fn watch() -> Watch<u8> {
    Watch::new(watched_name(&PathBuf::from("/d/a.pdf")).unwrap())
}

#[test]
fn watched_name_is_the_last_component() {
    assert_eq!(watched_name(&PathBuf::from("/d/a.pdf")).unwrap(), b"a.pdf");
    assert_eq!(watched_name(&PathBuf::from("a//b/.//")).unwrap(), b"b");
    assert!(watched_name(&PathBuf::from("a/..")).is_err());
    assert!(watched_name(&PathBuf::from("./.")).is_err());
    assert_eq!(
        watched_name(&PathBuf::from("/")).err().unwrap(),
        "Path does not have a last component??"
    );
    assert_eq!(title(&b"a\xff.pdf".to_vec()), "a\u{fffd}.pdf");
}

#[test]
fn changes_lead_to_a_reload() {
    for kind in [ChangeKind::Any, ChangeKind::Create, ChangeKind::Modify, ChangeKind::Other] {
        let mut watch = watch();
        assert!(watch.take(change(kind, "/d/a.pdf")));
        assert!(matches!(watch.settle(), Settled::Reload));
    }
}

#[test]
fn neighbors_and_readers_do_not_matter() {
    let mut watch = watch();
    assert!(watch.take(change(ChangeKind::Remove, "/d/a.pdf")));
    assert!(!watch.take(change(ChangeKind::Modify, "/d/b.pdf")));
    assert!(!watch.take(change(ChangeKind::Modify, "/d/a.pdf/b")));
    assert!(!watch.take(change(ChangeKind::Access, "/d/a.pdf")));
    assert!(matches!(
        watch.settle(),
        Settled::Report(WatchError::Converting(m)) if m == "File was deleted"
    ));
}

#[test]
fn settling_forgets_what_was_wrong() {
    let mut watch = watch();
    assert!(watch.take(Err(5)));
    assert!(matches!(watch.settle(), Settled::Report(WatchError::Notify(5))));
    assert!(matches!(watch.settle(), Settled::Reload));
}

#[test]
fn last_event_decides() {
    let mut watch = watch();
    assert!(watch.take(Err(5)));
    assert!(watch.take(change(ChangeKind::Remove, "/d/a.pdf")));
    assert!(matches!(&watch.last, Err(WatchError::Converting(_))));
    assert!(watch.take(Err(6)));
    assert!(matches!(watch.settle(), Settled::Report(WatchError::Notify(6))));
}

#[test]
fn rewritten_file_is_reloaded() {
    let mut watch = watch();
    assert!(watch.take(change(ChangeKind::Remove, "/d/a.pdf")));
    assert!(watch.take(change(ChangeKind::Create, "/d/a.pdf")));
    assert!(matches!(watch.settle(), Settled::Reload));
}
