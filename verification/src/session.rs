//! A viewer at work: what it does about each thing that happens.

use crate::command::{expand_command, expanded, filled_in};
use crate::messages::{is_report, Area, BottomMessage, ConverterMsg, RenderNotif};
use crate::number::{decimal, signed_decimal, to_decimal, unsigned_up_to};
use crate::records::{last_value, records};
use crate::synctex::{
    error_text, forward_page, law_pages_are_counted_back, InverseResult, SyncTexError,
};
use vstd::prelude::*;
use vstd::string::*;

verus! {

/// What the user asks for.
pub enum InputAction<Z> {
    /// Draw the screen again
    Redraw,
    /// Show another page
    JumpingToPage(usize),
    /// Look for a term
    Search(String),
    /// Leave the viewer
    QuitApp,
    /// Swap the two colors
    Invert,
    /// Turn the pages
    Rotate,
    /// Show or hide everything but the pages
    Fullscreen,
    /// Change how a page fits its area
    SwitchRenderZoom(Z),
    /// Look up the source of a place on a page
    InverseSearch {
        /// The page, counted from zero
        page: usize,
        /// How far to the right on it, in words
        pdf_x: String,
        /// How far down on it, in words
        pdf_y: String,
    },
}

/// A page as the renderer hands it over.
pub struct PageInfo<I> {
    /// The page, counted from zero
    pub page_num: usize,
    /// How often the search term occurs on it
    pub num_results: usize,
    /// What was rendered
    pub image: I,
}

/// What the renderer reports.
pub enum RenderInfo<I> {
    /// How many pages there are
    NumPages(usize),
    /// A page
    Page(PageInfo<I>),
    /// That the file was reloaded
    Reloaded,
    /// How often the search term occurs on a page
    SearchResults { page_num: usize, num_results: usize },
}

/// A page that is ready to be shown. What is shown is a `C`, and a scale is an
/// `S`.
pub struct ConvertedPage<C, S> {
    /// What is shown
    pub page: C,
    /// The page, counted from zero
    pub num: usize,
    /// How often the search term occurs on it
    pub num_results: usize,
    /// By how much it was scaled
    pub scale_factor: S,
}

/// What happens while a viewer runs. The errors of its parts are an `E`.
pub enum Event<Z, I, C, S, E> {
    /// The user did something, which may ask for nothing
    Input(Option<InputAction<Z>>),
    /// The renderer reported
    Rendered(Result<RenderInfo<I>, E>),
    /// The converter reported
    Converted(Result<ConvertedPage<C, S>, E>),
    /// An editor asked for a page
    IpcPage(usize),
}

/// What changes on the screen.
pub enum ScreenUpdate<C, S, E> {
    /// The number of pages
    SetPages(usize),
    /// How often the search term occurs on a page
    Results { page_num: usize, num_results: usize },
    /// A page is there to be shown
    PageReady(ConvertedPage<C, S>),
    /// An error is shown
    ShowError(E),
    /// The bottom line says something
    Message(BottomMessage),
    /// Another page is shown, and the bottom line says why
    GoTo { page: usize, message: BottomMessage },
}

/// What has to be done that takes a program, or time.
pub enum Task<T, Z> {
    /// Nothing
    Nothing,
    /// Look up the source of a place on a page, counted from one
    InverseSearch { page: usize, x: String, y: String },
    /// Tell the renderer something, once, after some seconds and no sooner
    NotifyLater { seconds: u64, notif: RenderNotif<T, Z> },
}

/// For how many seconds the box that an editor jumped to stays highlighted.
pub const HIGHLIGHT_SECONDS: u64 = 2;

/// What ends the highlight of a box: the renderer is told to take it away,
/// when its time has come.
pub open spec fn highlight_ends<T, Z>() -> Task<T, Z> {
    Task::NotifyLater { seconds: HIGHLIGHT_SECONDS, notif: RenderNotif::ClearSyncTexHighlight }
}

/// What a viewer does about an event: first it updates the screen, then it
/// tells the renderer, then the converter.
pub struct Step<T, Z, I, C, S, E> {
    /// What changes on the screen
    pub screen: Option<ScreenUpdate<C, S, E>>,
    /// What the renderer is told
    pub to_renderer: Option<RenderNotif<T, Z>>,
    /// What the converter is told
    pub to_converter: Option<ConverterMsg<I>>,
    /// What else has to be done
    pub task: Task<T, Z>,
    /// Whether the screen is drawn again
    pub redraw: bool,
    /// Whether the viewer ends
    pub quit: bool,
}

/// Nothing but drawing the screen.
pub open spec fn only_redraw<T, Z, I, C, S, E>() -> Step<T, Z, I, C, S, E> {
    Step {
        screen: None,
        to_renderer: None,
        to_converter: None,
        task: Task::Nothing,
        redraw: true,
        quit: false,
    }
}

/// Whether `step` does what the user asks for.
pub open spec fn answers_input<T, Z, I, C, S, E>(
    step: Step<T, Z, I, C, S, E>,
    action: InputAction<Z>,
) -> bool {
    let base = only_redraw::<T, Z, I, C, S, E>();
    match action {
        InputAction::Redraw => step == base,
        InputAction::JumpingToPage(page) => step == (Step {
            to_renderer: Some(RenderNotif::JumpToPage(page)),
            to_converter: Some(ConverterMsg::GoToPage(page)),
            ..base
        }),
        InputAction::Search(term) => step == (Step {
            to_renderer: Some(RenderNotif::Search(term)),
            ..base
        }),
        InputAction::QuitApp => step == (Step { redraw: false, quit: true, ..base }),
        InputAction::Invert => step == (Step { to_renderer: Some(RenderNotif::Invert), ..base }),
        InputAction::Rotate => step == (Step { to_renderer: Some(RenderNotif::Rotate), ..base }),
        InputAction::Fullscreen => step == base,
        InputAction::SwitchRenderZoom(zoom) => step == (Step {
            to_renderer: Some(RenderNotif::SwitchFitOrFill(zoom)),
            ..base
        }),
        InputAction::InverseSearch { page, pdf_x, pdf_y } => step == (Step {
            task: Task::InverseSearch { page: (page + 1) as usize, x: pdf_x, y: pdf_y },
            ..base
        }),
    }
}

/// Whether `step` passes on what the renderer reports.
pub open spec fn answers_report<T, Z, I, C, S, E>(
    step: Step<T, Z, PageInfo<I>, C, S, E>,
    info: RenderInfo<I>,
) -> bool {
    let base = only_redraw::<T, Z, PageInfo<I>, C, S, E>();
    match info {
        RenderInfo::NumPages(n) => step == (Step {
            screen: Some(ScreenUpdate::SetPages(n)),
            to_converter: Some(ConverterMsg::NumPages(n)),
            ..base
        }),
        RenderInfo::Page(info) => step == (Step {
            screen: Some(
                ScreenUpdate::Results { page_num: info.page_num, num_results: info.num_results },
            ),
            to_converter: Some(ConverterMsg::AddImg(info)),
            ..base
        }),
        RenderInfo::Reloaded => step == (Step {
            screen: Some(ScreenUpdate::Message(BottomMessage::Reloaded)),
            ..base
        }),
        RenderInfo::SearchResults { page_num, num_results } => step == (Step {
            screen: Some(ScreenUpdate::Results { page_num, num_results }),
            ..base
        }),
    }
}

/// Whether `step` is what a viewer does about `event`.
pub open spec fn answers<T, Z, I, C, S, E>(
    step: Step<T, Z, PageInfo<I>, C, S, E>,
    event: Event<Z, I, C, S, E>,
) -> bool {
    let base = only_redraw::<T, Z, PageInfo<I>, C, S, E>();
    match event {
        Event::Input(None) => step == (Step { redraw: false, ..base }),
        Event::Input(Some(action)) => answers_input(step, action),
        Event::Rendered(Ok(info)) => answers_report(step, info),
        Event::Rendered(Err(e)) => step == (Step {
            screen: Some(ScreenUpdate::ShowError(e)),
            ..base
        }),
        Event::Converted(Ok(page)) => step == (Step {
            screen: Some(ScreenUpdate::PageReady(page)),
            ..base
        }),
        Event::Converted(Err(e)) => step == (Step {
            screen: Some(ScreenUpdate::ShowError(e)),
            ..base
        }),
        Event::IpcPage(page) => {
            &&& step == (Step { screen: step.screen, task: highlight_ends(), ..base })
            &&& step.screen matches Some(ScreenUpdate::GoTo { page: p, message }) && p == page
                && is_report(message, "SyncTeX \u{2192} page "@ + decimal((page + 1) as nat))
        },
    }
}

/// Whether everything but the pages is hidden once `event` has happened.
pub open spec fn fullscreen_after<Z, I, C, S, E>(
    fullscreen: bool,
    event: Event<Z, I, C, S, E>,
) -> bool {
    match event {
        Event::Input(Some(InputAction::Fullscreen)) => !fullscreen,
        _ => fullscreen,
    }
}

/// Whether the pages that an event speaks of can be counted from one.
pub open spec fn countable<Z, I, C, S, E>(event: Event<Z, I, C, S, E>) -> bool {
    match event {
        Event::Input(Some(InputAction::InverseSearch { page, .. })) => page < usize::MAX,
        Event::IpcPage(page) => page < usize::MAX,
        _ => true,
    }
}

/// What a running viewer keeps in mind.
#[derive(Debug, Clone, Copy)]
pub struct Session {
    /// Whether everything but the pages is hidden
    pub fullscreen: bool,
}

impl Session {
    fn on_input<T, Z, I, C, S, E>(
        &mut self,
        action: InputAction<Z>,
    ) -> (step: Step<T, Z, I, C, S, E>)
        requires
            action matches InputAction::InverseSearch { page, .. } ==> page < usize::MAX,
        ensures
            answers_input(step, action),
            final(self).fullscreen == (action is Fullscreen != old(self).fullscreen),
    {
        let mut step = Step {
            screen: None,
            to_renderer: None,
            to_converter: None,
            task: Task::Nothing,
            redraw: true,
            quit: false,
        };
        match action {
            InputAction::Redraw => (),
            InputAction::JumpingToPage(page) => {
                step.to_renderer = Some(RenderNotif::JumpToPage(page));
                step.to_converter = Some(ConverterMsg::GoToPage(page));
            },
            InputAction::Search(term) => step.to_renderer = Some(RenderNotif::Search(term)),
            InputAction::QuitApp => {
                step.redraw = false;
                step.quit = true;
            },
            InputAction::Invert => step.to_renderer = Some(RenderNotif::Invert),
            InputAction::Rotate => step.to_renderer = Some(RenderNotif::Rotate),
            InputAction::Fullscreen => self.fullscreen = !self.fullscreen,
            InputAction::SwitchRenderZoom(zoom) => {
                step.to_renderer = Some(RenderNotif::SwitchFitOrFill(zoom));
            },
            InputAction::InverseSearch { page, pdf_x, pdf_y } => {
                step.task = Task::InverseSearch { page: page + 1, x: pdf_x, y: pdf_y };
            },
        }
        step
    }

    /// What the viewer does about an event.
    pub fn handle<T, Z, I, C, S, E>(&mut self, event: Event<Z, I, C, S, E>) -> (step: Step<
        T,
        Z,
        PageInfo<I>,
        C,
        S,
        E,
    >)
        requires
            countable(event),
        ensures
            answers(step, event),
            final(self).fullscreen == fullscreen_after(old(self).fullscreen, event),
    {
        let mut step = Step {
            screen: None,
            to_renderer: None,
            to_converter: None,
            task: Task::Nothing,
            redraw: true,
            quit: false,
        };
        match event {
            Event::Input(None) => step.redraw = false,
            Event::Input(Some(action)) => return self.on_input(action),
            Event::Rendered(Ok(RenderInfo::NumPages(n))) => {
                step.screen = Some(ScreenUpdate::SetPages(n));
                step.to_converter = Some(ConverterMsg::NumPages(n));
            },
            Event::Rendered(Ok(RenderInfo::Page(info))) => {
                step.screen = Some(
                    ScreenUpdate::Results {
                        page_num: info.page_num,
                        num_results: info.num_results,
                    },
                );
                step.to_converter = Some(ConverterMsg::AddImg(info));
            },
            Event::Rendered(Ok(RenderInfo::Reloaded)) => {
                step.screen = Some(ScreenUpdate::Message(BottomMessage::Reloaded));
            },
            Event::Rendered(Ok(RenderInfo::SearchResults { page_num, num_results })) => {
                step.screen = Some(ScreenUpdate::Results { page_num, num_results });
            },
            Event::Rendered(Err(e)) => step.screen = Some(ScreenUpdate::ShowError(e)),
            Event::Converted(Ok(page)) => step.screen = Some(ScreenUpdate::PageReady(page)),
            Event::Converted(Err(e)) => step.screen = Some(ScreenUpdate::ShowError(e)),
            Event::IpcPage(page) => {
                let text = "SyncTeX \u{2192} page ".to_owned().concat(
                    to_decimal(page as u64 + 1).as_str(),
                );
                step.screen = Some(
                    ScreenUpdate::GoTo { page, message: BottomMessage::Error(text) },
                );
                step.task = Task::NotifyLater {
                    seconds: HIGHLIGHT_SECONDS,
                    notif: RenderNotif::ClearSyncTexHighlight,
                };
            },
        }
        step
    }
}

/// What a viewer does once it knows the area that pages now have: it tells
/// the renderer of a new one, and then draws the screen in any case.
pub fn on_layout<T, Z>(changed: bool, page_area: Area, redraw: bool) -> (outcome: (
    Option<RenderNotif<T, Z>>,
    bool,
))
    ensures
        outcome.0 == if changed {
            Some(RenderNotif::<T, Z>::Area(page_area))
        } else {
            None
        },
        outcome.1 == (redraw || changed),
{
    if changed {
        (Some(RenderNotif::Area(page_area)), true)
    } else {
        (None, redraw)
    }
}

/// What came of an inverse search: the command to run, if there is one to
/// run, and what the bottom line says.
pub fn inverse_report(
    result: Result<InverseResult, SyncTexError>,
    command: Option<&str>,
) -> (outcome: (Option<String>, BottomMessage))
    ensures
        match result {
            Ok(r) => {
                &&& match command {
                    Some(c) => outcome.0 matches Some(text) && text@ == expanded(
                        c@,
                        r.input@,
                        r.line as nat,
                        r.column as int,
                    ),
                    None => outcome.0 is None,
                }
                &&& is_report(
                    outcome.1,
                    "SyncTeX \u{2192} "@ + r.input@ + ":"@ + decimal(r.line as nat),
                )
            },
            Err(SyncTexError::NotFound) => {
                &&& outcome.0 is None
                &&& is_report(outcome.1, "synctex not found (install texlive)"@)
            },
            Err(e) => {
                &&& outcome.0 is None
                &&& is_report(outcome.1, "SyncTeX inverse: "@ + error_text(e))
            },
        },
{
    match result {
        Ok(r) => {
            let run = match command {
                Some(c) => Some(expand_command(c, r.input.as_str(), r.line, r.column)),
                None => None,
            };
            let text = "SyncTeX \u{2192} ".to_owned().concat(r.input.as_str()).concat(":").concat(
                to_decimal(r.line as u64).as_str(),
            );
            (run, BottomMessage::Error(text))
        },
        Err(SyncTexError::NotFound) => (
            None,
            BottomMessage::Error("synctex not found (install texlive)".to_owned()),
        ),
        Err(e) => (
            None,
            BottomMessage::Error("SyncTeX inverse: ".to_owned().concat(e.message().as_str())),
        ),
    }
}

/// Why pages could not be shown.
pub enum DisplayError {
    /// The terminal no longer has them
    NoEntity,
    /// Anything else, in its own words
    Other(String),
}

/// What a viewer does about pages that could not be shown: each is rendered
/// again. That a terminal drops pages to save memory is not worth a word.
pub fn on_display_failure<T, Z>(
    pages: &Vec<usize>,
    description: &str,
    error: DisplayError,
) -> (outcome: (Option<BottomMessage>, Vec<RenderNotif<T, Z>>))
    ensures
        match error {
            DisplayError::NoEntity => outcome.0 is None,
            DisplayError::Other(why) => outcome.0 matches Some(message) && is_report(
                message,
                description@ + ": "@ + why@,
            ),
        },
        outcome.1@ == pages@.map_values(|page: usize| RenderNotif::<T, Z>::PageNeedsReRender(page)),
{
    let mut notices: Vec<RenderNotif<T, Z>> = Vec::new();
    let mut i: usize = 0;
    while i < pages.len()
        invariant
            i <= pages.len(),
            notices@ == pages@.take(i as int).map_values(
                |page: usize| RenderNotif::<T, Z>::PageNeedsReRender(page),
            ),
        decreases pages.len() - i,
    {
        notices.push(RenderNotif::PageNeedsReRender(pages[i]));
        assert(pages@.take(i + 1) == pages@.take(i as int).push(pages@[i as int]));
        i = i + 1;
    }
    assert(pages@.take(i as int) == pages@);
    let message = match error {
        DisplayError::NoEntity => None,
        DisplayError::Other(why) => Some(
            BottomMessage::Error(description.to_owned().concat(": ").concat(why.as_str())),
        ),
    };
    (message, notices)
}

/// The viewer ends when the user asks for it, and for no other reason.
pub proof fn law_only_the_user_quits<T, Z, I, C, S, E>(
    step: Step<T, Z, PageInfo<I>, C, S, E>,
    event: Event<Z, I, C, S, E>,
)
    requires
        answers(step, event),
    ensures
        step.quit <==> (event matches Event::Input(Some(action)) && action is QuitApp),
{
}

/// The renderer and the converter agree on the page that the user looks at.
pub proof fn law_both_learn_of_a_page<T, Z, I, C, S, E>(
    step: Step<T, Z, PageInfo<I>, C, S, E>,
    event: Event<Z, I, C, S, E>,
    page: usize,
)
    requires
        answers(step, event),
    ensures
        step.to_renderer == Some(RenderNotif::<T, Z>::JumpToPage(page)) <==> step.to_converter
            == Some(ConverterMsg::<PageInfo<I>>::GoToPage(page)),
{
}

/// A page that an editor asks for is shown, and its highlight taken away again
/// after its time, by one notice. Nothing else ends a highlight.
pub proof fn law_highlight_is_cleared<T, Z, I, C, S, E>(
    step: Step<T, Z, PageInfo<I>, C, S, E>,
    event: Event<Z, I, C, S, E>,
)
    requires
        answers(step, event),
    ensures
        event is IpcPage <==> step.task == highlight_ends::<T, Z>(),
        step.to_renderer != Some(RenderNotif::<T, Z>::ClearSyncTexHighlight),
{
}

/// The screen is drawn again after everything but input that asks for nothing
/// and leaving.
pub proof fn law_what_happens_is_seen<T, Z, I, C, S, E>(
    step: Step<T, Z, PageInfo<I>, C, S, E>,
    event: Event<Z, I, C, S, E>,
)
    requires
        answers(step, event),
    ensures
        step.redraw || step.quit || event == Event::<Z, I, C, S, E>::Input(None),
        !step.redraw ==> step.screen is None && step.to_renderer is None && step.to_converter
            is None && step.task is Nothing,
{
}

/// Asking for fullscreen twice changes nothing.
pub proof fn law_fullscreen_twice_is_nothing<Z, I, C, S, E>(fullscreen: bool)
    ensures
        ({
            let toggle = Event::<Z, I, C, S, E>::Input(Some(InputAction::Fullscreen));
            fullscreen_after(fullscreen_after(fullscreen, toggle), toggle) == fullscreen
        }),
{
}

/// A click asks about the page that was clicked, counted from one, and about
/// the place that was clicked: the page asked about comes right after the page
/// clicked, the first one as any other.
pub proof fn law_click_asks_about_its_page<T, Z, I, C, S, E>(
    step: Step<T, Z, PageInfo<I>, C, S, E>,
    page: usize,
    x: String,
    y: String,
)
    requires
        answers(
            step,
            Event::<Z, I, C, S, E>::Input(
                Some(InputAction::InverseSearch { page, pdf_x: x, pdf_y: y }),
            ),
        ),
        page < usize::MAX,
    ensures
        step.task matches Task::InverseSearch { page: asked, x: across, y: down } && asked - 1
            == page && across == x && down == y,
        step.screen is None && step.to_renderer is None && step.to_converter is None,
{
}

/// Clicks on different pages ask about different pages.
pub proof fn law_clicks_are_told_apart<T, Z, I, C, S, E>(
    step: Step<T, Z, PageInfo<I>, C, S, E>,
    other: Step<T, Z, PageInfo<I>, C, S, E>,
    page: usize,
    other_page: usize,
    x: String,
    y: String,
)
    requires
        answers(
            step,
            Event::<Z, I, C, S, E>::Input(
                Some(InputAction::InverseSearch { page, pdf_x: x, pdf_y: y }),
            ),
        ),
        answers(
            other,
            Event::<Z, I, C, S, E>::Input(
                Some(InputAction::InverseSearch { page: other_page, pdf_x: x, pdf_y: y }),
            ),
        ),
        page < other_page < usize::MAX,
    ensures
        step.task matches Task::InverseSearch { page: a, .. } && (
        other.task matches Task::InverseSearch { page: b, .. } && b - a == other_page - page),
{
}

/// A click on the page that a forward search found asks `synctex` about the
/// very page number that its answer gave.
pub proof fn law_click_goes_back_where_the_search_came_from<T, Z, I, C, S, E>(
    step: Step<T, Z, PageInfo<I>, C, S, E>,
    output: Seq<char>,
    text: Seq<char>,
    n: nat,
    page: usize,
    x: String,
    y: String,
)
    requires
        last_value(records(output), "Page"@) == Some(text),
        unsigned_up_to(text, usize::MAX as nat) == Some(n),
        n > 0,
        forward_page(output) == Some(page),
        answers(
            step,
            Event::<Z, I, C, S, E>::Input(
                Some(InputAction::InverseSearch { page, pdf_x: x, pdf_y: y }),
            ),
        ),
    ensures
        step.task matches Task::InverseSearch { page: asked, .. } && asked == n,
{
    law_pages_are_counted_back(output, text, n);
    law_click_asks_about_its_page(step, page, x, y);
}

/// What the renderer is told is what the user asked for, and nothing else: the
/// term that was typed, the page that was chosen, the zoom that was set.
pub proof fn law_renderer_is_told_what_the_user_asks<T, Z, I, C, S, E>(
    step: Step<T, Z, PageInfo<I>, C, S, E>,
    event: Event<Z, I, C, S, E>,
)
    requires
        answers(step, event),
        countable(event),
    ensures
        match event {
            Event::Input(Some(InputAction::JumpingToPage(page))) => step.to_renderer == Some(
                RenderNotif::<T, Z>::JumpToPage(page),
            ) && step.to_converter == Some(ConverterMsg::<PageInfo<I>>::GoToPage(page)),
            Event::Input(Some(InputAction::Search(term))) => step.to_renderer == Some(
                RenderNotif::<T, Z>::Search(term),
            ),
            Event::Input(Some(InputAction::Invert)) => step.to_renderer == Some(
                RenderNotif::<T, Z>::Invert,
            ),
            Event::Input(Some(InputAction::Rotate)) => step.to_renderer == Some(
                RenderNotif::<T, Z>::Rotate,
            ),
            Event::Input(Some(InputAction::SwitchRenderZoom(zoom))) => step.to_renderer == Some(
                RenderNotif::<T, Z>::SwitchFitOrFill(zoom),
            ),
            _ => step.to_renderer is None,
        },
{
}

/// What the converter is told: the page that is shown, how many there are, and
/// every page that was rendered, as it is. Nothing else reaches it.
pub proof fn law_converter_is_told_of_pages<T, Z, I, C, S, E>(
    step: Step<T, Z, PageInfo<I>, C, S, E>,
    event: Event<Z, I, C, S, E>,
)
    requires
        answers(step, event),
        countable(event),
    ensures
        match event {
            Event::Input(Some(InputAction::JumpingToPage(page))) => step.to_converter == Some(
                ConverterMsg::<PageInfo<I>>::GoToPage(page),
            ),
            Event::Rendered(Ok(RenderInfo::NumPages(n))) => step.to_converter == Some(
                ConverterMsg::<PageInfo<I>>::NumPages(n),
            ),
            Event::Rendered(Ok(RenderInfo::Page(info))) => step.to_converter == Some(
                ConverterMsg::<PageInfo<I>>::AddImg(info),
            ),
            _ => step.to_converter is None,
        },
{
}

/// What the screen learns: every report of the renderer and the converter, with
/// the page it is about, every error as it is, and the page an editor asks for.
/// Input changes the screen only by being drawn.
pub proof fn law_screen_learns_every_report<T, Z, I, C, S, E>(
    step: Step<T, Z, PageInfo<I>, C, S, E>,
    event: Event<Z, I, C, S, E>,
)
    requires
        answers(step, event),
        countable(event),
    ensures
        match event {
            Event::Input(_) => step.screen is None,
            Event::Rendered(Ok(RenderInfo::NumPages(n))) => step.screen == Some(
                ScreenUpdate::<C, S, E>::SetPages(n),
            ),
            Event::Rendered(Ok(RenderInfo::Page(info))) => step.screen matches Some(
                ScreenUpdate::Results { page_num, num_results },
            ) && page_num == info.page_num && num_results == info.num_results,
            Event::Rendered(Ok(RenderInfo::Reloaded)) => step.screen == Some(
                ScreenUpdate::<C, S, E>::Message(BottomMessage::Reloaded),
            ),
            Event::Rendered(Ok(RenderInfo::SearchResults { page_num: p, num_results: n })) => {
                step.screen matches Some(ScreenUpdate::Results { page_num, num_results })
                    && page_num == p && num_results == n
            },
            Event::Rendered(Err(e)) => step.screen == Some(ScreenUpdate::<C, S, E>::ShowError(e)),
            Event::Converted(Ok(page)) => step.screen == Some(
                ScreenUpdate::<C, S, E>::PageReady(page),
            ),
            Event::Converted(Err(e)) => step.screen == Some(ScreenUpdate::<C, S, E>::ShowError(e)),
            Event::IpcPage(p) => step.screen matches Some(ScreenUpdate::GoTo { page, message })
                && page == p && (message matches BottomMessage::Error(m) && m@
                == "SyncTeX \u{2192} page "@ + decimal(p as nat + 1)),
        },
{
}

/// What else has to be done: a lookup after a click, the end of a highlight
/// two seconds after an editor asked for a page, and nothing after anything
/// else.
pub proof fn law_tasks_come_from_clicks_and_editors<T, Z, I, C, S, E>(
    step: Step<T, Z, PageInfo<I>, C, S, E>,
    event: Event<Z, I, C, S, E>,
)
    requires
        answers(step, event),
        countable(event),
    ensures
        match event {
            Event::Input(Some(InputAction::InverseSearch { page, pdf_x, pdf_y })) => {
                step.task matches Task::InverseSearch { page: asked, x, y } && asked == page + 1
                    && x == pdf_x && y == pdf_y
            },
            Event::IpcPage(_) => step.task matches Task::NotifyLater { seconds, notif } && seconds
                == 2 && notif is ClearSyncTexHighlight,
            _ => step.task is Nothing,
        },
{
}

/// The screen is drawn after every event but two: input that asks for nothing,
/// and the end of the viewer, which the user alone can ask for.
pub proof fn law_when_the_screen_is_drawn<T, Z, I, C, S, E>(
    step: Step<T, Z, PageInfo<I>, C, S, E>,
    event: Event<Z, I, C, S, E>,
)
    requires
        answers(step, event),
    ensures
        step.redraw <==> !(event is Input && (event->Input_0 is None || event->Input_0->0
            is QuitApp)),
        step.quit <==> event is Input && event->Input_0 is Some && event->Input_0->0 is QuitApp,
{
}

/// Only the user's own wish changes between fullscreen and not.
pub proof fn law_only_fullscreen_changes_fullscreen<Z, I, C, S, E>(
    fullscreen: bool,
    event: Event<Z, I, C, S, E>,
)
    ensures
        fullscreen_after(fullscreen, event) != fullscreen <==> event == Event::<
            Z,
            I,
            C,
            S,
            E,
        >::Input(Some(InputAction::Fullscreen)),
{
}

/// A new area is told to the renderer as it is and always drawn; the same area
/// is not told, and drawn only if something else asks for it.
pub proof fn law_new_area_is_told<T, Z>(
    changed: bool,
    page_area: Area,
    redraw: bool,
    outcome: (Option<RenderNotif<T, Z>>, bool),
)
    requires
        call_ensures(on_layout::<T, Z>, (changed, page_area, redraw), outcome),
    ensures
        changed <==> outcome.0 is Some,
        outcome.0 matches Some(notif) ==> (notif matches RenderNotif::Area(told) && told
            == page_area),
        outcome.1 <==> changed || redraw,
{
}

/// The command that an inverse search runs is the user's, with the place that
/// was found filled in, and it runs exactly where a place was found and there
/// is a command. The user reads the file and the line of the place, or what
/// went wrong.
pub proof fn law_inverse_search_is_reported(
    result: Result<InverseResult, SyncTexError>,
    command: Option<&str>,
    outcome: (Option<String>, BottomMessage),
)
    requires
        call_ensures(inverse_report, (result, command), outcome),
    ensures
        outcome.0 is Some <==> result is Ok && command is Some,
        outcome.1 is Error,
        result matches Ok(r) ==> {
            &&& outcome.1->Error_0@ == "SyncTeX \u{2192} "@ + r.input@ + ":"@ + decimal(
                r.line as nat,
            )
            &&& command matches Some(c) ==> outcome.0->0@ == filled_in(
                c@,
                r.input@,
                decimal(r.line as nat),
                signed_decimal(r.column as int),
            )
        },
        result matches Err(SyncTexError::NotFound) ==> outcome.1->Error_0@
            == "synctex not found (install texlive)"@,
        result matches Err(SyncTexError::CommandFailed(m)) ==> outcome.1->Error_0@
            == "SyncTeX inverse: "@ + ("synctex command failed: "@ + m@),
        result matches Err(SyncTexError::ParseError(m)) ==> outcome.1->Error_0@
            == "SyncTeX inverse: "@ + ("could not parse synctex output: "@ + m@),
        result matches Err(SyncTexError::NoSyncTexFile) ==> outcome.1->Error_0@
            == "SyncTeX inverse: "@ + "no .synctex.gz file found for this PDF"@,
{
}

/// Every page that could not be shown is rendered again, each as often as it
/// was named and in the same order, whatever the reason. The user reads the
/// reason, unless the terminal only dropped the pages.
pub proof fn law_lost_pages_are_rendered_again<T, Z>(
    pages: &Vec<usize>,
    description: &str,
    error: DisplayError,
    outcome: (Option<BottomMessage>, Vec<RenderNotif<T, Z>>),
)
    requires
        call_ensures(on_display_failure::<T, Z>, (pages, description, error), outcome),
    ensures
        outcome.1@.len() == pages@.len(),
        forall|i: int|
            0 <= i < pages@.len() ==> (#[trigger] outcome.1@[i] matches
                RenderNotif::PageNeedsReRender(page) && page == pages@[i]),
        error is NoEntity <==> outcome.0 is None,
        error matches DisplayError::Other(why) ==> (outcome.0 matches Some(BottomMessage::Error(m))
            && m@ == description@ + ": "@ + why@),
{
}

/// Whatever happens, a viewer does what answers it, and changes between
/// fullscreen and not exactly where the user asks for that.
pub proof fn law_viewer_answers_what_happens<T, Z, I, C, S, E>(
    session: &mut Session,
    event: Event<Z, I, C, S, E>,
    step: Step<T, Z, PageInfo<I>, C, S, E>,
)
    requires
        call_ensures(Session::handle::<T, Z, I, C, S, E>, (session, event), step),
    ensures
        answers(step, event),
        final(session).fullscreen != old(session).fullscreen <==> event == Event::<
            Z,
            I,
            C,
            S,
            E,
        >::Input(Some(InputAction::Fullscreen)),
{
}

/// Every event can be handled but one that speaks of a page which has no
/// successor to be counted by.
pub proof fn law_what_can_be_handled<Z, I, C, S, E>(event: Event<Z, I, C, S, E>)
    ensures
        !countable(event) <==> (event is IpcPage && event->IpcPage_0 == usize::MAX || event is Input
            && event->Input_0 is Some && event->Input_0->0 is InverseSearch
            && event->Input_0->0->InverseSearch_page == usize::MAX),
{
}

} // verus!
