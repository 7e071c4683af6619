//! What the parts of the viewer tell each other.

use crate::synctex::ForwardResult;
use vstd::prelude::*;

verus! {

/// A rectangle of terminal cells.
#[derive(Debug, Clone, Copy, PartialEq, Eq, Structural)]
pub struct Area {
    /// The column of its left edge
    pub x: u16,
    /// The row of its upper edge
    pub y: u16,
    /// How many columns it spans
    pub width: u16,
    /// How many rows it spans
    pub height: u16,
}

/// What the renderer is told. Coordinates on a page are a `T`, and how a page
/// fits its area is a `Z`.
pub enum RenderNotif<T, Z> {
    /// The area that pages are shown in
    Area(Area),
    /// The page that is shown now
    JumpToPage(usize),
    /// A page that was lost and has to be rendered again
    PageNeedsReRender(usize),
    /// A term to look for
    Search(String),
    /// How a page fits its area
    SwitchFitOrFill(Z),
    /// The file has changed
    Reload,
    /// Swap the two colors
    Invert,
    /// Turn the pages
    Rotate,
    /// Show a page, with a box on it highlighted
    SyncTexJump {
        /// The page, counted from zero
        page: usize,
        /// The horizontal origin of the box
        h: T,
        /// The vertical origin of the box
        v: T,
        /// The width of the box
        width: T,
        /// The height of the box
        height: T,
    },
    /// Take the highlight away
    ClearSyncTexHighlight,
}

/// What the converter is told. A rendered page is an `I`.
pub enum ConverterMsg<I> {
    /// How many pages there are
    NumPages(usize),
    /// The page that is shown now
    GoToPage(usize),
    /// A page to convert
    AddImg(I),
}

/// What the bottom line of the screen says.
pub enum BottomMessage {
    /// A report to the user
    Error(String),
    /// That the file was reloaded
    Reloaded,
}

/// Whether `message` is a report with this text.
pub open spec fn is_report(message: BottomMessage, text: Seq<char>) -> bool {
    message matches BottomMessage::Error(m) && m@ == text
}

/// What a successful forward search sets in motion.
pub struct Jump<T, Z, I> {
    /// What the renderer is told
    pub to_renderer: RenderNotif<T, Z>,
    /// What the converter is told
    pub to_converter: ConverterMsg<I>,
    /// The page that is shown from now on, counted from zero
    pub page: usize,
}

/// What the result of a forward search sets in motion: the page is shown, and
/// the box on it highlighted.
pub open spec fn jump_to<T, Z, I>(result: ForwardResult<T>) -> Jump<T, Z, I> {
    Jump {
        to_renderer: RenderNotif::SyncTexJump {
            page: result.page,
            h: result.h,
            v: result.v,
            width: result.width,
            height: result.height,
        },
        to_converter: ConverterMsg::GoToPage(result.page),
        page: result.page,
    }
}

/// What the result of a forward search sets in motion.
pub fn jump<T, Z, I>(result: ForwardResult<T>) -> (motion: Jump<T, Z, I>)
    ensures
        motion == jump_to::<T, Z, I>(result),
{
    Jump {
        to_renderer: RenderNotif::SyncTexJump {
            page: result.page,
            h: result.h,
            v: result.v,
            width: result.width,
            height: result.height,
        },
        to_converter: ConverterMsg::GoToPage(result.page),
        page: result.page,
    }
}

/// Whether a jump shows what was found: the renderer learns the page and all
/// four measures of the box, and the converter and the screen learn the same
/// page.
pub open spec fn shows<T, Z, I>(motion: Jump<T, Z, I>, found: ForwardResult<T>) -> bool {
    &&& (motion.to_renderer matches RenderNotif::SyncTexJump { page, h, v, width, height } && page
        == found.page && h == found.h && v == found.v && width == found.width && height
        == found.height)
    &&& (motion.to_converter matches ConverterMsg::GoToPage(page) && page == found.page)
    &&& motion.page == found.page
}

/// What a forward search finds is shown with its box, on the first page as on
/// every other.
pub proof fn law_found_box_is_shown<T, Z, I>(result: ForwardResult<T>, motion: Jump<T, Z, I>)
    requires
        motion == jump_to::<T, Z, I>(result) || call_ensures(jump::<T, Z, I>, (result,), motion),
    ensures
        motion.to_renderer matches RenderNotif::SyncTexJump { page, h, v, width, height } && page
            == result.page && h == result.h && v == result.v && width == result.width && height
            == result.height,
        motion.to_converter matches ConverterMsg::GoToPage(page) && page == result.page,
        motion.page == result.page,
        shows(motion, result),
{
}

/// Two results that lead to the same messages agree on the page and the box.
pub proof fn law_different_boxes_are_told_apart<T, Z, I>(a: ForwardResult<T>, b: ForwardResult<T>)
    requires
        jump_to::<T, Z, I>(a).to_renderer == jump_to::<T, Z, I>(b).to_renderer,
    ensures
        a.page == b.page,
        a.h == b.h && a.v == b.v,
        a.width == b.width && a.height == b.height,
{
    law_found_box_is_shown::<T, Z, I>(a, jump_to(a));
    law_found_box_is_shown::<T, Z, I>(b, jump_to(b));
}

/// A jump that shows what was found tells the renderer of nothing but that box,
/// and leaves none of its measures out.
pub proof fn law_shown_box_is_the_one_found<T, Z, I>(
    motion: Jump<T, Z, I>,
    found: ForwardResult<T>,
)
    requires
        shows(motion, found),
    ensures
        motion.to_renderer == (RenderNotif::<T, Z>::SyncTexJump {
            page: found.page,
            h: found.h,
            v: found.v,
            width: found.width,
            height: found.height,
        }),
        motion.to_converter == ConverterMsg::<I>::GoToPage(found.page),
        motion.page == found.page,
{
}

} // verus!
