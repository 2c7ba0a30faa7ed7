//! Window messages and how they are told apart.
use vstd::prelude::*;
use crate::geometry::{LParam, HTCAPTION, HTCLOSE, HTMAXBUTTON, HTMINBUTTON};

verus! {

/// The window becomes active or ceases to be.
pub const WM_ACTIVATE: u32 = 0x0006;

/// The mouse is over the window, which may choose its cursor.
pub const WM_SETCURSOR: u32 = 0x0020;

/// Asks what part of the window is at a point.
pub const WM_NCHITTEST: u32 = 0x0084;

/// The mouse moved over the frame.
pub const WM_NCMOUSEMOVE: u32 = 0x00a0;

/// The left button went down over the frame.
pub const WM_NCLBUTTONDOWN: u32 = 0x00a1;

/// The left button came up over the frame.
pub const WM_NCLBUTTONUP: u32 = 0x00a2;

/// The left button was clicked twice over the frame.
pub const WM_NCLBUTTONDBLCLK: u32 = 0x00a3;

/// The right button went down over the frame.
pub const WM_NCRBUTTONDOWN: u32 = 0x00a4;

/// The right button came up over the frame.
pub const WM_NCRBUTTONUP: u32 = 0x00a5;

/// The right button was clicked twice over the frame.
pub const WM_NCRBUTTONDBLCLK: u32 = 0x00a6;

/// A command of the system menu was chosen.
pub const WM_SYSCOMMAND: u32 = 0x0112;

/// The mouse moved over the client area.
pub const WM_MOUSEMOVE: u32 = 0x0200;

/// The mouse left the frame.
pub const WM_NCMOUSELEAVE: u32 = 0x02a2;

/// Tells a renderer that the mouse has left it.
pub const RENDERER_MOUSE_LEAVE: u32 = 0x02a3;

/// The first parameter of a window message.
#[derive(Clone, Copy, Debug, PartialEq, Eq, Structural)]
pub struct WParam(pub usize);

/// What a window procedure returns.
#[derive(Clone, Copy, Debug, PartialEq, Eq, Structural)]
pub struct LResult(pub isize);

/// A message to a window.
#[derive(Clone, Copy, Debug, PartialEq, Eq, Structural)]
pub struct WindowMessage {
    pub msg: u32,
    pub wparam: WParam,
    pub lparam: LParam,
}

/// Whether a hit test names a part of the title bar that the window draws.
pub open spec fn is_caption_part(hit_test: int) -> bool {
    hit_test == HTCAPTION || hit_test == HTMINBUTTON || hit_test == HTMAXBUTTON || hit_test
        == HTCLOSE
}

/// Whether a hit test names a part of the title bar that the window draws.
pub fn is_native_caption_hit_test(hit_test: i32) -> (native: bool)
    ensures
        native == is_caption_part(hit_test as int),
{
    hit_test == HTCAPTION || hit_test == HTMINBUTTON || hit_test == HTMAXBUTTON || hit_test
        == HTCLOSE
}

/// Whether a message of the title bar goes to the default procedure.
pub open spec fn is_caption_message(msg: u32) -> bool {
    msg == WM_NCLBUTTONDOWN || msg == WM_NCLBUTTONUP || msg == WM_NCLBUTTONDBLCLK || msg
        == WM_NCRBUTTONDBLCLK || msg == WM_NCRBUTTONUP
}

/// Whether a message of the title bar goes to the default procedure.
pub fn is_native_caption_message(msg: u32) -> (native: bool)
    ensures
        native == is_caption_message(msg),
{
    msg == WM_NCLBUTTONDOWN || msg == WM_NCLBUTTONUP || msg == WM_NCLBUTTONDBLCLK || msg
        == WM_NCRBUTTONDBLCLK || msg == WM_NCRBUTTONUP
}

/// Whether the window manager may want a message.
pub open spec fn concerns_dwm(msg: u32) -> bool {
    msg == WM_NCHITTEST || msg == WM_NCMOUSEMOVE || msg == WM_NCMOUSELEAVE || msg
        == WM_NCLBUTTONDOWN || msg == WM_NCLBUTTONUP || msg == WM_NCLBUTTONDBLCLK
}

/// The next step in handing a message to the window manager.
#[derive(Clone, Copy, Debug, PartialEq, Eq, Structural)]
pub enum DwmStep {
    /// Ask the window manager.
    Ask,
    /// Extend the frame into the client area, and ask again.
    ExtendAndAsk,
    /// This is what came of it.
    Done(Option<LResult>),
}

/// The step with which a message begins.
pub open spec fn dwm_start(msg: u32) -> DwmStep {
    if concerns_dwm(msg) {
        DwmStep::Ask
    } else {
        DwmStep::Done(None)
    }
}

/// Begins to hand a message to the window manager.
pub fn handle_dwm_message(msg: u32) -> (step: DwmStep)
    ensures
        step == dwm_start(msg),
{
    if msg == WM_NCHITTEST || msg == WM_NCMOUSEMOVE || msg == WM_NCMOUSELEAVE || msg
        == WM_NCLBUTTONDOWN || msg == WM_NCLBUTTONUP || msg == WM_NCLBUTTONDBLCLK {
        DwmStep::Ask
    } else {
        DwmStep::Done(None)
    }
}

/// The step after the window manager's first reply.
pub open spec fn after_first_reply(reply: Option<LResult>) -> DwmStep {
    match reply {
        Some(result) => DwmStep::Done(Some(result)),
        None => DwmStep::ExtendAndAsk,
    }
}

/// Takes the window manager's first reply: a result if it handled the
/// message.
pub fn dwm_first_reply(reply: Option<LResult>) -> (step: DwmStep)
    ensures
        step == after_first_reply(reply),
{
    match reply {
        Some(result) => DwmStep::Done(Some(result)),
        None => DwmStep::ExtendAndAsk,
    }
}

/// Takes the window manager's second reply.
pub fn dwm_second_reply(reply: Option<LResult>) -> (step: DwmStep)
    ensures
        step == DwmStep::Done(reply),
{
    DwmStep::Done(reply)
}

/// What comes of a message that has come to `step`, if the window manager
/// replies `first` and, once the frame has been extended, `second`.
pub open spec fn dwm_run(
    step: DwmStep,
    first: Option<LResult>,
    second: Option<LResult>,
) -> Option<LResult> {
    match step {
        DwmStep::Ask => match after_first_reply(first) {
            DwmStep::Done(result) => result,
            _ => second,
        },
        DwmStep::ExtendAndAsk => second,
        DwmStep::Done(result) => result,
    }
}

/// The window manager is asked only for messages that concern it. Its first
/// reply counts if it handled the message, and the second one if it did not.
pub proof fn law_dwm_is_asked_twice_at_most(
    msg: u32,
    first: Option<LResult>,
    second: Option<LResult>,
)
    ensures
        dwm_run(dwm_start(msg), first, second) == if !concerns_dwm(msg) {
            None
        } else if first is Some {
            first
        } else {
            second
        },
{
}

} // verus!
