//! The window procedures: what is done with a message, step by step. Each
//! step names something for the window system to do; its reply leads to the
//! next step.
use vstd::prelude::*;
use crate::geometry::{
    caption_part, in_frame_region, law_children_let_the_caption_through, lemma_low_half,
    lemma_unsigned_low_half, lemma_unsigned_low_word, mouse_lparam, mouse_point,
    native_frame_region, point_lparam, signed32, ClientArea, LParam, Point, WindowFrame,
    HTCAPTION, HTCLIENT, HTMAXBUTTON, HTTRANSPARENT,
};
use crate::messages::{
    concerns_dwm, dwm_run, dwm_start, is_caption_message, is_caption_part,
    is_native_caption_hit_test, is_native_caption_message, law_dwm_is_asked_twice_at_most,
    LResult, WindowMessage, WM_ACTIVATE, WM_NCHITTEST, WM_NCLBUTTONDOWN, WM_NCLBUTTONUP,
    WM_NCMOUSELEAVE, WM_NCMOUSEMOVE, WM_NCRBUTTONDOWN, WM_NCRBUTTONUP, WM_SETCURSOR,
};

verus! {

/// How a message to the top-level window ends.
#[derive(Clone, Copy, Debug, PartialEq, Eq, Structural)]
pub enum RootEnd {
    /// With this result.
    Return(LResult),
    /// With what showing the system menu returns.
    ShowSystemMenu,
    /// With what the system's default procedure returns.
    DefaultProcedure,
    /// With what the window's own procedure returns.
    OriginalProcedure,
}

/// The next step in answering a message to the top-level window.
#[derive(Clone, Copy, Debug, PartialEq, Eq, Structural)]
pub enum RootStep {
    /// Extend the frame into the client area.
    ExtendFrame,
    /// Let the renderer under the mouse know of the move.
    ForwardMouseMove,
    /// Let the renderer know that the mouse is gone.
    ClearMouseHover,
    /// Show the arrow; the reply says whether it could be shown.
    SetCaptionCursor,
    /// Hand the message to the window manager.
    HandleDwmMessage,
    /// Find out what part of the title bar the message is about.
    CaptionHitTest,
    /// Maximize or restore the window.
    ActivateMaximizeButton,
    /// Nothing more.
    End(RootEnd),
}

/// Whether the left button was released over the maximize button.
pub open spec fn releases_maximize(m: WindowMessage) -> bool {
    m.msg == WM_NCLBUTTONUP && m.wparam.0 == HTMAXBUTTON
}

/// Whether the message asks for a cursor over the title bar.
pub open spec fn asks_caption_cursor(m: WindowMessage) -> bool {
    m.msg == WM_SETCURSOR && is_caption_part(m.lparam.0 as int % 65536)
}

/// Whether the mouse moved over the title bar.
pub open spec fn moves_over_caption(m: WindowMessage) -> bool {
    m.msg == WM_NCMOUSEMOVE && is_caption_part(signed32(m.wparam.0 as int))
}

/// The step with which a message begins.
pub open spec fn root_start(m: WindowMessage) -> RootStep {
    if m.msg == WM_ACTIVATE {
        RootStep::ExtendFrame
    } else if asks_caption_cursor(m) {
        RootStep::SetCaptionCursor
    } else if moves_over_caption(m) {
        RootStep::ForwardMouseMove
    } else if m.msg == WM_NCMOUSELEAVE {
        RootStep::ClearMouseHover
    } else {
        RootStep::HandleDwmMessage
    }
}

/// The step after the attempt to show the arrow.
pub open spec fn root_after_cursor(m: WindowMessage, shown: bool) -> RootStep {
    if m.msg == WM_SETCURSOR && shown {
        RootStep::End(RootEnd::Return(LResult(1)))
    } else {
        RootStep::HandleDwmMessage
    }
}

/// How a message ends that nobody has answered.
pub open spec fn root_unanswered(m: WindowMessage) -> RootEnd {
    if m.msg == WM_NCRBUTTONDOWN && m.wparam.0 == HTCAPTION {
        RootEnd::Return(LResult(0))
    } else if m.msg == WM_NCRBUTTONUP && m.wparam.0 == HTCAPTION {
        RootEnd::ShowSystemMenu
    } else if is_caption_message(m.msg) {
        RootEnd::DefaultProcedure
    } else {
        RootEnd::OriginalProcedure
    }
}

/// Whether the window manager found the point of a hit test outside of the
/// client area.
pub open spec fn names_part(reply: Option<LResult>) -> bool {
    match reply {
        Some(result) => signed32(result.0 as int) != HTCLIENT,
        None => false,
    }
}

/// The step after the window manager's word.
pub open spec fn root_after_dwm(m: WindowMessage, reply: Option<LResult>) -> RootStep {
    if m.msg == WM_NCHITTEST {
        if names_part(reply) {
            RootStep::End(RootEnd::Return(reply->0))
        } else {
            RootStep::CaptionHitTest
        }
    } else {
        match reply {
            Some(result) => RootStep::End(RootEnd::Return(result)),
            None => if releases_maximize(m) {
                RootStep::ActivateMaximizeButton
            } else {
                RootStep::End(root_unanswered(m))
            },
        }
    }
}

/// The step after the hit test.
pub open spec fn root_after_hit_test(m: WindowMessage, part: i32) -> RootStep {
    if part != HTCLIENT {
        RootStep::End(RootEnd::Return(LResult(part as isize)))
    } else {
        RootStep::End(root_unanswered(m))
    }
}

/// Begins to answer a message to the top-level window.
pub fn root_window_proc(m: WindowMessage) -> (step: RootStep)
    ensures
        step == root_start(m),
{
    proof {
        lemma_unsigned_low_word(m.lparam.0);
        lemma_unsigned_low_half(m.wparam.0);
    }
    if m.msg == WM_ACTIVATE {
        return RootStep::ExtendFrame;
    }
    if m.msg == WM_NCLBUTTONUP && m.wparam.0 == HTMAXBUTTON as usize {
        return RootStep::HandleDwmMessage;
    }
    if m.msg == WM_SETCURSOR && is_native_caption_hit_test((m.lparam.0 as u16) as i32) {
        return RootStep::SetCaptionCursor;
    }
    if m.msg == WM_NCMOUSEMOVE && is_native_caption_hit_test(m.wparam.0 as i32) {
        RootStep::ForwardMouseMove
    } else if m.msg == WM_NCMOUSELEAVE {
        RootStep::ClearMouseHover
    } else {
        RootStep::HandleDwmMessage
    }
}

/// Goes on when the frame has been extended.
pub fn root_frame_extended() -> (step: RootStep)
    ensures
        step == RootStep::HandleDwmMessage,
{
    RootStep::HandleDwmMessage
}

/// Goes on when the renderer under the mouse knows of the move: whether the
/// arrow can be shown makes no difference then.
pub fn root_move_forwarded() -> (step: RootStep)
    ensures
        step == RootStep::SetCaptionCursor,
{
    RootStep::SetCaptionCursor
}

/// Goes on when the renderer knows that the mouse is gone.
pub fn root_hover_cleared() -> (step: RootStep)
    ensures
        step == RootStep::HandleDwmMessage,
{
    RootStep::HandleDwmMessage
}

/// Goes on after the attempt to show the arrow.
pub fn root_cursor_set(m: WindowMessage, shown: bool) -> (step: RootStep)
    ensures
        step == root_after_cursor(m, shown),
{
    if m.msg == WM_SETCURSOR && shown {
        RootStep::End(RootEnd::Return(LResult(1)))
    } else {
        RootStep::HandleDwmMessage
    }
}

/// Goes on with what the window manager made of the message.
pub fn root_dwm_handled(m: WindowMessage, reply: Option<LResult>) -> (step: RootStep)
    ensures
        step == root_after_dwm(m, reply),
{
    if m.msg == WM_NCLBUTTONUP && m.wparam.0 == HTMAXBUTTON as usize {
        return match reply {
            Some(result) => RootStep::End(RootEnd::Return(result)),
            None => RootStep::ActivateMaximizeButton,
        };
    }
    if let Some(result) = reply {
        proof {
            lemma_low_half(result.0);
        }
        if m.msg != WM_NCHITTEST || result.0 as i32 != HTCLIENT {
            return RootStep::End(RootEnd::Return(result));
        }
    }
    if m.msg == WM_NCHITTEST {
        RootStep::CaptionHitTest
    } else {
        RootStep::End(root_ends(m))
    }
}

/// Goes on with the part of the title bar that was found.
pub fn root_hit_tested(m: WindowMessage, part: i32) -> (step: RootStep)
    ensures
        step == root_after_hit_test(m, part),
{
    if part != HTCLIENT {
        RootStep::End(RootEnd::Return(LResult(part as isize)))
    } else {
        RootStep::End(root_ends(m))
    }
}

/// Goes on when the window has been maximized or restored: with result zero.
pub fn root_maximize_activated() -> (step: RootStep)
    ensures
        step == RootStep::End(RootEnd::Return(LResult(0))),
{
    RootStep::End(RootEnd::Return(LResult(0)))
}

fn root_ends(m: WindowMessage) -> (end: RootEnd)
    ensures
        end == root_unanswered(m),
{
    if m.msg == WM_NCRBUTTONDOWN && m.wparam.0 == HTCAPTION as usize {
        return RootEnd::Return(LResult(0));
    }
    if m.msg == WM_NCRBUTTONUP && m.wparam.0 == HTCAPTION as usize {
        return RootEnd::ShowSystemMenu;
    }
    if m.msg == WM_NCLBUTTONDOWN || is_native_caption_message(m.msg) {
        return RootEnd::DefaultProcedure;
    }
    RootEnd::OriginalProcedure
}

/// What the window system replies to the steps of one message.
pub struct RootReplies {
    /// What the window manager makes of the message.
    pub dwm: Option<LResult>,
    /// Whether the arrow can be shown.
    pub cursor: bool,
    /// What part of the title bar the message is about.
    pub part: i32,
}

/// The step that follows a step.
pub open spec fn root_next(m: WindowMessage, step: RootStep, replies: RootReplies) -> RootStep {
    match step {
        RootStep::ExtendFrame => RootStep::HandleDwmMessage,
        RootStep::ForwardMouseMove => RootStep::SetCaptionCursor,
        RootStep::ClearMouseHover => RootStep::HandleDwmMessage,
        RootStep::SetCaptionCursor => root_after_cursor(m, replies.cursor),
        RootStep::HandleDwmMessage => root_after_dwm(m, replies.dwm),
        RootStep::CaptionHitTest => root_after_hit_test(m, replies.part),
        RootStep::ActivateMaximizeButton => RootStep::End(RootEnd::Return(LResult(0))),
        RootStep::End(end) => RootStep::End(end),
    }
}

/// How many steps can still come.
pub open spec fn root_rank(step: RootStep) -> nat {
    match step {
        RootStep::ForwardMouseMove => 4,
        RootStep::ExtendFrame => 3,
        RootStep::ClearMouseHover => 3,
        RootStep::SetCaptionCursor => 3,
        RootStep::HandleDwmMessage => 2,
        RootStep::CaptionHitTest => 1,
        RootStep::ActivateMaximizeButton => 1,
        RootStep::End(_) => 0,
    }
}

/// The steps from `step` on, and the end.
pub open spec fn root_run(m: WindowMessage, step: RootStep, replies: RootReplies) -> (
    Seq<RootStep>,
    RootEnd,
)
    decreases root_rank(step),
{
    match step {
        RootStep::End(end) => (Seq::empty(), end),
        _ => {
            let rest = root_run(m, root_next(m, step, replies), replies);
            (seq![step] + rest.0, rest.1)
        },
    }
}

/// What is done about a message on the way to its end.
pub open spec fn root_steps(m: WindowMessage, replies: RootReplies) -> Seq<RootStep> {
    if m.msg == WM_ACTIVATE {
        seq![RootStep::ExtendFrame, RootStep::HandleDwmMessage]
    } else if asks_caption_cursor(m) {
        if replies.cursor {
            seq![RootStep::SetCaptionCursor]
        } else {
            seq![RootStep::SetCaptionCursor, RootStep::HandleDwmMessage]
        }
    } else if moves_over_caption(m) {
        seq![RootStep::ForwardMouseMove, RootStep::SetCaptionCursor, RootStep::HandleDwmMessage]
    } else if m.msg == WM_NCMOUSELEAVE {
        seq![RootStep::ClearMouseHover, RootStep::HandleDwmMessage]
    } else if m.msg == WM_NCHITTEST && !names_part(replies.dwm) {
        seq![RootStep::HandleDwmMessage, RootStep::CaptionHitTest]
    } else if releases_maximize(m) && replies.dwm is None {
        seq![RootStep::HandleDwmMessage, RootStep::ActivateMaximizeButton]
    } else {
        seq![RootStep::HandleDwmMessage]
    }
}

/// How a message ends: the first that has an answer gives it. These are, in
/// turn, the cursor, the window manager, the title bar, and the procedures.
pub open spec fn root_end(m: WindowMessage, replies: RootReplies) -> RootEnd {
    if asks_caption_cursor(m) && replies.cursor {
        RootEnd::Return(LResult(1))
    } else if m.msg == WM_NCHITTEST {
        if names_part(replies.dwm) {
            RootEnd::Return(replies.dwm->0)
        } else if replies.part != HTCLIENT {
            RootEnd::Return(LResult(replies.part as isize))
        } else {
            RootEnd::OriginalProcedure
        }
    } else if replies.dwm is Some {
        RootEnd::Return(replies.dwm->0)
    } else if releases_maximize(m) {
        RootEnd::Return(LResult(0))
    } else if m.msg == WM_NCRBUTTONDOWN && m.wparam.0 == HTCAPTION {
        RootEnd::Return(LResult(0))
    } else if m.msg == WM_NCRBUTTONUP && m.wparam.0 == HTCAPTION {
        RootEnd::ShowSystemMenu
    } else if is_caption_message(m.msg) {
        RootEnd::DefaultProcedure
    } else {
        RootEnd::OriginalProcedure
    }
}

/// Every message comes to its end, by these steps and with this end.
pub proof fn law_root_messages(m: WindowMessage, replies: RootReplies)
    ensures
        root_run(m, root_start(m), replies) == (root_steps(m, replies), root_end(m, replies)),
{
    reveal_with_fuel(root_run, 5);
    assert(root_run(m, root_start(m), replies).0 =~= root_steps(m, replies));
}

/// Whether a message is about the frame of the window.
pub open spec fn concerns_frame(msg: u32) -> bool {
    concerns_dwm(msg) || is_caption_message(msg) || msg == WM_NCRBUTTONDOWN
}

/// Input to the client area stays with the window's own procedure. It answers
/// every message that is neither about the frame nor asks for a cursor over
/// the title bar, whatever the window manager would say; all that is done on
/// the way is to extend the frame when the window is activated.
pub proof fn law_client_input_stays_with_the_window(
    m: WindowMessage,
    replies: RootReplies,
    first: Option<LResult>,
    second: Option<LResult>,
)
    requires
        replies.dwm == dwm_run(dwm_start(m.msg), first, second),
        !concerns_frame(m.msg),
        !asks_caption_cursor(m),
    ensures
        root_run(m, root_start(m), replies) == (
            if m.msg == WM_ACTIVATE {
                seq![RootStep::ExtendFrame, RootStep::HandleDwmMessage]
            } else {
                seq![RootStep::HandleDwmMessage]
            },
            RootEnd::OriginalProcedure,
        ),
{
    law_root_messages(m, replies);
    law_dwm_is_asked_twice_at_most(m.msg, first, second);
}

/// The next step in answering a message to a child window.
#[derive(Clone, Copy, Debug, PartialEq, Eq, Structural)]
pub enum ChildStep {
    /// Find out where the mouse is.
    ReadCursorPosition,
    /// Find out where the top-level window is, for a cursor at this point.
    LocateForCursor(LParam),
    /// Show the arrow; the reply says whether it could be shown.
    SetCaptionCursor,
    /// Let the child's own procedure answer the hit test.
    AskOriginal,
    /// Find out where the top-level window is, for this answer.
    LocateForHitTest(LResult),
    /// The message ends with this result.
    Return(LResult),
    /// The message ends with what the child's own procedure returns.
    OriginalProcedure,
}

/// Whether the frame answers for the point of a mouse message.
pub open spec fn frame_answers(lparam: LParam, frame: Option<WindowFrame>) -> bool {
    match frame {
        Some(frame) => in_frame_region(mouse_point(lparam).0, mouse_point(lparam).1, frame),
        None => false,
    }
}

/// The step with which a message begins.
pub open spec fn child_start(msg: u32) -> ChildStep {
    if msg == WM_SETCURSOR {
        ChildStep::ReadCursorPosition
    } else if msg == WM_NCHITTEST {
        ChildStep::AskOriginal
    } else {
        ChildStep::OriginalProcedure
    }
}

/// Begins to answer a message to a child window.
pub fn child_window_proc(msg: u32) -> (step: ChildStep)
    ensures
        step == child_start(msg),
{
    if msg == WM_SETCURSOR {
        ChildStep::ReadCursorPosition
    } else if msg == WM_NCHITTEST {
        ChildStep::AskOriginal
    } else {
        ChildStep::OriginalProcedure
    }
}

/// The step after the mouse has been looked for.
pub open spec fn child_after_position(position: Option<Point>) -> ChildStep {
    match position {
        Some(point) => ChildStep::LocateForCursor(
            LParam(point_lparam(point.x as int, point.y as int) as isize),
        ),
        None => ChildStep::OriginalProcedure,
    }
}

/// Goes on with the place of the mouse, if it is known.
pub fn child_position_read(position: Option<Point>) -> (step: ChildStep)
    ensures
        step == child_after_position(position),
{
    match position {
        Some(point) => ChildStep::LocateForCursor(mouse_lparam(point.x, point.y)),
        None => ChildStep::OriginalProcedure,
    }
}

/// Goes on with the place of the top-level window, if it is known: over the
/// frame's part the arrow is shown.
pub fn child_located_for_cursor(cursor: LParam, frame: Option<WindowFrame>) -> (step: ChildStep)
    ensures
        step == if frame_answers(cursor, frame) {
            ChildStep::SetCaptionCursor
        } else {
            ChildStep::OriginalProcedure
        },
{
    if native_frame_region(cursor, frame) {
        ChildStep::SetCaptionCursor
    } else {
        ChildStep::OriginalProcedure
    }
}

/// Goes on after the attempt to show the arrow.
pub fn child_cursor_set(shown: bool) -> (step: ChildStep)
    ensures
        step == if shown {
            ChildStep::Return(LResult(1))
        } else {
            ChildStep::OriginalProcedure
        },
{
    if shown {
        ChildStep::Return(LResult(1))
    } else {
        ChildStep::OriginalProcedure
    }
}

/// Goes on with the hit test of the child's own procedure.
pub fn child_original_answered(hit_test: LResult) -> (step: ChildStep)
    ensures
        step == if signed32(hit_test.0 as int) == HTCLIENT {
            ChildStep::LocateForHitTest(hit_test)
        } else {
            ChildStep::Return(hit_test)
        },
{
    proof {
        lemma_low_half(hit_test.0);
    }
    if hit_test.0 as i32 == HTCLIENT {
        ChildStep::LocateForHitTest(hit_test)
    } else {
        ChildStep::Return(hit_test)
    }
}

/// Goes on with the place of the top-level window, if it is known: the
/// frame's part is let through to the window below.
pub fn child_located_for_hit_test(
    hit_test: LResult,
    lparam: LParam,
    frame: Option<WindowFrame>,
) -> (step: ChildStep)
    ensures
        step == if frame_answers(lparam, frame) {
            ChildStep::Return(LResult(HTTRANSPARENT as isize))
        } else {
            ChildStep::Return(hit_test)
        },
{
    if native_frame_region(lparam, frame) {
        ChildStep::Return(LResult(HTTRANSPARENT as isize))
    } else {
        ChildStep::Return(hit_test)
    }
}

/// What the window system replies to the steps of one message to a child.
pub struct ChildReplies {
    /// Where the mouse is, if that is known.
    pub position: Option<Point>,
    /// Where the top-level window is, if that is known.
    pub frame: Option<WindowFrame>,
    /// Whether the arrow can be shown.
    pub cursor: bool,
    /// What the child's own procedure answers.
    pub original: LResult,
}

/// The step that follows a step.
pub open spec fn child_next(lparam: LParam, step: ChildStep, replies: ChildReplies) -> ChildStep {
    match step {
        ChildStep::ReadCursorPosition => child_after_position(replies.position),
        ChildStep::LocateForCursor(cursor) => if frame_answers(cursor, replies.frame) {
            ChildStep::SetCaptionCursor
        } else {
            ChildStep::OriginalProcedure
        },
        ChildStep::SetCaptionCursor => if replies.cursor {
            ChildStep::Return(LResult(1))
        } else {
            ChildStep::OriginalProcedure
        },
        ChildStep::AskOriginal => if signed32(replies.original.0 as int) == HTCLIENT {
            ChildStep::LocateForHitTest(replies.original)
        } else {
            ChildStep::Return(replies.original)
        },
        ChildStep::LocateForHitTest(hit_test) => if frame_answers(lparam, replies.frame) {
            ChildStep::Return(LResult(HTTRANSPARENT as isize))
        } else {
            ChildStep::Return(hit_test)
        },
        end => end,
    }
}

/// How many steps can still come.
pub open spec fn child_rank(step: ChildStep) -> nat {
    match step {
        ChildStep::ReadCursorPosition => 3,
        ChildStep::LocateForCursor(_) => 2,
        ChildStep::AskOriginal => 2,
        ChildStep::SetCaptionCursor => 1,
        ChildStep::LocateForHitTest(_) => 1,
        _ => 0,
    }
}

/// The step with which a message ends that has come to `step`.
pub open spec fn child_run(lparam: LParam, step: ChildStep, replies: ChildReplies) -> ChildStep
    decreases child_rank(step),
{
    if child_rank(step) == 0 {
        step
    } else {
        child_run(lparam, child_next(lparam, step, replies), replies)
    }
}

/// A hit test that the child takes for its own client area is let through
/// where the frame answers; every other answer of the child stands.
pub proof fn law_child_hit_test(lparam: LParam, replies: ChildReplies)
    ensures
        child_run(lparam, child_start(WM_NCHITTEST), replies) == ChildStep::Return(
            if signed32(replies.original.0 as int) == HTCLIENT && frame_answers(lparam, replies.frame) {
                LResult(HTTRANSPARENT as isize)
            } else {
                replies.original
            },
        ),
{
    reveal_with_fuel(child_run, 4);
}

/// Over the frame's part the child shows the arrow, if it can; everything
/// else is left to its own procedure.
pub proof fn law_child_cursor(msg: u32, lparam: LParam, replies: ChildReplies)
    requires
        msg != WM_NCHITTEST,
    ensures
        child_run(lparam, child_start(msg), replies) == if msg == WM_SETCURSOR && replies.cursor
            && replies.position is Some && frame_answers(
            LParam(
                point_lparam(
                    replies.position->0.x as int,
                    replies.position->0.y as int,
                ) as isize,
            ),
            replies.frame,
        ) {
            ChildStep::Return(LResult(1))
        } else {
            ChildStep::OriginalProcedure
        },
{
    reveal_with_fuel(child_run, 5);
}

/// A hit test over the title bar comes from the child windows to the window
/// below, which then names the part: the maximize button, or what moves the
/// window. This is so where the child takes the point for its own client area
/// and the window manager does not name a part itself.
pub proof fn law_title_bar_reaches_the_window(
    m: WindowMessage,
    area: ClientArea,
    replies: RootReplies,
    child: ChildReplies,
)
    requires
        m.msg == WM_NCHITTEST,
        replies.part == caption_part(mouse_point(m.lparam).0, mouse_point(m.lparam).1, area),
        replies.part != HTCLIENT,
        !names_part(replies.dwm),
        signed32(child.original.0 as int) == HTCLIENT,
        child.frame is Some,
        child.frame->0.dpi == area.dpi,
        child.frame->0.rect.left <= area.origin.x,
        child.frame->0.rect.top == area.origin.y,
        child.frame->0.rect.right >= area.origin.x + area.width,
    ensures
        child_run(m.lparam, child_start(m.msg), child) == ChildStep::Return(
            LResult(HTTRANSPARENT as isize),
        ),
        root_run(m, root_start(m), replies).1 == RootEnd::Return(LResult(replies.part as isize)),
        replies.part == HTMAXBUTTON || replies.part == HTCAPTION,
{
    law_child_hit_test(m.lparam, child);
    law_root_messages(m, replies);
    law_children_let_the_caption_through(
        mouse_point(m.lparam).0,
        mouse_point(m.lparam).1,
        area,
        child.frame->0,
    );
}

} // verus!
