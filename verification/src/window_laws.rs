//! What the window procedures, the hover and the search come to, in the numbers
//! of the window system.
use vstd::prelude::*;
use crate::frame::{
    after_install, has_system_menu, style_change, titlebar_margins, SubclassStep, MENU_FLAGS,
    STYLE_CHANGED_FLAGS, SW_MAXIMIZE, SW_RESTORE, WS_SYSMENU,
};
use crate::geometry::{
    law_frame_region, mouse_point, signed16, LParam, Margins, Point, WindowFrame,
    CAPTION_BUTTON_WIDTH, HTCAPTION, HTCLIENT, HTCLOSE, HTMAXBUTTON, HTMINBUTTON, HTTRANSPARENT,
    TITLEBAR_HEIGHT, TITLEBAR_LEADING_WIDTH,
};
use crate::hover::{
    clear_run, forward_run, move_parameter, ClearStep, ForwardStep, HoverWorld, Told,
};
use crate::messages::{
    dwm_run, dwm_start, is_caption_message, is_caption_part, LResult, WindowMessage,
    RENDERER_MOUSE_LEAVE, WM_ACTIVATE, WM_MOUSEMOVE, WM_NCHITTEST, WM_NCLBUTTONDBLCLK,
    WM_NCLBUTTONDOWN, WM_NCLBUTTONUP, WM_NCMOUSELEAVE, WM_NCMOUSEMOVE, WM_NCRBUTTONDBLCLK,
    WM_NCRBUTTONDOWN, WM_NCRBUTTONUP, WM_SETCURSOR, WM_SYSCOMMAND,
};
use crate::search::{are_siblings, first_replaced, WindowSystem, WindowTree};
use crate::window_procs::{
    child_run, child_start, frame_answers, law_root_messages, root_run, root_start, ChildReplies,
    ChildStep, RootEnd, RootReplies, RootStep,
};

verus! {

/// The numbers of the window system.
pub proof fn law_numbers_of_the_window_system()
    ensures
        WM_ACTIVATE == 0x0006 && WM_SETCURSOR == 0x0020 && WM_NCHITTEST == 0x0084,
        WM_NCMOUSEMOVE == 0x00a0 && WM_NCMOUSELEAVE == 0x02a2 && WM_MOUSEMOVE == 0x0200,
        WM_NCLBUTTONDOWN == 0x00a1 && WM_NCLBUTTONUP == 0x00a2 && WM_NCLBUTTONDBLCLK == 0x00a3,
        WM_NCRBUTTONDOWN == 0x00a4 && WM_NCRBUTTONUP == 0x00a5 && WM_NCRBUTTONDBLCLK == 0x00a6,
        WM_SYSCOMMAND == 0x0112 && RENDERER_MOUSE_LEAVE == 0x02a3,
        HTTRANSPARENT == -1 && HTCLIENT == 1 && HTCAPTION == 2 && HTMINBUTTON == 8,
        HTMAXBUTTON == 9 && HTCLOSE == 20,
        WS_SYSMENU == 0x0008_0000 && STYLE_CHANGED_FLAGS == 0x0027,
        SW_MAXIMIZE == 3 && SW_RESTORE == 9 && MENU_FLAGS == 0x0102,
        TITLEBAR_HEIGHT == 28 && TITLEBAR_LEADING_WIDTH == 68 && CAPTION_BUTTON_WIDTH == 42,
        titlebar_margins() == (Margins { left: 0, right: 0, top: 28, bottom: 0 }),
{
}

/// The parts of the title bar that the window draws, and the messages of the
/// title bar that go to the default procedure.
pub proof fn law_caption_parts_and_messages(hit_test: int, msg: u32)
    ensures
        is_caption_part(hit_test) <==> hit_test == 2 || hit_test == 8 || hit_test == 9 || hit_test
            == 20,
        is_caption_message(msg) <==> 0xa1 <= msg <= 0xa3 || msg == 0xa5 || msg == 0xa6,
{
}

/// The window manager is asked about hit tests, about the mouse over the frame
/// and leaving it, and about the left button there; about nothing else. Its
/// second word counts only where it did not answer at first.
pub proof fn law_what_the_window_manager_is_asked(
    msg: u32,
    first: Option<LResult>,
    second: Option<LResult>,
)
    ensures
        ({
            let asked = msg == 0x84 || 0xa0 <= msg <= 0xa3 || msg == 0x2a2;
            &&& asked && first is Some ==> dwm_run(dwm_start(msg), first, second) == first
            &&& asked && first is None ==> dwm_run(dwm_start(msg), first, second) == second
            &&& !asked ==> dwm_run(dwm_start(msg), first, second) is None
        }),
{
}

/// A move of the mouse over the title bar, over each of the parts 2, 8, 9 and
/// 20 of it, is told to the renderer, and the arrow is shown, before the window
/// manager is asked. Over any other part the window manager is asked at once.
pub proof fn law_moves_over_the_title_bar_are_told(m: WindowMessage, replies: RootReplies)
    requires
        m.msg == 0xa0,
    ensures
        ({
            let part = m.wparam.0 as int % 0x1_0000_0000;
            let (steps, end) = root_run(m, root_start(m), replies);
            &&& part == 2 || part == 8 || part == 9 || part == 20 ==> steps == seq![
                RootStep::ForwardMouseMove,
                RootStep::SetCaptionCursor,
                RootStep::HandleDwmMessage,
            ]
            &&& part != 2 && part != 8 && part != 9 && part != 20 ==> steps == seq![
                RootStep::HandleDwmMessage,
            ]
            &&& replies.dwm matches Some(result) ==> end == RootEnd::Return(result)
            &&& replies.dwm is None ==> end == RootEnd::OriginalProcedure
        }),
{
    law_root_messages(m, replies);
}

/// When the mouse leaves the frame, the hover is cleared before the window
/// manager is asked.
pub proof fn law_the_hover_is_cleared_when_the_mouse_leaves(m: WindowMessage, replies: RootReplies)
    requires
        m.msg == 0x2a2,
    ensures
        ({
            let (steps, end) = root_run(m, root_start(m), replies);
            &&& steps == seq![RootStep::ClearMouseHover, RootStep::HandleDwmMessage]
            &&& replies.dwm matches Some(result) ==> end == RootEnd::Return(result)
            &&& replies.dwm is None ==> end == RootEnd::OriginalProcedure
        }),
{
    law_root_messages(m, replies);
}

/// Over the parts 2, 8, 9 and 20 the arrow is shown, and that is the answer if
/// it can be shown. Over any other part the arrow is not shown.
pub proof fn law_the_arrow_is_shown_over_the_title_bar(m: WindowMessage, replies: RootReplies)
    requires
        m.msg == 0x20,
    ensures
        ({
            let part = m.lparam.0 as int % 65536;
            let over = part == 2 || part == 8 || part == 9 || part == 20;
            let (steps, end) = root_run(m, root_start(m), replies);
            &&& over && replies.cursor ==> steps == seq![RootStep::SetCaptionCursor] && end
                == RootEnd::Return(LResult(1))
            &&& over && !replies.cursor ==> steps == seq![
                RootStep::SetCaptionCursor,
                RootStep::HandleDwmMessage,
            ]
            &&& !over ==> steps == seq![RootStep::HandleDwmMessage]
            &&& !over || !replies.cursor ==> end == match replies.dwm {
                Some(result) => RootEnd::Return(result),
                None => RootEnd::OriginalProcedure,
            }
        }),
{
    law_root_messages(m, replies);
}

/// A hit test is answered by the window manager unless it says nothing or that
/// the point is in the client area; then by the title bar unless that says the
/// same; and then by the window's own procedure.
pub proof fn law_hit_tests(m: WindowMessage, replies: RootReplies)
    requires
        m.msg == 0x84,
    ensures
        ({
            let (steps, end) = root_run(m, root_start(m), replies);
            let client = match replies.dwm {
                Some(result) => result.0 as int % 0x1_0000_0000 == 1,
                None => true,
            };
            &&& !client ==> steps == seq![RootStep::HandleDwmMessage] && end == RootEnd::Return(
                replies.dwm->0,
            )
            &&& client ==> steps == seq![RootStep::HandleDwmMessage, RootStep::CaptionHitTest]
            &&& client && replies.part != 1 ==> end == RootEnd::Return(
                LResult(replies.part as isize),
            )
            &&& client && replies.part == 1 ==> end == RootEnd::OriginalProcedure
        }),
{
    law_root_messages(m, replies);
}

/// The buttons over the frame, where the window manager does not answer. The
/// left button that comes up over the maximize button activates it; the right
/// button shows the system menu when it comes up over the title bar, and does
/// nothing when it goes down there. All else of the left button, and what else
/// the right button does but going down, is left to the default procedure.
pub proof fn law_buttons_over_the_frame(m: WindowMessage, replies: RootReplies)
    requires
        0xa1 <= m.msg <= 0xa6,
    ensures
        ({
            let (steps, end) = root_run(m, root_start(m), replies);
            let maximize = m.msg == 0xa2 && m.wparam.0 == 9;
            &&& replies.dwm matches Some(result) ==> steps == seq![RootStep::HandleDwmMessage]
                && end == RootEnd::Return(result)
            &&& replies.dwm is None && maximize ==> steps == seq![
                RootStep::HandleDwmMessage,
                RootStep::ActivateMaximizeButton,
            ] && end == RootEnd::Return(LResult(0))
            &&& replies.dwm is None && !maximize ==> steps == seq![RootStep::HandleDwmMessage]
                && end == if m.msg == 0xa4 && m.wparam.0 == 2 {
                RootEnd::Return(LResult(0))
            } else if m.msg == 0xa4 {
                RootEnd::OriginalProcedure
            } else if m.msg == 0xa5 && m.wparam.0 == 2 {
                RootEnd::ShowSystemMenu
            } else {
                RootEnd::DefaultProcedure
            }
        }),
{
    law_root_messages(m, replies);
}

/// Every other message goes to the window's own procedure, unless the window
/// manager answers it. When the window is activated, its frame is extended
/// first; nothing else is done.
pub proof fn law_all_other_messages(m: WindowMessage, replies: RootReplies)
    requires
        m.msg != 0x20 && m.msg != 0x84 && m.msg != 0x2a2,
        m.msg < 0xa0 || m.msg > 0xa6,
    ensures
        ({
            let (steps, end) = root_run(m, root_start(m), replies);
            &&& m.msg == 0x06 ==> steps == seq![RootStep::ExtendFrame, RootStep::HandleDwmMessage]
            &&& m.msg != 0x06 ==> steps == seq![RootStep::HandleDwmMessage]
            &&& replies.dwm matches Some(result) ==> end == RootEnd::Return(result)
            &&& replies.dwm is None ==> end == RootEnd::OriginalProcedure
        }),
{
    law_root_messages(m, replies);
}

/// Where the top-level window stands, the frame answers for 28 units below its
/// top edge and from 68 units right of its left edge on, where 96 units are an
/// inch; it answers for nothing while the place is not known.
pub proof fn law_where_the_frame_answers(lparam: LParam, frame: WindowFrame, dpi: int)
    requires
        frame.dpi <= 0x7fff_ffff,
        dpi == if frame.dpi < 96 {
            96
        } else {
            frame.dpi as int
        },
    ensures
        frame_answers(lparam, Some(frame)) <==> {
            let (x, y) = mouse_point(lparam);
            &&& frame.rect.top <= y
            &&& 96 * (y - frame.rect.top) < 28 * dpi
            &&& 96 * (x - frame.rect.left) >= 68 * dpi
            &&& x < frame.rect.right
        },
        !frame_answers(lparam, None),
{
    law_frame_region(mouse_point(lparam).0, mouse_point(lparam).1, frame, dpi);
}

/// What a child window does with a message. A hit test that its own procedure
/// places in the client area is let through where the frame answers. For a
/// cursor there the arrow is shown. All else is left to its own procedure.
pub proof fn law_messages_to_children(
    msg: u32,
    lparam: LParam,
    cursor: LParam,
    replies: ChildReplies,
)
    requires
        replies.position matches Some(point) ==> {
            &&& -0x8000_0000 <= cursor.0 <= 0x7fff_ffff
            &&& (cursor.0 - point.x) % 65536 == 0
            &&& (cursor.0 as int / 65536 - point.y) % 65536 == 0
        },
    ensures
        ({
            let end = child_run(lparam, child_start(msg), replies);
            let client = replies.original.0 as int % 0x1_0000_0000 == 1;
            let shown = replies.position is Some && frame_answers(cursor, replies.frame)
                && replies.cursor;
            &&& msg == 0x84 && client && frame_answers(lparam, replies.frame) ==> end
                == ChildStep::Return(LResult((-1) as isize))
            &&& msg == 0x84 && !(client && frame_answers(lparam, replies.frame)) ==> end
                == ChildStep::Return(replies.original)
            &&& msg == 0x20 && shown ==> end == ChildStep::Return(LResult(1))
            &&& msg == 0x20 && !shown ==> end == ChildStep::OriginalProcedure
            &&& msg != 0x84 && msg != 0x20 ==> end == ChildStep::OriginalProcedure
        }),
{
    reveal_with_fuel(child_run, 5);
    if let Some(point) = replies.position {
        lemma_parameter(cursor, point);
    }
}

/// The parameter of a mouse message is fixed by its point.
proof fn lemma_parameter(lparam: LParam, point: Point)
    requires
        -0x8000_0000 <= lparam.0 <= 0x7fff_ffff,
        (lparam.0 - point.x) % 65536 == 0,
        (lparam.0 as int / 65536 - point.y) % 65536 == 0,
    ensures
        lparam == move_parameter(point),
{
    let l = lparam.0 as int;
    let high = l / 65536;
    lemma_same_word(l, point.x as int);
    lemma_same_word(high, point.y as int);
    assert(signed16(point.y as int) == high);
    assert(l == 65536 * high + l % 65536);
}

proof fn lemma_same_word(a: int, b: int)
    requires
        (a - b) % 65536 == 0,
    ensures
        a % 65536 == b % 65536,
{
    let k = (a - b) / 65536;
    assert(a == b + 65536 * k);
    vstd::arithmetic::div_mod::lemma_mod_multiples_vanish(k, b, 65536);
}

/// What the steps about the hover do: leaving and moving are told to the child
/// that the step names, and the child that is to be kept is kept.
pub proof fn law_steps_about_the_hover(
    world: HoverWorld,
    previous: usize,
    child: usize,
    at: Point,
    lparam: LParam,
    found: Option<usize>,
    reckoned: Option<Point>,
)
    ensures
        clear_run(ClearStep::Done, world) == world,
        clear_run(ClearStep::RemoveHover, world) == (HoverWorld { kept: None, ..world }),
        clear_run(ClearStep::SendLeave { child }, world) == (HoverWorld {
            kept: None,
            told: world.told.push(Told::Left { child }),
            ..world
        }),
        forward_run(ForwardStep::Done, world, found, reckoned) == world,
        forward_run(ForwardStep::SendMove { child, lparam }, world, found, reckoned) == (
        HoverWorld { told: world.told.push(Told::Moved { child, lparam }), ..world }),
        forward_run(ForwardStep::SetHover { child, at }, world, found, reckoned) == forward_run(
            ForwardStep::SendMove { child, lparam: move_parameter(at) },
            HoverWorld { kept: Some(child), ..world },
            found,
            reckoned,
        ),
        forward_run(ForwardStep::SendLeave { previous, child, at }, world, found, reckoned)
            == forward_run(
            ForwardStep::SetHover { child, at },
            HoverWorld { told: world.told.push(Told::Left { child: previous }), ..world },
            found,
            reckoned,
        ),
{
    reveal_with_fuel(clear_run, 3);
    reveal_with_fuel(forward_run, 4);
}

/// Clearing the hover: none is kept then. The renderer that was kept is told
/// that the mouse has left it, if it exists; nobody else is told anything.
pub proof fn law_clearing_the_hover(world: HoverWorld)
    ensures
        ({
            let after = clear_run(ClearStep::ReadHover, world);
            &&& after.kept is None
            &&& after.alive == world.alive
            &&& world.kept matches Some(child) ==> after.told == if world.alive.contains(child) {
                world.told.push(Told::Left { child })
            } else {
                world.told
            }
            &&& world.kept is None ==> after.told == world.told
        }),
{
    reveal_with_fuel(clear_run, 5);
}

/// Telling of a move: the renderer that was found is kept and told last, with
/// the point in its own coordinates. Another one that was kept is told before
/// that the mouse has left it, if it exists. Nobody else is told anything.
pub proof fn law_telling_of_a_move(
    point: Point,
    world: HoverWorld,
    child: usize,
    at: Point,
    lparam: LParam,
)
    requires
        -0x8000_0000 <= lparam.0 <= 0x7fff_ffff,
        (lparam.0 - at.x) % 65536 == 0,
        (lparam.0 as int / 65536 - at.y) % 65536 == 0,
    ensures
        ({
            let after = forward_run(
                ForwardStep::FindChild { point },
                world,
                Some(child),
                Some(at),
            );
            let left = world.kept is Some && world.kept->0 != child && world.alive.contains(
                world.kept->0,
            );
            let moved = Told::Moved { child, lparam };
            &&& after.kept == Some(child)
            &&& after.alive == world.alive
            &&& left ==> after.told == world.told.push(Told::Left { child: world.kept->0 }).push(
                moved,
            )
            &&& !left ==> after.told == world.told.push(moved)
        }),
{
    reveal_with_fuel(forward_run, 8);
    lemma_parameter(lparam, at);
}

/// Without a renderer the hover is cleared. If the point cannot be reckoned,
/// nothing is kept or told.
pub proof fn law_telling_of_a_move_in_vain(
    point: Point,
    world: HoverWorld,
    child: usize,
    reckoned: Option<Point>,
)
    ensures
        forward_run(ForwardStep::FindChild { point }, world, None, reckoned) == clear_run(
            ClearStep::ReadHover,
            world,
        ),
        forward_run(ForwardStep::FindChild { point }, world, Some(child), None) == world,
{
    reveal_with_fuel(forward_run, 8);
}

/// Trees are siblings where the window system says of the first of them what
/// the tree says: its procedure, its first child and its next sibling; and
/// where the same holds of its children and of the rest.
pub proof fn law_siblings(first: WindowTree, rest: Seq<WindowTree>, system: WindowSystem)
    ensures
        are_siblings(Seq::empty(), system),
        are_siblings(seq![first] + rest, system) <==> {
            &&& (system.replaced)(first.window) == first.replaced
            &&& (system.first_child)(first.window) == if first.children.len() == 0 {
                None
            } else {
                Some(first.children[0].window)
            }
            &&& (system.next_sibling)(first.window) == if rest.len() == 0 {
                None
            } else {
                Some(rest[0].window)
            }
            &&& are_siblings(first.children, system)
            &&& are_siblings(rest, system)
        },
{
    let trees = seq![first] + rest;
    assert(trees.subrange(1, trees.len() as int) =~= rest);
    assert(trees[0] == first);
}

/// The windows of the trees, each before those below it, and those before its
/// next sibling.
pub open spec fn in_order(trees: Seq<WindowTree>) -> Seq<(usize, bool)>
    decreases trees,
{
    if trees.len() == 0 {
        Seq::empty()
    } else {
        seq![(trees[0].window, trees[0].replaced)] + in_order(trees[0].children) + in_order(
            trees.subrange(1, trees.len() as int),
        )
    }
}

/// That order: the first tree's window, then those below it, then the rest.
pub proof fn law_order(first: WindowTree, rest: Seq<WindowTree>)
    ensures
        in_order(Seq::empty()) == Seq::<(usize, bool)>::empty(),
        in_order(seq![first] + rest) == seq![(first.window, first.replaced)] + in_order(
            first.children,
        ) + in_order(rest),
{
    let trees = seq![first] + rest;
    assert(trees.subrange(1, trees.len() as int) =~= rest);
    assert(trees[0] == first);
}

/// The renderer is the first of all windows of the trees, in order, whose
/// procedure was replaced; there is none only if none of them was.
pub proof fn law_the_renderer_is_the_first_in_order(trees: Seq<WindowTree>)
    ensures
        match first_replaced(trees) {
            Some(window) => exists|i: int|
                {
                    &&& 0 <= i < in_order(trees).len()
                    &&& #[trigger] in_order(trees)[i] == (window, true)
                    &&& forall|j: int| 0 <= j < i ==> !(#[trigger] in_order(trees)[j]).1
                },
            None => forall|j: int|
                0 <= j < in_order(trees).len() ==> !(#[trigger] in_order(trees)[j]).1,
        },
    decreases trees,
{
    if trees.len() > 0 {
        let all = in_order(trees);
        let below = in_order(trees[0].children);
        let rest = trees.subrange(1, trees.len() as int);
        let beside = in_order(rest);
        law_the_renderer_is_the_first_in_order(trees[0].children);
        law_the_renderer_is_the_first_in_order(rest);
        assert(all[0] == (trees[0].window, trees[0].replaced));
        assert forall|j: int| 0 <= j < below.len() implies #[trigger] all[j + 1] == below[j] by {}
        assert forall|j: int| 0 <= j < beside.len() implies #[trigger] all[j + 1 + below.len()]
            == beside[j] by {}
        if !trees[0].replaced {
            if let Some(window) = first_replaced(trees[0].children) {
                let i = choose|i: int|
                    {
                        &&& 0 <= i < below.len()
                        &&& #[trigger] below[i] == (window, true)
                        &&& forall|j: int| 0 <= j < i ==> !(#[trigger] below[j]).1
                    };
                assert(all[i + 1] == (window, true));
                assert forall|j: int| 0 <= j < i + 1 implies !(#[trigger] all[j]).1 by {
                    if j > 0 {
                        assert(all[(j - 1) + 1] == below[j - 1]);
                    }
                }
            } else if let Some(window) = first_replaced(rest) {
                let i = choose|i: int|
                    {
                        &&& 0 <= i < beside.len()
                        &&& #[trigger] beside[i] == (window, true)
                        &&& forall|j: int| 0 <= j < i ==> !(#[trigger] beside[j]).1
                    };
                let at = i + 1 + below.len();
                assert(all[at] == (window, true));
                assert forall|j: int| 0 <= j < at implies !(#[trigger] all[j]).1 by {
                    if 0 < j <= below.len() {
                        assert(all[(j - 1) + 1] == below[j - 1]);
                    } else if j > 0 {
                        let k = j - 1 - below.len();
                        assert(all[k + 1 + below.len()] == beside[k]);
                    }
                }
            } else {
                assert forall|j: int| 0 <= j < all.len() implies !(#[trigger] all[j]).1 by {
                    if 0 < j <= below.len() {
                        assert(all[(j - 1) + 1] == below[j - 1]);
                    } else if j > 0 {
                        let k = j - 1 - below.len();
                        assert(all[k + 1 + below.len()] == beside[k]);
                    }
                }
            }
        }
    }
}

/// A style is changed only where the window has no system menu, and then so
/// that it has one and all else stays.
pub proof fn law_style_is_changed_for_the_system_menu(style: isize)
    ensures
        has_system_menu(style) <==> style & 0x0008_0000isize != 0,
        style_change(style) is None <==> style & 0x0008_0000isize != 0,
        style_change(style) matches Some(changed) ==> changed & 0x0008_0000isize != 0 && changed
            & !0x0008_0000isize == style & !0x0008_0000isize,
{
    assert((style | 0x0008_0000isize) & 0x0008_0000isize != 0) by (bit_vector);
    assert((style | 0x0008_0000isize) & !0x0008_0000isize == style & !0x0008_0000isize)
        by (bit_vector);
}

/// The old procedure is noted unless there was none and an error came back.
pub proof fn law_the_old_procedure_is_noted(previous: isize, error: u32)
    ensures
        previous != 0 || error == 0 ==> after_install(previous, error) == SubclassStep::Note(
            previous,
        ),
        previous == 0 && error != 0 ==> after_install(previous, error) == SubclassStep::Done,
{
}

} // verus!
