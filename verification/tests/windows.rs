use tauri_webview::frame::{
    activate_maximize_button, enable_system_menu, error_cleared, menu_tracked, procedure_installed,
    show_system_menu, subclass_browser_child_windows, subclass_window,
    subclass_window_for_dragging, MenuStep, SetupStep, SubclassStep, MENU_FLAGS,
    STYLE_CHANGED_FLAGS, SW_MAXIMIZE, SW_RESTORE, WS_SYSMENU,
};
use tauri_webview::geometry::{
    custom_caption_hit_test, frame_margins, mouse_lparam, native_frame_region, point_of, scaled,
    ClientArea, LParam, Margins, Point, Rect, WindowFrame, HTCAPTION, HTCLIENT, HTCLOSE,
    HTMAXBUTTON, HTMINBUTTON, HTTRANSPARENT,
};
use tauri_webview::hover::{
    clear_alive_checked, clear_hover_read, clear_leave_sent, clear_native_mouse_hover,
    forward_alive_checked, forward_child_found, forward_hover_read, forward_hover_set,
    forward_leave_sent, forward_native_mouse_move, forward_point_reckoned, ClearStep, ForwardStep,
};
use tauri_webview::messages::{
    dwm_first_reply, dwm_second_reply, handle_dwm_message, is_native_caption_hit_test,
    is_native_caption_message, DwmStep, LResult, WParam, WindowMessage, WM_ACTIVATE, WM_MOUSEMOVE,
    WM_NCHITTEST, WM_NCLBUTTONDBLCLK, WM_NCLBUTTONDOWN, WM_NCLBUTTONUP, WM_NCMOUSELEAVE,
    WM_NCMOUSEMOVE, WM_NCRBUTTONDBLCLK, WM_NCRBUTTONDOWN, WM_NCRBUTTONUP, WM_SETCURSOR,
};
use tauri_webview::search::{find_native_hover_child, SearchStep};
use tauri_webview::window_procs::{
    child_cursor_set, child_located_for_cursor, child_located_for_hit_test,
    child_original_answered, child_position_read, child_window_proc, root_cursor_set,
    root_dwm_handled, root_frame_extended, root_hit_tested, root_hover_cleared,
    root_maximize_activated, root_move_forwarded, root_window_proc, ChildStep, RootEnd, RootStep,
};

#[test]
fn mouse_lparam_preserves_signed_screen_coordinates() {
    assert_eq!(mouse_lparam(-12, 640).0 as u32, 0x0280fff4);
}

#[test]
fn points_survive_the_message_parameter() {
    for x in [-32768, -1, 0, 1, 640, 32767] {
        for y in [-32768, -12, 0, 7, 32767] {
            assert_eq!(point_of(mouse_lparam(x, y)), Point { x, y });
        }
    }
    // The sign of the second coordinate fills the rest of the parameter.
    assert_eq!(mouse_lparam(0, -1).0, -65536);
    assert_eq!(mouse_lparam(-1, 0).0, 65535);
}

#[test]
fn larger_coordinates_lose_their_high_bits() {
    assert_eq!(point_of(mouse_lparam(65536 + 5, 65536 * 3 - 7)), Point { x: 5, y: -7 });
    assert_eq!(point_of(LParam(0x1234_0002_0001)), Point { x: 1, y: 2 });
}

#[test]
fn the_frame_takes_the_title_bar() {
    assert_eq!(frame_margins(), Margins { left: 0, right: 0, top: 28, bottom: 0 });
}

fn frame(left: i32, top: i32, right: i32, dpi: u32) -> Option<WindowFrame> {
    Some(WindowFrame { rect: Rect { left, top, right, bottom: top + 600 }, dpi })
}

#[test]
fn the_frame_answers_for_the_title_bar_but_its_leading_part() {
    let window = frame(100, 50, 900, 96);
    assert!(native_frame_region(mouse_lparam(168, 50), window));
    assert!(!native_frame_region(mouse_lparam(167, 50), window));
    assert!(native_frame_region(mouse_lparam(899, 77), window));
    assert!(!native_frame_region(mouse_lparam(900, 77), window));
    assert!(!native_frame_region(mouse_lparam(899, 78), window));
    assert!(!native_frame_region(mouse_lparam(899, 49), window));
    assert!(!native_frame_region(mouse_lparam(899, 50), None));
}

#[test]
fn the_frame_answers_left_of_and_above_the_main_screen() {
    let window = frame(-1900, -40, -100, 96);
    assert!(native_frame_region(mouse_lparam(-1832, -40), window));
    assert!(!native_frame_region(mouse_lparam(-1833, -40), window));
    assert!(native_frame_region(mouse_lparam(-101, -13), window));
    assert!(!native_frame_region(mouse_lparam(-101, -12), window));
}

#[test]
fn lengths_grow_with_the_resolution_and_are_rounded_up() {
    // At 144 dots per inch: 68 becomes 102, 28 becomes 42.
    let window = frame(0, 0, 1000, 144);
    assert!(native_frame_region(mouse_lparam(102, 41), window));
    assert!(!native_frame_region(mouse_lparam(101, 41), window));
    assert!(!native_frame_region(mouse_lparam(102, 42), window));
    // At 100: 70.8 becomes 71, 29.2 becomes 30.
    let window = frame(0, 0, 1000, 100);
    assert!(native_frame_region(mouse_lparam(71, 29), window));
    assert!(!native_frame_region(mouse_lparam(70, 29), window));
    assert!(!native_frame_region(mouse_lparam(71, 30), window));
    // Less than 96 counts as 96.
    let window = frame(0, 0, 1000, 0);
    assert!(native_frame_region(mouse_lparam(68, 27), window));
    assert!(!native_frame_region(mouse_lparam(67, 27), window));
    assert!(!native_frame_region(mouse_lparam(68, 28), window));
}

fn area(dpi: u32) -> Option<ClientArea> {
    Some(ClientArea { origin: Point { x: 100, y: 50 }, width: 800, dpi })
}

#[test]
fn the_title_bar_has_three_buttons_and_a_leading_part() {
    let part = |x: i32, y: i32| custom_caption_hit_test(mouse_lparam(x, y), area(96));
    // Right edge at 900; buttons of width 42.
    assert_eq!(part(899, 60), HTCLIENT);
    assert_eq!(part(859, 60), HTCLIENT);
    assert_eq!(part(858, 60), HTMAXBUTTON);
    assert_eq!(part(817, 60), HTMAXBUTTON);
    assert_eq!(part(816, 60), HTCLIENT);
    assert_eq!(part(775, 60), HTCLIENT);
    assert_eq!(part(774, 60), HTCAPTION);
    assert_eq!(part(168, 60), HTCAPTION);
    assert_eq!(part(167, 60), HTCLIENT);
    assert_eq!(part(100, 60), HTCLIENT);
}

#[test]
fn outside_of_the_title_bar_all_is_client_area() {
    let part = |x: i32, y: i32| custom_caption_hit_test(mouse_lparam(x, y), area(96));
    assert_eq!(part(500, 49), HTCLIENT);
    assert_eq!(part(500, 50), HTCAPTION);
    assert_eq!(part(500, 77), HTCAPTION);
    assert_eq!(part(500, 78), HTCLIENT);
    assert_eq!(part(99, 60), HTCLIENT);
    assert_eq!(part(900, 60), HTCLIENT);
    assert_eq!(custom_caption_hit_test(mouse_lparam(500, 60), None), HTCLIENT);
}

#[test]
fn buttons_grow_with_the_resolution() {
    let part = |x: i32| custom_caption_hit_test(mouse_lparam(x, 60), area(192));
    assert_eq!(part(817), HTCLIENT);
    assert_eq!(part(816), HTMAXBUTTON);
    assert_eq!(part(733), HTMAXBUTTON);
    assert_eq!(part(732), HTCLIENT);
    assert_eq!(part(648), HTCAPTION);
}

#[test]
fn children_let_through_what_the_window_answers_for() {
    let window = frame(100, 50, 900, 96);
    for x in 90..910 {
        for y in [49, 50, 63, 77, 78] {
            let at = mouse_lparam(x, y);
            if custom_caption_hit_test(at, area(96)) != HTCLIENT {
                assert!(native_frame_region(at, window));
            }
        }
    }
}

#[test]
fn parts_of_the_title_bar_are_known() {
    for part in [HTCAPTION, HTMINBUTTON, HTMAXBUTTON, HTCLOSE] {
        assert!(is_native_caption_hit_test(part));
    }
    assert_eq!((HTCAPTION, HTMINBUTTON, HTMAXBUTTON, HTCLOSE), (2, 8, 9, 20));
    for part in [HTCLIENT, HTTRANSPARENT, 0, 3] {
        assert!(!is_native_caption_hit_test(part));
    }
}

#[test]
fn messages_for_the_default_procedure_are_known() {
    for msg in [
        WM_NCLBUTTONDOWN,
        WM_NCLBUTTONUP,
        WM_NCLBUTTONDBLCLK,
        WM_NCRBUTTONDBLCLK,
        WM_NCRBUTTONUP,
    ] {
        assert!(is_native_caption_message(msg));
    }
    for msg in [WM_NCRBUTTONDOWN, WM_NCMOUSEMOVE, WM_NCHITTEST, WM_MOUSEMOVE] {
        assert!(!is_native_caption_message(msg));
    }
}

fn ask_dwm(msg: u32, first: Option<LResult>, second: Option<LResult>) -> (Option<LResult>, usize) {
    let mut step = handle_dwm_message(msg);
    let mut asked = 0;
    loop {
        step = match step {
            DwmStep::Ask => {
                asked += 1;
                dwm_first_reply(first)
            }
            DwmStep::ExtendAndAsk => {
                asked += 1;
                dwm_second_reply(second)
            }
            DwmStep::Done(result) => return (result, asked),
        }
    }
}

#[test]
fn the_window_manager_is_asked_twice_at_most() {
    let (one, two) = (Some(LResult(1)), Some(LResult(2)));
    for msg in [
        WM_NCHITTEST,
        WM_NCMOUSEMOVE,
        WM_NCMOUSELEAVE,
        WM_NCLBUTTONDOWN,
        WM_NCLBUTTONUP,
        WM_NCLBUTTONDBLCLK,
    ] {
        assert_eq!(ask_dwm(msg, one, two), (one, 1));
        assert_eq!(ask_dwm(msg, None, two), (two, 2));
        assert_eq!(ask_dwm(msg, None, None), (None, 2));
    }
    for msg in [WM_ACTIVATE, WM_SETCURSOR, WM_NCRBUTTONUP, WM_NCRBUTTONDOWN] {
        assert_eq!(ask_dwm(msg, one, two), (None, 0));
    }
}

fn run_root(
    msg: u32,
    wparam: usize,
    lparam: isize,
    dwm: Option<LResult>,
    cursor: bool,
    part: i32,
) -> (Vec<RootStep>, RootEnd) {
    let m = WindowMessage { msg, wparam: WParam(wparam), lparam: LParam(lparam) };
    let mut steps = vec![];
    let mut step = root_window_proc(m);
    loop {
        if let RootStep::End(end) = step {
            return (steps, end);
        }
        steps.push(step);
        step = match step {
            RootStep::ExtendFrame => root_frame_extended(),
            RootStep::ForwardMouseMove => root_move_forwarded(),
            RootStep::ClearMouseHover => root_hover_cleared(),
            RootStep::SetCaptionCursor => root_cursor_set(m, cursor),
            RootStep::HandleDwmMessage => root_dwm_handled(m, dwm),
            RootStep::CaptionHitTest => root_hit_tested(m, part),
            RootStep::ActivateMaximizeButton => root_maximize_activated(),
            RootStep::End(_) => unreachable!(),
        }
    }
}

#[test]
fn activation_extends_the_frame() {
    assert_eq!(
        run_root(WM_ACTIVATE, 0, 0, None, true, HTCLIENT),
        (
            vec![RootStep::ExtendFrame, RootStep::HandleDwmMessage],
            RootEnd::OriginalProcedure
        )
    );
}

#[test]
fn the_maximize_button_is_activated_when_it_is_released() {
    let steps = vec![RootStep::HandleDwmMessage];
    assert_eq!(
        run_root(WM_NCLBUTTONUP, HTMAXBUTTON as usize, 0, None, true, HTCLIENT),
        (
            vec![RootStep::HandleDwmMessage, RootStep::ActivateMaximizeButton],
            RootEnd::Return(LResult(0))
        )
    );
    assert_eq!(
        run_root(WM_NCLBUTTONUP, HTMAXBUTTON as usize, 0, Some(LResult(5)), true, HTCLIENT),
        (steps.clone(), RootEnd::Return(LResult(5)))
    );
    assert_eq!(
        run_root(WM_NCLBUTTONUP, HTCAPTION as usize, 0, None, true, HTCLIENT),
        (steps, RootEnd::DefaultProcedure)
    );
}

#[test]
fn over_the_title_bar_the_arrow_is_shown() {
    // Only the low word names the part.
    let lparam = 0x0200_0000 | HTCAPTION as isize;
    assert_eq!(
        run_root(WM_SETCURSOR, 0, lparam, None, true, HTCLIENT),
        (vec![RootStep::SetCaptionCursor], RootEnd::Return(LResult(1)))
    );
    assert_eq!(
        run_root(WM_SETCURSOR, 0, lparam, None, false, HTCLIENT),
        (
            vec![RootStep::SetCaptionCursor, RootStep::HandleDwmMessage],
            RootEnd::OriginalProcedure
        )
    );
    assert_eq!(
        run_root(WM_SETCURSOR, 0, HTCLIENT as isize, None, true, HTCLIENT),
        (vec![RootStep::HandleDwmMessage], RootEnd::OriginalProcedure)
    );
}

#[test]
fn moves_over_the_title_bar_are_forwarded() {
    for cursor in [false, true] {
        assert_eq!(
            run_root(WM_NCMOUSEMOVE, HTCLOSE as usize, 0, None, cursor, HTCLIENT),
            (
                vec![
                    RootStep::ForwardMouseMove,
                    RootStep::SetCaptionCursor,
                    RootStep::HandleDwmMessage
                ],
                RootEnd::OriginalProcedure
            )
        );
    }
    assert_eq!(
        run_root(WM_NCMOUSEMOVE, 3, 0, Some(LResult(0)), true, HTCLIENT),
        (vec![RootStep::HandleDwmMessage], RootEnd::Return(LResult(0)))
    );
    assert_eq!(
        run_root(WM_NCMOUSELEAVE, 0, 0, None, true, HTCLIENT),
        (
            vec![RootStep::ClearMouseHover, RootStep::HandleDwmMessage],
            RootEnd::OriginalProcedure
        )
    );
}

#[test]
fn a_hit_test_goes_to_the_window_manager_and_then_to_the_title_bar() {
    let asked = vec![RootStep::HandleDwmMessage];
    let tested = vec![RootStep::HandleDwmMessage, RootStep::CaptionHitTest];
    for part in [HTMAXBUTTON, HTCAPTION, HTMINBUTTON, HTCLOSE, 17] {
        let reply = LResult(part as isize);
        assert_eq!(
            run_root(WM_NCHITTEST, 0, 0, Some(reply), true, HTCAPTION),
            (asked.clone(), RootEnd::Return(reply))
        );
    }
    for reply in [None, Some(LResult(HTCLIENT as isize))] {
        assert_eq!(
            run_root(WM_NCHITTEST, 0, 0, reply, true, HTCAPTION),
            (tested.clone(), RootEnd::Return(LResult(2)))
        );
        assert_eq!(
            run_root(WM_NCHITTEST, 0, 0, reply, true, HTCLIENT),
            (tested.clone(), RootEnd::OriginalProcedure)
        );
    }
}

#[test]
fn the_right_button_shows_the_system_menu() {
    let end = |msg: u32, part: i32| run_root(msg, part as usize, 0, None, true, HTCLIENT).1;
    assert_eq!(end(WM_NCRBUTTONDOWN, HTCAPTION), RootEnd::Return(LResult(0)));
    assert_eq!(end(WM_NCRBUTTONUP, HTCAPTION), RootEnd::ShowSystemMenu);
    assert_eq!(end(WM_NCRBUTTONDOWN, HTCLOSE), RootEnd::OriginalProcedure);
    assert_eq!(end(WM_NCRBUTTONUP, HTCLOSE), RootEnd::DefaultProcedure);
    assert_eq!(end(WM_NCLBUTTONDOWN, HTCAPTION), RootEnd::DefaultProcedure);
    assert_eq!(end(WM_NCLBUTTONDBLCLK, HTCAPTION), RootEnd::DefaultProcedure);
    assert_eq!(end(WM_NCRBUTTONDBLCLK, HTCAPTION), RootEnd::DefaultProcedure);
    assert_eq!(end(WM_MOUSEMOVE, HTCAPTION), RootEnd::OriginalProcedure);
}

fn run_child(
    msg: u32,
    lparam: LParam,
    position: Option<Point>,
    window: Option<WindowFrame>,
    cursor: bool,
    original: LResult,
) -> ChildStep {
    let mut step = child_window_proc(msg);
    loop {
        step = match step {
            ChildStep::ReadCursorPosition => child_position_read(position),
            ChildStep::LocateForCursor(at) => child_located_for_cursor(at, window),
            ChildStep::SetCaptionCursor => child_cursor_set(cursor),
            ChildStep::AskOriginal => child_original_answered(original),
            ChildStep::LocateForHitTest(answer) => {
                child_located_for_hit_test(answer, lparam, window)
            }
            end => return end,
        }
    }
}

#[test]
fn a_child_lets_the_title_bar_through() {
    let window = frame(0, 0, 1000, 96);
    let hit = |x: i32, original: isize| {
        run_child(WM_NCHITTEST, mouse_lparam(x, 10), None, window, true, LResult(original))
    };
    assert_eq!(hit(500, 1), ChildStep::Return(LResult(-1)));
    assert_eq!(hit(10, 1), ChildStep::Return(LResult(1)));
    assert_eq!(hit(500, 17), ChildStep::Return(LResult(17)));
    assert_eq!(
        run_child(WM_NCHITTEST, mouse_lparam(500, 10), None, None, true, LResult(1)),
        ChildStep::Return(LResult(1))
    );
}

#[test]
fn a_child_shows_the_arrow_over_the_title_bar() {
    let window = frame(-1000, 0, 0, 96);
    let over = Some(Point { x: -12, y: 10 });
    let below = Some(Point { x: -12, y: 100 });
    let end = |position: Option<Point>, cursor: bool| {
        run_child(WM_SETCURSOR, LParam(0), position, window, cursor, LResult(1))
    };
    assert_eq!(end(over, true), ChildStep::Return(LResult(1)));
    assert_eq!(end(over, false), ChildStep::OriginalProcedure);
    assert_eq!(end(below, true), ChildStep::OriginalProcedure);
    assert_eq!(end(None, true), ChildStep::OriginalProcedure);
    assert_eq!(
        run_child(WM_MOUSEMOVE, LParam(0), over, window, true, LResult(1)),
        ChildStep::OriginalProcedure
    );
}

/// What a top-level window keeps, and what its renderers were told.
#[derive(Debug, Default, PartialEq)]
struct World {
    kept: Option<usize>,
    alive: Vec<usize>,
    moved: Vec<(usize, isize)>,
    left: Vec<usize>,
}

impl World {
    fn clear(&mut self) {
        let mut step = clear_native_mouse_hover();
        loop {
            step = match step {
                ClearStep::ReadHover => clear_hover_read(self.kept),
                ClearStep::CheckAlive { child } => {
                    clear_alive_checked(child, self.alive.contains(&child))
                }
                ClearStep::SendLeave { child } => {
                    self.left.push(child);
                    clear_leave_sent()
                }
                ClearStep::RemoveHover => {
                    self.kept = None;
                    ClearStep::Done
                }
                ClearStep::Done => return,
            }
        }
    }

    fn forward(&mut self, lparam: LParam, found: Option<usize>, shift: Option<Point>) {
        let mut step = forward_native_mouse_move(lparam);
        loop {
            step = match step {
                ForwardStep::FindChild { point } => forward_child_found(point, found),
                ForwardStep::ToClient { child, point } => forward_point_reckoned(
                    child,
                    shift.map(|shift| Point { x: point.x - shift.x, y: point.y - shift.y }),
                ),
                ForwardStep::ReadHover { child, at } => forward_hover_read(child, at, self.kept),
                ForwardStep::CheckAlive { previous, child, at } => {
                    let alive = self.alive.contains(&previous);
                    forward_alive_checked(previous, child, at, alive)
                }
                ForwardStep::SendLeave { previous, child, at } => {
                    self.left.push(previous);
                    forward_leave_sent(child, at)
                }
                ForwardStep::SetHover { child, at } => {
                    self.kept = Some(child);
                    forward_hover_set(child, at)
                }
                ForwardStep::SendMove { child, lparam } => {
                    self.moved.push((child, lparam.0));
                    ForwardStep::Done
                }
                ForwardStep::ClearHover => {
                    self.clear();
                    ForwardStep::Done
                }
                ForwardStep::Done => return,
            }
        }
    }
}

#[test]
fn one_renderer_is_hovered() {
    let mut world = World { alive: vec![7, 8], ..World::default() };
    let shift = Some(Point { x: 10, y: 20 });
    world.forward(mouse_lparam(15, 27), Some(7), shift);
    assert_eq!(world.kept, Some(7));
    assert_eq!(world.moved, vec![(7, 0x0007_0005)]);
    // The same renderer again is not told that the mouse left it.
    world.forward(mouse_lparam(9, 27), Some(7), shift);
    assert_eq!(world.moved, vec![(7, 0x0007_0005), (7, 0x0007_ffff)]);
    assert!(world.left.is_empty());
    world.forward(mouse_lparam(10, 20), Some(8), shift);
    assert_eq!(world.kept, Some(8));
    assert_eq!(world.left, vec![7]);
    assert_eq!(world.moved.len(), 3);
}

#[test]
fn a_renderer_that_is_gone_is_not_told() {
    let mut world = World { kept: Some(7), alive: vec![8], ..World::default() };
    world.forward(mouse_lparam(1, 1), Some(8), Some(Point { x: 0, y: 0 }));
    assert_eq!(world.kept, Some(8));
    assert!(world.left.is_empty());
    let mut world = World { kept: Some(7), ..World::default() };
    world.clear();
    assert_eq!(world, World::default());
}

#[test]
fn without_a_renderer_the_hover_is_cleared() {
    let mut world = World { kept: Some(7), alive: vec![7], ..World::default() };
    world.forward(mouse_lparam(1, 1), None, None);
    assert_eq!(world.kept, None);
    assert_eq!(world.left, vec![7]);
    assert!(world.moved.is_empty());
    world.clear();
    assert_eq!(world.left, vec![7]);
}

#[test]
fn nothing_happens_when_the_point_cannot_be_reckoned() {
    let mut world = World { kept: Some(7), alive: vec![7, 8], ..World::default() };
    world.forward(mouse_lparam(1, 1), Some(8), None);
    assert_eq!(world, World { kept: Some(7), alive: vec![7, 8], ..World::default() });
}

/// Windows by handle: parent, and whether the procedure was replaced.
fn search(root: usize, windows: &[(usize, usize, bool)]) -> Option<usize> {
    let children = |parent: usize| {
        windows.iter().filter(move |w| w.1 == parent).map(|w| w.0).collect::<Vec<usize>>()
    };
    let next = |window: usize| {
        let parent = windows.iter().find(|w| w.0 == window).unwrap().1;
        let siblings = children(parent);
        let at = siblings.iter().position(|w| *w == window).unwrap();
        siblings.get(at + 1).copied()
    };
    let (mut search, mut step) = find_native_hover_child(root);
    loop {
        step = match step {
            SearchStep::FirstChild(window) => {
                search.window_replied(children(window).first().copied())
            }
            SearchStep::NextSibling(window) => search.window_replied(next(window)),
            SearchStep::CheckReplaced(window) => {
                let replaced = windows.iter().any(|w| w.0 == window && w.2);
                search.replaced_replied(window, replaced)
            }
            SearchStep::End(found) => return found,
        }
    }
}

#[test]
fn the_first_replaced_descendant_is_found() {
    assert_eq!(search(1, &[]), None);
    assert_eq!(search(1, &[(2, 1, true)]), Some(2));
    // Below the first child, before the second child.
    let windows = [(2, 1, false), (3, 1, true), (4, 2, false), (5, 4, true)];
    assert_eq!(search(1, &windows), Some(5));
    // The first child has only plain descendants.
    let windows = [(2, 1, false), (3, 1, true), (4, 2, false), (5, 4, false), (6, 2, false)];
    assert_eq!(search(1, &windows), Some(3));
    let windows = [(2, 1, false), (3, 1, false), (4, 2, false), (5, 3, false)];
    assert_eq!(search(1, &windows), None);
    assert_eq!(search(3, &[(4, 3, false), (5, 4, true)]), Some(5));
}

#[test]
fn windows_are_set_up_in_order() {
    let bar = SetupStep::ExtendFrame(Margins { left: 0, right: 0, top: 28, bottom: 0 });
    assert_eq!(
        subclass_window_for_dragging(),
        vec![SetupStep::EnableSystemMenu, SetupStep::SubclassWindow, bar]
    );
    assert_eq!(subclass_browser_child_windows(), vec![bar, SetupStep::SubclassChildren]);
}

#[test]
fn the_system_menu_is_enabled_once() {
    assert_eq!(WS_SYSMENU, 0x80000);
    assert_eq!(STYLE_CHANGED_FLAGS, 0x1 | 0x2 | 0x4 | 0x20);
    assert_eq!(enable_system_menu(0x1000_0000), Some(0x1008_0000));
    assert_eq!(enable_system_menu(0x1008_0000), None);
    assert_eq!(enable_system_menu(-1), None);
}

#[test]
fn a_window_is_subclassed_once() {
    assert_eq!(subclass_window(Some(5)), SubclassStep::Done);
    assert_eq!(subclass_window(None), SubclassStep::ClearError);
    assert_eq!(error_cleared(), SubclassStep::Install);
    assert_eq!(procedure_installed(77, 0), SubclassStep::Note(77));
    assert_eq!(procedure_installed(77, 5), SubclassStep::Note(77));
    assert_eq!(procedure_installed(0, 0), SubclassStep::Note(0));
    assert_eq!(procedure_installed(0, 5), SubclassStep::Done);
}

#[test]
fn the_maximize_button_toggles() {
    assert_eq!(activate_maximize_button(true), SW_RESTORE);
    assert_eq!(activate_maximize_button(false), SW_MAXIMIZE);
    assert_eq!((SW_RESTORE, SW_MAXIMIZE), (9, 3));
}

#[test]
fn the_system_menu_posts_what_was_chosen() {
    assert_eq!(MENU_FLAGS, 0x100 | 0x2);
    assert_eq!(show_system_menu(mouse_lparam(-5, 9), None), MenuStep::Return(LResult(0)));
    assert_eq!(
        show_system_menu(mouse_lparam(-5, 9), Some(3)),
        MenuStep::Track { menu: 3, x: -5, y: 9 }
    );
    assert_eq!(menu_tracked(0), MenuStep::Return(LResult(0)));
    assert_eq!(
        menu_tracked(0xf060),
        MenuStep::PostCommand { command: WParam(0xf060), result: LResult(0) }
    );
}

#[test]
fn the_title_bar_reaches_the_window() {
    // The window reaches further to the left and to the right than its client area.
    let window = frame(92, 50, 908, 96);
    for (x, part) in [(858, HTMAXBUTTON), (500, HTCAPTION), (168, HTCAPTION)] {
        let at = mouse_lparam(x, 60);
        assert_eq!(
            run_child(WM_NCHITTEST, at, None, window, true, LResult(HTCLIENT as isize)),
            ChildStep::Return(LResult(HTTRANSPARENT as isize))
        );
        let found = custom_caption_hit_test(at, area(96));
        assert_eq!(
            run_root(WM_NCHITTEST, 0, at.0, None, true, found).1,
            RootEnd::Return(LResult(part as isize))
        );
    }
}

#[test]
fn lengths_are_scaled_at_every_resolution() {
    assert_eq!(scaled(42, 50), 22);
    assert_eq!(scaled(42, 0), 0);
    assert_eq!(scaled(42, 96), 42);
    assert_eq!(scaled(42, 97), 43);
    assert_eq!(scaled(28, 144), 42);
    assert_eq!(scaled(0, 192), 0);
    for value in 0..100 {
        for dpi in 0..300 {
            let length = scaled(value, dpi);
            assert_eq!(length, ((value as f64) * (dpi as f64) / 96.0).ceil() as i64);
            assert!(length <= scaled(value + 1, dpi) && length <= scaled(value, dpi + 1));
        }
    }
}

/// A window with its procedure and the note of the one that it had.
#[derive(Clone, Copy, Debug, PartialEq)]
struct Noted {
    procedure: isize,
    note: Option<isize>,
}

fn replace(window: &mut Noted, new: isize) {
    // An error is left from an earlier call.
    let mut error = 5;
    let mut step = subclass_window(window.note);
    loop {
        step = match step {
            SubclassStep::ClearError => {
                error = 0;
                error_cleared()
            }
            SubclassStep::Install => {
                let previous = window.procedure;
                window.procedure = new;
                procedure_installed(previous, error)
            }
            SubclassStep::Note(previous) => {
                window.note = Some(previous);
                SubclassStep::Done
            }
            SubclassStep::Done => return,
        }
    }
}

#[test]
fn every_descendant_is_subclassed_once() {
    let mut top = Noted { procedure: 10, note: None };
    let mut below: Vec<Noted> =
        [11, 12, 13].iter().map(|p| Noted { procedure: *p, note: None }).collect();
    let mut bar = None;
    let mut set_up = |below: &mut Vec<Noted>| {
        for step in subclass_browser_child_windows() {
            match step {
                SetupStep::ExtendFrame(margins) => bar = Some(margins),
                SetupStep::SubclassChildren => below.iter_mut().for_each(|w| replace(w, 99)),
                _ => panic!("not a step for child windows"),
            }
        }
    };
    set_up(&mut below);
    below.push(Noted { procedure: 14, note: None });
    set_up(&mut below);
    let expected: Vec<Noted> =
        [11, 12, 13, 14].iter().map(|p| Noted { procedure: 99, note: Some(*p) }).collect();
    assert_eq!(below, expected);
    assert_eq!(bar, Some(frame_margins()));
    assert_eq!(top, Noted { procedure: 10, note: None });
    replace(&mut top, 98);
    replace(&mut top, 98);
    assert_eq!(top, Noted { procedure: 98, note: Some(10) });
}

#[test]
fn an_earlier_error_makes_no_difference() {
    let mut window = Noted { procedure: 0, note: None };
    replace(&mut window, 99);
    assert_eq!(window, Noted { procedure: 99, note: Some(0) });
}

#[test]
fn client_input_stays_with_the_window() {
    for msg in [WM_MOUSEMOVE, 0x0201, 0x0100, 0x0112, 0x0005] {
        let dwm = ask_dwm(msg, Some(LResult(1)), Some(LResult(2))).0;
        assert_eq!(
            run_root(msg, HTCAPTION as usize, 0, dwm, true, HTCAPTION),
            (vec![RootStep::HandleDwmMessage], RootEnd::OriginalProcedure)
        );
    }
}
