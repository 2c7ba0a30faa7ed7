//! Setting up a window whose title bar the page draws, and what its system
//! menu and its maximize button do.
use vstd::prelude::*;
use crate::geometry::{frame_margins, mouse_point, point_of, LParam, Margins, TITLEBAR_HEIGHT};
use crate::messages::{LResult, WParam};

verus! {

/// A window with this style has a system menu.
pub const WS_SYSMENU: isize = 0x0008_0000;

/// How a window is told that its style has changed: it neither moves, nor
/// changes its size or its place in the stack, and draws its frame anew.
pub const STYLE_CHANGED_FLAGS: u32 = 0x0027;

/// A step in setting up a window.
#[derive(Clone, Copy, Debug, PartialEq, Eq, Structural)]
pub enum SetupStep {
    /// Give the window a system menu.
    EnableSystemMenu,
    /// Replace the window's procedure.
    SubclassWindow,
    /// Replace the procedures of all windows below it, one after the other.
    SubclassChildren,
    /// Extend the frame into the client area.
    ExtendFrame(Margins),
}

/// The frame that a window gets: the title bar.
pub open spec fn titlebar_margins() -> Margins {
    Margins { left: 0, right: 0, top: TITLEBAR_HEIGHT, bottom: 0 }
}

/// The steps that set up the child windows.
pub open spec fn child_setup() -> Seq<SetupStep> {
    seq![SetupStep::ExtendFrame(titlebar_margins()), SetupStep::SubclassChildren]
}

/// The steps that set up a top-level window.
pub open spec fn window_setup() -> Seq<SetupStep> {
    seq![
        SetupStep::EnableSystemMenu,
        SetupStep::SubclassWindow,
        SetupStep::ExtendFrame(titlebar_margins()),
    ]
}

/// What is done with the child windows of a browser window once they exist.
pub fn subclass_browser_child_windows() -> (steps: Vec<SetupStep>)
    ensures
        steps@ == child_setup(),
{
    let steps = vec![SetupStep::ExtendFrame(frame_margins()), SetupStep::SubclassChildren];
    proof {
        assert(steps@ =~= child_setup());
    }
    steps
}

/// What is done with a top-level window, so that its title bar moves it.
pub fn subclass_window_for_dragging() -> (steps: Vec<SetupStep>)
    ensures
        steps@ == window_setup(),
{
    let steps = vec![
        SetupStep::EnableSystemMenu,
        SetupStep::SubclassWindow,
        SetupStep::ExtendFrame(frame_margins()),
    ];
    proof {
        assert(steps@ =~= window_setup());
    }
    steps
}

/// Whether a window of this style has a system menu.
pub open spec fn has_system_menu(style: isize) -> bool {
    style & WS_SYSMENU != 0
}

/// The style that a window is given so that it has a system menu, if it has to
/// be changed.
pub open spec fn style_change(style: isize) -> Option<isize> {
    if has_system_menu(style) {
        None
    } else {
        Some(style | WS_SYSMENU)
    }
}

/// The style that a window is given, if it has to be changed.
pub fn enable_system_menu(style: isize) -> (changed: Option<isize>)
    ensures
        changed == style_change(style),
{
    if style & WS_SYSMENU != 0 {
        return None;
    }
    Some(style | WS_SYSMENU)
}

/// The window has a system menu then, and nothing else of its style is
/// changed; so nothing is left to do.
pub proof fn law_system_menu_is_enabled(style: isize)
    ensures
        has_system_menu(style | WS_SYSMENU),
        (style | WS_SYSMENU) & !WS_SYSMENU == style & !WS_SYSMENU,
{
    assert((style | 0x0008_0000isize) & 0x0008_0000isize != 0) by (bit_vector);
    assert((style | 0x0008_0000isize) & !0x0008_0000isize == style & !0x0008_0000isize)
        by (bit_vector);
}

/// The next step in replacing the procedure of a window.
#[derive(Clone, Copy, Debug, PartialEq, Eq, Structural)]
pub enum SubclassStep {
    /// Clear the last error, so that none is left from before.
    ClearError,
    /// Put the new procedure in place of the old one. The reply is the old
    /// one, and the error that was left behind.
    Install,
    /// Note the old procedure on the window.
    Note(isize),
    /// Nothing more.
    Done,
}

/// The step with which the procedure of a window begins to be replaced.
pub open spec fn subclass_start(noted: Option<isize>) -> SubclassStep {
    match noted {
        Some(_) => SubclassStep::Done,
        None => SubclassStep::ClearError,
    }
}

/// Begins to replace the procedure of a window, given the one that is noted
/// on it. A window on which one is noted is left alone.
pub fn subclass_window(noted: Option<isize>) -> (step: SubclassStep)
    ensures
        step == subclass_start(noted),
{
    match noted {
        Some(_) => SubclassStep::Done,
        None => SubclassStep::ClearError,
    }
}

/// Goes on when the last error has been cleared.
pub fn error_cleared() -> (step: SubclassStep)
    ensures
        step == SubclassStep::Install,
{
    SubclassStep::Install
}

/// Goes on with the old procedure. None together with an error means that
/// the new one was not put in place.
pub fn procedure_installed(previous: isize, error: u32) -> (step: SubclassStep)
    ensures
        step == after_install(previous, error),
{
    if previous == 0 && error != 0 {
        SubclassStep::Done
    } else {
        SubclassStep::Note(previous)
    }
}

/// The step after the new procedure was to be put in place.
pub open spec fn after_install(previous: isize, error: u32) -> SubclassStep {
    if previous == 0 && error != 0 {
        SubclassStep::Done
    } else {
        SubclassStep::Note(previous)
    }
}

/// A window's procedure, and the one that is noted on it. A window on which
/// zero or minus one is noted counts as one without a note.
pub struct Subclassing {
    pub procedure: isize,
    pub note: isize,
}

impl Subclassing {
    /// The procedure that is noted.
    pub open spec fn noted(self) -> Option<isize> {
        if self.note == 0 || self.note == -1 {
            None
        } else {
            Some(self.note)
        }
    }

    /// What becomes of a window when its procedure is replaced by `new`.
    pub open spec fn subclassed(self, new: isize) -> Subclassing {
        subclass_run(subclass_start(self.noted()), self, new, 0)
    }

    /// The procedure that the window had before it was replaced for the first
    /// time.
    pub open spec fn first_procedure(self) -> isize {
        match self.noted() {
            Some(first) => first,
            None => self.procedure,
        }
    }

    /// Whether the window is as it was made, or was replaced by `new` before.
    /// A procedure that counts as no note cannot be noted.
    pub open spec fn is_fit(self, new: isize) -> bool {
        match self.noted() {
            Some(_) => self.procedure == new,
            None => self.procedure != 0 && self.procedure != -1,
        }
    }
}

/// What becomes of a window whose procedure is to be replaced by `new`, from
/// `step` on. The window system does as it is told; `error` is the last error,
/// which may be one of an earlier call.
pub open spec fn subclass_run(
    step: SubclassStep,
    window: Subclassing,
    new: isize,
    error: u32,
) -> Subclassing
    decreases subclass_rank(step),
{
    match step {
        SubclassStep::ClearError => subclass_run(SubclassStep::Install, window, new, 0),
        SubclassStep::Install => subclass_run(
            after_install(window.procedure, error),
            Subclassing { procedure: new, ..window },
            new,
            error,
        ),
        SubclassStep::Note(previous) => Subclassing { note: previous, ..window },
        SubclassStep::Done => window,
    }
}

/// How many steps can still come.
pub open spec fn subclass_rank(step: SubclassStep) -> nat {
    match step {
        SubclassStep::ClearError => 2,
        SubclassStep::Install => 1,
        _ => 0,
    }
}

/// An error of an earlier call makes no difference: the old procedure is noted
/// whenever the new one was put in place.
pub proof fn law_earlier_errors_do_not_matter(window: Subclassing, new: isize, error: u32)
    ensures
        subclass_run(subclass_start(window.noted()), window, new, error) == window.subclassed(new),
        window.subclassed(new) == if window.noted() is Some {
            window
        } else {
            Subclassing { procedure: new, note: window.procedure }
        },
{
    reveal_with_fuel(subclass_run, 4);
}

/// Replacing the procedure again changes nothing: what is noted stays the
/// procedure that the window had in the beginning.
pub proof fn law_subclassing_twice(window: Subclassing, new: isize, newer: isize)
    requires
        window.noted() is None,
        window.procedure != 0,
        window.procedure != -1,
    ensures
        window.subclassed(new).procedure == new,
        window.subclassed(new).noted() == Some(window.procedure),
        window.subclassed(new).subclassed(newer) == window.subclassed(new),
{
    law_earlier_errors_do_not_matter(window, new, 0);
    law_earlier_errors_do_not_matter(window.subclassed(new), newer, 0);
}

/// The windows below a window, each with its procedure. A window is known by
/// its handle.
pub type Windows = Map<usize, Subclassing>;

/// What becomes of windows when those of `order` have their procedures
/// replaced by `new`, one after the other.
pub open spec fn each_subclassed(windows: Windows, order: Seq<usize>, new: isize) -> Windows
    decreases order.len(),
{
    if order.len() == 0 {
        windows
    } else {
        let before = each_subclassed(windows, order.drop_last(), new);
        before.insert(order.last(), before[order.last()].subclassed(new))
    }
}

/// Whether `order` names the windows, all of them and no others.
pub open spec fn enumerates(order: Seq<usize>, windows: Windows) -> bool {
    forall|child: usize| #[trigger] windows.dom().contains(child) <==> order.contains(child)
}

/// A window that is being set up: itself, its style, how far its frame reaches
/// into the client area, and its descendants.
#[verifier::ext_equal]
pub struct SetupWorld {
    pub window: Subclassing,
    pub style: isize,
    pub frame: Option<Margins>,
    pub descendants: Windows,
}

/// What becomes of a window that is set up by the steps. `order` is the order
/// in which the descendants are enumerated; `window_proc` and `child_proc` are
/// the new procedures of the window and of its descendants.
pub open spec fn setup_run(
    steps: Seq<SetupStep>,
    world: SetupWorld,
    order: Seq<usize>,
    window_proc: isize,
    child_proc: isize,
) -> SetupWorld
    decreases steps.len(),
{
    if steps.len() == 0 {
        world
    } else {
        let before = setup_run(steps.drop_last(), world, order, window_proc, child_proc);
        match steps.last() {
            SetupStep::EnableSystemMenu => SetupWorld {
                style: match style_change(before.style) {
                    Some(style) => style,
                    None => before.style,
                },
                ..before
            },
            SetupStep::SubclassWindow => SetupWorld {
                window: before.window.subclassed(window_proc),
                ..before
            },
            SetupStep::SubclassChildren => SetupWorld {
                descendants: each_subclassed(before.descendants, order, child_proc),
                ..before
            },
            SetupStep::ExtendFrame(margins) => SetupWorld { frame: Some(margins), ..before },
        }
    }
}

/// The order of the descendants, and whether one is named twice, makes no
/// difference.
proof fn lemma_each_subclassed(windows: Windows, order: Seq<usize>, new: isize, child: usize)
    requires
        forall|at: int| 0 <= at < order.len() ==> windows.dom().contains(#[trigger] order[at]),
        forall|c: usize| #[trigger] windows.dom().contains(c) ==> windows[c].is_fit(new),
    ensures
        each_subclassed(windows, order, new).dom() == windows.dom(),
        windows.dom().contains(child) ==> each_subclassed(windows, order, new)[child]
            == if order.contains(child) {
            windows[child].subclassed(new)
        } else {
            windows[child]
        },
    decreases order.len(),
{
    if order.len() > 0 {
        let some = order.drop_last();
        let last = order.last();
        assert(windows.dom().contains(order[order.len() - 1]));
        assert forall|at: int| 0 <= at < some.len() implies windows.dom().contains(
            #[trigger] some[at],
        ) by {
            assert(some[at] == order[at]);
        }
        lemma_each_subclassed(windows, some, new, child);
        lemma_each_subclassed(windows, some, new, last);
        law_earlier_errors_do_not_matter(windows[last], new, 0);
        law_earlier_errors_do_not_matter(windows[last].subclassed(new), new, 0);
        assert(each_subclassed(windows, order, new).dom() =~= windows.dom());
        assert(order.contains(child) <==> some.contains(child) || child == last) by {
            assert(order =~= some.push(last));
            if some.contains(child) {
                let at = choose|at: int| 0 <= at < some.len() && some[at] == child;
                assert(order[at] == child);
            }
            assert(order[order.len() - 1] == last);
        }
    }
}

/// Once the child windows are set up, every descendant has the new procedure,
/// and noted on it is the one that it had before it was replaced for the first
/// time. Descendants that were set up earlier are left as they are. The window
/// itself keeps its procedure and its style, and its frame takes the title bar.
pub proof fn law_every_descendant_is_subclassed(
    world: SetupWorld,
    order: Seq<usize>,
    window_proc: isize,
    child_proc: isize,
)
    requires
        enumerates(order, world.descendants),
        forall|child: usize| #[trigger]
            world.descendants.dom().contains(child) ==> world.descendants[child].is_fit(child_proc),
    ensures
        ({
            let after = setup_run(child_setup(), world, order, window_proc, child_proc);
            &&& after.window == world.window
            &&& after.style == world.style
            &&& after.frame == Some(titlebar_margins())
            &&& after.descendants.dom() == world.descendants.dom()
            &&& forall|child: usize| #[trigger]
                world.descendants.dom().contains(child) ==> {
                    &&& after.descendants[child].procedure == child_proc
                    &&& after.descendants[child].noted() == Some(
                        world.descendants[child].first_procedure(),
                    )
                    &&& after.descendants[child].is_fit(child_proc)
                    &&& world.descendants[child].noted() is Some ==> after.descendants[child]
                        == world.descendants[child]
                }
        }),
{
    lemma_child_setup(world, order, window_proc, child_proc);
    let all = world.descendants;
    assert forall|at: int| 0 <= at < order.len() implies all.dom().contains(#[trigger] order[at]) by {
        assert(order.contains(order[at]));
    }
    lemma_each_subclassed(all, order, child_proc, 0);
    assert forall|child: usize| #[trigger] all.dom().contains(child) implies each_subclassed(
        all,
        order,
        child_proc,
    )[child] == all[child].subclassed(child_proc) by {
        lemma_each_subclassed(all, order, child_proc, child);
    }
    let after = setup_run(child_setup(), world, order, window_proc, child_proc);
    assert forall|child: usize| #[trigger] all.dom().contains(child) implies {
        &&& after.descendants[child].procedure == child_proc
        &&& after.descendants[child].noted() == Some(all[child].first_procedure())
        &&& after.descendants[child].is_fit(child_proc)
        &&& all[child].noted() is Some ==> after.descendants[child] == all[child]
    } by {
        law_earlier_errors_do_not_matter(all[child], child_proc, 0);
    }
}

proof fn lemma_child_setup(
    world: SetupWorld,
    order: Seq<usize>,
    window_proc: isize,
    child_proc: isize,
)
    ensures
        setup_run(child_setup(), world, order, window_proc, child_proc) == (SetupWorld {
            frame: Some(titlebar_margins()),
            descendants: each_subclassed(world.descendants, order, child_proc),
            ..world
        }),
{
    let first = child_setup().drop_last();
    assert(first.drop_last() =~= Seq::empty());
    reveal_with_fuel(setup_run, 3);
}

/// When the child windows are set up again, those that were set up before stay
/// as they are, and those that were made since are added.
pub proof fn law_new_descendants_are_added(
    world: SetupWorld,
    order: Seq<usize>,
    made: Windows,
    later: Seq<usize>,
    window_proc: isize,
    child_proc: isize,
)
    requires
        enumerates(order, world.descendants),
        enumerates(later, world.descendants.union_prefer_right(made)),
        world.descendants.dom().disjoint(made.dom()),
        forall|child: usize| #[trigger]
            world.descendants.dom().contains(child) ==> world.descendants[child].is_fit(child_proc),
        forall|child: usize| #[trigger]
            made.dom().contains(child) ==> made[child].is_fit(child_proc),
    ensures
        ({
            let once = setup_run(child_setup(), world, order, window_proc, child_proc);
            let grown = SetupWorld { descendants: once.descendants.union_prefer_right(made), ..once };
            let again = setup_run(child_setup(), grown, later, window_proc, child_proc);
            &&& again.window == world.window
            &&& again.descendants.dom() == grown.descendants.dom()
            &&& forall|child: usize| #[trigger]
                world.descendants.dom().contains(child) ==> again.descendants[child]
                    == once.descendants[child]
            &&& forall|child: usize| #[trigger]
                made.dom().contains(child) ==> again.descendants[child].procedure == child_proc
                    && again.descendants[child].noted() == Some(made[child].first_procedure())
        }),
{
    law_every_descendant_is_subclassed(world, order, window_proc, child_proc);
    let once = setup_run(child_setup(), world, order, window_proc, child_proc);
    let grown = SetupWorld { descendants: once.descendants.union_prefer_right(made), ..once };
    assert(grown.descendants.dom() =~= world.descendants.union_prefer_right(made).dom());
    assert forall|child: usize| #[trigger] grown.descendants.dom().contains(child) implies
        grown.descendants[child].is_fit(child_proc) by {
        if made.dom().contains(child) {
            assert(grown.descendants[child] == made[child]);
        } else {
            assert(world.descendants.dom().contains(child));
            assert(grown.descendants[child] == once.descendants[child]);
        }
    }
    assert(enumerates(later, grown.descendants)) by {
        assert forall|child: usize| #[trigger]
            grown.descendants.dom().contains(child) <==> later.contains(child) by {
            assert(world.descendants.union_prefer_right(made).dom().contains(child)
                <==> later.contains(child));
        }
    }
    law_every_descendant_is_subclassed(grown, later, window_proc, child_proc);
    let again = setup_run(child_setup(), grown, later, window_proc, child_proc);
    assert forall|child: usize| #[trigger]
        world.descendants.dom().contains(child) implies again.descendants[child]
        == once.descendants[child] by {
        assert(!made.dom().contains(child));
        assert(grown.descendants.dom().contains(child));
        assert(grown.descendants[child] == once.descendants[child]);
    }
    assert forall|child: usize| #[trigger] made.dom().contains(child) implies
        again.descendants[child].procedure == child_proc && again.descendants[child].noted()
        == Some(made[child].first_procedure()) by {
        assert(grown.descendants.dom().contains(child));
        assert(grown.descendants[child] == made[child]);
    }
}

/// Once a top-level window is set up, it has a system menu and the new
/// procedure, the one that it had in the beginning is noted on it, and its
/// frame takes the title bar; its descendants are left alone. To set it up
/// again changes nothing.
pub proof fn law_window_is_set_up_for_dragging(
    world: SetupWorld,
    order: Seq<usize>,
    window_proc: isize,
    child_proc: isize,
)
    requires
        world.window.is_fit(window_proc),
    ensures
        ({
            let after = setup_run(window_setup(), world, order, window_proc, child_proc);
            &&& has_system_menu(after.style)
            &&& after.style & !WS_SYSMENU == world.style & !WS_SYSMENU
            &&& after.window.procedure == window_proc
            &&& after.window.noted() == Some(world.window.first_procedure())
            &&& after.frame == Some(titlebar_margins())
            &&& after.descendants == world.descendants
            &&& setup_run(window_setup(), after, order, window_proc, child_proc) == after
        }),
{
    let first = window_setup().drop_last();
    assert(first.drop_last().drop_last() =~= Seq::empty());
    reveal_with_fuel(setup_run, 4);
    law_system_menu_is_enabled(world.style);
    law_earlier_errors_do_not_matter(world.window, window_proc, 0);
    law_earlier_errors_do_not_matter(world.window.subclassed(window_proc), window_proc, 0);
}

/// Shows a window in the size that it had.
pub const SW_RESTORE: i32 = 9;

/// Shows a window as large as the screen.
pub const SW_MAXIMIZE: i32 = 3;

/// How the window is shown when its maximize button is used.
pub fn activate_maximize_button(zoomed: bool) -> (command: i32)
    ensures
        command == if zoomed {
            SW_RESTORE
        } else {
            SW_MAXIMIZE
        },
{
    if zoomed {
        SW_RESTORE
    } else {
        SW_MAXIMIZE
    }
}

/// The menu returns the command that was chosen, and follows both buttons.
pub const MENU_FLAGS: u32 = 0x0102;

/// The next step in showing the system menu.
#[derive(Clone, Copy, Debug, PartialEq, Eq, Structural)]
pub enum MenuStep {
    /// Bring the window to the front, and let the user choose from the menu,
    /// which opens at this point.
    Track { menu: isize, x: i32, y: i32 },
    /// Post the command to the window, and return the result.
    PostCommand { command: WParam, result: LResult },
    /// Return the result.
    Return(LResult),
}

/// Begins to show the system menu at the point of a mouse message, if there
/// is a menu.
pub fn show_system_menu(lparam: LParam, menu: Option<isize>) -> (step: MenuStep)
    ensures
        match menu {
            Some(menu) => step == (MenuStep::Track {
                menu,
                x: mouse_point(lparam).0 as i32,
                y: mouse_point(lparam).1 as i32,
            }),
            None => step == MenuStep::Return(LResult(0)),
        },
{
    match menu {
        Some(menu) => {
            let point = point_of(lparam);
            MenuStep::Track { menu, x: point.x, y: point.y }
        },
        None => MenuStep::Return(LResult(0)),
    }
}

/// Goes on with the command that was chosen, zero if none was.
pub fn menu_tracked(command: i32) -> (step: MenuStep)
    ensures
        step == if command != 0 {
            MenuStep::PostCommand { command: WParam(command as usize), result: LResult(0) }
        } else {
            MenuStep::Return(LResult(0))
        },
{
    if command != 0 {
        MenuStep::PostCommand { command: WParam(command as usize), result: LResult(0) }
    } else {
        MenuStep::Return(LResult(0))
    }
}

} // verus!
