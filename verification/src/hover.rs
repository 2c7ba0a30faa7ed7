//! Which renderer knows that the mouse is over it. The top-level window keeps
//! the child that was told last; a window is known by its handle.
use vstd::prelude::*;
use crate::geometry::{mouse_lparam, mouse_point, point_lparam, point_of, LParam, Point};

verus! {

/// The next step in telling a renderer of a move of the mouse.
#[derive(Clone, Copy, Debug, PartialEq, Eq, Structural)]
pub enum ForwardStep {
    /// Find the renderer that is to be told.
    FindChild { point: Point },
    /// Reckon the point in the coordinates of the child.
    ToClient { child: usize, point: Point },
    /// Read which child is kept.
    ReadHover { child: usize, at: Point },
    /// Find out whether the child that was kept still exists.
    CheckAlive { previous: usize, child: usize, at: Point },
    /// Tell that child that the mouse has left it.
    SendLeave { previous: usize, child: usize, at: Point },
    /// Keep the new child.
    SetHover { child: usize, at: Point },
    /// Tell it of the move.
    SendMove { child: usize, lparam: LParam },
    /// Nobody is to be told: clear what is kept.
    ClearHover,
    /// Nothing more.
    Done,
}

/// Begins to tell a renderer of a move to the point of a mouse message.
pub fn forward_native_mouse_move(lparam: LParam) -> (step: ForwardStep)
    ensures
        step matches ForwardStep::FindChild { point } && (point.x as int, point.y as int)
            == mouse_point(lparam),
{
    ForwardStep::FindChild { point: point_of(lparam) }
}

/// Goes on with the renderer that was found.
pub fn forward_child_found(point: Point, found: Option<usize>) -> (step: ForwardStep)
    ensures
        step == forward_after_search(point, found),
{
    match found {
        Some(child) => ForwardStep::ToClient { child, point },
        None => ForwardStep::ClearHover,
    }
}

/// The step after the search for a renderer.
pub open spec fn forward_after_search(point: Point, found: Option<usize>) -> ForwardStep {
    match found {
        Some(child) => ForwardStep::ToClient { child, point },
        None => ForwardStep::ClearHover,
    }
}

/// Goes on with the point in the child's coordinates, if it could be reckoned.
pub fn forward_point_reckoned(child: usize, reckoned: Option<Point>) -> (step: ForwardStep)
    ensures
        step == forward_after_reckoning(child, reckoned),
{
    match reckoned {
        Some(at) => ForwardStep::ReadHover { child, at },
        None => ForwardStep::Done,
    }
}

/// The step after the point was reckoned.
pub open spec fn forward_after_reckoning(child: usize, reckoned: Option<Point>) -> ForwardStep {
    match reckoned {
        Some(at) => ForwardStep::ReadHover { child, at },
        None => ForwardStep::Done,
    }
}

/// Goes on with the child that is kept.
pub fn forward_hover_read(child: usize, at: Point, kept: Option<usize>) -> (step: ForwardStep)
    ensures
        step == forward_after_read(child, at, kept),
{
    if let Some(previous) = kept {
        if previous != child {
            return ForwardStep::CheckAlive { previous, child, at };
        }
    }
    ForwardStep::SetHover { child, at }
}

/// The step after it was read which child is kept: another child is told that
/// the mouse has left it.
pub open spec fn forward_after_read(child: usize, at: Point, kept: Option<usize>) -> ForwardStep {
    if kept is Some && kept->0 != child {
        ForwardStep::CheckAlive { previous: kept->0, child, at }
    } else {
        ForwardStep::SetHover { child, at }
    }
}

/// Goes on with whether the child that was kept still exists.
pub fn forward_alive_checked(previous: usize, child: usize, at: Point, alive: bool) -> (step:
    ForwardStep)
    ensures
        step == forward_after_check(previous, child, at, alive),
{
    if alive {
        ForwardStep::SendLeave { previous, child, at }
    } else {
        ForwardStep::SetHover { child, at }
    }
}

/// The step after it was checked whether the kept child exists.
pub open spec fn forward_after_check(
    previous: usize,
    child: usize,
    at: Point,
    alive: bool,
) -> ForwardStep {
    if alive {
        ForwardStep::SendLeave { previous, child, at }
    } else {
        ForwardStep::SetHover { child, at }
    }
}

/// Goes on when the child that was kept knows that the mouse has left it.
pub fn forward_leave_sent(child: usize, at: Point) -> (step: ForwardStep)
    ensures
        step == (ForwardStep::SetHover { child, at }),
{
    ForwardStep::SetHover { child, at }
}

/// Goes on when the new child is kept.
pub fn forward_hover_set(child: usize, at: Point) -> (step: ForwardStep)
    ensures
        step == (ForwardStep::SendMove { child, lparam: move_parameter(at) }),
{
    ForwardStep::SendMove { child, lparam: mouse_lparam(at.x, at.y) }
}

/// The parameter of the message that tells of a move.
pub open spec fn move_parameter(at: Point) -> LParam {
    LParam(point_lparam(at.x as int, at.y as int) as isize)
}

/// The next step in clearing which child is kept.
#[derive(Clone, Copy, Debug, PartialEq, Eq, Structural)]
pub enum ClearStep {
    /// Read which child is kept.
    ReadHover,
    /// Find out whether it still exists.
    CheckAlive { child: usize },
    /// Tell it that the mouse has left it.
    SendLeave { child: usize },
    /// Keep none.
    RemoveHover,
    /// Nothing more.
    Done,
}

/// Begins to clear which child is kept.
pub fn clear_native_mouse_hover() -> (step: ClearStep)
    ensures
        step == ClearStep::ReadHover,
{
    ClearStep::ReadHover
}

/// The step after it was read which child is kept.
pub open spec fn clear_after_read(kept: Option<usize>) -> ClearStep {
    match kept {
        Some(child) => ClearStep::CheckAlive { child },
        None => ClearStep::Done,
    }
}

/// Goes on with the child that is kept.
pub fn clear_hover_read(kept: Option<usize>) -> (step: ClearStep)
    ensures
        step == clear_after_read(kept),
{
    match kept {
        Some(child) => ClearStep::CheckAlive { child },
        None => ClearStep::Done,
    }
}

/// The step after it was checked whether the kept child exists.
pub open spec fn clear_after_check(child: usize, alive: bool) -> ClearStep {
    if alive {
        ClearStep::SendLeave { child }
    } else {
        ClearStep::RemoveHover
    }
}

/// Goes on with whether the child still exists.
pub fn clear_alive_checked(child: usize, alive: bool) -> (step: ClearStep)
    ensures
        step == clear_after_check(child, alive),
{
    if alive {
        ClearStep::SendLeave { child }
    } else {
        ClearStep::RemoveHover
    }
}

/// Goes on when the child knows that the mouse has left it.
pub fn clear_leave_sent() -> (step: ClearStep)
    ensures
        step == ClearStep::RemoveHover,
{
    ClearStep::RemoveHover
}

/// A message to a renderer: that the mouse moved over it, or that it left.
pub enum Told {
    Moved { child: usize, lparam: LParam },
    Left { child: usize },
}

impl Told {
    /// The renderer that was told.
    pub open spec fn child(self) -> usize {
        match self {
            Told::Moved { child, .. } => child,
            Told::Left { child } => child,
        }
    }
}

/// The windows as far as the hover is concerned: which child is kept, what
/// the renderers were told so far, and which windows exist.
#[verifier::ext_equal]
pub struct HoverWorld {
    pub kept: Option<usize>,
    pub told: Seq<Told>,
    pub alive: Set<usize>,
}

impl HoverWorld {
    /// The world in which one more message was sent.
    pub open spec fn tell(self, message: Told) -> HoverWorld {
        HoverWorld { told: self.told.push(message), ..self }
    }

    /// The world in which another child is kept.
    pub open spec fn keep(self, kept: Option<usize>) -> HoverWorld {
        HoverWorld { kept, ..self }
    }

    /// Whether the last that a renderer was told is that the mouse is over it.
    pub open spec fn believes_hovered(self, child: usize) -> bool
        decreases self.told.len(),
    {
        if self.told.len() == 0 {
            false
        } else if self.told.last().child() == child {
            self.told.last() is Moved
        } else {
            (HoverWorld { told: self.told.drop_last(), ..self }).believes_hovered(child)
        }
    }

    /// Only the child that is kept may believe that the mouse is over it.
    pub open spec fn consistent(self) -> bool {
        forall|child: usize|
            self.alive.contains(child) && #[trigger] self.believes_hovered(child) ==> self.kept
                == Some(child)
    }
}

/// What becomes of the world when the hover is cleared from `step` on.
pub open spec fn clear_run(step: ClearStep, world: HoverWorld) -> HoverWorld
    decreases clear_rank(step),
{
    match step {
        ClearStep::ReadHover => clear_run(clear_after_read(world.kept), world),
        ClearStep::CheckAlive { child } => clear_run(
            clear_after_check(child, world.alive.contains(child)),
            world,
        ),
        ClearStep::SendLeave { child } => clear_run(
            ClearStep::RemoveHover,
            world.tell(Told::Left { child }),
        ),
        ClearStep::RemoveHover => world.keep(None),
        ClearStep::Done => world,
    }
}

/// How many steps can still come.
pub open spec fn clear_rank(step: ClearStep) -> nat {
    match step {
        ClearStep::ReadHover => 3,
        ClearStep::CheckAlive { .. } => 2,
        ClearStep::SendLeave { .. } => 1,
        _ => 0,
    }
}

/// The world after the hover was cleared: no child is kept, and the one that
/// was kept knows that the mouse has left it, if it still exists.
pub open spec fn cleared(world: HoverWorld) -> HoverWorld {
    match world.kept {
        Some(child) => if world.alive.contains(child) {
            world.tell(Told::Left { child }).keep(None)
        } else {
            world.keep(None)
        },
        None => world,
    }
}

/// What becomes of the world when a move is told from `step` on. `found` is
/// the renderer that the search finds, `reckoned` the point in its
/// coordinates.
pub open spec fn forward_run(
    step: ForwardStep,
    world: HoverWorld,
    found: Option<usize>,
    reckoned: Option<Point>,
) -> HoverWorld
    decreases forward_rank(step),
{
    match step {
        ForwardStep::FindChild { point } => forward_run(
            forward_after_search(point, found),
            world,
            found,
            reckoned,
        ),
        ForwardStep::ToClient { child, .. } => forward_run(
            forward_after_reckoning(child, reckoned),
            world,
            found,
            reckoned,
        ),
        ForwardStep::ReadHover { child, at } => forward_run(
            forward_after_read(child, at, world.kept),
            world,
            found,
            reckoned,
        ),
        ForwardStep::CheckAlive { previous, child, at } => forward_run(
            forward_after_check(previous, child, at, world.alive.contains(previous)),
            world,
            found,
            reckoned,
        ),
        ForwardStep::SendLeave { previous, child, at } => forward_run(
            ForwardStep::SetHover { child, at },
            world.tell(Told::Left { child: previous }),
            found,
            reckoned,
        ),
        ForwardStep::SetHover { child, at } => forward_run(
            ForwardStep::SendMove { child, lparam: move_parameter(at) },
            world.keep(Some(child)),
            found,
            reckoned,
        ),
        ForwardStep::SendMove { child, lparam } => world.tell(Told::Moved { child, lparam }),
        ForwardStep::ClearHover => clear_run(ClearStep::ReadHover, world),
        ForwardStep::Done => world,
    }
}

/// How many steps can still come.
pub open spec fn forward_rank(step: ForwardStep) -> nat {
    match step {
        ForwardStep::FindChild { .. } => 6,
        ForwardStep::ToClient { .. } => 5,
        ForwardStep::ReadHover { .. } => 4,
        ForwardStep::CheckAlive { .. } => 3,
        ForwardStep::SendLeave { .. } => 2,
        ForwardStep::SetHover { .. } => 1,
        _ => 0,
    }
}

/// The world after a renderer was told of a move: it is kept and knows where
/// the mouse is, and another one that was kept knows that the mouse has left
/// it. Nothing happens if the point cannot be reckoned.
pub open spec fn forwarded(
    world: HoverWorld,
    found: Option<usize>,
    reckoned: Option<Point>,
) -> HoverWorld {
    match (found, reckoned) {
        (None, _) => cleared(world),
        (Some(child), None) => world,
        (Some(child), Some(at)) => {
            let parted = if world.kept is Some && world.kept->0 != child && world.alive.contains(
                world.kept->0,
            ) {
                world.tell(Told::Left { child: world.kept->0 })
            } else {
                world
            };
            parted.keep(Some(child)).tell(Told::Moved { child, lparam: move_parameter(at) })
        },
    }
}

/// Clearing the hover comes to this.
pub proof fn law_clear_hover(world: HoverWorld)
    ensures
        clear_run(ClearStep::ReadHover, world) == cleared(world),
{
    reveal_with_fuel(clear_run, 5);
}

/// Telling a renderer of a move comes to this.
pub proof fn law_forward_move(
    point: Point,
    world: HoverWorld,
    found: Option<usize>,
    reckoned: Option<Point>,
)
    ensures
        forward_run(ForwardStep::FindChild { point }, world, found, reckoned) == forwarded(
            world,
            found,
            reckoned,
        ),
{
    reveal_with_fuel(forward_run, 8);
    law_clear_hover(world);
}

proof fn lemma_tell(world: HoverWorld, message: Told, child: usize)
    ensures
        world.tell(message).believes_hovered(child) == if message.child() == child {
            message is Moved
        } else {
            world.believes_hovered(child)
        },
{
    assert(world.tell(message).told.drop_last() =~= world.told);
}

proof fn lemma_keep(world: HoverWorld, kept: Option<usize>, child: usize)
    ensures
        world.keep(kept).believes_hovered(child) == world.believes_hovered(child),
    decreases world.told.len(),
{
    if world.told.len() > 0 {
        let before = HoverWorld { told: world.told.drop_last(), ..world };
        lemma_keep(before, kept, child);
        assert(before.keep(kept) == (HoverWorld {
            told: world.keep(kept).told.drop_last(),
            ..world.keep(kept)
        }));
    }
}

/// Of the renderers that exist, none but the one that is kept ever believes
/// that the mouse is over it: clearing the hover and telling of a move keep
/// this so.
pub proof fn law_one_renderer_is_hovered(
    world: HoverWorld,
    found: Option<usize>,
    reckoned: Option<Point>,
)
    requires
        world.consistent(),
    ensures
        cleared(world).consistent(),
        forwarded(world, found, reckoned).consistent(),
{
    assert forall|child: usize|
        cleared(world).alive.contains(child) && #[trigger] cleared(world).believes_hovered(
            child,
        ) implies cleared(world).kept == Some(child) by {
        if let Some(kept) = world.kept {
            lemma_keep(world, None, child);
            lemma_keep(world.tell(Told::Left { child: kept }), None, child);
            lemma_tell(world, Told::Left { child: kept }, child);
            assert(world.believes_hovered(child) ==> world.kept == Some(child));
        }
    }
    if found is Some && reckoned is Some {
        let next = found->0;
        let moved = Told::Moved { child: next, lparam: move_parameter(reckoned->0) };
        let after = forwarded(world, found, reckoned);
        assert forall|child: usize|
            after.alive.contains(child) && #[trigger] after.believes_hovered(
                child,
            ) implies after.kept == Some(child) by {
            let parted = if world.kept is Some && world.kept->0 != next && world.alive.contains(
                world.kept->0,
            ) {
                world.tell(Told::Left { child: world.kept->0 })
            } else {
                world
            };
            lemma_tell(parted.keep(Some(next)), moved, child);
            lemma_keep(parted, Some(next), child);
            if world.kept is Some {
                lemma_tell(world, Told::Left { child: world.kept->0 }, child);
            }
            assert(world.believes_hovered(child) ==> world.kept == Some(child));
        }
    }
}

} // verus!
