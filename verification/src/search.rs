//! The search for the renderer among the descendants of a window. Child
//! windows are walked in order, each before its next sibling; the first whose
//! procedure was replaced is the renderer.
use vstd::prelude::*;

verus! {

/// The next step of the search.
#[derive(Clone, Copy, Debug, PartialEq, Eq, Structural)]
pub enum SearchStep {
    /// Ask for the first child of a window.
    FirstChild(usize),
    /// Ask for the next sibling of a window.
    NextSibling(usize),
    /// Ask whether the procedure of a window was replaced.
    CheckReplaced(usize),
    /// The search ends: this is the renderer, or there is none.
    End(Option<usize>),
}

/// A search under way: the windows whose children are being walked, the
/// innermost last; not the window at which the search began.
#[derive(Debug)]
pub struct HoverSearch {
    walked: Vec<usize>,
}

/// What follows when the children of the innermost window are through.
pub open spec fn search_level_done(walked: Seq<usize>) -> (Seq<usize>, SearchStep) {
    if walked.len() == 0 {
        (walked, SearchStep::End(None))
    } else {
        (walked.drop_last(), SearchStep::NextSibling(walked.last()))
    }
}

/// What follows a reply that names a window, or none.
pub open spec fn search_after_window(walked: Seq<usize>, reply: Option<usize>) -> (
    Seq<usize>,
    SearchStep,
) {
    match reply {
        Some(window) => (walked, SearchStep::CheckReplaced(window)),
        None => search_level_done(walked),
    }
}

/// What follows when it is known whether a window's procedure was replaced.
pub open spec fn search_after_check(walked: Seq<usize>, window: usize, replaced: bool) -> (
    Seq<usize>,
    SearchStep,
) {
    if replaced {
        (walked, SearchStep::End(Some(window)))
    } else {
        (walked.push(window), SearchStep::FirstChild(window))
    }
}

/// Begins to search below a window.
pub fn find_native_hover_child(window: usize) -> (search: (HoverSearch, SearchStep))
    ensures
        search.0@ == Seq::<usize>::empty(),
        search.1 == SearchStep::FirstChild(window),
{
    (HoverSearch { walked: Vec::new() }, SearchStep::FirstChild(window))
}

impl View for HoverSearch {
    type V = Seq<usize>;

    closed spec fn view(&self) -> Seq<usize> {
        self.walked@
    }
}

impl HoverSearch {
    /// Goes on with the window that was asked for, if there is one.
    pub fn window_replied(&mut self, reply: Option<usize>) -> (step: SearchStep)
        ensures
            (final(self)@, step) == search_after_window(old(self)@, reply),
    {
        match reply {
            Some(window) => SearchStep::CheckReplaced(window),
            None => match self.walked.pop() {
                Some(window) => SearchStep::NextSibling(window),
                None => SearchStep::End(None),
            },
        }
    }

    /// Goes on with whether the window's procedure was replaced.
    pub fn replaced_replied(&mut self, window: usize, replaced: bool) -> (step: SearchStep)
        ensures
            (final(self)@, step) == search_after_check(old(self)@, window, replaced),
    {
        if replaced {
            SearchStep::End(Some(window))
        } else {
            self.walked.push(window);
            SearchStep::FirstChild(window)
        }
    }
}

/// A window with its descendants.
pub struct WindowTree {
    pub window: usize,
    pub replaced: bool,
    pub children: Seq<WindowTree>,
}

/// The first window of the trees, in their order and each before its own
/// descendants' next of kin, whose procedure was replaced.
pub open spec fn first_replaced(trees: Seq<WindowTree>) -> Option<usize>
    decreases trees,
{
    if trees.len() == 0 {
        None
    } else if trees[0].replaced {
        Some(trees[0].window)
    } else {
        match first_replaced(trees[0].children) {
            Some(window) => Some(window),
            None => first_replaced(trees.subrange(1, trees.len() as int)),
        }
    }
}

/// What the window system replies to the steps of a search.
pub struct WindowSystem {
    pub first_child: spec_fn(usize) -> Option<usize>,
    pub next_sibling: spec_fn(usize) -> Option<usize>,
    pub replaced: spec_fn(usize) -> bool,
}

/// The first window of some trees.
pub open spec fn first_window(trees: Seq<WindowTree>) -> Option<usize> {
    if trees.len() == 0 {
        None
    } else {
        Some(trees[0].window)
    }
}

/// Whether the trees are siblings in the window system, with all that is
/// below them.
pub open spec fn are_siblings(trees: Seq<WindowTree>, system: WindowSystem) -> bool
    decreases trees,
{
    trees.len() > 0 ==> {
        let rest = trees.subrange(1, trees.len() as int);
        &&& (system.replaced)(trees[0].window) == trees[0].replaced
        &&& (system.first_child)(trees[0].window) == first_window(trees[0].children)
        &&& (system.next_sibling)(trees[0].window) == first_window(rest)
        &&& are_siblings(trees[0].children, system)
        &&& are_siblings(rest, system)
    }
}

/// The search one step on.
pub open spec fn search_next(state: (Seq<usize>, SearchStep), system: WindowSystem) -> (
    Seq<usize>,
    SearchStep,
) {
    match state.1 {
        SearchStep::FirstChild(window) => search_after_window(
            state.0,
            (system.first_child)(window),
        ),
        SearchStep::NextSibling(window) => search_after_window(
            state.0,
            (system.next_sibling)(window),
        ),
        SearchStep::CheckReplaced(window) => search_after_check(
            state.0,
            window,
            (system.replaced)(window),
        ),
        SearchStep::End(_) => state,
    }
}

/// The search `n` steps on.
pub open spec fn search_run(
    state: (Seq<usize>, SearchStep),
    system: WindowSystem,
    n: nat,
) -> (Seq<usize>, SearchStep)
    decreases n,
{
    if n == 0 {
        state
    } else {
        search_run(search_next(state, system), system, (n - 1) as nat)
    }
}

proof fn lemma_search_run_adds(
    state: (Seq<usize>, SearchStep),
    system: WindowSystem,
    n: nat,
    m: nat,
)
    ensures
        search_run(state, system, n + m) == search_run(search_run(state, system, n), system, m),
    decreases n,
{
    if n > 0 {
        lemma_search_run_adds(search_next(state, system), system, (n - 1) as nat, m);
    }
}

/// From the reply that names the first of some siblings, the search comes to
/// the renderer among them and below, or to where they are through.
proof fn lemma_siblings_walked(
    trees: Seq<WindowTree>,
    system: WindowSystem,
    walked: Seq<usize>,
) -> (n: nat)
    requires
        are_siblings(trees, system),
    ensures
        match first_replaced(trees) {
            Some(window) => search_run(
                search_after_window(walked, first_window(trees)),
                system,
                n,
            ).1 == SearchStep::End(Some(window)),
            None => search_run(search_after_window(walked, first_window(trees)), system, n)
                == search_level_done(walked),
        },
    decreases trees,
{
    let start = search_after_window(walked, first_window(trees));
    if trees.len() == 0 {
        0
    } else if trees[0].replaced {
        reveal_with_fuel(search_run, 2);
        assert(search_run(start, system, 1).1 == SearchStep::End(Some(trees[0].window)));
        1
    } else {
        let window = trees[0].window;
        let rest = trees.subrange(1, trees.len() as int);
        let inner = walked.push(window);
        // The window is looked at, and its first child asked for.
        let below = search_after_window(inner, first_window(trees[0].children));
        reveal_with_fuel(search_run, 3);
        assert(search_run(start, system, 2) == below);
        let k = lemma_siblings_walked(trees[0].children, system, inner);
        lemma_search_run_adds(start, system, 2, k);
        if first_replaced(trees[0].children) is None {
            // The children are through, and the next sibling is asked for.
            assert(inner.drop_last() =~= walked);
            assert(search_level_done(inner) == (walked, SearchStep::NextSibling(window)));
            let beside = search_after_window(walked, first_window(rest));
            assert(search_run((walked, SearchStep::NextSibling(window)), system, 1) == beside);
            lemma_search_run_adds(start, system, 2 + k, 1);
            let j = lemma_siblings_walked(rest, system, walked);
            lemma_search_run_adds(start, system, 2 + k + 1, j);
            2 + k + 1 + j
        } else {
            2 + k
        }
    }
}

/// The search ends, and with the first descendant whose procedure was
/// replaced, if there is one.
pub proof fn law_search_finds_first_replaced(
    window: usize,
    children: Seq<WindowTree>,
    system: WindowSystem,
)
    requires
        (system.first_child)(window) == first_window(children),
        are_siblings(children, system),
    ensures
        exists|n: nat|
            (#[trigger] search_run(
                (Seq::empty(), SearchStep::FirstChild(window)),
                system,
                n,
            )).1 == SearchStep::End(first_replaced(children)),
{
    let none = Seq::<usize>::empty();
    let n = lemma_siblings_walked(children, system, none);
    let start = (none, SearchStep::FirstChild(window));
    assert(search_run(start, system, n + 1) == search_run(
        search_after_window(none, first_window(children)),
        system,
        n,
    ));
    assert(search_run(start, system, n + 1).1 == SearchStep::End(first_replaced(children)));
}

} // verus!
