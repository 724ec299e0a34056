//! The navigation state machine: which pane has focus, which entry each pane
//! has selected, and what the detail panel shows.
//!
//! Transitions are given by the spec function `step`; the executable
//! `NavigationState::apply` performs exactly that transition. Moving the
//! selection clamps to the pane's bounds (no wraparound): moving up at the
//! first entry and moving down at the last entry leave the selection where it
//! is. A pane whose selection is still unset selects its first entry on the
//! first move. Each pane keeps its own selection across focus switches.

use vstd::prelude::*;

verus! {

/// Which of the two list panes currently receives navigation commands.
#[derive(Clone, Copy, Debug, PartialEq, Eq, Structural)]
pub enum Pane {
    ItemPane,
    RecipePane,
}

/// What the detail panel currently shows: nothing beyond the lists, one
/// item's recipe cross references, or one recipe's ingredient breakdown.
#[derive(Clone, Copy, Debug, PartialEq, Eq, Structural)]
pub enum Mode {
    Browsing,
    ItemDetail(usize),
    RecipeDetail(usize),
}

/// A navigation command, as produced by the input dispatcher. `Terminate` is
/// a one-shot signal to the outer loop and applies no transition.
#[derive(Clone, Copy, Debug, PartialEq, Eq, Structural)]
pub enum Command {
    MoveUp,
    MoveDown,
    SwitchPane,
    Drill,
    Back,
    Terminate,
}

/// Per-session navigation state. The selections index into the catalog's
/// canonical item and recipe sequences.
#[derive(Clone, Copy, Debug, PartialEq, Eq)]
pub struct NavigationState {
    pub focus: Pane,
    pub item_selection: Option<usize>,
    pub recipe_selection: Option<usize>,
    pub mode: Mode,
}

/// Well-formedness of a navigation state against the catalog's two list
/// lengths: every selection and every detail index is in bounds, and the item
/// selection is unset only when there are no items.
pub open spec fn nav_wf(n: NavigationState, n_items: int, n_recipes: int) -> bool {
    &&& match n.item_selection {
        Some(i) => i < n_items,
        None => n_items == 0,
    }
    &&& match n.recipe_selection {
        Some(i) => i < n_recipes,
        None => true,
    }
    &&& match n.mode {
        Mode::Browsing => true,
        Mode::ItemDetail(i) => i < n_items,
        Mode::RecipeDetail(r) => r < n_recipes,
    }
}

/// The state a session starts in: item pane focused, first item selected when
/// there is one, no recipe selected yet, nothing drilled into.
pub open spec fn initial_nav(n_items: int) -> NavigationState {
    NavigationState {
        focus: Pane::ItemPane,
        item_selection: if n_items > 0 {
            Some(0usize)
        } else {
            None
        },
        recipe_selection: None,
        mode: Mode::Browsing,
    }
}

/// One clamped move of a selection within a pane of `len` entries: down moves
/// towards the end, up towards the start, both stopping at the bounds; an
/// unset selection lands on the first entry when there is one.
pub open spec fn move_sel(sel: Option<usize>, len: int, down: bool) -> Option<usize> {
    match sel {
        None => if len > 0 {
            Some(0usize)
        } else {
            None
        },
        Some(i) => if down {
            if i + 1 < len {
                Some((i + 1) as usize)
            } else {
                Some(i)
            }
        } else {
            if i > 0 {
                Some((i - 1) as usize)
            } else {
                Some(i)
            }
        },
    }
}

/// The other pane.
pub open spec fn other_pane(p: Pane) -> Pane {
    match p {
        Pane::ItemPane => Pane::RecipePane,
        Pane::RecipePane => Pane::ItemPane,
    }
}

/// The transition relation of the navigation state machine: the state after
/// one command, given the catalog's two list lengths. Moves act on the
/// focused pane's selection only; switching toggles focus and preserves both
/// selections; drilling records the focused selection in the mode (and does
/// nothing when that selection is unset); back returns to browsing; terminate
/// changes nothing.
pub open spec fn step(n: NavigationState, cmd: Command, n_items: int, n_recipes: int) -> NavigationState {
    match cmd {
        Command::MoveUp => match n.focus {
            Pane::ItemPane => NavigationState {
                item_selection: move_sel(n.item_selection, n_items, false),
                ..n
            },
            Pane::RecipePane => NavigationState {
                recipe_selection: move_sel(n.recipe_selection, n_recipes, false),
                ..n
            },
        },
        Command::MoveDown => match n.focus {
            Pane::ItemPane => NavigationState {
                item_selection: move_sel(n.item_selection, n_items, true),
                ..n
            },
            Pane::RecipePane => NavigationState {
                recipe_selection: move_sel(n.recipe_selection, n_recipes, true),
                ..n
            },
        },
        Command::SwitchPane => NavigationState { focus: other_pane(n.focus), ..n },
        Command::Drill => match n.focus {
            Pane::ItemPane => match n.item_selection {
                Some(i) => NavigationState { mode: Mode::ItemDetail(i), ..n },
                None => n,
            },
            Pane::RecipePane => match n.recipe_selection {
                Some(r) => NavigationState { mode: Mode::RecipeDetail(r), ..n },
                None => n,
            },
        },
        Command::Back => NavigationState { mode: Mode::Browsing, ..n },
        Command::Terminate => n,
    }
}

/// The state after a whole sequence of commands.
pub open spec fn run(
    n: NavigationState,
    cmds: Seq<Command>,
    n_items: int,
    n_recipes: int,
) -> NavigationState
    decreases cmds.len(),
{
    if cmds.len() == 0 {
        n
    } else {
        run(step(n, cmds[0], n_items, n_recipes), cmds.drop_first(), n_items, n_recipes)
    }
}

/// A transition keeps the state well formed.
pub proof fn lemma_step_preserves_wf(n: NavigationState, cmd: Command, n_items: int, n_recipes: int)
    requires
        nav_wf(n, n_items, n_recipes),
        n_items <= usize::MAX,
        n_recipes <= usize::MAX,
    ensures
        nav_wf(step(n, cmd, n_items, n_recipes), n_items, n_recipes),
{
}

impl NavigationState {
    /// The state a session starts in, for a catalog with `n_items` items.
    pub fn initial(n_items: usize) -> (n: NavigationState)
        ensures
            n == initial_nav(n_items as int),
            forall|n_recipes: int| nav_wf(n, n_items as int, n_recipes),
    {
        NavigationState {
            focus: Pane::ItemPane,
            item_selection: if n_items > 0 {
                Some(0)
            } else {
                None
            },
            recipe_selection: None,
            mode: Mode::Browsing,
        }
    }

    /// Applies one command, performing exactly the transition that `step`
    /// describes, against a catalog with `n_items` items and `n_recipes`
    /// recipes.
    pub fn apply(&mut self, cmd: Command, n_items: usize, n_recipes: usize)
        requires
            nav_wf(*old(self), n_items as int, n_recipes as int),
        ensures
            *final(self) == step(*old(self), cmd, n_items as int, n_recipes as int),
            nav_wf(*final(self), n_items as int, n_recipes as int),
    {
        match cmd {
            Command::MoveUp => {
                match self.focus {
                    Pane::ItemPane => {
                        self.item_selection = Self::moved(self.item_selection, n_items, false);
                    },
                    Pane::RecipePane => {
                        self.recipe_selection = Self::moved(self.recipe_selection, n_recipes, false);
                    },
                }
            },
            Command::MoveDown => {
                match self.focus {
                    Pane::ItemPane => {
                        self.item_selection = Self::moved(self.item_selection, n_items, true);
                    },
                    Pane::RecipePane => {
                        self.recipe_selection = Self::moved(self.recipe_selection, n_recipes, true);
                    },
                }
            },
            Command::SwitchPane => {
                self.focus = match self.focus {
                    Pane::ItemPane => Pane::RecipePane,
                    Pane::RecipePane => Pane::ItemPane,
                };
            },
            Command::Drill => {
                match self.focus {
                    Pane::ItemPane => {
                        if let Some(i) = self.item_selection {
                            self.mode = Mode::ItemDetail(i);
                        }
                    },
                    Pane::RecipePane => {
                        if let Some(r) = self.recipe_selection {
                            self.mode = Mode::RecipeDetail(r);
                        }
                    },
                }
            },
            Command::Back => {
                self.mode = Mode::Browsing;
            },
            Command::Terminate => {},
        }
    }

    /// One clamped move of a selection within a pane of `len` entries.
    fn moved(sel: Option<usize>, len: usize, down: bool) -> (r: Option<usize>)
        requires
            match sel {
                Some(i) => i < len,
                None => true,
            },
        ensures
            r == move_sel(sel, len as int, down),
    {
        match sel {
            None => if len > 0 {
                Some(0)
            } else {
                None
            },
            Some(i) => if down {
                if i + 1 < len {
                    Some(i + 1)
                } else {
                    Some(i)
                }
            } else {
                if i > 0 {
                    Some(i - 1)
                } else {
                    Some(i)
                }
            },
        }
    }
}

/// Law: navigation is clamped, whichever pane has focus. Moving up from the
/// first entry and moving down from the last entry of the focused pane leave
/// the state unchanged — there is no wraparound and no out-of-bounds index.
pub proof fn lemma_move_clamps(n: NavigationState, n_items: int, n_recipes: int)
    requires
        nav_wf(n, n_items, n_recipes),
        n_items <= usize::MAX,
        n_recipes <= usize::MAX,
    ensures
        n.focus == Pane::ItemPane && n.item_selection == Some(0usize) ==> step(
            n,
            Command::MoveUp,
            n_items,
            n_recipes,
        ) == n,
        n.focus == Pane::ItemPane && n.item_selection == Some((n_items - 1) as usize) ==> step(
            n,
            Command::MoveDown,
            n_items,
            n_recipes,
        ) == n,
        n.focus == Pane::RecipePane && n.recipe_selection == Some(0usize) ==> step(
            n,
            Command::MoveUp,
            n_items,
            n_recipes,
        ) == n,
        n.focus == Pane::RecipePane && n.recipe_selection == Some((n_recipes - 1) as usize) ==> step(
            n,
            Command::MoveDown,
            n_items,
            n_recipes,
        ) == n,
{
}

/// Law: from the first entry, a run of `k` down moves on the focused item
/// pane lands exactly `k` entries further, clamped at the last entry: the
/// selection becomes `min(start + k, n_items - 1)`.
pub proof fn lemma_move_down_run(
    n: NavigationState,
    start: usize,
    cmds: Seq<Command>,
    n_items: int,
    n_recipes: int,
)
    requires
        n.focus == Pane::ItemPane,
        n.item_selection == Some(start),
        start < n_items <= usize::MAX,
        forall|j: int| 0 <= j < cmds.len() ==> cmds[j] == Command::MoveDown,
    ensures
        run(n, cmds, n_items, n_recipes).item_selection == Some(
            (if start + cmds.len() <= n_items - 1 {
                start + cmds.len()
            } else {
                n_items - 1
            }) as usize,
        ),
    decreases cmds.len(),
{
    if cmds.len() > 0 {
        let n1 = step(n, cmds[0], n_items, n_recipes);
        if start + 1 < n_items {
            lemma_move_down_run(n1, (start + 1) as usize, cmds.drop_first(), n_items, n_recipes);
        } else {
            lemma_move_down_run(n1, start, cmds.drop_first(), n_items, n_recipes);
        }
    }
}

/// While the recipe pane has focus, no command other than a pane switch can
/// touch the item pane's selection, the focus, or the item selection's
/// presence.
proof fn lemma_recipe_pane_keeps_item_selection(
    n: NavigationState,
    cmds: Seq<Command>,
    n_items: int,
    n_recipes: int,
)
    requires
        n.focus == Pane::RecipePane,
        forall|j: int| 0 <= j < cmds.len() ==> cmds[j] != Command::SwitchPane,
    ensures
        run(n, cmds, n_items, n_recipes).focus == Pane::RecipePane,
        run(n, cmds, n_items, n_recipes).item_selection == n.item_selection,
    decreases cmds.len(),
{
    if cmds.len() > 0 {
        let n1 = step(n, cmds[0], n_items, n_recipes);
        lemma_recipe_pane_keeps_item_selection(n1, cmds.drop_first(), n_items, n_recipes);
    }
}

/// Law: pane independence. Switching to the recipe pane, issuing any commands
/// that do not switch panes (moves, drills, backs), and switching back
/// restores focus to the item pane with its selection exactly as it was.
pub proof fn lemma_pane_independence(
    n: NavigationState,
    cmds: Seq<Command>,
    n_items: int,
    n_recipes: int,
)
    requires
        n.focus == Pane::ItemPane,
        forall|j: int| 0 <= j < cmds.len() ==> cmds[j] != Command::SwitchPane,
    ensures
        ({
            let away = run(step(n, Command::SwitchPane, n_items, n_recipes), cmds, n_items, n_recipes);
            let back = step(away, Command::SwitchPane, n_items, n_recipes);
            back.focus == Pane::ItemPane && back.item_selection == n.item_selection
        }),
{
    lemma_recipe_pane_keeps_item_selection(
        step(n, Command::SwitchPane, n_items, n_recipes),
        cmds,
        n_items,
        n_recipes,
    );
}

/// Law: `Terminate` applies no transition; after it, the navigation state is
/// exactly what it was, so a loop that stops on it leaves the state
/// untouched.
pub proof fn lemma_terminate_is_identity(n: NavigationState, n_items: int, n_recipes: int)
    ensures
        step(n, Command::Terminate, n_items, n_recipes) == n,
{
}

} // verus!
