//! The selection resolver: a pure function combining the catalog and the
//! navigation state into a view-ready structure — the highlighted entries and,
//! depending on the mode, an item's recipe cross references or a recipe's
//! ingredient breakdown with every name resolved against the item list.
//!
//! Resolution never fails: an ingredient name with no matching item degrades
//! to an `Unresolved` marker carrying the name.

use crate::catalog::{
    catalog_wf, consumed_index, find_item, produced_index, Catalog, CatalogV,
};
use crate::model::{ings_view, Ingredient, IngredientV, ItemV};
use crate::nav::{nav_wf, Mode, NavigationState, Pane};
use vstd::prelude::*;

verus! {

/// How one ingredient row of a recipe detail resolved: the canonical position
/// of the first item carrying the referenced name, or the dangling name
/// itself.
#[derive(Debug, Clone, PartialEq, Eq)]
pub enum RowResolution {
    Resolved(usize),
    Unresolved(String),
}

/// Mathematical view of a `RowResolution`.
#[verifier::ext_equal]
pub enum RowResolutionV {
    Resolved(usize),
    Unresolved(Seq<char>),
}

impl View for RowResolution {
    type V = RowResolutionV;

    open spec fn view(&self) -> RowResolutionV {
        match self {
            RowResolution::Resolved(i) => RowResolutionV::Resolved(*i),
            RowResolution::Unresolved(s) => RowResolutionV::Unresolved(s@),
        }
    }
}

/// One ingredient or product row of a recipe detail: the stated amount and
/// how the referenced name resolved.
#[derive(Debug, Clone, PartialEq, Eq)]
pub struct ResolvedRow {
    pub amount: usize,
    pub resolution: RowResolution,
}

/// Mathematical view of a `ResolvedRow`.
#[verifier::ext_equal]
pub struct ResolvedRowV {
    pub amount: nat,
    pub resolution: RowResolutionV,
}

impl View for ResolvedRow {
    type V = ResolvedRowV;

    open spec fn view(&self) -> ResolvedRowV {
        ResolvedRowV { amount: self.amount as nat, resolution: self.resolution@ }
    }
}

/// The views of a sequence of resolved rows.
pub open spec fn rows_view(s: Seq<ResolvedRow>) -> Seq<ResolvedRowV> {
    s.map_values(|x: ResolvedRow| x@)
}

/// The mode-dependent part of a resolved view: nothing beyond the lists, an
/// item's recipe cross references, or a recipe's resolved rows.
#[derive(Debug, Clone, PartialEq, Eq)]
pub enum DetailView {
    Browsing,
    ItemDetail { producing: Vec<usize>, consuming: Vec<usize> },
    RecipeDetail { ingredients: Vec<ResolvedRow>, products: Vec<ResolvedRow> },
}

/// Mathematical view of a `DetailView`.
#[verifier::ext_equal]
pub enum DetailViewV {
    Browsing,
    ItemDetail { producing: Seq<usize>, consuming: Seq<usize> },
    RecipeDetail { ingredients: Seq<ResolvedRowV>, products: Seq<ResolvedRowV> },
}

impl View for DetailView {
    type V = DetailViewV;

    open spec fn view(&self) -> DetailViewV {
        match self {
            DetailView::Browsing => DetailViewV::Browsing,
            DetailView::ItemDetail { producing, consuming } => DetailViewV::ItemDetail {
                producing: producing@,
                consuming: consuming@,
            },
            DetailView::RecipeDetail { ingredients, products } => DetailViewV::RecipeDetail {
                ingredients: rows_view(ingredients@),
                products: rows_view(products@),
            },
        }
    }
}

/// What the renderer draws for one frame: the highlighted item and recipe
/// positions, and the mode-dependent detail.
#[derive(Debug, Clone, PartialEq, Eq)]
pub struct ResolvedView {
    pub item: Option<usize>,
    pub recipe: Option<usize>,
    pub detail: DetailView,
}

/// Mathematical view of a `ResolvedView`.
#[verifier::ext_equal]
pub struct ResolvedViewV {
    pub item: Option<usize>,
    pub recipe: Option<usize>,
    pub detail: DetailViewV,
}

impl View for ResolvedView {
    type V = ResolvedViewV;

    open spec fn view(&self) -> ResolvedViewV {
        ResolvedViewV { item: self.item, recipe: self.recipe, detail: self.detail@ }
    }
}

/// How one ingredient reference resolves: to the first item carrying its
/// name, or to the dangling name with the amount preserved.
pub open spec fn resolve_row(items: Seq<ItemV>, ing: IngredientV) -> ResolvedRowV {
    ResolvedRowV {
        amount: ing.amount,
        resolution: match find_item(items, ing.name) {
            Some(i) => RowResolutionV::Resolved(i),
            None => RowResolutionV::Unresolved(ing.name),
        },
    }
}

/// The resolved rows of a whole ingredient list, in order.
pub open spec fn resolve_rows(items: Seq<ItemV>, ings: Seq<IngredientV>) -> Seq<ResolvedRowV> {
    ings.map_values(|g: IngredientV| resolve_row(items, g))
}

/// What `resolve` returns: a function of the catalog and the navigation state
/// alone.
pub open spec fn resolve_spec(c: CatalogV, n: NavigationState) -> ResolvedViewV {
    ResolvedViewV {
        item: n.item_selection,
        recipe: n.recipe_selection,
        detail: match n.mode {
            Mode::Browsing => DetailViewV::Browsing,
            Mode::ItemDetail(i) => DetailViewV::ItemDetail {
                producing: produced_index(c.recipes, c.items[i as int].name),
                consuming: consumed_index(c.recipes, c.items[i as int].name),
            },
            Mode::RecipeDetail(r) => DetailViewV::RecipeDetail {
                ingredients: resolve_rows(c.items, c.recipes[r as int].ingredients),
                products: resolve_rows(c.items, c.recipes[r as int].products),
            },
        },
    }
}

/// A copy of a position list.
fn copy_positions(v: &Vec<usize>) -> (r: Vec<usize>)
    ensures
        r@ == v@,
{
    let mut r: Vec<usize> = Vec::new();
    let mut i: usize = 0;
    while i < v.len()
        invariant
            i <= v@.len(),
            r@ == v@.subrange(0, i as int),
        decreases v@.len() - i,
    {
        r.push(v[i]);
        proof {
            assert(r@ =~= v@.subrange(0, i as int + 1));
        }
        i += 1;
    }
    proof {
        assert(v@.subrange(0, v@.len() as int) =~= v@);
    }
    r
}

/// The resolved rows for one ingredient list of a recipe.
fn resolve_rows_exec(catalog: &Catalog, ings: &Vec<Ingredient>) -> (r: Vec<ResolvedRow>)
    ensures
        rows_view(r@) == resolve_rows(catalog@.items, ings_view(ings@)),
{
    let mut r: Vec<ResolvedRow> = Vec::new();
    let mut i: usize = 0;
    while i < ings.len()
        invariant
            i <= ings@.len(),
            r@.len() == i,
            forall|j: int|
                0 <= j < i ==> rows_view(r@)[j] == resolve_row(
                    catalog@.items,
                    ings_view(ings@)[j],
                ),
        decreases ings@.len() - i,
    {
        let ing = &ings[i];
        let resolution = match catalog.find_item_index(&ing.name) {
            Some(idx) => RowResolution::Resolved(idx),
            None => RowResolution::Unresolved(ing.name.clone()),
        };
        let row = ResolvedRow { amount: ing.amount, resolution };
        proof {
            assert(row@ =~= resolve_row(catalog@.items, ings_view(ings@)[i as int]));
        }
        let ghost old_r = r@;
        r.push(row);
        proof {
            assert forall|j: int| 0 <= j < i + 1 implies rows_view(r@)[j] == resolve_row(
                catalog@.items,
                ings_view(ings@)[j],
            ) by {
                if j < i {
                    assert(r@[j] == old_r[j]);
                    assert(rows_view(old_r)[j] == resolve_row(catalog@.items, ings_view(ings@)[j]));
                } else {
                    assert(r@[j] == row);
                }
            }
        }
        i += 1;
    }
    proof {
        assert(rows_view(r@) =~= resolve_rows(catalog@.items, ings_view(ings@)));
    }
    r
}

/// Combines the catalog and the navigation state into the view-ready
/// structure for one frame. Pure: the result is a function of the two
/// arguments alone, it depends on no prior call, and it never fails — a
/// dangling ingredient reference degrades to its `Unresolved` marker.
pub fn resolve(catalog: &Catalog, nav: &NavigationState) -> (r: ResolvedView)
    requires
        catalog_wf(catalog@),
        nav_wf(*nav, catalog@.items.len() as int, catalog@.recipes.len() as int),
    ensures
        r@ == resolve_spec(catalog@, *nav),
{
    let detail = match nav.mode {
        Mode::Browsing => DetailView::Browsing,
        Mode::ItemDetail(i) => DetailView::ItemDetail {
            producing: copy_positions(catalog.producing(i)),
            consuming: copy_positions(catalog.consuming(i)),
        },
        Mode::RecipeDetail(ri) => {
            let rec = catalog.recipe(ri);
            DetailView::RecipeDetail {
                ingredients: resolve_rows_exec(catalog, &rec.ingredients),
                products: resolve_rows_exec(catalog, &rec.products),
            }
        },
    };
    let r = ResolvedView { item: nav.item_selection, recipe: nav.recipe_selection, detail };
    proof {
        assert(r@ =~= resolve_spec(catalog@, *nav));
    }
    r
}

/// The focused pane's current selection, as the name of the selected entry:
/// an item name when the item pane has focus, a recipe name when the recipe
/// pane does.
#[derive(Debug, Clone, PartialEq, Eq)]
pub enum SelectionMode {
    ItemSelect(String),
    RecipeSelect(String),
}

/// Mathematical view of a `SelectionMode`.
#[verifier::ext_equal]
pub enum SelectionModeV {
    ItemSelect(Seq<char>),
    RecipeSelect(Seq<char>),
}

impl View for SelectionMode {
    type V = SelectionModeV;

    open spec fn view(&self) -> SelectionModeV {
        match self {
            SelectionMode::ItemSelect(s) => SelectionModeV::ItemSelect(s@),
            SelectionMode::RecipeSelect(s) => SelectionModeV::RecipeSelect(s@),
        }
    }
}

/// What `selection_mode` returns: the name of the focused pane's selected
/// entry, or nothing when that pane has no selection yet.
pub open spec fn selection_mode_spec(c: CatalogV, n: NavigationState) -> Option<SelectionModeV> {
    match n.focus {
        Pane::ItemPane => match n.item_selection {
            Some(i) => Some(SelectionModeV::ItemSelect(c.items[i as int].name)),
            None => None,
        },
        Pane::RecipePane => match n.recipe_selection {
            Some(r) => Some(SelectionModeV::RecipeSelect(c.recipes[r as int].name)),
            None => None,
        },
    }
}

/// The focused pane's current selection by name, for labelling the detail
/// panel.
pub fn selection_mode(catalog: &Catalog, nav: &NavigationState) -> (r: Option<SelectionMode>)
    requires
        nav_wf(*nav, catalog@.items.len() as int, catalog@.recipes.len() as int),
    ensures
        match r {
            Some(m) => selection_mode_spec(catalog@, *nav) == Some(m@),
            None => selection_mode_spec(catalog@, *nav) is None,
        },
{
    match nav.focus {
        Pane::ItemPane => match nav.item_selection {
            Some(i) => Some(SelectionMode::ItemSelect(catalog.item(i).name.clone())),
            None => None,
        },
        Pane::RecipePane => match nav.recipe_selection {
            Some(ri) => Some(SelectionMode::RecipeSelect(catalog.recipe(ri).name.clone())),
            None => None,
        },
    }
}

/// Law: resolver purity. The resolved view is a function of the catalog and
/// the navigation state alone, so any two results obtained from the same
/// catalog and navigation state — in particular, from two successive calls of
/// `resolve` with nothing changed in between — are equal.
pub proof fn lemma_resolver_pure(
    c: CatalogV,
    n: NavigationState,
    r1: ResolvedViewV,
    r2: ResolvedViewV,
)
    requires
        r1 == resolve_spec(c, n),
        r2 == resolve_spec(c, n),
    ensures
        r1 == r2,
{
}

/// Law: dangling-reference safety. In recipe detail mode, an ingredient whose
/// name matches no loaded item resolves to the `Unresolved` marker carrying
/// that name, with its amount preserved — never to an item position and never
/// to a failure.
pub proof fn lemma_dangling_reference(c: CatalogV, n: NavigationState, ri: usize, k: int)
    requires
        n.mode == Mode::RecipeDetail(ri),
        c.items.len() <= usize::MAX,
        ri < c.recipes.len(),
        0 <= k < c.recipes[ri as int].ingredients.len(),
        forall|t: int|
            0 <= t < c.items.len() ==> c.items[t].name != c.recipes[ri as int].ingredients[k].name,
    ensures
        ({
            let ing = c.recipes[ri as int].ingredients[k];
            resolve_spec(c, n).detail matches DetailViewV::RecipeDetail { ingredients, .. }
                && ingredients[k] == ResolvedRowV {
                amount: ing.amount,
                resolution: RowResolutionV::Unresolved(ing.name),
            }
        }),
{
    let ing = c.recipes[ri as int].ingredients[k];
    crate::catalog::lemma_find_item_spec(c.items, ing.name, 0);
    if find_item(c.items, ing.name) is Some {
        assert(false);
    }
}

} // verus!
