//! The catalog: the immutable, canonically ordered, indexed collection of all
//! loaded items and recipes.
//!
//! `Catalog::load` sorts both collections into their natural total order and
//! builds, for every item, the list of recipe positions that produce it and
//! the list that consume it. The catalog never changes afterwards; every
//! accessor is read-only.

use crate::model::{
    clone_item, clone_recipe, item_le, item_le_exec, item_order, items_view,
    lemma_item_order_total, lemma_recipe_order_total, recipe_le, recipe_le_exec, recipe_order,
    recipes_view, Ingredient, IngredientV, Item, ItemV, Recipe, RecipeV, ings_view,
};
use crate::order::lemma_sorted_insert;
use vstd::prelude::*;
use vstd::relations::{sorted_by, total_ordering};
use vstd::seq_lib::lemma_sorted_unique;
use vstd::string::StringExecFns;

verus! {

broadcast use vstd::seq_lib::group_to_multiset_ensures;

/// Whether some ingredient in the list carries the given name.
pub open spec fn list_has_name(l: Seq<IngredientV>, name: Seq<char>) -> bool {
    exists|k: int| 0 <= k < l.len() && l[k].name == name
}

/// Whether the recipe yields the named item as a product.
pub open spec fn produces(r: RecipeV, name: Seq<char>) -> bool {
    list_has_name(r.products, name)
}

/// Whether the recipe consumes the named item as an ingredient.
pub open spec fn consumes(r: RecipeV, name: Seq<char>) -> bool {
    list_has_name(r.ingredients, name)
}

/// Whether the recipe involves the named item on the chosen side.
pub open spec fn involves(r: RecipeV, name: Seq<char>, products_side: bool) -> bool {
    if products_side {
        produces(r, name)
    } else {
        consumes(r, name)
    }
}

/// The ascending positions, among the first `n` recipes, of those involving
/// the named item on the chosen side.
pub open spec fn index_upto(
    recipes: Seq<RecipeV>,
    name: Seq<char>,
    products_side: bool,
    n: int,
) -> Seq<usize>
    decreases n,
{
    if n <= 0 {
        Seq::empty()
    } else if involves(recipes[n - 1], name, products_side) {
        index_upto(recipes, name, products_side, n - 1).push((n - 1) as usize)
    } else {
        index_upto(recipes, name, products_side, n - 1)
    }
}

/// The "produced by" entry for the named item: ascending positions of the
/// recipes whose products mention the name.
pub open spec fn produced_index(recipes: Seq<RecipeV>, name: Seq<char>) -> Seq<usize> {
    index_upto(recipes, name, true, recipes.len() as int)
}

/// The "consumed by" entry for the named item: ascending positions of the
/// recipes whose ingredients mention the name.
pub open spec fn consumed_index(recipes: Seq<RecipeV>, name: Seq<char>) -> Seq<usize> {
    index_upto(recipes, name, false, recipes.len() as int)
}

/// A strictly ascending position list that contains exactly the positions of
/// the recipes involving the name on the chosen side.
pub open spec fn exact_index(
    s: Seq<usize>,
    recipes: Seq<RecipeV>,
    name: Seq<char>,
    products_side: bool,
) -> bool {
    &&& forall|k: int|
        0 <= k < s.len() ==> (#[trigger] s[k]) < recipes.len() && involves(
            recipes[s[k] as int],
            name,
            products_side,
        )
    &&& forall|k1: int, k2: int| 0 <= k1 < k2 < s.len() ==> s[k1] < s[k2]
    &&& forall|j: int|
        0 <= j < recipes.len() && involves(#[trigger] recipes[j], name, products_side)
            ==> s.contains(j as usize)
}

proof fn lemma_index_upto_exact(recipes: Seq<RecipeV>, name: Seq<char>, products_side: bool, n: int)
    requires
        0 <= n <= recipes.len(),
        n <= usize::MAX,
    ensures
        forall|k: int|
            0 <= k < index_upto(recipes, name, products_side, n).len() ==> (#[trigger] index_upto(
                recipes,
                name,
                products_side,
                n,
            )[k]) < n && involves(
                recipes[index_upto(recipes, name, products_side, n)[k] as int],
                name,
                products_side,
            ),
        forall|k1: int, k2: int|
            0 <= k1 < k2 < index_upto(recipes, name, products_side, n).len() ==> index_upto(
                recipes,
                name,
                products_side,
                n,
            )[k1] < index_upto(recipes, name, products_side, n)[k2],
        forall|j: int|
            0 <= j < n && involves(#[trigger] recipes[j], name, products_side) ==> index_upto(
                recipes,
                name,
                products_side,
                n,
            ).contains(j as usize),
    decreases n,
{
    if n > 0 {
        lemma_index_upto_exact(recipes, name, products_side, n - 1);
        let prev = index_upto(recipes, name, products_side, n - 1);
        let cur = index_upto(recipes, name, products_side, n);
        if involves(recipes[n - 1], name, products_side) {
            assert(cur == prev.push((n - 1) as usize));
            assert forall|k1: int, k2: int| 0 <= k1 < k2 < cur.len() implies cur[k1]
                < cur[k2] by {
                if k2 == cur.len() - 1 {
                    assert(cur[k1] == prev[k1]);
                    assert(prev[k1] < n - 1);
                } else {
                    assert(cur[k1] == prev[k1] && cur[k2] == prev[k2]);
                }
            }
            assert forall|j: int|
                0 <= j < n && involves(#[trigger] recipes[j], name, products_side) implies cur
                .contains(j as usize) by {
                if j < n - 1 {
                    let w = choose|w: int| 0 <= w < prev.len() && prev[w] == j as usize;
                    assert(cur[w] == j as usize);
                } else {
                    assert(cur[cur.len() - 1] == j as usize);
                }
            }
        } else {
            assert forall|j: int|
                0 <= j < n && involves(#[trigger] recipes[j], name, products_side) implies cur
                .contains(j as usize) by {
                if j < n - 1 {
                    let w = choose|w: int| 0 <= w < prev.len() && prev[w] == j as usize;
                    assert(cur[w] == j as usize);
                }
            }
        }
    }
}

/// The position lists built at load time are exact: they hold the positions
/// of exactly the recipes involving the name, in strictly ascending order.
pub proof fn lemma_index_exact(recipes: Seq<RecipeV>, name: Seq<char>)
    requires
        recipes.len() <= usize::MAX,
    ensures
        exact_index(produced_index(recipes, name), recipes, name, true),
        exact_index(consumed_index(recipes, name), recipes, name, false),
{
    lemma_index_upto_exact(recipes, name, true, recipes.len() as int);
    lemma_index_upto_exact(recipes, name, false, recipes.len() as int);
}

/// Whether an ingredient list mentions the given name.
fn list_contains_name(l: &Vec<Ingredient>, name: &String) -> (r: bool)
    ensures
        r == list_has_name(ings_view(l@), name@),
{
    let mut k: usize = 0;
    while k < l.len()
        invariant
            k <= l@.len(),
            forall|t: int| 0 <= t < k ==> ings_view(l@)[t].name != name@,
        decreases l@.len() - k,
    {
        if l[k].name == *name {
            proof {
                assert(ings_view(l@)[k as int].name == name@);
            }
            return true;
        }
        k += 1;
    }
    false
}

/// The ascending positions of the recipes involving the name on the chosen
/// side.
fn recipes_involving(recipes: &Vec<Recipe>, name: &String, products_side: bool) -> (r: Vec<usize>)
    ensures
        products_side ==> r@ == produced_index(recipes_view(recipes@), name@),
        !products_side ==> r@ == consumed_index(recipes_view(recipes@), name@),
{
    let mut out: Vec<usize> = Vec::new();
    let mut j: usize = 0;
    while j < recipes.len()
        invariant
            j <= recipes@.len(),
            out@ == index_upto(recipes_view(recipes@), name@, products_side, j as int),
        decreases recipes@.len() - j,
    {
        let hit = if products_side {
            list_contains_name(&recipes[j].products, name)
        } else {
            list_contains_name(&recipes[j].ingredients, name)
        };
        proof {
            assert(hit == involves(recipes_view(recipes@)[j as int], name@, products_side));
        }
        if hit {
            out.push(j);
        }
        j += 1;
    }
    out
}

/// Items in canonical order: ascending in the item order. The result is the
/// unique sorted permutation of the input.
fn sort_items(v: &Vec<Item>) -> (r: Vec<Item>)
    ensures
        items_view(r@) == items_view(v@).sort_by(item_order()),
        sorted_by(items_view(r@), item_order()),
        items_view(r@).to_multiset() == items_view(v@).to_multiset(),
{
    proof {
        lemma_item_order_total();
    }
    let mut out: Vec<Item> = Vec::new();
    let mut i: usize = 0;
    while i < v.len()
        invariant
            total_ordering(item_order()),
            i <= v@.len(),
            sorted_by(items_view(out@), item_order()),
            items_view(out@).to_multiset() == items_view(v@).subrange(
                0,
                i as int,
            ).to_multiset(),
        decreases v@.len() - i,
    {
        let x = clone_item(&v[i]);
        let mut pos: usize = 0;
        while pos < out.len() && item_le_exec(&out[pos], &x)
            invariant
                pos <= out@.len(),
                forall|k: int| 0 <= k < pos ==> item_le(#[trigger] items_view(out@)[k], x@),
            decreases out@.len() - pos,
        {
            pos += 1;
        }
        proof {
            lemma_sorted_insert(items_view(out@), pos as int, x@, item_order());
        }
        let ghost old_out = out@;
        out.insert(pos, x);
        proof {
            let mv_old = items_view(old_out);
            let mv_new = items_view(out@);
            assert(mv_new =~= mv_old.insert(pos as int, x@));
            assert(mv_new.to_multiset() == mv_old.insert(pos as int, x@).to_multiset());
            let pv = items_view(v@).subrange(0, i as int);
            let pv1 = items_view(v@).subrange(0, i as int + 1);
            assert(pv1 =~= pv.push(x@));
            assert(pv1.to_multiset() == pv.push(x@).to_multiset());
        }
        i += 1;
    }
    proof {
        assert(items_view(v@).subrange(0, v@.len() as int) =~= items_view(v@));
        items_view(v@).lemma_sort_by_ensures(item_order());
        lemma_sorted_unique(items_view(out@), items_view(v@).sort_by(item_order()), item_order());
    }
    out
}

/// Recipes in canonical order: ascending in the recipe order. The result is
/// the unique sorted permutation of the input.
fn sort_recipes(v: &Vec<Recipe>) -> (r: Vec<Recipe>)
    ensures
        recipes_view(r@) == recipes_view(v@).sort_by(recipe_order()),
        sorted_by(recipes_view(r@), recipe_order()),
        recipes_view(r@).to_multiset() == recipes_view(v@).to_multiset(),
{
    proof {
        lemma_recipe_order_total();
    }
    let mut out: Vec<Recipe> = Vec::new();
    let mut i: usize = 0;
    while i < v.len()
        invariant
            total_ordering(recipe_order()),
            i <= v@.len(),
            sorted_by(recipes_view(out@), recipe_order()),
            recipes_view(out@).to_multiset() == recipes_view(v@).subrange(
                0,
                i as int,
            ).to_multiset(),
        decreases v@.len() - i,
    {
        let x = clone_recipe(&v[i]);
        let mut pos: usize = 0;
        while pos < out.len() && recipe_le_exec(&out[pos], &x)
            invariant
                pos <= out@.len(),
                forall|k: int| 0 <= k < pos ==> recipe_le(#[trigger] recipes_view(out@)[k], x@),
            decreases out@.len() - pos,
        {
            pos += 1;
        }
        proof {
            lemma_sorted_insert(recipes_view(out@), pos as int, x@, recipe_order());
        }
        let ghost old_out = out@;
        out.insert(pos, x);
        proof {
            let mv_old = recipes_view(old_out);
            let mv_new = recipes_view(out@);
            assert(mv_new =~= mv_old.insert(pos as int, x@));
            assert(mv_new.to_multiset() == mv_old.insert(pos as int, x@).to_multiset());
            let pv = recipes_view(v@).subrange(0, i as int);
            let pv1 = recipes_view(v@).subrange(0, i as int + 1);
            assert(pv1 =~= pv.push(x@));
            assert(pv1.to_multiset() == pv.push(x@).to_multiset());
        }
        i += 1;
    }
    proof {
        assert(recipes_view(v@).subrange(0, v@.len() as int) =~= recipes_view(v@));
        recipes_view(v@).lemma_sort_by_ensures(recipe_order());
        lemma_sorted_unique(
            recipes_view(out@),
            recipes_view(v@).sort_by(recipe_order()),
            recipe_order(),
        );
    }
    out
}

/// Failure while obtaining the catalog's two data sources: the source was
/// missing, or its records could not be decoded. Produced by the
/// source-reading layer outside this crate and fatal at startup; loading
/// itself never fails once both record collections are in hand.
#[derive(Debug, Clone, PartialEq, Eq)]
pub enum LoadError {
    NotFound,
    MalformedData,
}

impl LoadError {
    /// A short description for reporting the failure at startup.
    pub fn message(&self) -> (r: String)
        ensures
            self is NotFound ==> r@ == "data source not found"@,
            self is MalformedData ==> r@ == "data source is malformed"@,
    {
        match self {
            LoadError::NotFound => String::from_str("data source not found"),
            LoadError::MalformedData => String::from_str("data source is malformed"),
        }
    }
}

/// The immutable, canonically ordered, indexed collection of all loaded items
/// and recipes.
pub struct Catalog {
    items: Vec<Item>,
    recipes: Vec<Recipe>,
    produced_by: Vec<Vec<usize>>,
    consumed_by: Vec<Vec<usize>>,
}

/// Mathematical view of a `Catalog`.
#[verifier::ext_equal]
pub struct CatalogV {
    pub items: Seq<ItemV>,
    pub recipes: Seq<RecipeV>,
    pub produced_by: Seq<Seq<usize>>,
    pub consumed_by: Seq<Seq<usize>>,
}

impl View for Catalog {
    type V = CatalogV;

    closed spec fn view(&self) -> CatalogV {
        CatalogV {
            items: items_view(self.items@),
            recipes: recipes_view(self.recipes@),
            produced_by: self.produced_by@.map_values(|v: Vec<usize>| v@),
            consumed_by: self.consumed_by@.map_values(|v: Vec<usize>| v@),
        }
    }
}

/// Well-formedness of a catalog: both collections are in canonical order and
/// the two lookup indices are exactly the position lists derived from the
/// recipe sequence.
pub open spec fn catalog_wf(c: CatalogV) -> bool {
    &&& sorted_by(c.items, item_order())
    &&& sorted_by(c.recipes, recipe_order())
    &&& c.produced_by.len() == c.items.len()
    &&& c.consumed_by.len() == c.items.len()
    &&& forall|i: int|
        0 <= i < c.items.len() ==> #[trigger] c.produced_by[i] == produced_index(
            c.recipes,
            c.items[i].name,
        )
    &&& forall|i: int|
        0 <= i < c.items.len() ==> #[trigger] c.consumed_by[i] == consumed_index(
            c.recipes,
            c.items[i].name,
        )
}

/// Whether `c` is the catalog that loading the given records yields: the
/// unique sorted arrangement of the records, with the derived indices.
pub open spec fn loads_from(c: CatalogV, items: Seq<Item>, recipes: Seq<Recipe>) -> bool {
    &&& c.items == items_view(items).sort_by(item_order())
    &&& c.recipes == recipes_view(recipes).sort_by(recipe_order())
    &&& catalog_wf(c)
}

impl Catalog {
    /// Builds the catalog from the two parsed record collections: sorts each
    /// into canonical order and derives the produced-by/consumed-by indices.
    /// Ingredient references are not validated here; an unresolvable name is
    /// a normal condition handled by the resolver.
    pub fn load(items: Vec<Item>, recipes: Vec<Recipe>) -> (c: Catalog)
        ensures
            loads_from(c@, items@, recipes@),
            c@.items.to_multiset() == items_view(items@).to_multiset(),
            c@.recipes.to_multiset() == recipes_view(recipes@).to_multiset(),
    {
        let sorted_items = sort_items(&items);
        let sorted_recipes = sort_recipes(&recipes);
        let mut produced_by: Vec<Vec<usize>> = Vec::new();
        let mut consumed_by: Vec<Vec<usize>> = Vec::new();
        let mut i: usize = 0;
        while i < sorted_items.len()
            invariant
                i <= sorted_items@.len(),
                produced_by@.len() == i,
                consumed_by@.len() == i,
                forall|k: int|
                    0 <= k < i ==> #[trigger] produced_by@[k]@ == produced_index(
                        recipes_view(sorted_recipes@),
                        items_view(sorted_items@)[k].name,
                    ),
                forall|k: int|
                    0 <= k < i ==> #[trigger] consumed_by@[k]@ == consumed_index(
                        recipes_view(sorted_recipes@),
                        items_view(sorted_items@)[k].name,
                    ),
            decreases sorted_items@.len() - i,
        {
            let p = recipes_involving(&sorted_recipes, &sorted_items[i].name, true);
            let q = recipes_involving(&sorted_recipes, &sorted_items[i].name, false);
            produced_by.push(p);
            consumed_by.push(q);
            i += 1;
        }
        let c = Catalog { items: sorted_items, recipes: sorted_recipes, produced_by, consumed_by };
        proof {
            assert forall|k: int| 0 <= k < c@.items.len() implies #[trigger] c@.produced_by[k]
                == produced_index(c@.recipes, c@.items[k].name) by {
                assert(c@.produced_by[k] == produced_by@[k]@);
            }
            assert forall|k: int| 0 <= k < c@.items.len() implies #[trigger] c@.consumed_by[k]
                == consumed_index(c@.recipes, c@.items[k].name) by {
                assert(c@.consumed_by[k] == consumed_by@[k]@);
            }
        }
        c
    }

    /// How many items the catalog holds.
    pub fn num_items(&self) -> (n: usize)
        ensures
            n == self@.items.len(),
    {
        self.items.len()
    }

    /// How many recipes the catalog holds.
    pub fn num_recipes(&self) -> (n: usize)
        ensures
            n == self@.recipes.len(),
    {
        self.recipes.len()
    }

    /// The item at a canonical position.
    pub fn item(&self, i: usize) -> (it: &Item)
        requires
            i < self@.items.len(),
        ensures
            it@ == self@.items[i as int],
    {
        &self.items[i]
    }

    /// The recipe at a canonical position.
    pub fn recipe(&self, i: usize) -> (r: &Recipe)
        requires
            i < self@.recipes.len(),
        ensures
            r@ == self@.recipes[i as int],
    {
        &self.recipes[i]
    }

    /// The positions of the recipes producing the item at position `i`.
    pub fn producing(&self, i: usize) -> (r: &Vec<usize>)
        requires
            catalog_wf(self@),
            i < self@.items.len(),
        ensures
            r@ == self@.produced_by[i as int],
            r@ == produced_index(self@.recipes, self@.items[i as int].name),
    {
        proof {
            assert(self@.produced_by[i as int] == produced_index(
                self@.recipes,
                self@.items[i as int].name,
            ));
        }
        &self.produced_by[i]
    }

    /// The positions of the recipes consuming the item at position `i`.
    pub fn consuming(&self, i: usize) -> (r: &Vec<usize>)
        requires
            catalog_wf(self@),
            i < self@.items.len(),
        ensures
            r@ == self@.consumed_by[i as int],
            r@ == consumed_index(self@.recipes, self@.items[i as int].name),
    {
        proof {
            assert(self@.consumed_by[i as int] == consumed_index(
                self@.recipes,
                self@.items[i as int].name,
            ));
        }
        &self.consumed_by[i]
    }
}

/// The position of the first item at or after position `i` carrying the
/// given name, if any.
pub open spec fn find_item_from(items: Seq<ItemV>, name: Seq<char>, i: int) -> Option<usize>
    decreases items.len() - i,
{
    if i < 0 || i >= items.len() {
        None
    } else if items[i].name == name {
        Some(i as usize)
    } else {
        find_item_from(items, name, i + 1)
    }
}

/// The position of the first item carrying the given name, if any.
pub open spec fn find_item(items: Seq<ItemV>, name: Seq<char>) -> Option<usize> {
    find_item_from(items, name, 0)
}

/// What `find_item` returns: the least position whose item carries the name,
/// or nothing exactly when no item does.
pub proof fn lemma_find_item_spec(items: Seq<ItemV>, name: Seq<char>, i: int)
    requires
        0 <= i <= items.len(),
        items.len() <= usize::MAX,
    ensures
        match find_item_from(items, name, i) {
            Some(j) => i <= j < items.len() && items[j as int].name == name && (forall|t: int|
                i <= t < j ==> items[t].name != name),
            None => forall|t: int| i <= t < items.len() ==> items[t].name != name,
        },
    decreases items.len() - i,
{
    if i < items.len() && items[i].name != name {
        lemma_find_item_spec(items, name, i + 1);
    }
}

impl Catalog {
    /// The canonical position of the first item carrying the given name, or
    /// `None` when the name is a dangling reference.
    pub fn find_item_index(&self, name: &String) -> (r: Option<usize>)
        ensures
            r == find_item(self@.items, name@),
    {
        let mut i: usize = 0;
        while i < self.items.len()
            invariant
                i <= self@.items.len(),
                find_item(self@.items, name@) == find_item_from(self@.items, name@, i as int),
            decreases self@.items.len() - i,
        {
            if self.items[i].name == *name {
                return Some(i);
            }
            i += 1;
        }
        None
    }
}

/// Law: loading is deterministic. Any two well-formed catalogs whose item and
/// recipe sequences arise from the same record collections are equal in every
/// part, indices included; with `Catalog::load`'s postcondition this says
/// that loading the same two sources twice yields identical catalogs.
pub proof fn lemma_load_deterministic(
    c1: CatalogV,
    c2: CatalogV,
    items: Seq<Item>,
    recipes: Seq<Recipe>,
)
    requires
        loads_from(c1, items, recipes),
        loads_from(c2, items, recipes),
    ensures
        c1 == c2,
{
    assert(c1.produced_by =~= c2.produced_by);
    assert(c1.consumed_by =~= c2.consumed_by);
    assert(c1 =~= c2);
}

/// Law: lookup correctness. For every item of a well-formed catalog, the
/// produced-by entry for its name holds exactly the positions of the recipes
/// whose products mention that name, in strictly ascending order, and the
/// consumed-by entry does the same for recipe ingredients.
pub proof fn lemma_lookup_correctness(c: CatalogV, i: int)
    requires
        catalog_wf(c),
        c.recipes.len() <= usize::MAX,
        0 <= i < c.items.len(),
    ensures
        exact_index(c.produced_by[i], c.recipes, c.items[i].name, true),
        exact_index(c.consumed_by[i], c.recipes, c.items[i].name, false),
{
    lemma_index_exact(c.recipes, c.items[i].name);
}

} // verus!
