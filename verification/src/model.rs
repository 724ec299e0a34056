//! The domain data model: items, ingredients and recipes, their mathematical
//! views, and the total orders that fix the canonical arrangement of the
//! catalog lists.
//!
//! An item's identity is its name; an ingredient refers to an item by name and
//! need not resolve to a loaded item (a dangling reference is a normal
//! condition, handled by the resolver).

use crate::order::{char_order, lemma_char_order_total, lemma_lex_le_antisymmetric,
    lemma_lex_le_connected, lemma_lex_le_skip, lemma_lex_le_transitive, lex_le};
use vstd::prelude::*;
use vstd::relations::total_ordering;

verus! {

/// A named entity of the crafting database, with a description and a
/// sink-point value (a fixed score for disposing of one unit).
#[derive(Debug, Clone, PartialEq, Eq)]
pub struct Item {
    pub name: String,
    pub description: String,
    pub sink_points: usize,
}

/// Mathematical view of an `Item`.
#[verifier::ext_equal]
pub struct ItemV {
    pub name: Seq<char>,
    pub description: Seq<char>,
    pub sink_points: nat,
}

impl View for Item {
    type V = ItemV;

    open spec fn view(&self) -> ItemV {
        ItemV {
            name: self.name@,
            description: self.description@,
            sink_points: self.sink_points as nat,
        }
    }
}

/// A (name, amount) pair referencing an item by name, used as an input or an
/// output of a recipe.
#[derive(Debug, Clone, PartialEq, Eq)]
pub struct Ingredient {
    pub name: String,
    pub amount: usize,
}

/// Mathematical view of an `Ingredient`.
#[verifier::ext_equal]
pub struct IngredientV {
    pub name: Seq<char>,
    pub amount: nat,
}

impl View for Ingredient {
    type V = IngredientV;

    open spec fn view(&self) -> IngredientV {
        IngredientV { name: self.name@, amount: self.amount as nat }
    }
}

/// A named transformation consuming ingredients and yielding products over a
/// fixed duration at a named building. Recipe names need not be unique.
#[derive(Debug, Clone, PartialEq, Eq)]
pub struct Recipe {
    pub name: String,
    pub ingredients: Vec<Ingredient>,
    pub products: Vec<Ingredient>,
    pub building: String,
    pub duration: usize,
}

/// Mathematical view of a `Recipe`.
#[verifier::ext_equal]
pub struct RecipeV {
    pub name: Seq<char>,
    pub ingredients: Seq<IngredientV>,
    pub products: Seq<IngredientV>,
    pub building: Seq<char>,
    pub duration: nat,
}

/// The views of a sequence of ingredients.
pub open spec fn ings_view(s: Seq<Ingredient>) -> Seq<IngredientV> {
    s.map_values(|x: Ingredient| x@)
}

impl View for Recipe {
    type V = RecipeV;

    open spec fn view(&self) -> RecipeV {
        RecipeV {
            name: self.name@,
            ingredients: ings_view(self.ingredients@),
            products: ings_view(self.products@),
            building: self.building@,
            duration: self.duration as nat,
        }
    }
}

/// The views of a sequence of items.
pub open spec fn items_view(s: Seq<Item>) -> Seq<ItemV> {
    s.map_values(|x: Item| x@)
}

/// The views of a sequence of recipes.
pub open spec fn recipes_view(s: Seq<Recipe>) -> Seq<RecipeV> {
    s.map_values(|x: Recipe| x@)
}

/// Natural order on items: name, then description, then sink points.
pub open spec fn item_le(a: ItemV, b: ItemV) -> bool {
    if a.name != b.name {
        lex_le(a.name, b.name, char_order())
    } else if a.description != b.description {
        lex_le(a.description, b.description, char_order())
    } else {
        a.sink_points <= b.sink_points
    }
}

/// The item order as a relation value.
pub open spec fn item_order() -> spec_fn(ItemV, ItemV) -> bool {
    |a: ItemV, b: ItemV| item_le(a, b)
}

/// Natural order on ingredients: name, then amount.
pub open spec fn ing_le(a: IngredientV, b: IngredientV) -> bool {
    if a.name != b.name {
        lex_le(a.name, b.name, char_order())
    } else {
        a.amount <= b.amount
    }
}

/// The ingredient order as a relation value.
pub open spec fn ing_order() -> spec_fn(IngredientV, IngredientV) -> bool {
    |a: IngredientV, b: IngredientV| ing_le(a, b)
}

/// Natural order on recipes: name, then ingredients, products, building and
/// duration as tie breakers, so that the order is total on whole records.
pub open spec fn recipe_le(a: RecipeV, b: RecipeV) -> bool {
    if a.name != b.name {
        lex_le(a.name, b.name, char_order())
    } else if a.ingredients != b.ingredients {
        lex_le(a.ingredients, b.ingredients, ing_order())
    } else if a.products != b.products {
        lex_le(a.products, b.products, ing_order())
    } else if a.building != b.building {
        lex_le(a.building, b.building, char_order())
    } else {
        a.duration <= b.duration
    }
}

/// The recipe order as a relation value.
pub open spec fn recipe_order() -> spec_fn(RecipeV, RecipeV) -> bool {
    |a: RecipeV, b: RecipeV| recipe_le(a, b)
}

/// The item order is a total order.
pub proof fn lemma_item_order_total()
    ensures
        total_ordering(item_order()),
{
    lemma_char_order_total();
    let co = char_order();
    let r = item_order();
    assert forall|a: ItemV, b: ItemV| #[trigger] r(a, b) && #[trigger] r(b, a) implies a == b by {
        if a.name != b.name {
            lemma_lex_le_antisymmetric(a.name, b.name, co);
        } else if a.description != b.description {
            lemma_lex_le_antisymmetric(a.description, b.description, co);
        } else {
            assert(a =~= b);
        }
    }
    assert forall|a: ItemV, b: ItemV, c: ItemV| #[trigger] r(a, b) && #[trigger] r(b, c) implies r(
        a,
        c,
    ) by {
        if a.name == b.name && b.name == c.name {
            if a.description == b.description && b.description == c.description {
            } else if a.description != b.description && b.description != c.description {
                lemma_lex_le_transitive(a.description, b.description, c.description, co);
                if a.description == c.description {
                    lemma_lex_le_antisymmetric(a.description, b.description, co);
                }
            }
        } else if a.name != b.name && b.name != c.name {
            lemma_lex_le_transitive(a.name, b.name, c.name, co);
            if a.name == c.name {
                lemma_lex_le_antisymmetric(a.name, b.name, co);
            }
        }
    }
    assert forall|a: ItemV, b: ItemV| #[trigger] r(a, b) || #[trigger] r(b, a) by {
        if a.name != b.name {
            lemma_lex_le_connected(a.name, b.name, co);
        } else if a.description != b.description {
            lemma_lex_le_connected(a.description, b.description, co);
        }
    }
}

/// The ingredient order is a total order.
pub proof fn lemma_ing_order_total()
    ensures
        total_ordering(ing_order()),
{
    lemma_char_order_total();
    let co = char_order();
    let r = ing_order();
    assert forall|a: IngredientV, b: IngredientV| #[trigger] r(a, b) && #[trigger] r(b, a) implies a
        == b by {
        if a.name != b.name {
            lemma_lex_le_antisymmetric(a.name, b.name, co);
        } else {
            assert(a =~= b);
        }
    }
    assert forall|a: IngredientV, b: IngredientV, c: IngredientV|
        #[trigger] r(a, b) && #[trigger] r(b, c) implies r(a, c) by {
        if a.name != b.name && b.name != c.name {
            lemma_lex_le_transitive(a.name, b.name, c.name, co);
            if a.name == c.name {
                lemma_lex_le_antisymmetric(a.name, b.name, co);
            }
        }
    }
    assert forall|a: IngredientV, b: IngredientV| #[trigger] r(a, b) || #[trigger] r(b, a) by {
        if a.name != b.name {
            lemma_lex_le_connected(a.name, b.name, co);
        }
    }
}

/// The recipe order is a total order.
pub proof fn lemma_recipe_order_total()
    ensures
        total_ordering(recipe_order()),
{
    lemma_char_order_total();
    lemma_ing_order_total();
    let co = char_order();
    let io = ing_order();
    let r = recipe_order();
    assert forall|a: RecipeV, b: RecipeV| #[trigger] r(a, b) && #[trigger] r(b, a) implies a
        == b by {
        if a.name != b.name {
            lemma_lex_le_antisymmetric(a.name, b.name, co);
        } else if a.ingredients != b.ingredients {
            lemma_lex_le_antisymmetric(a.ingredients, b.ingredients, io);
        } else if a.products != b.products {
            lemma_lex_le_antisymmetric(a.products, b.products, io);
        } else if a.building != b.building {
            lemma_lex_le_antisymmetric(a.building, b.building, co);
        } else {
            assert(a =~= b);
        }
    }
    assert forall|a: RecipeV, b: RecipeV, c: RecipeV|
        #[trigger] r(a, b) && #[trigger] r(b, c) implies r(a, c) by {
        if a.name == b.name && b.name == c.name {
            if a.ingredients == b.ingredients && b.ingredients == c.ingredients {
                if a.products == b.products && b.products == c.products {
                    if a.building == b.building && b.building == c.building {
                    } else if a.building != b.building && b.building != c.building {
                        lemma_lex_le_transitive(a.building, b.building, c.building, co);
                        if a.building == c.building {
                            lemma_lex_le_antisymmetric(a.building, b.building, co);
                        }
                    }
                } else if a.products != b.products && b.products != c.products {
                    lemma_lex_le_transitive(a.products, b.products, c.products, io);
                    if a.products == c.products {
                        lemma_lex_le_antisymmetric(a.products, b.products, io);
                    }
                }
            } else if a.ingredients != b.ingredients && b.ingredients != c.ingredients {
                lemma_lex_le_transitive(a.ingredients, b.ingredients, c.ingredients, io);
                if a.ingredients == c.ingredients {
                    lemma_lex_le_antisymmetric(a.ingredients, b.ingredients, io);
                }
            }
        } else if a.name != b.name && b.name != c.name {
            lemma_lex_le_transitive(a.name, b.name, c.name, co);
            if a.name == c.name {
                lemma_lex_le_antisymmetric(a.name, b.name, co);
            }
        }
    }
    assert forall|a: RecipeV, b: RecipeV| #[trigger] r(a, b) || #[trigger] r(b, a) by {
        if a.name != b.name {
            lemma_lex_le_connected(a.name, b.name, co);
        } else if a.ingredients != b.ingredients {
            lemma_lex_le_connected(a.ingredients, b.ingredients, io);
        } else if a.products != b.products {
            lemma_lex_le_connected(a.products, b.products, io);
        } else if a.building != b.building {
            lemma_lex_le_connected(a.building, b.building, co);
        }
    }
}

/// Lexicographic comparison of two strings by character code point.
pub fn str_le_exec(a: &str, b: &str) -> (r: bool)
    ensures
        r == lex_le(a@, b@, char_order()),
{
    let alen = a.unicode_len();
    let blen = b.unicode_len();
    let mut i: usize = 0;
    while i < alen && i < blen
        invariant
            alen == a@.len(),
            blen == b@.len(),
            i <= alen,
            i <= blen,
            forall|j: int| 0 <= j < i ==> a@[j] == b@[j],
        decreases alen - i,
    {
        let ca = a.get_char(i);
        let cb = b.get_char(i);
        if ca != cb {
            proof {
                lemma_lex_le_skip(a@, b@, char_order(), i as int);
            }
            return (ca as u32) <= (cb as u32);
        }
        i += 1;
    }
    proof {
        lemma_lex_le_skip(a@, b@, char_order(), i as int);
    }
    alen <= blen
}

/// Whether two ingredients have the same view.
fn ing_eq_exec(a: &Ingredient, b: &Ingredient) -> (r: bool)
    ensures
        r == (a@ == b@),
{
    let r = a.name == b.name && a.amount == b.amount;
    proof {
        if r {
            assert(a@ =~= b@);
        }
    }
    r
}

/// Comparison of two ingredients in the ingredient order.
fn ing_le_exec(a: &Ingredient, b: &Ingredient) -> (r: bool)
    ensures
        r == ing_le(a@, b@),
{
    if a.name == b.name {
        a.amount <= b.amount
    } else {
        str_le_exec(a.name.as_str(), b.name.as_str())
    }
}

/// Whether two ingredient lists have the same view.
fn ings_eq_exec(a: &Vec<Ingredient>, b: &Vec<Ingredient>) -> (r: bool)
    ensures
        r == (ings_view(a@) == ings_view(b@)),
{
    if a.len() != b.len() {
        proof {
            assert(ings_view(a@).len() != ings_view(b@).len());
        }
        return false;
    }
    let mut i: usize = 0;
    while i < a.len()
        invariant
            a@.len() == b@.len(),
            i <= a@.len(),
            forall|j: int| 0 <= j < i ==> ings_view(a@)[j] == ings_view(b@)[j],
        decreases a@.len() - i,
    {
        if !ing_eq_exec(&a[i], &b[i]) {
            proof {
                assert(ings_view(a@)[i as int] != ings_view(b@)[i as int]);
            }
            return false;
        }
        i += 1;
    }
    proof {
        assert(ings_view(a@) =~= ings_view(b@));
    }
    true
}

/// Lexicographic comparison of two ingredient lists.
fn ings_le_exec(a: &Vec<Ingredient>, b: &Vec<Ingredient>) -> (r: bool)
    ensures
        r == lex_le(ings_view(a@), ings_view(b@), ing_order()),
{
    let mut i: usize = 0;
    while i < a.len() && i < b.len()
        invariant
            i <= a@.len(),
            i <= b@.len(),
            forall|j: int| 0 <= j < i ==> ings_view(a@)[j] == ings_view(b@)[j],
        decreases a@.len() - i,
    {
        if !ing_eq_exec(&a[i], &b[i]) {
            proof {
                lemma_lex_le_skip(ings_view(a@), ings_view(b@), ing_order(), i as int);
            }
            return ing_le_exec(&a[i], &b[i]);
        }
        i += 1;
    }
    proof {
        lemma_lex_le_skip(ings_view(a@), ings_view(b@), ing_order(), i as int);
    }
    a.len() <= b.len()
}

/// Comparison of two items in the item order.
pub fn item_le_exec(a: &Item, b: &Item) -> (r: bool)
    ensures
        r == item_le(a@, b@),
{
    if a.name != b.name {
        str_le_exec(a.name.as_str(), b.name.as_str())
    } else if a.description != b.description {
        str_le_exec(a.description.as_str(), b.description.as_str())
    } else {
        a.sink_points <= b.sink_points
    }
}

/// Comparison of two recipes in the recipe order.
pub fn recipe_le_exec(a: &Recipe, b: &Recipe) -> (r: bool)
    ensures
        r == recipe_le(a@, b@),
{
    if a.name != b.name {
        str_le_exec(a.name.as_str(), b.name.as_str())
    } else if !ings_eq_exec(&a.ingredients, &b.ingredients) {
        ings_le_exec(&a.ingredients, &b.ingredients)
    } else if !ings_eq_exec(&a.products, &b.products) {
        ings_le_exec(&a.products, &b.products)
    } else if a.building != b.building {
        str_le_exec(a.building.as_str(), b.building.as_str())
    } else {
        a.duration <= b.duration
    }
}

/// A copy of an item with the same view.
pub fn clone_item(a: &Item) -> (r: Item)
    ensures
        r@ == a@,
{
    let r = Item {
        name: a.name.clone(),
        description: a.description.clone(),
        sink_points: a.sink_points,
    };
    proof {
        assert(r@ =~= a@);
    }
    r
}

/// A copy of an ingredient with the same view.
pub fn clone_ingredient(a: &Ingredient) -> (r: Ingredient)
    ensures
        r@ == a@,
{
    let r = Ingredient { name: a.name.clone(), amount: a.amount };
    proof {
        assert(r@ =~= a@);
    }
    r
}

/// A copy of an ingredient list with the same view.
pub fn clone_ingredients(a: &Vec<Ingredient>) -> (r: Vec<Ingredient>)
    ensures
        ings_view(r@) == ings_view(a@),
{
    let mut r: Vec<Ingredient> = Vec::new();
    let mut i: usize = 0;
    while i < a.len()
        invariant
            i <= a@.len(),
            r@.len() == i,
            forall|j: int| 0 <= j < i ==> ings_view(r@)[j] == ings_view(a@)[j],
        decreases a@.len() - i,
    {
        r.push(clone_ingredient(&a[i]));
        i += 1;
    }
    proof {
        assert(ings_view(r@) =~= ings_view(a@));
    }
    r
}

/// A copy of a recipe with the same view.
pub fn clone_recipe(a: &Recipe) -> (r: Recipe)
    ensures
        r@ == a@,
{
    let r = Recipe {
        name: a.name.clone(),
        ingredients: clone_ingredients(&a.ingredients),
        products: clone_ingredients(&a.products),
        building: a.building.clone(),
        duration: a.duration,
    };
    proof {
        assert(r@ =~= a@);
    }
    r
}

} // verus!
