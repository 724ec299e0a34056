use sf_planner::catalog::{Catalog, LoadError};
use sf_planner::dispatch::{dispatch, InputEvent, Key};
use sf_planner::model::{Ingredient, Item, Recipe};
use sf_planner::nav::{Command, Mode, NavigationState, Pane};
use sf_planner::resolver::{
    resolve, selection_mode, DetailView, ResolvedRow, RowResolution, SelectionMode,
};

fn item(name: &str, description: &str, sink_points: usize) -> Item {
    Item { name: name.to_string(), description: description.to_string(), sink_points }
}

fn ing(name: &str, amount: usize) -> Ingredient {
    Ingredient { name: name.to_string(), amount }
}

fn recipe(
    name: &str,
    ingredients: Vec<Ingredient>,
    products: Vec<Ingredient>,
    building: &str,
    duration: usize,
) -> Recipe {
    Recipe {
        name: name.to_string(),
        ingredients,
        products,
        building: building.to_string(),
        duration,
    }
}

fn iron_items() -> Vec<Item> {
    vec![
        item("Iron Plate", "A flat plate", 6),
        item("Screw", "A small screw", 2),
        item("Iron Bar", "A solid bar", 4),
        item("Iron Ingot", "A raw ingot", 2),
    ]
}

fn iron_recipes() -> Vec<Recipe> {
    vec![
        recipe(
            "Screw",
            vec![ing("Iron Rod", 1)],
            vec![ing("Screw", 4)],
            "Constructor",
            6,
        ),
        recipe(
            "Iron Plate",
            vec![ing("Iron Ingot", 3)],
            vec![ing("Iron Plate", 2)],
            "Constructor",
            6,
        ),
    ]
}

#[test]
fn load_sorts_items_alphabetically() {
    let catalog = Catalog::load(iron_items(), vec![]);
    assert_eq!(catalog.num_items(), 4);
    let names: Vec<&str> = (0..4).map(|i| catalog.item(i).name.as_str()).collect();
    assert_eq!(names, vec!["Iron Bar", "Iron Ingot", "Iron Plate", "Screw"]);
}

#[test]
fn load_sorts_recipes_by_name() {
    let catalog = Catalog::load(vec![], iron_recipes());
    assert_eq!(catalog.num_recipes(), 2);
    assert_eq!(catalog.recipe(0).name, "Iron Plate");
    assert_eq!(catalog.recipe(1).name, "Screw");
}

#[test]
fn loading_twice_yields_identical_catalogs() {
    let c1 = Catalog::load(iron_items(), iron_recipes());
    let c2 = Catalog::load(iron_items(), iron_recipes());
    assert_eq!(c1.num_items(), c2.num_items());
    assert_eq!(c1.num_recipes(), c2.num_recipes());
    for i in 0..c1.num_items() {
        assert_eq!(c1.item(i), c2.item(i));
        assert_eq!(c1.producing(i), c2.producing(i));
        assert_eq!(c1.consuming(i), c2.consuming(i));
    }
    for r in 0..c1.num_recipes() {
        assert_eq!(c1.recipe(r), c2.recipe(r));
    }
}

#[test]
fn sort_orders_equal_names_by_description() {
    let catalog = Catalog::load(
        vec![item("Bolt", "zinc plated", 1), item("Bolt", "bare steel", 1)],
        vec![],
    );
    assert_eq!(catalog.item(0).description, "bare steel");
    assert_eq!(catalog.item(1).description, "zinc plated");
}

#[test]
fn sort_keeps_duplicate_records() {
    let catalog = Catalog::load(vec![item("Bolt", "steel", 1), item("Bolt", "steel", 1)], vec![]);
    assert_eq!(catalog.num_items(), 2);
    assert_eq!(catalog.item(0), catalog.item(1));
}

#[test]
fn load_of_empty_sources_is_empty() {
    let catalog = Catalog::load(vec![], vec![]);
    assert_eq!(catalog.num_items(), 0);
    assert_eq!(catalog.num_recipes(), 0);
}

#[test]
fn lookup_indices_are_exact() {
    // Sorted item order: Bolt = 0, Rod = 1.
    // Sorted recipe order: MakeBolt = 0 (Rod -> Bolt), MakeRod = 1 (Ingot -> Rod).
    let catalog = Catalog::load(
        vec![item("Bolt", "a bolt", 1), item("Rod", "a rod", 1)],
        vec![
            recipe("MakeRod", vec![ing("Ingot", 1)], vec![ing("Rod", 1)], "Constructor", 4),
            recipe("MakeBolt", vec![ing("Rod", 1)], vec![ing("Bolt", 4)], "Constructor", 6),
        ],
    );
    assert_eq!(*catalog.producing(0), vec![0]);
    assert_eq!(*catalog.consuming(0), Vec::<usize>::new());
    assert_eq!(*catalog.producing(1), vec![1]);
    assert_eq!(*catalog.consuming(1), vec![0]);
}

#[test]
fn find_item_index_finds_first_match_only() {
    let catalog = Catalog::load(iron_items(), vec![]);
    assert_eq!(catalog.find_item_index(&"Screw".to_string()), Some(3));
    assert_eq!(catalog.find_item_index(&"Iron Bar".to_string()), Some(0));
    assert_eq!(catalog.find_item_index(&"Iron Rod".to_string()), None);
}

#[test]
fn initial_state_selects_first_item() {
    let n = NavigationState::initial(3);
    assert_eq!(n.focus, Pane::ItemPane);
    assert_eq!(n.item_selection, Some(0));
    assert_eq!(n.recipe_selection, None);
    assert_eq!(n.mode, Mode::Browsing);
}

#[test]
fn initial_state_of_empty_catalog_has_no_selection() {
    let mut n = NavigationState::initial(0);
    assert_eq!(n.item_selection, None);
    n.apply(Command::MoveDown, 0, 0);
    assert_eq!(n.item_selection, None);
    n.apply(Command::MoveUp, 0, 0);
    assert_eq!(n.item_selection, None);
}

#[test]
fn moves_clamp_at_both_ends() {
    let mut n = NavigationState::initial(3);
    n.apply(Command::MoveUp, 3, 0);
    assert_eq!(n.item_selection, Some(0));
    n.apply(Command::MoveDown, 3, 0);
    n.apply(Command::MoveDown, 3, 0);
    assert_eq!(n.item_selection, Some(2));
    n.apply(Command::MoveDown, 3, 0);
    assert_eq!(n.item_selection, Some(2));
}

#[test]
fn three_moves_down_from_start_reach_last_of_three() {
    let mut n = NavigationState::initial(3);
    n.apply(Command::MoveDown, 3, 0);
    n.apply(Command::MoveDown, 3, 0);
    n.apply(Command::MoveDown, 3, 0);
    assert_eq!(n.item_selection, Some(2));
}

#[test]
fn pane_selections_are_independent() {
    let mut n = NavigationState::initial(3);
    n.apply(Command::MoveDown, 3, 2);
    n.apply(Command::MoveDown, 3, 2);
    assert_eq!(n.item_selection, Some(2));
    n.apply(Command::SwitchPane, 3, 2);
    assert_eq!(n.focus, Pane::RecipePane);
    n.apply(Command::MoveDown, 3, 2);
    assert_eq!(n.recipe_selection, Some(0));
    n.apply(Command::MoveDown, 3, 2);
    assert_eq!(n.recipe_selection, Some(1));
    n.apply(Command::SwitchPane, 3, 2);
    assert_eq!(n.focus, Pane::ItemPane);
    assert_eq!(n.item_selection, Some(2));
    assert_eq!(n.recipe_selection, Some(1));
}

#[test]
fn drill_on_recipe_pane_and_back() {
    let mut n = NavigationState::initial(1);
    n.apply(Command::SwitchPane, 1, 2);
    n.apply(Command::MoveDown, 1, 2);
    n.apply(Command::MoveDown, 1, 2);
    n.apply(Command::Drill, 1, 2);
    assert_eq!(n.mode, Mode::RecipeDetail(1));
    n.apply(Command::Back, 1, 2);
    assert_eq!(n.mode, Mode::Browsing);
    assert_eq!(n.item_selection, Some(0));
    assert_eq!(n.recipe_selection, Some(1));
}

#[test]
fn drill_on_item_pane_records_item_index() {
    let mut n = NavigationState::initial(2);
    n.apply(Command::MoveDown, 2, 0);
    n.apply(Command::Drill, 2, 0);
    assert_eq!(n.mode, Mode::ItemDetail(1));
}

#[test]
fn drill_without_selection_changes_nothing() {
    let mut n = NavigationState::initial(1);
    n.apply(Command::SwitchPane, 1, 2);
    let before = n;
    n.apply(Command::Drill, 1, 2);
    assert_eq!(n, before);
}

#[test]
fn terminate_applies_no_transition() {
    let mut n = NavigationState::initial(3);
    n.apply(Command::MoveDown, 3, 2);
    let before = n;
    n.apply(Command::Terminate, 3, 2);
    assert_eq!(n, before);
}

#[test]
fn event_loop_stops_at_terminate() {
    // A loop in the style of the session driver: dispatch each event, stop at
    // the terminate command, apply everything else. Events after the quit key
    // must not be applied.
    let catalog = Catalog::load(iron_items(), iron_recipes());
    let mut n = NavigationState::initial(catalog.num_items());
    let events = vec![
        InputEvent { key: Key::Down, release: false },
        InputEvent { key: Key::Quit, release: false },
        InputEvent { key: Key::Down, release: false },
    ];
    let mut applied = 0;
    for ev in events {
        match dispatch(ev) {
            Some(Command::Terminate) => break,
            Some(cmd) => {
                n.apply(cmd, catalog.num_items(), catalog.num_recipes());
                applied += 1;
            }
            None => {}
        }
    }
    assert_eq!(applied, 1);
    assert_eq!(n.item_selection, Some(1));
}

#[test]
fn dispatch_maps_the_six_key_classes() {
    let press = |key| InputEvent { key, release: false };
    assert_eq!(dispatch(press(Key::Up)), Some(Command::MoveUp));
    assert_eq!(dispatch(press(Key::Down)), Some(Command::MoveDown));
    assert_eq!(dispatch(press(Key::Switch)), Some(Command::SwitchPane));
    assert_eq!(dispatch(press(Key::Confirm)), Some(Command::Drill));
    assert_eq!(dispatch(press(Key::Back)), Some(Command::Back));
    assert_eq!(dispatch(press(Key::Quit)), Some(Command::Terminate));
}

#[test]
fn dispatch_ignores_releases_and_unknown_keys() {
    assert_eq!(dispatch(InputEvent { key: Key::Down, release: true }), None);
    assert_eq!(dispatch(InputEvent { key: Key::Quit, release: true }), None);
    assert_eq!(dispatch(InputEvent { key: Key::Unknown, release: false }), None);
}

#[test]
fn resolve_is_pure() {
    let catalog = Catalog::load(iron_items(), iron_recipes());
    let mut n = NavigationState::initial(catalog.num_items());
    n.apply(Command::Drill, catalog.num_items(), catalog.num_recipes());
    let v1 = resolve(&catalog, &n);
    let v2 = resolve(&catalog, &n);
    assert_eq!(v1, v2);
}

#[test]
fn resolve_browsing_reports_selections() {
    let catalog = Catalog::load(iron_items(), iron_recipes());
    let mut n = NavigationState::initial(catalog.num_items());
    n.apply(Command::MoveDown, catalog.num_items(), catalog.num_recipes());
    let v = resolve(&catalog, &n);
    assert_eq!(v.item, Some(1));
    assert_eq!(v.recipe, None);
    assert_eq!(v.detail, DetailView::Browsing);
}

#[test]
fn resolve_item_detail_lists_cross_references() {
    // Sorted items: Iron Bar 0, Iron Ingot 1, Iron Plate 2, Screw 3.
    // Sorted recipes: Iron Plate 0 (Ingot -> Plate), Screw 1 (Rod -> Screw).
    let catalog = Catalog::load(iron_items(), iron_recipes());
    let n = NavigationState {
        focus: Pane::ItemPane,
        item_selection: Some(1),
        recipe_selection: None,
        mode: Mode::ItemDetail(1),
    };
    let v = resolve(&catalog, &n);
    match v.detail {
        DetailView::ItemDetail { producing, consuming } => {
            assert_eq!(producing, Vec::<usize>::new());
            assert_eq!(consuming, vec![0]);
        }
        other => panic!("expected an item detail, got {:?}", other),
    }
}

#[test]
fn dangling_reference_resolves_to_unresolved_marker() {
    // No item named "Iron Rod" is loaded; the screw recipe's ingredient row
    // must carry the marker while its product row resolves to the Screw item.
    let items = vec![item("Screw", "A small screw", 2)];
    let recipes = vec![recipe(
        "Screw",
        vec![ing("Iron Rod", 1)],
        vec![ing("Screw", 4)],
        "Constructor",
        6,
    )];
    let catalog = Catalog::load(items, recipes);
    let n = NavigationState {
        focus: Pane::RecipePane,
        item_selection: Some(0),
        recipe_selection: Some(0),
        mode: Mode::RecipeDetail(0),
    };
    let v = resolve(&catalog, &n);
    match v.detail {
        DetailView::RecipeDetail { ingredients, products } => {
            assert_eq!(
                ingredients,
                vec![ResolvedRow {
                    amount: 1,
                    resolution: RowResolution::Unresolved("Iron Rod".to_string()),
                }]
            );
            assert_eq!(
                products,
                vec![ResolvedRow { amount: 4, resolution: RowResolution::Resolved(0) }]
            );
        }
        other => panic!("expected a recipe detail, got {:?}", other),
    }
}

#[test]
fn selection_mode_names_the_focused_entry() {
    let catalog = Catalog::load(iron_items(), iron_recipes());
    let n = NavigationState::initial(catalog.num_items());
    assert_eq!(
        selection_mode(&catalog, &n),
        Some(SelectionMode::ItemSelect("Iron Bar".to_string()))
    );
    let mut m = n;
    m.apply(Command::SwitchPane, catalog.num_items(), catalog.num_recipes());
    assert_eq!(selection_mode(&catalog, &m), None);
    m.apply(Command::MoveDown, catalog.num_items(), catalog.num_recipes());
    m.apply(Command::MoveDown, catalog.num_items(), catalog.num_recipes());
    assert_eq!(
        selection_mode(&catalog, &m),
        Some(SelectionMode::RecipeSelect("Screw".to_string()))
    );
}

#[test]
fn load_error_messages_name_the_failure() {
    assert_eq!(LoadError::NotFound.message(), "data source not found");
    assert_eq!(LoadError::MalformedData.message(), "data source is malformed");
    assert_ne!(LoadError::NotFound, LoadError::MalformedData);
}

#[test]
fn recipe_sort_breaks_name_ties_by_secondary_fields() {
    // Same name, same ingredients and products, same building: the shorter
    // duration comes first in the canonical order.
    let catalog = Catalog::load(
        vec![],
        vec![
            recipe("Screw", vec![ing("Iron Rod", 1)], vec![ing("Screw", 4)], "Constructor", 8),
            recipe("Screw", vec![ing("Iron Rod", 1)], vec![ing("Screw", 4)], "Constructor", 6),
        ],
    );
    assert_eq!(catalog.recipe(0).duration, 6);
    assert_eq!(catalog.recipe(1).duration, 8);
}

#[test]
fn item_order_is_by_code_point() {
    // Upper-case letters precede lower-case ones in code-point order.
    let catalog = Catalog::load(
        vec![item("iron", "lower", 1), item("Iron", "upper", 1), item("Zinc", "metal", 1)],
        vec![],
    );
    assert_eq!(catalog.item(0).name, "Iron");
    assert_eq!(catalog.item(1).name, "Zinc");
    assert_eq!(catalog.item(2).name, "iron");
}
