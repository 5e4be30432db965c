use slice_n_dice::catalog::Catalog;
use slice_n_dice::day_store::DayStore;
use slice_n_dice::domain::{MealWrite, NewRecipe};
use slice_n_dice::selector::{get_random_recipe, pick_index, usage_count, weight_of, WEIGHT_SCALE};

fn new_recipe(name: &str, quick: bool) -> NewRecipe {
    NewRecipe { name: name.to_string(), quick, body: String::new() }
}

fn date(s: &str) -> slice_n_dice::date::Date {
    slice_n_dice::date::parse_iso_date(s).unwrap()
}

#[test]
fn quick_only_never_draws_a_slow_recipe() {
    let days = DayStore::new();
    let mut recipes = Catalog::new();
    recipes.create_recipe(1, new_recipe("Slow roast", false)).unwrap();
    recipes.create_recipe(2, new_recipe("Sandwich", true)).unwrap();
    recipes.create_recipe(3, new_recipe("Stew", false)).unwrap();

    for _ in 0..200 {
        let picked = get_random_recipe(&days, &recipes, true).unwrap();
        assert!(picked.quick);
    }
}

#[test]
fn quick_recipes_stay_eligible_without_the_filter() {
    let days = DayStore::new();
    let mut recipes = Catalog::new();
    recipes.create_recipe(2, new_recipe("Sandwich", true)).unwrap();

    let picked = get_random_recipe(&days, &recipes, false).unwrap();
    assert_eq!(picked.id, 2);
}

#[test]
fn empty_candidate_pool_returns_none() {
    let days = DayStore::new();
    let recipes = Catalog::new();
    assert!(get_random_recipe(&days, &recipes, false).is_none());
    assert!(get_random_recipe(&days, &recipes, true).is_none());

    let mut slow_only = Catalog::new();
    slow_only.create_recipe(1, new_recipe("Slow roast", false)).unwrap();
    assert!(get_random_recipe(&days, &slow_only, true).is_none());
    assert!(get_random_recipe(&days, &slow_only, false).is_some());
}

#[test]
fn unused_recipes_are_drawn_more_often_than_worn_ones() {
    let mut days = DayStore::new();
    let mut recipes = Catalog::new();
    let a = recipes.create_recipe(1, new_recipe("A", false)).unwrap();
    let b = recipes.create_recipe(2, new_recipe("B", false)).unwrap();

    // A appears in ten historical day slots; B in none.
    let dates = [
        "2024-01-01", "2024-01-02", "2024-01-03", "2024-01-04", "2024-01-05",
    ];
    for s in dates {
        days.upsert(date(s), Some(MealWrite::Assign(a.id)), Some(MealWrite::Assign(a.id)));
    }
    assert_eq!(usage_count(&days, a.id), 10);
    assert_eq!(usage_count(&days, b.id), 0);

    let mut picked_a = 0u32;
    let mut picked_b = 0u32;
    for _ in 0..1000 {
        let picked = get_random_recipe(&days, &recipes, false).unwrap();
        if picked.id == a.id {
            picked_a += 1;
        } else {
            assert_eq!(picked.id, b.id);
            picked_b += 1;
        }
    }
    assert!(picked_b > picked_a);
}

#[test]
fn weights_follow_inverse_frequency() {
    assert_eq!(WEIGHT_SCALE, 1_000_000);
    assert_eq!(weight_of(0), 2_000_000);
    assert_eq!(weight_of(1), 1_000_000);
    assert_eq!(weight_of(3), 333_333);
    assert_eq!(weight_of(10), 100_000);
    // Far past the scale the weight floors at one: still selectable.
    assert_eq!(weight_of(2_000_000), 1);
    assert_eq!(weight_of(u128::MAX), 1);
}

#[test]
fn pick_index_finds_the_weighted_interval() {
    let ws: Vec<u128> = vec![2, 3, 5];
    assert_eq!(pick_index(&ws, 0), 0);
    assert_eq!(pick_index(&ws, 1), 0);
    assert_eq!(pick_index(&ws, 2), 1);
    assert_eq!(pick_index(&ws, 4), 1);
    assert_eq!(pick_index(&ws, 5), 2);
    assert_eq!(pick_index(&ws, 9), 2);
}

#[test]
fn usage_counts_both_slots_across_dates() {
    let mut days = DayStore::new();
    days.upsert(date("2024-02-01"), Some(MealWrite::Assign(8)), Some(MealWrite::Assign(9)));
    days.upsert(date("2024-02-02"), Some(MealWrite::Assign(9)), None);
    days.upsert(date("2024-02-03"), Some(MealWrite::Cheat), Some(MealWrite::Assign(9)));

    assert_eq!(usage_count(&days, 8), 1);
    assert_eq!(usage_count(&days, 9), 3);
    assert_eq!(usage_count(&days, 10), 0);
}
