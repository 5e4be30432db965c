use slice_n_dice::catalog::Catalog;
use slice_n_dice::date::Date;
use slice_n_dice::day_store::DayStore;
use slice_n_dice::domain::{Meal, MealType, MealWrite, NewRecipe};
use slice_n_dice::engine::{cheat_meal, get_day, randomize_meal};

fn d(s: &str) -> Date {
    slice_n_dice::date::parse_iso_date(s).unwrap()
}

fn new_recipe(name: &str, quick: bool) -> NewRecipe {
    NewRecipe { name: name.to_string(), quick, body: String::new() }
}

#[test]
fn get_day_without_row_reads_unset_and_writes_nothing() {
    let days = DayStore::new();
    let recipes = Catalog::new();
    let date = d("2024-03-01");

    let day = get_day(&days, &recipes, date);

    assert_eq!(day.date, date);
    assert!(matches!(day.lunch, Meal::Unset));
    assert!(matches!(day.dinner, Meal::Unset));
    assert_eq!(days.rows.len(), 0);
}

#[test]
fn cheat_lunch_leaves_dinner_as_it_was() {
    let mut days = DayStore::new();
    let mut recipes = Catalog::new();
    let date = d("2024-03-02");
    let dinner = recipes.create_recipe(7, new_recipe("Stew", false)).unwrap();
    days.upsert(date, None, Some(MealWrite::Assign(dinner.id)));

    let day = cheat_meal(&mut days, &recipes, date, MealType::Lunch);

    assert!(matches!(day.lunch, Meal::Cheat));
    match &day.dinner {
        Meal::Recipe(r) => assert_eq!(r.id, dinner.id),
        _ => panic!("dinner changed by a lunch write"),
    }
}

#[test]
fn randomize_lunch_keeps_the_dinner_assignment() {
    let mut days = DayStore::new();
    let mut recipes = Catalog::new();
    recipes.create_recipe(1, new_recipe("Soup", false)).unwrap();
    recipes.create_recipe(2, new_recipe("Salad", true)).unwrap();
    let date = d("2024-03-03");

    randomize_meal(&mut days, &recipes, date, MealType::Dinner, false);
    let dinner_after_first = days.rows[0].dinner_id;
    assert!(dinner_after_first.is_some());

    randomize_meal(&mut days, &recipes, date, MealType::Lunch, false);

    assert_eq!(days.rows.len(), 1);
    assert_eq!(days.rows[0].dinner_id, dinner_after_first);
    assert!(days.rows[0].lunch_id.is_some());
    assert!(!days.rows[0].lunch_is_cheat);
    assert!(!days.rows[0].dinner_is_cheat);
}

#[test]
fn cheat_both_twice_reads_the_same_both_times() {
    let mut days = DayStore::new();
    let recipes = Catalog::new();
    let date = d("2024-03-04");

    let first = cheat_meal(&mut days, &recipes, date, MealType::Both);
    let rows_after_first = days.rows.clone();
    let second = cheat_meal(&mut days, &recipes, date, MealType::Both);

    assert_eq!(days.rows, rows_after_first);
    assert!(matches!(first.lunch, Meal::Cheat));
    assert!(matches!(first.dinner, Meal::Cheat));
    assert!(matches!(second.lunch, Meal::Cheat));
    assert!(matches!(second.dinner, Meal::Cheat));
    assert_eq!(days.rows[0].lunch_id, None);
    assert_eq!(days.rows[0].dinner_id, None);
}

#[test]
fn no_row_ever_holds_both_reference_and_cheat() {
    let mut days = DayStore::new();
    let mut recipes = Catalog::new();
    recipes.create_recipe(1, new_recipe("Soup", false)).unwrap();
    recipes.create_recipe(2, new_recipe("Salad", true)).unwrap();
    let dates = ["2024-05-01", "2024-05-02", "2024-05-03"];

    for (i, ds) in dates.iter().enumerate() {
        let date = d(ds);
        randomize_meal(&mut days, &recipes, date, MealType::Both, false);
        cheat_meal(&mut days, &recipes, date, MealType::Lunch);
        if i % 2 == 0 {
            randomize_meal(&mut days, &recipes, date, MealType::Lunch, true);
            cheat_meal(&mut days, &recipes, date, MealType::Dinner);
        }
    }

    for row in &days.rows {
        assert!(!(row.lunch_id.is_some() && row.lunch_is_cheat));
        assert!(!(row.dinner_id.is_some() && row.dinner_is_cheat));
    }
}

#[test]
fn randomize_with_empty_catalog_changes_nothing() {
    let mut days = DayStore::new();
    let recipes = Catalog::new();
    let date = d("2024-03-01");
    let a_id: u128 = 41;
    days.upsert(date, Some(MealWrite::Assign(a_id)), None);

    let day = randomize_meal(&mut days, &recipes, date, MealType::Lunch, false);

    assert_eq!(days.rows.len(), 1);
    assert_eq!(days.rows[0].lunch_id, Some(a_id));
    assert!(!days.rows[0].lunch_is_cheat);
    // The reference survives but no longer resolves against the empty
    // catalog, so the view reads unset.
    assert!(matches!(day.lunch, Meal::Unset));
}

#[test]
fn cheat_dinner_on_fresh_date_leaves_lunch_unset() {
    let mut days = DayStore::new();
    let recipes = Catalog::new();
    let date = d("2024-03-01");

    cheat_meal(&mut days, &recipes, date, MealType::Dinner);
    let day = get_day(&days, &recipes, date);

    assert!(matches!(day.lunch, Meal::Unset));
    assert!(matches!(day.dinner, Meal::Cheat));
}

#[test]
fn deleting_a_recipe_makes_its_slot_read_unset() {
    let mut days = DayStore::new();
    let mut recipes = Catalog::new();
    let date = d("2024-03-05");
    let r = recipes.create_recipe(9, new_recipe("Pie", false)).unwrap();
    days.upsert(date, Some(MealWrite::Assign(r.id)), None);

    recipes.delete_recipe(r.id);
    let day = get_day(&days, &recipes, date);

    assert!(matches!(day.lunch, Meal::Unset));
    assert_eq!(days.rows[0].lunch_id, Some(r.id));
}

#[test]
fn catalog_rejects_duplicate_ids_and_updates_in_place() {
    let mut recipes = Catalog::new();
    let created = recipes.create_recipe(5, new_recipe("Toast", false)).unwrap();
    assert_eq!(created.id, 5);
    assert!(recipes.create_recipe(5, new_recipe("Other", true)).is_none());
    assert_eq!(recipes.len(), 1);

    let updated = recipes
        .update_recipe(slice_n_dice::domain::Recipe {
            id: 5,
            name: "Toast deluxe".to_string(),
            quick: true,
            body: String::new(),
        })
        .unwrap();
    assert_eq!(updated.name, "Toast deluxe");
    let found = recipes.get_recipe(5).unwrap();
    assert_eq!(found.name, "Toast deluxe");
    assert!(found.quick);

    assert!(recipes
        .update_recipe(slice_n_dice::domain::Recipe {
            id: 6,
            name: String::new(),
            quick: false,
            body: String::new(),
        })
        .is_none());

    recipes.delete_recipe(5);
    assert!(recipes.get_recipe(5).is_none());
    assert_eq!(recipes.len(), 0);
    recipes.delete_recipe(5);
    assert_eq!(recipes.len(), 0);
}

#[test]
fn randomize_both_fills_both_slots() {
    let mut days = DayStore::new();
    let mut recipes = Catalog::new();
    recipes.create_recipe(1, new_recipe("Soup", false)).unwrap();
    let date = d("2024-03-06");

    let day = randomize_meal(&mut days, &recipes, date, MealType::Both, false);

    assert!(matches!(day.lunch, Meal::Recipe(_)));
    assert!(matches!(day.dinner, Meal::Recipe(_)));
    assert_eq!(days.rows[0].lunch_id, Some(1));
    assert_eq!(days.rows[0].dinner_id, Some(1));
}
