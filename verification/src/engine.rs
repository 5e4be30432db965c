//! The meal assignment engine: reads a day fully resolved against the
//! recipe catalog, randomizes targeted slots through the weighted
//! selector, or forces cheat markers — every write an atomic upsert of
//! the one date's row, and every operation returning the resolved
//! post-state of that day.

use vstd::prelude::*;

use crate::catalog::{spec_find, Catalog};
use crate::date::Date;
use crate::day_store::{spec_row_or_empty, spec_upsert, DayStore};
use crate::domain::{Day, DayDb, DayV, Meal, MealType, MealV, MealWrite, Recipe, RecipeV};
use crate::selector::{get_random_recipe, spec_candidates};

verus! {

/// Marker for the handles the repository operations execute against; in
/// this library the in-memory stores themselves stand in for a database
/// connection.
pub trait PgExecutor {

}

impl PgExecutor for DayStore {

}

impl PgExecutor for Catalog {

}

/// How a stored slot reads: a resolvable reference shows its recipe, a
/// dangling reference (recipe since deleted) reads as unset, a cheat
/// flag without reference reads as cheat, and otherwise the slot is unset.
pub open spec fn spec_resolve_slot(cat: Seq<RecipeV>, id: Option<u128>, cheat: bool) -> MealV {
    match id {
        Some(i) => match spec_find(cat, i) {
            Some(r) => MealV::Recipe(r),
            None => MealV::Unset,
        },
        None => if cheat {
            MealV::Cheat
        } else {
            MealV::Unset
        },
    }
}

/// The fully resolved view of a date: both slots of its row (or of the
/// synthesized empty row, when the date has none) resolved against the
/// catalog.
pub open spec fn spec_day_view(days: Map<Date, DayDb>, cat: Seq<RecipeV>, date: Date) -> DayV {
    let row = spec_row_or_empty(days, date);
    DayV {
        date,
        lunch: spec_resolve_slot(cat, row.lunch_id, row.lunch_is_cheat),
        dinner: spec_resolve_slot(cat, row.dinner_id, row.dinner_is_cheat),
    }
}

/// Whether the operation targets the lunch slot.
pub open spec fn spec_targets_lunch(meal: MealType) -> bool {
    meal is Lunch || meal is Both
}

/// Whether the operation targets the dinner slot.
pub open spec fn spec_targets_dinner(meal: MealType) -> bool {
    meal is Dinner || meal is Both
}

/// The store after forcing cheat markers on the targeted slots of a date.
pub open spec fn spec_cheat(m: Map<Date, DayDb>, date: Date, meal: MealType) -> Map<
    Date,
    DayDb,
> {
    spec_upsert(
        m,
        date,
        if spec_targets_lunch(meal) {
            Some(MealWrite::Cheat)
        } else {
            None
        },
        if spec_targets_dinner(meal) {
            Some(MealWrite::Cheat)
        } else {
            None
        },
    )
}

/// An optional recipe assignment, as the slot write it stands for.
pub open spec fn spec_to_write(o: Option<u128>) -> Option<MealWrite> {
    match o {
        Some(id) => Some(MealWrite::Assign(id)),
        None => None,
    }
}

/// The store after assigning recipes to the slots that drew one; with
/// nothing drawn, nothing is written — not even an empty row.
pub open spec fn spec_assign(
    m: Map<Date, DayDb>,
    date: Date,
    lunch: Option<u128>,
    dinner: Option<u128>,
) -> Map<Date, DayDb> {
    if lunch is None && dinner is None {
        m
    } else {
        spec_upsert(m, date, spec_to_write(lunch), spec_to_write(dinner))
    }
}

/// Whether `id` is the identity of some member of the candidate pool.
pub open spec fn spec_candidate_id(cat: Seq<RecipeV>, quick_only: bool, id: u128) -> bool {
    exists|k: int|
        0 <= k < spec_candidates(cat, quick_only).len() && spec_candidates(cat, quick_only)[k].id
            == id
}

/// Resolves one stored slot against the catalog.
fn resolve_slot(recipes: &Catalog, id: Option<u128>, cheat: bool) -> (m: Meal)
    ensures
        m@ == spec_resolve_slot(recipes@, id, cheat),
{
    match id {
        Some(i) => match recipes.get_recipe(i) {
            Some(r) => Meal::Recipe(r),
            None => Meal::Unset,
        },
        None => if cheat {
            Meal::Cheat
        } else {
            Meal::Unset
        },
    }
}

/// Reads the day of `date`, resolving each referenced recipe against the
/// catalog. A date with no row reads as a day with both slots unset; a
/// pure read creates no row (the store is only borrowed).
pub fn get_day(days: &DayStore, recipes: &Catalog, date: Date) -> (day: Day)
    requires
        days.wf(),
    ensures
        day@ == spec_day_view(days@, recipes@, date),
{
    let row = match days.get_day_row(date) {
        Some(r) => r,
        None => DayDb::empty(date),
    };
    let lunch = resolve_slot(recipes, row.lunch_id, row.lunch_is_cheat);
    let dinner = resolve_slot(recipes, row.dinner_id, row.dinner_is_cheat);
    Day { date, lunch, dinner }
}

/// Unconditionally marks the targeted slot(s) of `date` as cheat meals,
/// clearing any recipe reference there, through one atomic upsert; the
/// untargeted slot keeps its stored value. Returns the resolved
/// post-write day.
pub fn cheat_meal(days: &mut DayStore, recipes: &Catalog, date: Date, meal: MealType) -> (day: Day)
    requires
        old(days).wf(),
    ensures
        final(days).wf(),
        final(days)@ == spec_cheat(old(days)@, date, meal),
        day@ == spec_day_view(final(days)@, recipes@, date),
{
    let lunch_w = match meal {
        MealType::Lunch | MealType::Both => Some(MealWrite::Cheat),
        MealType::Dinner => None,
    };
    let dinner_w = match meal {
        MealType::Dinner | MealType::Both => Some(MealWrite::Cheat),
        MealType::Lunch => None,
    };
    days.upsert(date, lunch_w, dinner_w);
    get_day(days, recipes, date)
}

/// Draws one recipe per targeted slot through the weighted selector
/// (restricted to quick recipes when `quick` holds) and assigns the
/// draws through one atomic upsert, clearing the cheat flags of the
/// written slots. A slot whose draw found no candidate is left unchanged
/// in the store — the draws fail exactly when the candidate pool is
/// empty, and then nothing is written at all. Returns the resolved
/// post-state of the day.
pub fn randomize_meal(
    days: &mut DayStore,
    recipes: &Catalog,
    date: Date,
    meal: MealType,
    quick: bool,
) -> (day: Day)
    requires
        old(days).wf(),
    ensures
        final(days).wf(),
        spec_candidates(recipes@, quick).len() == 0 ==> final(days)@ == old(days)@,
        exists|lw: Option<u128>, dw: Option<u128>|
            {
                &&& (lw is Some <==> spec_targets_lunch(meal) && spec_candidates(recipes@, quick).len() > 0)
                &&& (dw is Some <==> spec_targets_dinner(meal) && spec_candidates(recipes@, quick).len() > 0)
                &&& (lw is Some ==> spec_candidate_id(recipes@, quick, lw->0))
                &&& (dw is Some ==> spec_candidate_id(recipes@, quick, dw->0))
                &&& final(days)@ == spec_assign(old(days)@, date, lw, dw)
            },
        day@ == spec_day_view(final(days)@, recipes@, date),
{
    let lunch_draw: Option<Recipe> = match meal {
        MealType::Lunch | MealType::Both => get_random_recipe(days, recipes, quick),
        MealType::Dinner => None,
    };
    let dinner_draw: Option<Recipe> = match meal {
        MealType::Dinner | MealType::Both => get_random_recipe(days, recipes, quick),
        MealType::Lunch => None,
    };
    let ghost lw: Option<u128> = if lunch_draw is Some {
        Some(lunch_draw->0.id)
    } else {
        None
    };
    let ghost dw: Option<u128> = if dinner_draw is Some {
        Some(dinner_draw->0.id)
    } else {
        None
    };
    let lunch_w = match &lunch_draw {
        Some(r) => Some(MealWrite::Assign(r.id)),
        None => None,
    };
    let dinner_w = match &dinner_draw {
        Some(r) => Some(MealWrite::Assign(r.id)),
        None => None,
    };
    if lunch_w.is_some() || dinner_w.is_some() {
        days.upsert(date, lunch_w, dinner_w);
    }
    proof {
        if lw is Some {
            let rv = lunch_draw->0@;
            let k = choose|k: int|
                0 <= k < spec_candidates(recipes@, quick).len() && spec_candidates(
                    recipes@,
                    quick,
                )[k] == rv;
            assert(spec_candidates(recipes@, quick)[k].id == lw->0);
        }
        if dw is Some {
            let rv = dinner_draw->0@;
            let k = choose|k: int|
                0 <= k < spec_candidates(recipes@, quick).len() && spec_candidates(
                    recipes@,
                    quick,
                )[k] == rv;
            assert(spec_candidates(recipes@, quick)[k].id == dw->0);
        }
        assert(days@ == spec_assign(old(days)@, date, lw, dw));
    }
    get_day(days, recipes, date)
}

} // verus!
