//! The engine's laws: properties of day reads and writes that hold for
//! every store, catalog and date, proved once and for all over the
//! mathematical model that the executable operations are specified by.

use vstd::prelude::*;

use crate::date::Date;
use crate::day_store::{spec_row_or_empty, spec_upsert, DayStore};
use crate::domain::{DayDb, MealType, MealV, MealWrite, RecipeV};
use crate::engine::{spec_assign, spec_cheat, spec_day_view, spec_resolve_slot};

verus! {

/// Every row of the store keeps each slot exclusive: never both a recipe
/// reference and a set cheat flag.
pub open spec fn rows_exclusive(m: Map<Date, DayDb>) -> bool {
    forall|d: Date| m.dom().contains(d) ==> (#[trigger] m[d]).wf()
}

/// Reading a date with no row yields a day with both slots unset; and a
/// read cannot create a row, since `get_day` only borrows the store.
pub proof fn lemma_get_day_no_row(m: Map<Date, DayDb>, cat: Seq<RecipeV>, date: Date)
    requires
        !m.dom().contains(date),
    ensures
        spec_day_view(m, cat, date).date == date,
        spec_day_view(m, cat, date).lunch is Unset,
        spec_day_view(m, cat, date).dinner is Unset,
{
}

/// Forcing a cheat on the lunch slot leaves the dinner slot's reading
/// unchanged, and the lunch slot then reads as a cheat meal.
pub proof fn lemma_cheat_lunch_preserves_dinner(m: Map<Date, DayDb>, cat: Seq<RecipeV>, date: Date)
    ensures
        spec_day_view(spec_cheat(m, date, MealType::Lunch), cat, date).lunch == MealV::Cheat,
        spec_day_view(spec_cheat(m, date, MealType::Lunch), cat, date).dinner == spec_day_view(
            m,
            cat,
            date,
        ).dinner,
{
}

/// Forcing a cheat on the dinner slot leaves the lunch slot's reading
/// unchanged, and the dinner slot then reads as a cheat meal.
pub proof fn lemma_cheat_dinner_preserves_lunch(m: Map<Date, DayDb>, cat: Seq<RecipeV>, date: Date)
    ensures
        spec_day_view(spec_cheat(m, date, MealType::Dinner), cat, date).dinner == MealV::Cheat,
        spec_day_view(spec_cheat(m, date, MealType::Dinner), cat, date).lunch == spec_day_view(
            m,
            cat,
            date,
        ).lunch,
{
}

/// Assigning a recipe to the dinner slot and then one to the lunch slot
/// of the same date leaves the dinner assignment of the first write
/// intact: the row still references it, and the dinner slot reads as it
/// did right after the first write.
pub proof fn lemma_assign_lunch_preserves_dinner(
    m: Map<Date, DayDb>,
    cat: Seq<RecipeV>,
    date: Date,
    lunch_id: u128,
    dinner_id: u128,
)
    ensures
        ({
            let after_dinner = spec_assign(m, date, None, Some(dinner_id));
            let after_both = spec_assign(after_dinner, date, Some(lunch_id), None);
            &&& after_both[date].dinner_id == Some(dinner_id)
            &&& !after_both[date].dinner_is_cheat
            &&& spec_day_view(after_both, cat, date).dinner == spec_day_view(
                after_dinner,
                cat,
                date,
            ).dinner
            &&& spec_day_view(after_both, cat, date).dinner == spec_resolve_slot(
                cat,
                Some(dinner_id),
                false,
            )
        }),
{
}

/// Forcing a cheat on both slots is idempotent: the second write leaves
/// the store exactly as the first one did, with both slots reading as
/// cheat meals and no recipe reference left in the row.
pub proof fn lemma_cheat_both_idempotent(m: Map<Date, DayDb>, cat: Seq<RecipeV>, date: Date)
    ensures
        spec_cheat(spec_cheat(m, date, MealType::Both), date, MealType::Both) == spec_cheat(
            m,
            date,
            MealType::Both,
        ),
        spec_day_view(spec_cheat(m, date, MealType::Both), cat, date).lunch == MealV::Cheat,
        spec_day_view(spec_cheat(m, date, MealType::Both), cat, date).dinner == MealV::Cheat,
        spec_cheat(m, date, MealType::Both)[date].lunch_id is None,
        spec_cheat(m, date, MealType::Both)[date].dinner_id is None,
{
    let once = spec_cheat(m, date, MealType::Both);
    let twice = spec_cheat(once, date, MealType::Both);
    assert(twice =~= once);
}

/// Slot exclusivity is an invariant of the upsert: starting from a store
/// whose rows all keep each slot exclusive, any upsert — whatever it
/// writes into whichever slots — leaves a store whose rows all do.
pub proof fn lemma_upsert_preserves_exclusive(
    m: Map<Date, DayDb>,
    date: Date,
    lunch: Option<MealWrite>,
    dinner: Option<MealWrite>,
)
    requires
        rows_exclusive(m),
    ensures
        rows_exclusive(spec_upsert(m, date, lunch, dinner)),
{
    let after = spec_upsert(m, date, lunch, dinner);
    assert forall|d: Date| after.dom().contains(d) implies (#[trigger] after[d]).wf() by {
        if d == date {
            assert(spec_row_or_empty(m, date).wf());
        } else {
            assert(after[d] == m[d]);
        }
    }
}

/// The executable store's well-formedness carries slot exclusivity to
/// every row of its map value.
pub proof fn lemma_wf_store_rows_exclusive(s: &DayStore)
    requires
        s.wf(),
    ensures
        rows_exclusive(s@),
{
    assert forall|d: Date| s@.dom().contains(d) implies (#[trigger] s@[d]).wf() by {
        crate::day_store::lemma_rows_map_dom(s.rows@, d);
        let i = choose|i: int| 0 <= i < s.rows@.len() && s.rows@[i].date == d;
        crate::day_store::lemma_rows_map_index(s.rows@, i);
    }
}

} // verus!
