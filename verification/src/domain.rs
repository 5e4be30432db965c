//! Domain types: recipes, meal slots, day views, and the persisted day row.

use vstd::prelude::*;

use crate::date::Date;

verus! {

/// Payload of a recipe about to be created; the store assigns the id.
pub struct NewRecipe {
    pub name: String,
    pub quick: bool,
    pub body: String,
}

/// A recipe of the catalog. `id` is its immutable identity (a 128-bit
/// unique identifier); `quick` marks recipes that are fast to prepare.
pub struct Recipe {
    pub id: u128,
    pub name: String,
    pub quick: bool,
    pub body: String,
}

/// Mathematical value of a [`Recipe`].
#[verifier::ext_equal]
pub struct RecipeV {
    pub id: u128,
    pub name: Seq<char>,
    pub quick: bool,
    pub body: Seq<char>,
}

impl View for Recipe {
    type V = RecipeV;

    open spec fn view(&self) -> RecipeV {
        RecipeV { id: self.id, name: self.name@, quick: self.quick, body: self.body@ }
    }
}

impl DeepView for Recipe {
    type V = RecipeV;

    open spec fn deep_view(&self) -> RecipeV {
        self@
    }
}

impl Clone for Recipe {
    fn clone(&self) -> (r: Self)
        ensures
            r == *self,
    {
        Recipe {
            id: self.id,
            name: self.name.clone(),
            quick: self.quick,
            body: self.body.clone(),
        }
    }
}

/// The state of one meal slot, fully resolved for display.
pub enum Meal {
    Recipe(Recipe),
    Cheat,
    Unset,
}

/// Mathematical value of a [`Meal`].
#[verifier::ext_equal]
pub enum MealV {
    Recipe(RecipeV),
    Cheat,
    Unset,
}

impl View for Meal {
    type V = MealV;

    open spec fn view(&self) -> MealV {
        match self {
            Meal::Recipe(r) => MealV::Recipe(r@),
            Meal::Cheat => MealV::Cheat,
            Meal::Unset => MealV::Unset,
        }
    }
}

/// A calendar day with both slots resolved against the catalog.
pub struct Day {
    pub date: Date,
    pub lunch: Meal,
    pub dinner: Meal,
}

/// Mathematical value of a [`Day`].
#[verifier::ext_equal]
pub struct DayV {
    pub date: Date,
    pub lunch: MealV,
    pub dinner: MealV,
}

impl View for Day {
    type V = DayV;

    open spec fn view(&self) -> DayV {
        DayV { date: self.date, lunch: self.lunch@, dinner: self.dinner@ }
    }
}

/// Which slot(s) an operation targets.
#[derive(Clone, Copy, PartialEq, Eq, Structural, Debug)]
pub enum MealType {
    Lunch,
    Dinner,
    Both,
}

/// The persisted row of one day, as the day store keeps it: per slot a
/// nullable recipe reference and a cheat flag. [`DayDb::wf`] is the
/// mutual-exclusivity invariant every write path maintains.
#[derive(Clone, Copy, PartialEq, Eq, Structural, Debug)]
pub struct DayDb {
    pub date: Date,
    pub lunch_id: Option<u128>,
    pub dinner_id: Option<u128>,
    pub lunch_is_cheat: bool,
    pub dinner_is_cheat: bool,
}

impl DayDb {
    /// For each slot, at most one of "reference present" and "is cheat"
    /// holds: a slot is a recipe reference, a cheat marker, or unset.
    pub open spec fn wf(self) -> bool {
        &&& !(self.lunch_id is Some && self.lunch_is_cheat)
        &&& !(self.dinner_id is Some && self.dinner_is_cheat)
    }

    /// The row a pure read synthesizes for a date with no row yet.
    pub open spec fn spec_empty(date: Date) -> DayDb {
        DayDb {
            date,
            lunch_id: None,
            dinner_id: None,
            lunch_is_cheat: false,
            dinner_is_cheat: false,
        }
    }

    /// Builds the row of a date with both slots unset.
    pub fn empty(date: Date) -> (r: DayDb)
        ensures
            r == DayDb::spec_empty(date),
    {
        DayDb {
            date,
            lunch_id: None,
            dinner_id: None,
            lunch_is_cheat: false,
            dinner_is_cheat: false,
        }
    }
}

/// What an upsert writes into one targeted slot: a recipe reference
/// (clearing the cheat flag) or a cheat marker (clearing the reference).
#[derive(Clone, Copy, PartialEq, Eq, Structural, Debug)]
pub enum MealWrite {
    Assign(u128),
    Cheat,
}

/// Payload of a food item about to be created; the store assigns the id.
pub struct NewFood {
    pub name: String,
    pub best_before_date: Date,
}

/// A food item of the inventory, kept until its best-before date passes.
pub struct Food {
    pub id: i32,
    pub name: String,
    pub best_before_date: Date,
}

} // verus!
