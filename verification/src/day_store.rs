//! The day record store: one row per calendar date, written only through
//! an insert-or-update ("upsert") keyed by the date. Its mathematical
//! value is the map from dates to rows.

use vstd::prelude::*;

use crate::date::Date;
use crate::domain::{DayDb, MealWrite};

verus! {

/// All rows carry distinct dates.
pub open spec fn unique_dates(s: Seq<DayDb>) -> bool {
    forall|i: int, j: int| 0 <= i < j < s.len() ==> s[i].date != s[j].date
}

/// The map a sequence of rows stands for; a later row with the same date
/// would win, but well-formed stores have unique dates.
pub open spec fn rows_map(s: Seq<DayDb>) -> Map<Date, DayDb>
    decreases s.len(),
{
    if s.len() == 0 {
        Map::empty()
    } else {
        rows_map(s.drop_last()).insert(s.last().date, s.last())
    }
}

/// One record per date, each row slot-exclusive.
pub struct DayStore {
    pub rows: Vec<DayDb>,
}

impl View for DayStore {
    type V = Map<Date, DayDb>;

    open spec fn view(&self) -> Map<Date, DayDb> {
        rows_map(self.rows@)
    }
}

/// The date of a row is in the map's domain exactly when some row holds it.
pub proof fn lemma_rows_map_dom(s: Seq<DayDb>, d: Date)
    ensures
        rows_map(s).dom().contains(d) <==> exists|i: int| 0 <= i < s.len() && s[i].date == d,
    decreases s.len(),
{
    if s.len() > 0 {
        lemma_rows_map_dom(s.drop_last(), d);
        if s.last().date == d {
            assert(s[s.len() - 1].date == d);
        } else if rows_map(s).dom().contains(d) {
            let i = choose|i: int| 0 <= i < s.drop_last().len() && s.drop_last()[i].date == d;
            assert(s[i].date == d);
        } else if exists|i: int| 0 <= i < s.len() && s[i].date == d {
            let i = choose|i: int| 0 <= i < s.len() && s[i].date == d;
            assert(s.drop_last()[i].date == d);
        }
    }
}

/// With unique dates, the map sends each row's date to that row.
pub proof fn lemma_rows_map_index(s: Seq<DayDb>, i: int)
    requires
        unique_dates(s),
        0 <= i < s.len(),
    ensures
        rows_map(s).dom().contains(s[i].date),
        rows_map(s)[s[i].date] == s[i],
    decreases s.len(),
{
    if i < s.len() - 1 {
        assert(unique_dates(s.drop_last()));
        lemma_rows_map_index(s.drop_last(), i);
        assert(s.drop_last()[i] == s[i]);
        assert(s[i].date != s.last().date);
    }
}

/// Replacing the row of a date in place is, at the map level, an insert.
pub proof fn lemma_rows_map_update(s: Seq<DayDb>, i: int, r: DayDb)
    requires
        unique_dates(s),
        0 <= i < s.len(),
        r.date == s[i].date,
    ensures
        rows_map(s.update(i, r)) == rows_map(s).insert(r.date, r),
    decreases s.len(),
{
    let s2 = s.update(i, r);
    if i == s.len() - 1 {
        assert(s2.drop_last() =~= s.drop_last());
        assert(rows_map(s2) == rows_map(s.drop_last()).insert(r.date, r));
        assert(rows_map(s.drop_last()).insert(s.last().date, s.last()).insert(r.date, r)
            =~= rows_map(s.drop_last()).insert(r.date, r));
    } else {
        assert(unique_dates(s.drop_last()));
        assert(s.drop_last()[i] == s[i]);
        lemma_rows_map_update(s.drop_last(), i, r);
        assert(s2.drop_last() =~= s.drop_last().update(i, r));
        assert(s2.last() == s.last());
        assert(r.date != s.last().date);
        assert(rows_map(s.drop_last()).insert(r.date, r).insert(s.last().date, s.last())
            =~= rows_map(s.drop_last()).insert(s.last().date, s.last()).insert(r.date, r));
    }
}

/// Appending a row for a fresh date is, at the map level, an insert.
pub proof fn lemma_rows_map_push(s: Seq<DayDb>, r: DayDb)
    ensures
        rows_map(s.push(r)) == rows_map(s).insert(r.date, r),
{
    assert(s.push(r).drop_last() =~= s);
    assert(s.push(r).last() == r);
}

/// What an upsert makes of one slot's two fields.
pub open spec fn spec_apply_write(id: Option<u128>, cheat: bool, w: Option<MealWrite>) -> (
    Option<u128>,
    bool,
) {
    match w {
        None => (id, cheat),
        Some(MealWrite::Assign(rid)) => (Some(rid), false),
        Some(MealWrite::Cheat) => (None, true),
    }
}

/// The row an upsert leaves for its date: each targeted slot is written
/// whole (reference and cheat flag together); an untargeted slot is kept.
pub open spec fn spec_upsert_row(row: DayDb, lunch: Option<MealWrite>, dinner: Option<
    MealWrite,
>) -> DayDb {
    DayDb {
        date: row.date,
        lunch_id: spec_apply_write(row.lunch_id, row.lunch_is_cheat, lunch).0,
        lunch_is_cheat: spec_apply_write(row.lunch_id, row.lunch_is_cheat, lunch).1,
        dinner_id: spec_apply_write(row.dinner_id, row.dinner_is_cheat, dinner).0,
        dinner_is_cheat: spec_apply_write(row.dinner_id, row.dinner_is_cheat, dinner).1,
    }
}

/// The row an upsert starts from: the present row, else a fresh empty one.
pub open spec fn spec_row_or_empty(m: Map<Date, DayDb>, date: Date) -> DayDb {
    if m.dom().contains(date) {
        m[date]
    } else {
        DayDb::spec_empty(date)
    }
}

/// The whole store after an upsert: exactly the one date's row changes.
pub open spec fn spec_upsert(
    m: Map<Date, DayDb>,
    date: Date,
    lunch: Option<MealWrite>,
    dinner: Option<MealWrite>,
) -> Map<Date, DayDb> {
    m.insert(date, spec_upsert_row(spec_row_or_empty(m, date), lunch, dinner))
}

impl DayStore {
    /// All rows slot-exclusive, one row per date.
    pub open spec fn wf(&self) -> bool {
        &&& unique_dates(self.rows@)
        &&& forall|i: int| 0 <= i < self.rows@.len() ==> (#[trigger] self.rows@[i]).wf()
    }

    /// An empty store: no date has a row.
    pub fn new() -> (s: DayStore)
        ensures
            s.wf(),
            s@ == Map::<Date, DayDb>::empty(),
    {
        DayStore { rows: Vec::new() }
    }

    /// Index of the row of `date`, if one exists.
    fn find_index(&self, date: Date) -> (r: Option<usize>)
        ensures
            match r {
                Some(i) => i < self.rows@.len() && self.rows@[i as int].date == date,
                None => forall|i: int| 0 <= i < self.rows@.len() ==> self.rows@[i].date != date,
            },
    {
        let n = self.rows.len();
        for i in 0..n
            invariant
                n == self.rows@.len(),
                forall|j: int| 0 <= j < i ==> self.rows@[j].date != date,
        {
            if self.rows[i].date == date {
                return Some(i);
            }
        }
        None
    }

    /// Reads the row of `date` if present. A read writes nothing: a date
    /// with no row simply yields `None`.
    pub fn get_day_row(&self, date: Date) -> (r: Option<DayDb>)
        requires
            self.wf(),
        ensures
            r == if self@.dom().contains(date) {
                Some(self@[date])
            } else {
                None::<DayDb>
            },
    {
        proof {
            lemma_rows_map_dom(self.rows@, date);
        }
        match self.find_index(date) {
            Some(i) => {
                proof {
                    lemma_rows_map_index(self.rows@, i as int);
                }
                Some(self.rows[i])
            },
            None => None,
        }
    }

    /// The atomic insert-or-update of one date's row: inserts a fresh row
    /// when the date has none, else updates it in place, writing exactly
    /// the targeted slots and keeping the other slot's fields. Returns the
    /// post-write row. Writing a slot clears its other field, so
    /// slot exclusivity is preserved.
    pub fn upsert(&mut self, date: Date, lunch: Option<MealWrite>, dinner: Option<MealWrite>) -> (
        row: DayDb)
        requires
            old(self).wf(),
        ensures
            final(self).wf(),
            final(self)@ == spec_upsert(old(self)@, date, lunch, dinner),
            final(self)@.dom().contains(date) && row == final(self)@[date],
    {
        proof {
            lemma_rows_map_dom(self.rows@, date);
        }
        match self.find_index(date) {
            Some(i) => {
                proof {
                    lemma_rows_map_index(self.rows@, i as int);
                }
                let base = self.rows[i];
                let new_row = DayDb {
                    date: base.date,
                    lunch_id: apply_write(base.lunch_id, base.lunch_is_cheat, lunch).0,
                    lunch_is_cheat: apply_write(base.lunch_id, base.lunch_is_cheat, lunch).1,
                    dinner_id: apply_write(base.dinner_id, base.dinner_is_cheat, dinner).0,
                    dinner_is_cheat: apply_write(base.dinner_id, base.dinner_is_cheat, dinner).1,
                };
                self.rows.set(i, new_row);
                proof {
                    lemma_rows_map_update(old(self).rows@, i as int, new_row);
                    assert(unique_dates(self.rows@));
                }
                new_row
            },
            None => {
                let new_row = DayDb {
                    date,
                    lunch_id: apply_write(None, false, lunch).0,
                    lunch_is_cheat: apply_write(None, false, lunch).1,
                    dinner_id: apply_write(None, false, dinner).0,
                    dinner_is_cheat: apply_write(None, false, dinner).1,
                };
                self.rows.push(new_row);
                proof {
                    lemma_rows_map_push(old(self).rows@, new_row);
                    assert(unique_dates(self.rows@));
                }
                new_row
            },
        }
    }
}

/// Writes one slot's pair of fields as [`spec_apply_write`] says.
fn apply_write(id: Option<u128>, cheat: bool, w: Option<MealWrite>) -> (r: (Option<u128>, bool))
    ensures
        r == spec_apply_write(id, cheat, w),
{
    match w {
        None => (id, cheat),
        Some(MealWrite::Assign(rid)) => (Some(rid), false),
        Some(MealWrite::Cheat) => (None, true),
    }
}

} // verus!
