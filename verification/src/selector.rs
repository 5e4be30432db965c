//! The weighted recipe selector: picks one recipe, optionally restricted
//! to quick recipes, biased inversely by how often each recipe appears in
//! recorded day history. A never-used recipe counts as frequency one half,
//! giving it a strong but finite boost.

use vstd::arithmetic::div_mod::lemma_div_is_ordered_by_denominator;
use vstd::prelude::*;

use crate::catalog::Catalog;
use crate::day_store::DayStore;
use crate::domain::{DayDb, Recipe, RecipeV};

verus! {

/// Relies on rand::random: a draw from the thread-local generator.
/// Nothing is promised of the value.
pub assume_specification<T>[ rand::random::<T> ]() -> (r: T)
    where
        rand::distributions::Standard: rand::distributions::Distribution<T>,
;

/// Whether the quick-only filter admits a recipe: quick recipes are
/// always eligible; the rest only when the filter is off.
pub open spec fn spec_is_candidate(r: RecipeV, quick_only: bool) -> bool {
    r.quick || !quick_only
}

/// The candidate pool of a draw: the admitted recipes, in catalog order.
pub open spec fn spec_candidates(cat: Seq<RecipeV>, quick_only: bool) -> Seq<RecipeV>
    decreases cat.len(),
{
    if cat.len() == 0 {
        Seq::empty()
    } else {
        let rest = spec_candidates(cat.drop_last(), quick_only);
        if spec_is_candidate(cat.last(), quick_only) {
            rest.push(cat.last())
        } else {
            rest
        }
    }
}

/// Every member of the candidate pool is admitted by the filter and
/// comes from the catalog.
pub proof fn lemma_candidates_sound(cat: Seq<RecipeV>, quick_only: bool, i: int)
    requires
        0 <= i < spec_candidates(cat, quick_only).len(),
    ensures
        spec_is_candidate(spec_candidates(cat, quick_only)[i], quick_only),
        cat.contains(spec_candidates(cat, quick_only)[i]),
    decreases cat.len(),
{
    let out = spec_candidates(cat, quick_only);
    let rest = spec_candidates(cat.drop_last(), quick_only);
    if i < rest.len() {
        lemma_candidates_sound(cat.drop_last(), quick_only, i);
        let j = choose|j: int| 0 <= j < cat.drop_last().len() && cat.drop_last()[j] == rest[i];
        assert(cat[j] == out[i]);
    } else {
        assert(out[i] == cat.last());
        assert(cat[cat.len() - 1] == out[i]);
    }
}

/// How many slots of one row reference the recipe.
pub open spec fn spec_slot_uses(row: DayDb, id: u128) -> int {
    (if row.lunch_id == Some(id) {
        1int
    } else {
        0int
    }) + (if row.dinner_id == Some(id) {
        1int
    } else {
        0int
    })
}

/// Historical usage frequency of a recipe: how many recorded day slots,
/// across all dates, reference its id.
pub open spec fn spec_usage(rows: Seq<DayDb>, id: u128) -> int
    decreases rows.len(),
{
    if rows.len() == 0 {
        0
    } else {
        spec_usage(rows.drop_last(), id) + spec_slot_uses(rows.last(), id)
    }
}

/// Fixed-point scale of the selection weights.
pub const WEIGHT_SCALE: u128 = 1000000;

/// Selection weight of a candidate with usage count `c`: proportional to
/// the inverse frequency `1/c`, where an unused candidate counts as
/// frequency one half (hence twice the scale); never below one, so every
/// candidate stays selectable.
pub open spec fn spec_weight(c: int) -> int {
    if c == 0 {
        2 * WEIGHT_SCALE as int
    } else if WEIGHT_SCALE as int / c < 1 {
        1
    } else {
        WEIGHT_SCALE as int / c
    }
}

/// Lower historical frequency never means a lower selection weight.
pub proof fn lemma_weight_antitone(c1: int, c2: int)
    requires
        0 <= c1 <= c2,
    ensures
        spec_weight(c1) >= spec_weight(c2),
{
    if c1 == 0 {
        if c2 > 0 {
            lemma_div_is_ordered_by_denominator(WEIGHT_SCALE as int, 1, c2);
        }
    } else {
        lemma_div_is_ordered_by_denominator(WEIGHT_SCALE as int, c1, c2);
    }
}

/// Every admitted recipe of the catalog appears in the candidate pool:
/// in particular a quick recipe is eligible whatever the filter says.
pub proof fn lemma_candidates_complete(cat: Seq<RecipeV>, quick_only: bool, i: int)
    requires
        0 <= i < cat.len(),
        spec_is_candidate(cat[i], quick_only),
    ensures
        spec_candidates(cat, quick_only).contains(cat[i]),
    decreases cat.len(),
{
    let out = spec_candidates(cat, quick_only);
    if i == cat.len() - 1 {
        assert(out[out.len() - 1] == cat[i]);
    } else {
        lemma_candidates_complete(cat.drop_last(), quick_only, i);
        let rest = spec_candidates(cat.drop_last(), quick_only);
        let j = choose|j: int| 0 <= j < rest.len() && rest[j] == cat.drop_last()[i];
        assert(cat.drop_last()[i] == cat[i]);
        assert(out[j] == cat[i]);
    }
}

/// With the quick-only filter off, the candidate pool is the whole
/// catalog, in order.
pub proof fn lemma_candidates_all(cat: Seq<RecipeV>)
    ensures
        spec_candidates(cat, false) =~= cat,
    decreases cat.len(),
{
    if cat.len() > 0 {
        lemma_candidates_all(cat.drop_last());
    }
}

/// Counts how often the recipe id appears across all recorded day slots.
pub fn usage_count(days: &DayStore, id: u128) -> (c: u128)
    ensures
        c == spec_usage(days.rows@, id),
{
    let rows = &days.rows;
    let n = rows.len();
    let mut c: u128 = 0;
    proof {
        assert(rows@.take(0) =~= Seq::<DayDb>::empty());
    }
    for i in 0..n
        invariant
            n == rows@.len(),
            c == spec_usage(rows@.take(i as int), id),
            c <= 2 * i,
    {
        proof {
            assert(rows@.take(i + 1).drop_last() =~= rows@.take(i as int));
            assert(rows@.take(i + 1).last() == rows@[i as int]);
        }
        let row = rows[i];
        if let Some(l) = row.lunch_id {
            if l == id {
                c += 1;
            }
        }
        if let Some(d) = row.dinner_id {
            if d == id {
                c += 1;
            }
        }
    }
    proof {
        assert(rows@.take(n as int) =~= rows@);
    }
    c
}

/// The selection weight of a candidate with usage count `c`.
pub fn weight_of(c: u128) -> (w: u128)
    ensures
        w == spec_weight(c as int),
        1 <= w <= 2000000,
{
    if c == 0 {
        2 * WEIGHT_SCALE
    } else {
        let w = WEIGHT_SCALE / c;
        if w < 1 {
            1
        } else {
            w
        }
    }
}

/// Sum of the first `i` weights.
pub open spec fn spec_prefix_sum(ws: Seq<u128>, i: int) -> int
    decreases i,
{
    if i <= 0 {
        0
    } else {
        spec_prefix_sum(ws, i - 1) + ws[i - 1]
    }
}

/// Sum of all weights: the length of the whole selection line.
pub open spec fn spec_total(ws: Seq<u128>) -> int {
    spec_prefix_sum(ws, ws.len() as int)
}

/// Prefix sums of nonnegative weights grow with the prefix.
pub proof fn lemma_prefix_sum_ordered(ws: Seq<u128>, i: int, j: int)
    requires
        0 <= i <= j <= ws.len(),
    ensures
        spec_prefix_sum(ws, i) <= spec_prefix_sum(ws, j),
    decreases j - i,
{
    if i < j {
        lemma_prefix_sum_ordered(ws, i, j - 1);
    }
}

/// The deterministic core of the weighted draw: lays the weights out as
/// adjacent intervals on `0..total` and returns the index of the interval
/// that `x` falls in.
pub fn pick_index(ws: &Vec<u128>, x: u128) -> (i: usize)
    requires
        x < spec_total(ws@),
        spec_total(ws@) <= u128::MAX,
    ensures
        i < ws@.len(),
        spec_prefix_sum(ws@, i as int) <= x < spec_prefix_sum(ws@, i as int + 1),
{
    let n = ws.len();
    let mut acc: u128 = 0;
    for i in 0..n
        invariant
            n == ws@.len(),
            acc == spec_prefix_sum(ws@, i as int),
            acc <= x,
            x < spec_total(ws@),
            spec_total(ws@) <= u128::MAX,
    {
        proof {
            lemma_prefix_sum_ordered(ws@, i + 1, ws@.len() as int);
        }
        let next = acc + ws[i];
        if x < next {
            return i;
        }
        acc = next;
    }
    proof {
        assert(false);
    }
    0
}

/// Draws one recipe: all recipes are candidates when `quick` is false,
/// only quick ones when it is true; the draw is weighted so that less
/// frequently used candidates are more likely. Returns `None` exactly
/// when the candidate pool is empty, and mutates nothing.
pub fn get_random_recipe(days: &DayStore, recipes: &Catalog, quick: bool) -> (r: Option<Recipe>)
    ensures
        r is Some <==> spec_candidates(recipes@, quick).len() > 0,
        r is Some ==> spec_candidates(recipes@, quick).contains(r->0@),
        r is Some ==> recipes@.contains(r->0@) && spec_is_candidate(r->0@, quick),
{
    let n = recipes.recipes.len();
    let mut cands: Vec<Recipe> = Vec::new();
    proof {
        assert(recipes@.take(0) =~= Seq::<RecipeV>::empty());
    }
    for i in 0..n
        invariant
            n == recipes@.len(),
            cands.deep_view() == spec_candidates(recipes@.take(i as int), quick),
    {
        let ghost prefix = recipes@.take(i as int);
        let ghost elem = recipes@[i as int];
        proof {
            assert(recipes@.take(i + 1) =~= prefix.push(elem));
        }
        let ghost pre = cands.deep_view();
        let rec = &recipes.recipes[i];
        proof {
            assert(rec@ == elem);
        }
        if rec.quick || !quick {
            cands.push(rec.clone());
            proof {
                assert(cands.deep_view() =~= pre.push(elem));
                assert(prefix.push(elem).drop_last() =~= prefix);
                assert(prefix.push(elem).last() == elem);
            }
        } else {
            proof {
                assert(prefix.push(elem).drop_last() =~= prefix);
                assert(prefix.push(elem).last() == elem);
            }
        }
    }
    proof {
        assert(recipes@.take(n as int) =~= recipes@);
    }
    if cands.len() == 0 {
        return None;
    }
    let m = cands.len();
    let mut ws: Vec<u128> = Vec::new();
    for j in 0..m
        invariant
            m == cands.deep_view().len(),
            m == cands@.len(),
            ws@.len() == j,
            forall|k: int| 0 <= k < j ==> 1 <= #[trigger] ws@[k] <= 2000000,
    {
        let c = usage_count(days, cands[j].id);
        ws.push(weight_of(c));
    }
    let mut total: u128 = 0;
    for j in 0..m
        invariant
            m == ws@.len(),
            m == cands.deep_view().len(),
            forall|k: int| 0 <= k < m ==> 1 <= #[trigger] ws@[k] <= 2000000,
            total == spec_prefix_sum(ws@, j as int),
            total as int <= (j as int) * 2000000,
    {
        total = total + ws[j];
    }
    proof {
        assert(spec_prefix_sum(ws@, 0) == 0);
        assert(spec_prefix_sum(ws@, 1) == ws@[0]);
        lemma_prefix_sum_ordered(ws@, 1, ws@.len() as int);
        assert(total >= 1);
    }
    let x_raw: u128 = rand::random();
    let x = x_raw % total;
    let i = pick_index(&ws, x);
    let picked = cands[i].clone();
    proof {
        assert(picked@ == cands.deep_view()[i as int]);
        assert(spec_candidates(recipes@, quick)[i as int] == picked@);
        lemma_candidates_sound(recipes@, quick, i as int);
        assert(spec_candidates(recipes@, quick).contains(picked@)) by {
            assert(spec_candidates(recipes@, quick)[i as int] == picked@);
        }
    }
    Some(picked)
}

} // verus!
