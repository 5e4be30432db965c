//! The recipe catalog: a store of recipes with unique identities.
//! Deleting a recipe that a day still references leaves that reference
//! dangling; reads resolve a dangling reference to an unset slot.

use vstd::prelude::*;

use crate::domain::{NewRecipe, Recipe, RecipeV};

verus! {

/// All recipes carry distinct ids.
pub open spec fn unique_ids(s: Seq<RecipeV>) -> bool {
    forall|i: int, j: int| 0 <= i < j < s.len() ==> s[i].id != s[j].id
}

/// The first recipe of `s` with identity `id`, if any.
pub open spec fn spec_find(s: Seq<RecipeV>, id: u128) -> Option<RecipeV>
    decreases s.len(),
{
    if s.len() == 0 {
        None
    } else if s[0].id == id {
        Some(s[0])
    } else {
        spec_find(s.drop_first(), id)
    }
}

/// A lookup finds a recipe exactly when some member carries the id.
pub proof fn lemma_spec_find_some(s: Seq<RecipeV>, id: u128)
    ensures
        spec_find(s, id) is Some <==> exists|i: int| 0 <= i < s.len() && s[i].id == id,
    decreases s.len(),
{
    if s.len() > 0 && s[0].id != id {
        lemma_spec_find_some(s.drop_first(), id);
        if spec_find(s, id) is Some {
            let i = choose|i: int| 0 <= i < s.drop_first().len() && s.drop_first()[i].id == id;
            assert(s[i + 1].id == id);
        } else if exists|i: int| 0 <= i < s.len() && s[i].id == id {
            let i = choose|i: int| 0 <= i < s.len() && s[i].id == id;
            assert(s.drop_first()[i - 1].id == id);
        }
    }
}

/// The persistent catalog of recipes.
pub struct Catalog {
    pub recipes: Vec<Recipe>,
}

impl View for Catalog {
    type V = Seq<RecipeV>;

    open spec fn view(&self) -> Seq<RecipeV> {
        self.recipes.deep_view()
    }
}

impl Catalog {
    /// Ids are unique across the catalog.
    pub open spec fn wf(&self) -> bool {
        unique_ids(self@)
    }

    /// An empty catalog.
    pub fn new() -> (c: Catalog)
        ensures
            c.wf(),
            c@ == Seq::<RecipeV>::empty(),
    {
        let c = Catalog { recipes: Vec::new() };
        proof {
            assert(c@ =~= Seq::<RecipeV>::empty());
        }
        c
    }

    /// Index of the recipe with identity `id`, if any.
    fn find_index(&self, id: u128) -> (r: Option<usize>)
        ensures
            match r {
                Some(i) => i < self@.len() && self@[i as int].id == id && spec_find(self@, id)
                    == Some(self@[i as int]),
                None => spec_find(self@, id) is None,
            },
    {
        let n = self.recipes.len();
        assert(self@.len() == n);
        proof {
            assert(self@.skip(0) =~= self@);
        }
        for i in 0..n
            invariant
                n == self@.len(),
                self@ =~= self.recipes.deep_view(),
                spec_find(self@, id) == spec_find(self@.skip(i as int), id),
                forall|j: int| 0 <= j < i ==> self@[j].id != id,
        {
            assert(self@.skip(i as int)[0] == self@[i as int]);
            if self.recipes[i].id == id {
                return Some(i);
            }
            proof {
                assert(self@.skip(i as int).drop_first() =~= self@.skip(i + 1));
            }
        }
        proof {
            assert(self@.skip(n as int) =~= Seq::<RecipeV>::empty());
        }
        None
    }

    /// Looks a recipe up by id; `None` when the catalog has no such
    /// recipe (for instance after a deletion left a reference dangling).
    pub fn get_recipe(&self, id: u128) -> (r: Option<Recipe>)
        ensures
            match r {
                Some(rec) => spec_find(self@, id) == Some(rec@),
                None => spec_find(self@, id) is None,
            },
    {
        match self.find_index(id) {
            Some(i) => Some(self.recipes[i].clone()),
            None => None,
        }
    }

    /// Adds a recipe under a caller-supplied fresh identity. Returns the
    /// created recipe, or `None` when the identity is already taken
    /// (the store's uniqueness constraint rejects the insert).
    pub fn create_recipe(&mut self, id: u128, new_recipe: NewRecipe) -> (r: Option<Recipe>)
        requires
            old(self).wf(),
        ensures
            final(self).wf(),
            r is Some <==> spec_find(old(self)@, id) is None,
            r is Some ==> {
                &&& r->0@ == (RecipeV {
                    id,
                    name: new_recipe.name@,
                    quick: new_recipe.quick,
                    body: new_recipe.body@,
                })
                &&& final(self)@ == old(self)@.push(r->0@)
            },
            r is None ==> final(self)@ == old(self)@,
    {
        match self.find_index(id) {
            Some(_) => None,
            None => {
                let created = Recipe {
                    id,
                    name: new_recipe.name,
                    quick: new_recipe.quick,
                    body: new_recipe.body,
                };
                let out = created.clone();
                proof {
                    lemma_spec_find_some(old(self)@, id);
                }
                self.recipes.push(created);
                proof {
                    assert(self@ =~= old(self)@.push(out@));
                }
                Some(out)
            },
        }
    }

    /// Replaces the stored recipe that carries `recipe.id` with `recipe`.
    /// Returns the stored result, or `None` when no recipe has that id.
    pub fn update_recipe(&mut self, recipe: Recipe) -> (r: Option<Recipe>)
        requires
            old(self).wf(),
        ensures
            final(self).wf(),
            r is Some <==> spec_find(old(self)@, recipe.id) is Some,
            r is Some ==> r->0@ == recipe@ && exists|i: int|
                0 <= i < old(self)@.len() && old(self)@[i].id == recipe.id && final(self)@
                    == old(self)@.update(i, recipe@),
            r is None ==> final(self)@ == old(self)@,
    {
        match self.find_index(recipe.id) {
            Some(i) => {
                let ghost idx: int = i as int;
                let out = recipe.clone();
                self.recipes.set(i, recipe);
                proof {
                    assert(self@ =~= old(self)@.update(idx, out@));
                    assert(forall|j: int|
                        0 <= j < self@.len() ==> #[trigger] self@[j].id == old(self)@[j].id);
                }
                Some(out)
            },
            None => None,
        }
    }

    /// Removes the recipe with identity `id` if present; removing an
    /// absent id changes nothing. Day rows that reference a removed
    /// recipe keep their reference; reads resolve it to an unset slot.
    pub fn delete_recipe(&mut self, id: u128)
        requires
            old(self).wf(),
        ensures
            final(self).wf(),
            spec_find(old(self)@, id) is None ==> final(self)@ == old(self)@,
            spec_find(old(self)@, id) is Some ==> exists|i: int|
                0 <= i < old(self)@.len() && old(self)@[i].id == id && final(self)@ == old(
                    self,
                )@.remove(i),
            spec_find(final(self)@, id) is None,
    {
        match self.find_index(id) {
            Some(i) => {
                let ghost idx: int = i as int;
                self.recipes.remove(i);
                proof {
                    assert(self@ =~= old(self)@.remove(idx));
                    assert(forall|j: int| 0 <= j < idx ==> self@[j] == old(self)@[j]);
                    assert(forall|j: int|
                        idx <= j < self@.len() ==> self@[j] == old(self)@[j + 1]);
                    lemma_spec_find_some(self@, id);
                    assert(unique_ids(self@));
                }
            },
            None => {
                proof {
                    assert(self@ =~= old(self)@);
                    lemma_spec_find_some(self@, id);
                }
            },
        }
    }

    /// Number of recipes in the catalog.
    pub fn len(&self) -> (n: usize)
        ensures
            n == self@.len(),
    {
        self.recipes.len()
    }
}

} // verus!
