//! The ingredient repository: its contract and the in-memory implementation.
//!
//! The contract is the persistence protocol every implementation must satisfy:
//! what each operation does to the stored map from id to ingredient, which
//! error it raises on which input, and that the name of a stored ingredient is
//! unique.  The in-memory implementation is verified against the contract; a
//! relational implementation lives with the adapters and must satisfy the same
//! observable contract, with `Unknown` covering storage failure.

use vstd::prelude::*;

use crate::assoc::{
    assoc_map, lemma_assoc_contains, lemma_assoc_index, lemma_assoc_push, lemma_assoc_remove,
    lemma_assoc_update, unique_keys,
};
use crate::entities::ingredient::{Ingredient, IngredientV};
use crate::ids::Uuid;

verus! {

/// Why an insert failed: a uniqueness conflict on the named field, or a
/// storage failure.
#[derive(Debug)]
pub enum InsertIngredientError {
    Conflict(String),
    Unknown,
}

/// Why a lookup failed: no ingredient under the id, or a storage failure.
#[derive(Debug)]
pub enum GetIngredientByIdError {
    NotFound(Uuid),
    Unknown,
}

/// Why reading all ingredients failed: only a storage failure can.
#[derive(Debug)]
pub enum GetAllIngredientsError {
    Unknown,
}

/// Why a delete failed: no ingredient under the id, or a storage failure.
#[derive(Debug)]
pub enum DeleteIngredientError {
    NotFound(Uuid),
    Unknown,
}

/// The key under which an ingredient is stored: its id.
pub open spec fn by_id() -> spec_fn(IngredientV) -> u128 {
    |v: IngredientV| v.id
}

/// Some other stored ingredient (under a key other than `id`) carries `name`.
pub open spec fn name_taken(m: Map<u128, IngredientV>, name: Seq<char>, id: u128) -> bool {
    exists|k: u128| #[trigger] m.contains_key(k) && k != id && m[k].name == name
}

/// A well-formed store: every ingredient sits under its own id, is valid, and
/// no two share a name.
pub open spec fn ings_ok(m: Map<u128, IngredientV>) -> bool {
    (forall|k: u128| #[trigger] m.contains_key(k) ==> m[k].id == k && m[k].wf()) && (forall|
        k1: u128,
        k2: u128,
    |
        m.contains_key(k1) && m.contains_key(k2) && k1 != k2 ==> #[trigger] m[k1].name
            != #[trigger] m[k2].name)
}

/// A vector of ingredients carries exactly the content of the map: each
/// element is stored under its id, every key is covered, no id repeats.
pub open spec fn ingredients_represent(s: Seq<Ingredient>, m: Map<u128, IngredientV>) -> bool {
    (forall|i: int|
        0 <= i < s.len() ==> m.contains_key(#[trigger] s[i]@.id) && m[s[i]@.id] == s[i]@) && (forall|
        k: u128,
    | #[trigger] m.contains_key(k) ==> exists|i: int| 0 <= i < s.len() && s[i]@.id == k) && (forall|
        i: int,
        j: int,
    | 0 <= i < j < s.len() ==> s[i]@.id != s[j]@.id)
}

/// The persistence protocol for ingredients.
///
/// `ings` is the stored map from id to ingredient and `inv` the
/// implementation's internal invariant; `reliable` says whether the backing
/// store can fail on its own (the in-memory store cannot; a relational store
/// can, and surfaces that as `Unknown`).  Inserting under an id that is
/// already stored replaces that entry, as a keyed store does; the uniqueness
/// the contract enforces is on the name.
pub trait IngredientRepository: Sized {
    /// The stored ingredients, by id.
    spec fn ings(&self) -> Map<u128, IngredientV>;

    /// The implementation's internal invariant.
    spec fn inv(&self) -> bool;

    /// Whether the backing store is free of failures of its own.
    spec fn reliable() -> bool;

    /// The invariant keeps the store well-formed.
    proof fn lemma_inv(&self)
        requires
            self.inv(),
        ensures
            ings_ok(self.ings()),
    ;

    /// Stores an ingredient.  Fails with `Conflict("name")` exactly when
    /// another stored ingredient carries the same name.
    fn insert(&mut self, ingredient: Ingredient) -> (r: Result<Ingredient, InsertIngredientError>)
        requires
            old(self).inv(),
            ingredient@.wf(),
        ensures
            final(self).inv(),
            match r {
                Ok(ret) => ret@ == ingredient@ && !name_taken(
                    old(self).ings(),
                    ingredient@.name,
                    ingredient@.id,
                ) && final(self).ings() == old(self).ings().insert(ingredient@.id, ingredient@),
                Err(InsertIngredientError::Conflict(f)) => f@ == "name"@ && name_taken(
                    old(self).ings(),
                    ingredient@.name,
                    ingredient@.id,
                ) && final(self).ings() == old(self).ings(),
                Err(InsertIngredientError::Unknown) => final(self).ings() == old(self).ings(),
            },
            Self::reliable() ==> !(r matches Err(InsertIngredientError::Unknown)),
    ;

    /// Reads the ingredient stored under `id`; `NotFound(id)` exactly when
    /// there is none.
    fn get_by_id(&self, id: &Uuid) -> (r: Result<Ingredient, GetIngredientByIdError>)
        requires
            self.inv(),
        ensures
            match r {
                Ok(ing) => self.ings().contains_key(id.bits) && ing@ == self.ings()[id.bits],
                Err(GetIngredientByIdError::NotFound(i)) => i == *id && !self.ings().contains_key(
                    id.bits,
                ),
                Err(GetIngredientByIdError::Unknown) => true,
            },
            Self::reliable() ==> !(r matches Err(GetIngredientByIdError::Unknown)),
    ;

    /// Reads all stored ingredients, in no promised order.
    fn get_all(&self) -> (r: Result<Vec<Ingredient>, GetAllIngredientsError>)
        requires
            self.inv(),
        ensures
            match r {
                Ok(v) => ingredients_represent(v@, self.ings()),
                Err(GetAllIngredientsError::Unknown) => true,
            },
            Self::reliable() ==> r is Ok,
    ;

    /// Removes the ingredient stored under the given ingredient's id;
    /// `NotFound` exactly when there is none.
    fn delete(&mut self, ingredient: Ingredient) -> (r: Result<(), DeleteIngredientError>)
        requires
            old(self).inv(),
        ensures
            final(self).inv(),
            match r {
                Ok(_) => old(self).ings().contains_key(ingredient@.id) && final(self).ings() == old(self).ings().remove(ingredient@.id),
                Err(DeleteIngredientError::NotFound(i)) => i == ingredient.id && !old(self).ings().contains_key(ingredient@.id) && final(self).ings() == old(self).ings(),
                Err(DeleteIngredientError::Unknown) => final(self).ings() == old(self).ings(),
            },
            Self::reliable() ==> !(r matches Err(DeleteIngredientError::Unknown)),
    ;
}

/// The views of a stored vector of ingredients.
pub open spec fn iview(s: Seq<Ingredient>) -> Seq<IngredientV> {
    s.map_values(|x: Ingredient| x@)
}

/// An ingredient store backed by a vector, for tests and development.
pub struct InMemoryIngredientRepository {
    items: Vec<Ingredient>,
}

impl InMemoryIngredientRepository {
    /// An empty store.
    pub fn new() -> (r: InMemoryIngredientRepository)
        ensures
            r.inv(),
            r.ings() == Map::<u128, IngredientV>::empty(),
    {
        InMemoryIngredientRepository { items: Vec::new() }
    }

    /// The index of the element stored under `id`, if any.
    fn find_index(&self, id: u128) -> (r: Option<usize>)
        ensures
            match r {
                Some(i) => i < self.items@.len() && self.items@[i as int]@.id == id,
                None => forall|i: int| 0 <= i < self.items@.len() ==> self.items@[i]@.id != id,
            },
    {
        let mut i: usize = 0;
        while i < self.items.len()
            invariant
                i <= self.items@.len(),
                forall|j: int| 0 <= j < i ==> self.items@[j]@.id != id,
            decreases self.items@.len() - i,
        {
            if self.items[i].id.as_u128() == id {
                return Some(i);
            }
            i = i + 1;
        }
        None
    }
}

impl IngredientRepository for InMemoryIngredientRepository {
    closed spec fn ings(&self) -> Map<u128, IngredientV> {
        assoc_map(iview(self.items@), by_id())
    }

    closed spec fn inv(&self) -> bool {
        &&& unique_keys(iview(self.items@), by_id())
        &&& forall|i: int, j: int|
            0 <= i < j < self.items@.len() ==> #[trigger] self.items@[i]@.name
                != #[trigger] self.items@[j]@.name
        &&& forall|i: int| 0 <= i < self.items@.len() ==> (#[trigger] self.items@[i]@).wf()
    }

    open spec fn reliable() -> bool {
        true
    }

    proof fn lemma_inv(&self) {
        let s = iview(self.items@);
        assert forall|k: u128| #[trigger] self.ings().contains_key(k) implies self.ings()[k].id == k
            && self.ings()[k].wf() by {
            lemma_assoc_contains(s, by_id(), k);
            let i = choose|i: int| 0 <= i < s.len() && by_id()(s[i]) == k;
            lemma_assoc_index(s, by_id(), i);
        }
        assert forall|k1: u128, k2: u128|
            self.ings().contains_key(k1) && self.ings().contains_key(k2) && k1
                != k2 implies #[trigger] self.ings()[k1].name != #[trigger] self.ings()[k2].name by {
            lemma_assoc_contains(s, by_id(), k1);
            lemma_assoc_contains(s, by_id(), k2);
            let i1 = choose|i: int| 0 <= i < s.len() && by_id()(s[i]) == k1;
            let i2 = choose|i: int| 0 <= i < s.len() && by_id()(s[i]) == k2;
            lemma_assoc_index(s, by_id(), i1);
            lemma_assoc_index(s, by_id(), i2);
            assert(i1 != i2);
        }
    }

    fn insert(&mut self, ingredient: Ingredient) -> (r: Result<Ingredient, InsertIngredientError>) {
        proof {
            lemma_assoc_contains(iview(self.items@), by_id(), ingredient@.id);
        }
        // Another id, same name: a uniqueness conflict.
        let mut i: usize = 0;
        while i < self.items.len()
            invariant
                *self == *old(self),
                self.inv(),
                i <= self.items@.len(),
                forall|j: int|
                    0 <= j < i ==> !(self.items@[j]@.id != ingredient@.id && self.items@[j]@.name
                        == ingredient@.name),
            decreases self.items@.len() - i,
        {
            if self.items[i].id.as_u128() != ingredient.id.as_u128() && crate::text::str_eq(
                self.items[i].name.as_str(),
                ingredient.name.as_str(),
            ) {
                proof {
                    lemma_assoc_index(iview(self.items@), by_id(), i as int);
                    assert(name_taken(self.ings(), ingredient@.name, ingredient@.id));
                }
                return Err(InsertIngredientError::Conflict("name".to_owned()));
            }
            i = i + 1;
        }
        proof {
            assert(!name_taken(self.ings(), ingredient@.name, ingredient@.id)) by {
                if name_taken(self.ings(), ingredient@.name, ingredient@.id) {
                    let k = choose|k: u128| #[trigger]
                        self.ings().contains_key(k) && k != ingredient@.id && self.ings()[k].name
                            == ingredient@.name;
                    lemma_assoc_contains(iview(self.items@), by_id(), k);
                    let j = choose|j: int|
                        0 <= j < iview(self.items@).len() && by_id()(iview(self.items@)[j]) == k;
                    lemma_assoc_index(iview(self.items@), by_id(), j);
                }
            }
        }
        let ghost pre = self.items@;
        let stored = ingredient.clone();
        match self.find_index(ingredient.id.as_u128()) {
            Some(idx) => {
                self.items.set(idx, stored);
                proof {
                    assert(iview(self.items@) =~= iview(pre).update(idx as int, ingredient@));
                    lemma_assoc_update(iview(pre), by_id(), idx as int, ingredient@);
                    assert(self.ings() =~= assoc_map(iview(pre), by_id()).insert(
                        ingredient@.id,
                        ingredient@,
                    ));
                    assert forall|a: int, b: int|
                        0 <= a < b < self.items@.len() implies #[trigger] self.items@[a]@.name
                        != #[trigger] self.items@[b]@.name by {
                        if a != idx && b != idx {
                            assert(self.items@[a]@ == pre[a]@);
                            assert(self.items@[b]@ == pre[b]@);
                        } else if a == idx {
                            assert(self.items@[b]@ == pre[b]@);
                            assert(pre[b]@.id != ingredient@.id) by {
                                assert(unique_keys(iview(pre), by_id()));
                                assert(iview(pre)[b] == pre[b]@);
                                assert(iview(pre)[idx as int] == pre[idx as int]@);
                                assert(by_id()(iview(pre)[idx as int]) == ingredient@.id);
                                assert(by_id()(iview(pre)[b]) != by_id()(iview(pre)[idx as int]));
                            }
                        } else {
                            assert(self.items@[a]@ == pre[a]@);
                            assert(pre[a]@.id != ingredient@.id) by {
                                assert(unique_keys(iview(pre), by_id()));
                                assert(iview(pre)[a] == pre[a]@);
                                assert(iview(pre)[idx as int] == pre[idx as int]@);
                                assert(by_id()(iview(pre)[idx as int]) == ingredient@.id);
                                assert(by_id()(iview(pre)[a]) != by_id()(iview(pre)[idx as int]));
                            }
                        }
                    }
                    assert(unique_keys(iview(self.items@), by_id())) by {
                        assert forall|a: int, b: int|
                            0 <= a < b < iview(self.items@).len() implies by_id()(
                            iview(self.items@)[a],
                        ) != by_id()(iview(self.items@)[b]) by {
                            if a != idx && b != idx {
                                assert(iview(self.items@)[a] == iview(pre)[a]);
                                assert(iview(self.items@)[b] == iview(pre)[b]);
                            } else if a == idx {
                                assert(iview(self.items@)[b] == iview(pre)[b]);
                                assert(by_id()(iview(pre)[idx as int]) == ingredient@.id);
                            } else {
                                assert(iview(self.items@)[a] == iview(pre)[a]);
                                assert(by_id()(iview(pre)[idx as int]) == ingredient@.id);
                            }
                        }
                    }
                }
                Ok(ingredient)
            },
            None => {
                self.items.push(stored);
                proof {
                    assert(iview(self.items@) =~= iview(pre).push(ingredient@));
                    lemma_assoc_push(iview(pre), by_id(), ingredient@);
                    assert(self.ings() =~= assoc_map(iview(pre), by_id()).insert(
                        ingredient@.id,
                        ingredient@,
                    ));
                    assert forall|a: int, b: int|
                        0 <= a < b < self.items@.len() implies #[trigger] self.items@[a]@.name
                        != #[trigger] self.items@[b]@.name by {
                        if b < pre.len() {
                            assert(self.items@[a]@ == pre[a]@);
                            assert(self.items@[b]@ == pre[b]@);
                        } else {
                            assert(self.items@[a]@ == pre[a]@);
                            assert(self.items@[b]@ == ingredient@);
                            assert(!(pre[a]@.id != ingredient@.id && pre[a]@.name
                                == ingredient@.name));
                            assert(pre[a]@.id != ingredient@.id) by {
                                assert(forall|j: int|
                                    0 <= j < pre.len() ==> #[trigger] pre[j]@.id != ingredient@.id);
                            }
                        }
                    }
                    assert(unique_keys(iview(self.items@), by_id())) by {
                        assert forall|a: int, b: int|
                            0 <= a < b < iview(self.items@).len() implies by_id()(
                            iview(self.items@)[a],
                        ) != by_id()(iview(self.items@)[b]) by {
                            if b < pre.len() {
                                assert(iview(self.items@)[a] == iview(pre)[a]);
                                assert(iview(self.items@)[b] == iview(pre)[b]);
                            } else {
                                assert(iview(self.items@)[a] == iview(pre)[a]);
                                assert(forall|j: int|
                                    0 <= j < pre.len() ==> #[trigger] pre[j]@.id != ingredient@.id);
                            }
                        }
                    }
                }
                Ok(ingredient)
            },
        }
    }

    fn get_by_id(&self, id: &Uuid) -> (r: Result<Ingredient, GetIngredientByIdError>) {
        proof {
            lemma_assoc_contains(iview(self.items@), by_id(), id.bits);
        }
        match self.find_index(id.as_u128()) {
            Some(idx) => {
                proof {
                    lemma_assoc_index(iview(self.items@), by_id(), idx as int);
                }
                Ok(self.items[idx].clone())
            },
            None => Err(GetIngredientByIdError::NotFound(*id)),
        }
    }

    fn get_all(&self) -> (r: Result<Vec<Ingredient>, GetAllIngredientsError>) {
        let mut out: Vec<Ingredient> = Vec::new();
        let mut i: usize = 0;
        while i < self.items.len()
            invariant
                self.inv(),
                i <= self.items@.len(),
                out@.len() == i,
                forall|j: int| 0 <= j < i ==> out@[j]@ == self.items@[j]@,
            decreases self.items@.len() - i,
        {
            out.push(self.items[i].clone());
            i = i + 1;
        }
        proof {
            assert forall|j: int|
                0 <= j < out@.len() implies self.ings().contains_key(#[trigger] out@[j]@.id)
                && self.ings()[out@[j]@.id] == out@[j]@ by {
                assert(out@[j]@ == iview(self.items@)[j]);
                lemma_assoc_index(iview(self.items@), by_id(), j);
            }
            assert forall|k: u128| #[trigger] self.ings().contains_key(k) implies exists|i: int|
                0 <= i < out@.len() && out@[i]@.id == k by {
                lemma_assoc_contains(iview(self.items@), by_id(), k);
                let j = choose|j: int|
                    0 <= j < iview(self.items@).len() && by_id()(iview(self.items@)[j]) == k;
                assert(out@[j]@.id == k);
            }
        }
        Ok(out)
    }

    fn delete(&mut self, ingredient: Ingredient) -> (r: Result<(), DeleteIngredientError>) {
        proof {
            lemma_assoc_contains(iview(self.items@), by_id(), ingredient@.id);
        }
        let ghost pre = self.items@;
        match self.find_index(ingredient.id.as_u128()) {
            Some(idx) => {
                self.items.remove(idx);
                proof {
                    assert(iview(self.items@) =~= iview(pre).remove(idx as int));
                    lemma_assoc_remove(iview(pre), by_id(), idx as int);
                    assert(self.ings() =~= assoc_map(iview(pre), by_id()).remove(ingredient@.id));
                    assert forall|a: int, b: int|
                        0 <= a < b < self.items@.len() implies #[trigger] self.items@[a]@.name
                        != #[trigger] self.items@[b]@.name by {
                        let a0 = if a < idx {
                            a
                        } else {
                            a + 1
                        };
                        let b0 = if b < idx {
                            b
                        } else {
                            b + 1
                        };
                        assert(self.items@[a]@ == pre[a0]@);
                        assert(self.items@[b]@ == pre[b0]@);
                    }
                    assert(unique_keys(iview(self.items@), by_id())) by {
                        assert forall|a: int, b: int|
                            0 <= a < b < iview(self.items@).len() implies by_id()(
                            iview(self.items@)[a],
                        ) != by_id()(iview(self.items@)[b]) by {
                            let a0 = if a < idx {
                                a
                            } else {
                                a + 1
                            };
                            let b0 = if b < idx {
                                b
                            } else {
                                b + 1
                            };
                            assert(iview(self.items@)[a] == iview(pre)[a0]);
                            assert(iview(self.items@)[b] == iview(pre)[b0]);
                        }
                    }
                }
                Ok(())
            },
            None => Err(DeleteIngredientError::NotFound(ingredient.id)),
        }
    }
}

} // verus!
