//! The company store: the persisted table of entities, keyed by the
//! identifier the store assigns on first save.

use vstd::prelude::*;
use crate::entity::{Entity, EntityModel};

verus! {

/// The persisted set of entities. Identifiers are assigned in increasing
/// order starting at one and never reused.
#[derive(Debug)]
pub struct CompanyStore {
    pub entities: Vec<Entity>,
    pub next_id: u32,
}

impl CompanyStore {
    /// Every stored entity has an identifier, smaller than the next free
    /// one, and no identifier is stored twice.
    pub open spec fn wf(self) -> bool {
        &&& forall|i: int|
            0 <= i < self.entities@.len() ==> (#[trigger] self.entities@[i]@.id()) is Some
                && self.entities@[i]@.id().unwrap() < self.next_id
        &&& forall|i: int, j: int|
            0 <= i < j < self.entities@.len() ==> self.entities@[i]@.id()
                != self.entities@[j]@.id()
    }

    /// Whether an entity with identifier `id` is stored.
    pub open spec fn has_entity(self, id: u32) -> bool {
        exists|i: int| 0 <= i < self.entities@.len() && self.entities@[i]@.id() == Some(id)
    }

    /// The index at which the entity with identifier `id` is stored.
    pub open spec fn index_of(self, id: u32) -> int {
        choose|i: int| 0 <= i < self.entities@.len() && self.entities@[i]@.id() == Some(id)
    }

    /// The stored record of the entity with identifier `id`.
    pub open spec fn entity_at(self, id: u32) -> EntityModel {
        self.entities@[self.index_of(id)]@
    }

    /// In a well-formed store the index of a stored identifier is the only
    /// one holding it.
    pub proof fn lemma_index_of(self, id: u32)
        requires
            self.wf(),
            self.has_entity(id),
        ensures
            0 <= self.index_of(id) < self.entities@.len(),
            self.entities@[self.index_of(id)]@.id() == Some(id),
            forall|i: int|
                0 <= i < self.entities@.len() && self.entities@[i]@.id() == Some(id) ==> i
                    == self.index_of(id),
    {
        let k = self.index_of(id);
        assert(0 <= k < self.entities@.len() && self.entities@[k]@.id() == Some(id));
        assert forall|i: int|
            0 <= i < self.entities@.len() && self.entities@[i]@.id() == Some(id) implies i
            == k by {
            if i != k {
                assert(self.entities@[i]@.id() != self.entities@[k]@.id());
            }
        }
    }

    /// An empty store.
    pub fn new() -> (r: CompanyStore)
        ensures
            r.wf(),
            r.next_id == 1,
            r.entities@.len() == 0,
            forall|id: u32| !r.has_entity(id),
    {
        CompanyStore { entities: Vec::new(), next_id: 1 }
    }

    /// The index at which `id` is stored, if any.
    fn find_index(&self, id: u32) -> (r: Option<usize>)
        requires
            self.wf(),
        ensures
            match r {
                Some(i) => self.has_entity(id) && i == self.index_of(id),
                None => !self.has_entity(id),
            },
    {
        let n = self.entities.len();
        let mut i: usize = 0;
        while i < n
            invariant
                self.wf(),
                i <= n,
                n == self.entities@.len(),
                forall|j: int| 0 <= j < i ==> self.entities@[j]@.id() != Some(id),
            decreases n - i,
        {
            match self.entities[i].id_option() {
                Some(found) => {
                    if found == id {
                        proof {
                            assert(self.has_entity(id));
                            self.lemma_index_of(id);
                        }
                        return Some(i);
                    }
                },
                None => {},
            }
            i += 1;
        }
        None
    }

    /// Whether an entity with identifier `id` is currently stored.
    pub fn contains_entity(&self, id: u32) -> (r: bool)
        requires
            self.wf(),
        ensures
            r == self.has_entity(id),
    {
        match self.find_index(id) {
            Some(_) => true,
            None => false,
        }
    }

    /// Loads a copy of the entity stored under `id`, if any.
    pub fn load_entity(&self, id: u32) -> (r: Option<Entity>)
        requires
            self.wf(),
        ensures
            r is Some <==> self.has_entity(id),
            r is Some ==> r.unwrap()@ == self.entity_at(id),
    {
        match self.find_index(id) {
            Some(i) => Some(self.entities[i].clone()),
            None => None,
        }
    }

    /// Persists `e`: an entity without an identifier is assigned the next
    /// free one and inserted; one whose identifier is stored overwrites that
    /// record; one whose identifier is unknown changes nothing. Returns the
    /// identifier.
    pub fn persist(&mut self, e: Entity) -> (id: u32)
        requires
            old(self).wf(),
            e@.id() is None ==> old(self).next_id < u32::MAX,
        ensures
            final(self).wf(),
            final(self).next_id >= old(self).next_id,
            e@.id() is Some ==> id == e@.id().unwrap() && final(self).next_id == old(self).next_id,
            e@.id() is Some && !old(self).has_entity(id) ==> *final(self) == *old(self),
            e@.id() is Some && old(self).has_entity(id) ==> final(self).has_entity(id)
                && final(self).entity_at(id) == e@,
            e@.id() is None ==> id == old(self).next_id && final(self).next_id == old(self).next_id + 1
                && !old(self).has_entity(id) && final(self).has_entity(id) && final(self).entity_at(id)
                == e@.with_id(Some(id)),
            forall|j: u32|
                j != id ==> final(self).has_entity(j) == old(self).has_entity(j) && (old(
                    self,
                ).has_entity(j) ==> final(self).entity_at(j) == old(self).entity_at(j)),
    {
        match e.id_option() {
            Some(id) => {
                match self.find_index(id) {
                    Some(i) => {
                        proof {
                            old(self).lemma_index_of(id);
                        }
                        self.entities.set(i, e);
                        proof {
                            assert(forall|k: int|
                                0 <= k < self.entities@.len() ==> self.entities@[k]@.id() == old(
                                    self,
                                ).entities@[k]@.id());
                            assert(self.wf());
                            self.lemma_index_of(id);
                            assert forall|j: u32| j != id implies self.has_entity(j) == old(
                                self,
                            ).has_entity(j) && (old(self).has_entity(j) ==> self.entity_at(j)
                                == old(self).entity_at(j)) by {
                                if old(self).has_entity(j) {
                                    old(self).lemma_index_of(j);
                                    assert(self.has_entity(j));
                                    self.lemma_index_of(j);
                                    assert(self.index_of(j) == old(self).index_of(j));
                                    assert(self.index_of(j) != i as int);
                                } else {
                                    if self.has_entity(j) {
                                        self.lemma_index_of(j);
                                        assert(old(self).has_entity(j));
                                    }
                                }
                            }
                        }
                        id
                    },
                    None => id,
                }
            },
            None => {
                let id = self.next_id;
                let mut stored = e;
                stored.assign_id(id);
                self.entities.push(stored);
                self.next_id = self.next_id + 1;
                proof {
                    let n = self.entities@.len() - 1;
                    assert(self.entities@[n]@.id() == Some(id));
                    assert(forall|k: int|
                        0 <= k < n ==> self.entities@[k] == old(self).entities@[k]);
                    assert(self.wf());
                    assert(self.has_entity(id));
                    if old(self).has_entity(id) {
                        let w = choose|w: int|
                            0 <= w < old(self).entities@.len() && old(self).entities@[w]@.id()
                                == Some(id);
                        assert(old(self).entities@[w]@.id().unwrap() < old(self).next_id);
                    }
                    assert(!old(self).has_entity(id));
                    self.lemma_index_of(id);
                    assert(self.index_of(id) == n);
                    assert forall|j: u32| j != id implies self.has_entity(j) == old(
                        self,
                    ).has_entity(j) && (old(self).has_entity(j) ==> self.entity_at(j) == old(
                        self,
                    ).entity_at(j)) by {
                        if old(self).has_entity(j) {
                            old(self).lemma_index_of(j);
                            assert(self.has_entity(j));
                            self.lemma_index_of(j);
                            assert(self.index_of(j) == old(self).index_of(j));
                        } else {
                            if self.has_entity(j) {
                                self.lemma_index_of(j);
                                let k = self.index_of(j);
                                assert(k != n);
                                assert(old(self).has_entity(j));
                            }
                        }
                    }
                }
                id
            },
        }
    }
}

} // verus!
