//! The entity abstraction: any party that can hold a currency balance and a
//! material inventory. The matching engine only ever uses this capability
//! set and never the distinguishing fields of the concrete facility kinds.

use vstd::prelude::*;
use vstd::pervasive::unreached;
use crate::materials::{sat_add_u32, Material, OwnsMaterials};
use crate::money::{sat_add_u64, sat_sub_u64};
use crate::manufacturing::{TierTwoProdInstance, TierTwoProdModel};
use crate::production_companies::{TierOneProdInstance, TierOneProdModel};
use crate::store::CompanyStore;

verus! {

/// The mathematical value of an entity.
pub enum EntityModel {
    Tier1(TierOneProdModel),
    Tier2(TierTwoProdModel),
}

impl EntityModel {
    /// The persisted identifier, if one has been assigned.
    pub open spec fn id(self) -> Option<u32> {
        match self {
            EntityModel::Tier1(t1) => t1.id,
            EntityModel::Tier2(t2) => t2.id,
        }
    }

    /// The currency balance, in minor units.
    pub open spec fn usd(self) -> u64 {
        match self {
            EntityModel::Tier1(t1) => t1.usd,
            EntityModel::Tier2(t2) => t2.usd,
        }
    }

    /// The owned material inventory.
    pub open spec fn owns(self) -> OwnsMaterials {
        match self {
            EntityModel::Tier1(t1) => t1.owns,
            EntityModel::Tier2(t2) => t2.owns,
        }
    }

    /// The tag under which this kind of entity is persisted.
    pub open spec fn type_code(self) -> i32 {
        match self {
            EntityModel::Tier1(_) => 1,
            EntityModel::Tier2(_) => 2,
        }
    }

    pub open spec fn with_id(self, id: Option<u32>) -> EntityModel {
        match self {
            EntityModel::Tier1(t1) => EntityModel::Tier1(t1.with_id(id)),
            EntityModel::Tier2(t2) => EntityModel::Tier2(t2.with_id(id)),
        }
    }

    pub open spec fn with_usd(self, usd: u64) -> EntityModel {
        match self {
            EntityModel::Tier1(t1) => EntityModel::Tier1(t1.with_usd(usd)),
            EntityModel::Tier2(t2) => EntityModel::Tier2(t2.with_usd(usd)),
        }
    }

    pub open spec fn with_owns(self, owns: OwnsMaterials) -> EntityModel {
        match self {
            EntityModel::Tier1(t1) => EntityModel::Tier1(t1.with_owns(owns)),
            EntityModel::Tier2(t2) => EntityModel::Tier2(t2.with_owns(owns)),
        }
    }
}

/// How the balance and inventory rewrites project back out of an entity
/// model.
pub proof fn lemma_model_projections(e: EntityModel, u: u64, o: OwnsMaterials)
    ensures
        e.with_usd(u).usd() == u,
        e.with_usd(u).owns() == e.owns(),
        e.with_owns(o).owns() == o,
        e.with_owns(o).usd() == e.usd(),
        e.with_usd(u).id() == e.id(),
        e.with_owns(o).id() == e.id(),
{
    match e {
        EntityModel::Tier1(_) => {},
        EntityModel::Tier2(_) => {},
    }
}

/// Any party that can own money and materials: one of the concrete facility
/// kinds.
#[derive(Debug)]
pub enum Entity {
    Tier1(TierOneProdInstance),
    Tier2(TierTwoProdInstance),
}

impl View for Entity {
    type V = EntityModel;

    open spec fn view(&self) -> EntityModel {
        match self {
            Entity::Tier1(t1) => EntityModel::Tier1(t1@),
            Entity::Tier2(t2) => EntityModel::Tier2(t2@),
        }
    }
}

impl Clone for Entity {
    fn clone(&self) -> (r: Self)
        ensures
            r@ == self@,
    {
        match self {
            Entity::Tier1(t1) => Entity::Tier1(t1.clone()),
            Entity::Tier2(t2) => Entity::Tier2(t2.clone()),
        }
    }
}

impl Entity {
    /// Both facility kinds keep well-formed worker rosters.
    pub open spec fn wf(self) -> bool {
        match self {
            Entity::Tier1(t1) => t1.wf(),
            Entity::Tier2(t2) => t2.wf(),
        }
    }

    /// The current currency balance.
    pub fn usd(&self) -> (r: u64)
        ensures
            r == self@.usd(),
    {
        match self {
            Entity::Tier1(t1) => t1.usd,
            Entity::Tier2(t2) => t2.usd,
        }
    }

    /// The persisted identifier; only entities that have been persisted at
    /// least once have one.
    pub fn id(&self) -> (r: u32)
        requires
            self@.id() is Some,
        ensures
            r == self@.id().unwrap(),
    {
        match self {
            Entity::Tier1(t1) => match t1.id {
                Some(id) => id,
                None => unreached(),
            },
            Entity::Tier2(t2) => match t2.id {
                Some(id) => id,
                None => unreached(),
            },
        }
    }

    /// The identifier, if one has been assigned yet.
    pub fn id_option(&self) -> (r: Option<u32>)
        ensures
            r == self@.id(),
    {
        match self {
            Entity::Tier1(t1) => t1.id,
            Entity::Tier2(t2) => t2.id,
        }
    }

    /// The tag under which this kind of entity is persisted.
    pub fn type_code(&self) -> (r: i32)
        ensures
            r == self@.type_code(),
    {
        match self {
            Entity::Tier1(_) => 1,
            Entity::Tier2(_) => 2,
        }
    }

    /// Credits money, stopping at the largest representable balance.
    pub fn earn(&mut self, amount: u64)
        ensures
            final(self)@ == old(self)@.with_usd(sat_add_u64(old(self)@.usd(), amount)),
    {
        match self {
            Entity::Tier1(t1) => t1.earn(amount),
            Entity::Tier2(t2) => t2.earn(amount),
        }
    }

    /// Debits money; an overdraft empties the balance instead of failing.
    pub fn spend(&mut self, amount: u64)
        ensures
            final(self)@ == old(self)@.with_usd(sat_sub_u64(old(self)@.usd(), amount)),
    {
        match self {
            Entity::Tier1(t1) => t1.spend(amount),
            Entity::Tier2(t2) => t2.spend(amount),
        }
    }

    /// Credits `quantity` units of `item` to the inventory.
    pub fn add_material(&mut self, item: Material, quantity: u32)
        ensures
            final(self)@ == old(self)@.with_owns(
                old(self)@.owns().with_amount(
                    item,
                    sat_add_u32(old(self)@.owns().amount_spec(item), quantity),
                ),
            ),
    {
        match self {
            Entity::Tier1(t1) => t1.owns.add(item, quantity),
            Entity::Tier2(t2) => t2.owns.add(item, quantity),
        }
    }

    /// A copy of the owned material inventory.
    pub fn materials(&self) -> (r: OwnsMaterials)
        ensures
            r == self@.owns(),
    {
        match self {
            Entity::Tier1(t1) => t1.owns,
            Entity::Tier2(t2) => t2.owns,
        }
    }

    /// Stamps the entity with the identifier the store assigned it.
    pub(crate) fn assign_id(&mut self, id: u32)
        ensures
            final(self)@ == old(self)@.with_id(Some(id)),
    {
        match self {
            Entity::Tier1(t1) => t1.id = Some(id),
            Entity::Tier2(t2) => t2.id = Some(id),
        }
    }

    /// Persists this entity: a new entity is assigned the next free
    /// identifier, a known one overwrites its stored record.
    pub fn save(&mut self, store: &mut CompanyStore) -> (id: u32)
        requires
            old(store).wf(),
            old(self)@.id() is None ==> old(store).next_id < u32::MAX,
        ensures
            final(store).wf(),
            final(self)@ == old(self)@.with_id(Some(id)),
            final(store).next_id >= old(store).next_id,
            old(self)@.id() == Some(id) || old(self)@.id() is None,
            old(self)@.id() is None ==> id == old(store).next_id && final(store).next_id == old(
                store,
            ).next_id + 1 && !old(store).has_entity(id),
            old(self)@.id() is Some ==> id == old(self)@.id().unwrap() && final(store).next_id == old(
                store,
            ).next_id,
            old(self)@.id() is Some && !old(store).has_entity(id) ==> *final(store) == *old(store),
            (old(self)@.id() is None || old(store).has_entity(id)) ==> final(store).has_entity(id)
                && final(store).entity_at(id) == final(self)@,
            forall|j: u32|
                j != id ==> final(store).has_entity(j) == old(store).has_entity(j) && (old(
                    store,
                ).has_entity(j) ==> final(store).entity_at(j) == old(store).entity_at(j)),
    {
        match self {
            Entity::Tier1(t1) => t1.save(store),
            Entity::Tier2(t2) => t2.save(store),
        }
    }
}

} // verus!
