//! Tier-one production facilities: they produce one material from nothing
//! but labour.

use vstd::prelude::*;
use crate::materials::{sat_add_u32, Material, OwnsMaterials};
use crate::money::{sat_add_u64, sat_sub_u64};
use crate::player::{shares_edited, Player};
use crate::store::CompanyStore;
use crate::entity::Entity;
use crate::workers::{
    roster_clear_flags, roster_copy, roster_find, roster_has, roster_mark, roster_reset,
    roster_unique, roster_worked, HireError, WorkError,
};

verus! {

/// Base configuration of a kind of tier-one company.
#[derive(Debug, Clone)]
pub struct TierOneProdBase {
    pub kind_name: String,
    pub human_prod_rate: u32,
    pub robot_prod_rate: u32,
    pub creates: Material,
    pub max_human_workers: u32,
    pub max_robot_workers: u32,
    pub cost: u64,
}

impl TierOneProdBase {
    /// A base whose robots produce twice as fast as its humans.
    pub fn new(kind_name: String, human_prod_rate: u32, creates: Material) -> (r:
        TierOneProdBase)
        requires
            human_prod_rate * 2 <= u32::MAX,
        ensures
            r.kind_name == kind_name,
            r.human_prod_rate == human_prod_rate,
            r.robot_prod_rate == human_prod_rate * 2,
            r.creates == creates,
            r.max_human_workers == 10,
            r.max_robot_workers == 1,
            r.cost == 200,
    {
        TierOneProdBase {
            kind_name,
            human_prod_rate,
            robot_prod_rate: human_prod_rate * 2,
            creates,
            max_human_workers: 10,
            max_robot_workers: 1,
            cost: 200,
        }
    }
}

/// The mathematical value of a tier-one facility instance.
pub struct TierOneProdModel {
    pub id: Option<u32>,
    pub name: Seq<char>,
    pub owner: u32,
    pub usd: u64,
    pub base_type: Seq<char>,
    pub creates: Material,
    pub human_prod_rate: u32,
    pub robot_prod_rate: u32,
    pub max_human_workers: u32,
    pub max_robot_workers: u32,
    pub human_workers: Seq<(u32, bool)>,
    pub robot_workers: Seq<(u32, bool)>,
    pub owns: OwnsMaterials,
}

impl TierOneProdModel {
    pub open spec fn with_id(self, id: Option<u32>) -> TierOneProdModel {
        TierOneProdModel { id, ..self }
    }

    pub open spec fn with_usd(self, usd: u64) -> TierOneProdModel {
        TierOneProdModel { usd, ..self }
    }

    pub open spec fn with_owns(self, owns: OwnsMaterials) -> TierOneProdModel {
        TierOneProdModel { owns, ..self }
    }

    pub open spec fn with_human_workers(self, w: Seq<(u32, bool)>) -> TierOneProdModel {
        TierOneProdModel { human_workers: w, ..self }
    }
}

/// A live tier-one company instance.
#[derive(Debug)]
pub struct TierOneProdInstance {
    pub id: Option<u32>,
    pub name: String,
    pub owner: u32,
    pub usd: u64,
    pub base_type: String,
    pub creates: Material,
    pub human_prod_rate: u32,
    pub robot_prod_rate: u32,
    pub max_human_workers: u32,
    pub max_robot_workers: u32,
    pub human_workers: Vec<(u32, bool)>,
    pub robot_workers: Vec<(u32, bool)>,
    pub owns: OwnsMaterials,
}

impl View for TierOneProdInstance {
    type V = TierOneProdModel;

    open spec fn view(&self) -> TierOneProdModel {
        TierOneProdModel {
            id: self.id,
            name: self.name@,
            owner: self.owner,
            usd: self.usd,
            base_type: self.base_type@,
            creates: self.creates,
            human_prod_rate: self.human_prod_rate,
            robot_prod_rate: self.robot_prod_rate,
            max_human_workers: self.max_human_workers,
            max_robot_workers: self.max_robot_workers,
            human_workers: self.human_workers@,
            robot_workers: self.robot_workers@,
            owns: self.owns,
        }
    }
}

impl Clone for TierOneProdInstance {
    fn clone(&self) -> (r: Self)
        ensures
            r@ == self@,
    {
        TierOneProdInstance {
            id: self.id,
            name: self.name.clone(),
            owner: self.owner,
            usd: self.usd,
            base_type: self.base_type.clone(),
            creates: self.creates,
            human_prod_rate: self.human_prod_rate,
            robot_prod_rate: self.robot_prod_rate,
            max_human_workers: self.max_human_workers,
            max_robot_workers: self.max_robot_workers,
            human_workers: roster_copy(&self.human_workers),
            robot_workers: roster_copy(&self.robot_workers),
            owns: self.owns,
        }
    }
}

impl TierOneProdInstance {
    /// Neither worker roster lists the same player twice.
    pub open spec fn wf(self) -> bool {
        roster_unique(self.human_workers@) && roster_unique(self.robot_workers@)
    }

    /// Founds a new facility of kind `base`, paid for by `owner`, and
    /// persists it: the owner is debited the cost and credited the founding
    /// shares, and the store assigns the instance its identifier. Returns
    /// `None` (changing nothing) when the owner cannot afford the cost.
    pub fn new(
        store: &mut CompanyStore,
        base: &TierOneProdBase,
        name: String,
        owner: &mut Player,
    ) -> (r: Option<TierOneProdInstance>)
        requires
            old(store).wf(),
            old(store).next_id < u32::MAX,
            old(owner).wf(),
            forall|i: int|
                0 <= i < old(owner).shares@.len()
                    ==> 0 <= (#[trigger] old(owner).shares@[i]).1 + 10000 <= i16::MAX,
        ensures
            final(store).wf(),
            old(owner).usd < base.cost ==> r is None && *final(store) == *old(store) && *final(owner) == *old(
                owner,
            ),
            old(owner).usd >= base.cost ==> {
                let inst = r.unwrap();
                &&& r is Some
                &&& inst.id == Some(old(store).next_id)
                &&& inst.name@ == name@
                &&& inst.owner == old(owner).id
                &&& inst.usd == 0
                &&& inst.base_type@ == base.kind_name@
                &&& inst.creates == base.creates
                &&& inst.human_prod_rate == base.human_prod_rate
                &&& inst.robot_prod_rate == base.robot_prod_rate
                &&& inst.max_human_workers == base.max_human_workers
                &&& inst.max_robot_workers == base.max_robot_workers
                &&& inst.human_workers@ == Seq::<(u32, bool)>::empty()
                &&& inst.robot_workers@ == Seq::<(u32, bool)>::empty()
                &&& inst.owns == (OwnsMaterials { grain: 0, electricity: 0, water: 0, food: 0 })
                &&& inst.wf()
                &&& final(owner).usd == old(owner).usd - base.cost
                &&& final(owner).id == old(owner).id
                &&& final(owner).energy == old(owner).energy
                &&& final(owner).name == old(owner).name
                &&& final(owner).wf()
                &&& shares_edited(
                    old(owner).shares@,
                    final(owner).shares@,
                    old(store).next_id,
                    10000,
                )
                &&& final(store).next_id == old(store).next_id + 1
                &&& final(store).has_entity(old(store).next_id)
                &&& final(store).entity_at(old(store).next_id) == Entity::Tier1(inst).view()
                &&& forall|j: u32|
                    j != old(store).next_id ==> final(store).has_entity(j) == old(store).has_entity(j)
                        && (old(store).has_entity(j) ==> final(store).entity_at(j) == old(
                        store,
                    ).entity_at(j))
            },
    {
        if owner.usd < base.cost {
            return None;
        }
        owner.spend(base.cost);
        let mut instance = TierOneProdInstance {
            id: None,
            name,
            owner: owner.id,
            usd: 0,
            base_type: base.kind_name.clone(),
            creates: base.creates,
            human_prod_rate: base.human_prod_rate,
            robot_prod_rate: base.robot_prod_rate,
            max_human_workers: base.max_human_workers,
            max_robot_workers: base.max_robot_workers,
            human_workers: Vec::new(),
            robot_workers: Vec::new(),
            owns: OwnsMaterials::new(),
        };
        let id = instance.save(store);
        owner.edit_shares(instance.id, 10000);
        Some(instance)
    }

    /// Credits money, stopping at the largest representable balance.
    pub fn earn(&mut self, money: u64)
        ensures
            final(self)@ == old(self)@.with_usd(sat_add_u64(old(self).usd, money)),
    {
        self.usd = self.usd.saturating_add(money);
    }

    /// Debits money; an overdraft empties the balance instead of failing.
    pub fn spend(&mut self, amount: u64)
        ensures
            final(self)@ == old(self)@.with_usd(sat_sub_u64(old(self).usd, amount)),
    {
        self.usd = self.usd.saturating_sub(amount);
    }

    /// Puts `player` on the human worker roster if there is a free slot and
    /// the player is not already hired.
    pub fn hire_worker(&mut self, player: &Player) -> (r: Result<(), HireError>)
        requires
            old(self).wf(),
        ensures
            final(self).wf(),
            old(self).human_workers@.len() >= old(self).max_human_workers ==> r == Err::<
                (),
                HireError,
            >(HireError::NoSlots) && final(self)@ == old(self)@,
            old(self).human_workers@.len() < old(self).max_human_workers && roster_has(
                old(self).human_workers@,
                player.id,
            ) ==> r == Err::<(), HireError>(HireError::AlreadyHired) && final(self)@ == old(
                self,
            )@,
            old(self).human_workers@.len() < old(self).max_human_workers && !roster_has(
                old(self).human_workers@,
                player.id,
            ) ==> r == Ok::<(), HireError>(()) && final(self)@ == old(self)@.with_human_workers(
                old(self).human_workers@.push((player.id, false)),
            ),
    {
        if self.human_workers.len() >= self.max_human_workers as usize {
            return Err(HireError::NoSlots);
        }
        match roster_find(&self.human_workers, player.id) {
            Some(_) => Err(HireError::AlreadyHired),
            None => {
                self.human_workers.push((player.id, false));
                Ok(())
            },
        }
    }

    /// One work cycle by `player`: marks the player as having worked, adds
    /// the produced material and costs the player four energy.
    pub fn human_worked(&mut self, player: &mut Player) -> (r: Result<(), WorkError>)
        requires
            old(self).wf(),
        ensures
            final(self).wf(),
            !roster_has(old(self).human_workers@, old(player).id) ==> r == Err::<(), WorkError>(
                WorkError::NotHired,
            ) && final(self)@ == old(self)@ && *final(player) == *old(player),
            roster_has(old(self).human_workers@, old(player).id) && roster_worked(
                old(self).human_workers@,
                old(player).id,
            ) ==> r == Err::<(), WorkError>(WorkError::AlreadyWorked) && final(self)@ == old(
                self,
            )@ && *final(player) == *old(player),
            roster_has(old(self).human_workers@, old(player).id) && !roster_worked(
                old(self).human_workers@,
                old(player).id,
            ) && old(player).energy < 4 ==> r == Err::<(), WorkError>(WorkError::NotEnoughEnergy)
                && final(self)@ == old(self)@ && *final(player) == *old(player),
            roster_has(old(self).human_workers@, old(player).id) && !roster_worked(
                old(self).human_workers@,
                old(player).id,
            ) && old(player).energy >= 4 ==> r == Ok::<(), WorkError>(()) && final(self)@ == old(
                self,
            )@.with_owns(
                old(self).owns.with_amount(
                    old(self).creates,
                    sat_add_u32(
                        old(self).owns.amount_spec(old(self).creates),
                        old(self).human_prod_rate,
                    ),
                ),
            ).with_human_workers(roster_mark(old(self).human_workers@, old(player).id))
                && final(player).energy == old(player).energy - 4 && final(player).usd == old(
                player,
            ).usd && final(player).id == old(player).id && final(player).name == old(player).name
                && final(player).shares == old(player).shares,
    {
        let pid = player.id;
        match roster_find(&self.human_workers, pid) {
            None => Err(WorkError::NotHired),
            Some(i) => {
                let (_, worked) = self.human_workers[i];
                if worked {
                    proof {
                        assert(roster_worked(self.human_workers@, pid));
                    }
                    Err(WorkError::AlreadyWorked)
                } else {
                    proof {
                        assert(forall|j: int|
                            0 <= j < self.human_workers@.len() && j != i
                                ==> self.human_workers@[j].0 != pid);
                        assert(!roster_worked(self.human_workers@, pid));
                    }
                    if player.energy < 4 {
                        Err(WorkError::NotEnoughEnergy)
                    } else {
                        self.human_workers.set(i, (pid, true));
                        proof {
                            assert(self.human_workers@ =~= roster_mark(
                                old(self).human_workers@,
                                pid,
                            ));
                        }
                        self.owns.add(self.creates, self.human_prod_rate);
                        player.energy = player.energy - 4;
                        Ok(())
                    }
                }
            },
        }
    }

    /// Clears every worked flag for the next cycle.
    pub fn reset_workers(&mut self)
        ensures
            final(self)@ == old(self)@.with_human_workers(roster_reset(old(self).human_workers@)),
    {
        roster_clear_flags(&mut self.human_workers);
    }

    /// Persists this instance: a new instance is assigned the next free
    /// identifier, a known one overwrites its stored record.
    pub fn save(&mut self, store: &mut CompanyStore) -> (id: u32)
        requires
            old(store).wf(),
            old(self).id is None ==> old(store).next_id < u32::MAX,
        ensures
            final(store).wf(),
            final(self)@ == old(self)@.with_id(Some(id)),
            final(store).next_id >= old(store).next_id,
            old(self).id == Some(id) || old(self).id is None,
            old(self).id is None ==> id == old(store).next_id && final(store).next_id == old(
                store,
            ).next_id + 1 && !old(store).has_entity(id),
            old(self).id is Some ==> id == old(self).id.unwrap() && final(store).next_id == old(
                store,
            ).next_id,
            old(self).id is Some && !old(store).has_entity(id) ==> *final(store) == *old(store),
            (old(self).id is None || old(store).has_entity(id)) ==> final(store).has_entity(id)
                && final(store).entity_at(id) == Entity::Tier1(*final(self)).view(),
            forall|j: u32|
                j != id ==> final(store).has_entity(j) == old(store).has_entity(j) && (old(
                    store,
                ).has_entity(j) ==> final(store).entity_at(j) == old(store).entity_at(j)),
    {
        let id = store.persist(Entity::Tier1(self.clone()));
        self.id = Some(id);
        id
    }
}

} // verus!
