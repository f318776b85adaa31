//! Tier-two production facilities: they consume recipe inputs to produce a
//! refined material.

use vstd::prelude::*;
use crate::materials::{sat_add_u32, Material, OwnsMaterials};
use crate::money::{sat_add_u64, sat_sub_u64};
use crate::player::{shares_edited, Player};
use crate::recipies::ConsumableRecipe;
use crate::store::CompanyStore;
use crate::entity::Entity;
use crate::workers::{
    inputs_copy, roster_clear_flags, roster_copy, roster_find, roster_has, roster_mark,
    roster_reset, roster_unique, roster_worked, HireError, WorkError,
};

verus! {

/// The first reason, if any, why the recipe `inputs` cannot be consumed out
/// of `owns`: an input this kind of facility may not consume, or an input
/// there is not enough of.
pub open spec fn first_input_problem(
    inputs: Seq<(Material, u32)>,
    owns: OwnsMaterials,
) -> Option<WorkError>
    decreases inputs.len(),
{
    if inputs.len() == 0 {
        None
    } else if inputs[0].0 == Material::Food {
        Some(WorkError::UnsupportedInput)
    } else if owns.amount_spec(inputs[0].0) < inputs[0].1 {
        Some(WorkError::MissingInput(inputs[0].0))
    } else {
        first_input_problem(inputs.drop_first(), owns)
    }
}

/// The inventory left after consuming the recipe `inputs`, entry by entry;
/// an entry asking for more than is owned consumes nothing of that
/// material.
pub open spec fn consume_inputs(
    owns: OwnsMaterials,
    inputs: Seq<(Material, u32)>,
) -> OwnsMaterials
    decreases inputs.len(),
{
    if inputs.len() == 0 {
        owns
    } else {
        consume_inputs(
            if inputs[0].1 > owns.amount_spec(inputs[0].0) {
                owns
            } else {
                owns.with_amount(
                    inputs[0].0,
                    (owns.amount_spec(inputs[0].0) - inputs[0].1) as u32,
                )
            },
            inputs.drop_first(),
        )
    }
}

/// Base configuration of a kind of tier-two company.
#[derive(Debug, Clone)]
pub struct TierTwoProdBase {
    pub kind_name: String,
    pub human_prod_rate: u32,
    pub creates: Material,
    pub consumes: ConsumableRecipe,
    pub cost: u64,
}

impl TierTwoProdBase {
    pub fn new(
        kind_name: String,
        human_prod_rate: u32,
        creates: Material,
        consumes: ConsumableRecipe,
    ) -> (r: TierTwoProdBase)
        ensures
            r.kind_name == kind_name,
            r.human_prod_rate == human_prod_rate,
            r.creates == creates,
            r.consumes.inputs@ == consumes.inputs@,
            r.cost == 400,
    {
        TierTwoProdBase { kind_name, human_prod_rate, creates, consumes, cost: 400 }
    }
}

/// The mathematical value of a tier-two facility instance.
pub struct TierTwoProdModel {
    pub id: Option<u32>,
    pub name: Seq<char>,
    pub owner: u32,
    pub usd: u64,
    pub base_type: Seq<char>,
    pub creates: Material,
    pub human_prod_rate: u32,
    pub human_workers: Seq<(u32, bool)>,
    pub owns: OwnsMaterials,
    pub consumes: Seq<(Material, u32)>,
}

impl TierTwoProdModel {
    pub open spec fn with_id(self, id: Option<u32>) -> TierTwoProdModel {
        TierTwoProdModel { id, ..self }
    }

    pub open spec fn with_usd(self, usd: u64) -> TierTwoProdModel {
        TierTwoProdModel { usd, ..self }
    }

    pub open spec fn with_owns(self, owns: OwnsMaterials) -> TierTwoProdModel {
        TierTwoProdModel { owns, ..self }
    }

    pub open spec fn with_human_workers(self, w: Seq<(u32, bool)>) -> TierTwoProdModel {
        TierTwoProdModel { human_workers: w, ..self }
    }
}

/// A live tier-two company instance.
#[derive(Debug)]
pub struct TierTwoProdInstance {
    pub id: Option<u32>,
    pub name: String,
    pub owner: u32,
    pub usd: u64,
    pub base_type: String,
    pub creates: Material,
    pub human_prod_rate: u32,
    pub human_workers: Vec<(u32, bool)>,
    pub owns: OwnsMaterials,
    pub consumes: ConsumableRecipe,
}

impl View for TierTwoProdInstance {
    type V = TierTwoProdModel;

    open spec fn view(&self) -> TierTwoProdModel {
        TierTwoProdModel {
            id: self.id,
            name: self.name@,
            owner: self.owner,
            usd: self.usd,
            base_type: self.base_type@,
            creates: self.creates,
            human_prod_rate: self.human_prod_rate,
            human_workers: self.human_workers@,
            owns: self.owns,
            consumes: self.consumes.inputs@,
        }
    }
}

impl Clone for TierTwoProdInstance {
    fn clone(&self) -> (r: Self)
        ensures
            r@ == self@,
    {
        TierTwoProdInstance {
            id: self.id,
            name: self.name.clone(),
            owner: self.owner,
            usd: self.usd,
            base_type: self.base_type.clone(),
            creates: self.creates,
            human_prod_rate: self.human_prod_rate,
            human_workers: roster_copy(&self.human_workers),
            owns: self.owns,
            consumes: ConsumableRecipe { inputs: inputs_copy(&self.consumes.inputs) },
        }
    }
}

impl TierTwoProdInstance {
    /// The worker roster never lists the same player twice.
    pub open spec fn wf(self) -> bool {
        roster_unique(self.human_workers@)
    }

    /// Founds a new facility of kind `base`, paid for by `owner`, and
    /// persists it. Returns `None` (changing nothing) when the owner cannot
    /// afford the cost.
    pub fn new(
        store: &mut CompanyStore,
        base: &TierTwoProdBase,
        name: String,
        owner: &mut Player,
    ) -> (r: Option<TierTwoProdInstance>)
        requires
            old(store).wf(),
            old(store).next_id < u32::MAX,
            old(owner).wf(),
            forall|i: int|
                0 <= i < old(owner).shares@.len()
                    ==> 0 <= (#[trigger] old(owner).shares@[i]).1 + 10000 <= i16::MAX,
        ensures
            final(store).wf(),
            old(owner).usd < base.cost ==> r is None && *final(store) == *old(store) && *final(owner) == *old(
                owner,
            ),
            old(owner).usd >= base.cost ==> {
                let inst = r.unwrap();
                &&& r is Some
                &&& inst.id == Some(old(store).next_id)
                &&& inst.name@ == name@
                &&& inst.owner == old(owner).id
                &&& inst.usd == 0
                &&& inst.base_type@ == base.kind_name@
                &&& inst.creates == base.creates
                &&& inst.human_prod_rate == base.human_prod_rate
                &&& inst.human_workers@ == Seq::<(u32, bool)>::empty()
                &&& inst.owns == (OwnsMaterials { grain: 0, electricity: 0, water: 0, food: 0 })
                &&& inst.consumes.inputs@ == base.consumes.inputs@
                &&& inst.wf()
                &&& final(owner).usd == old(owner).usd - base.cost
                &&& final(owner).id == old(owner).id
                &&& final(owner).energy == old(owner).energy
                &&& final(owner).name == old(owner).name
                &&& final(owner).wf()
                &&& shares_edited(
                    old(owner).shares@,
                    final(owner).shares@,
                    old(store).next_id,
                    10000,
                )
                &&& final(store).next_id == old(store).next_id + 1
                &&& final(store).has_entity(old(store).next_id)
                &&& final(store).entity_at(old(store).next_id) == Entity::Tier2(inst).view()
                &&& forall|j: u32|
                    j != old(store).next_id ==> final(store).has_entity(j) == old(store).has_entity(j)
                        && (old(store).has_entity(j) ==> final(store).entity_at(j) == old(
                        store,
                    ).entity_at(j))
            },
    {
        if owner.usd < base.cost {
            return None;
        }
        owner.spend(base.cost);
        let mut instance = TierTwoProdInstance {
            id: None,
            name,
            owner: owner.id,
            usd: 0,
            base_type: base.kind_name.clone(),
            creates: base.creates,
            human_prod_rate: base.human_prod_rate,
            human_workers: Vec::new(),
            owns: OwnsMaterials::new(),
            consumes: ConsumableRecipe { inputs: inputs_copy(&base.consumes.inputs) },
        };
        let id = instance.save(store);
        owner.edit_shares(instance.id, 10000);
        Some(instance)
    }

    /// Puts `player` on the worker roster if not already hired.
    pub fn hire_worker(&mut self, player: &Player) -> (r: Result<(), HireError>)
        requires
            old(self).wf(),
        ensures
            final(self).wf(),
            roster_has(old(self).human_workers@, player.id) ==> r == Err::<(), HireError>(
                HireError::AlreadyHired,
            ) && final(self)@ == old(self)@,
            !roster_has(old(self).human_workers@, player.id) ==> r == Ok::<(), HireError>(())
                && final(self)@ == old(self)@.with_human_workers(
                old(self).human_workers@.push((player.id, false)),
            ),
    {
        match roster_find(&self.human_workers, player.id) {
            Some(_) => Err(HireError::AlreadyHired),
            None => {
                self.human_workers.push((player.id, false));
                Ok(())
            },
        }
    }

    /// Clears every worked flag for the next cycle.
    pub fn reset_workers(&mut self)
        ensures
            final(self)@ == old(self)@.with_human_workers(roster_reset(old(self).human_workers@)),
    {
        roster_clear_flags(&mut self.human_workers);
    }

    /// One work cycle by `player`: consumes the recipe inputs, adds the
    /// produced material, marks the player as having worked and costs the
    /// player four energy.
    pub fn human_worked(&mut self, player: &mut Player) -> (r: Result<(), WorkError>)
        requires
            old(self).wf(),
        ensures
            final(self).wf(),
            !roster_has(old(self).human_workers@, old(player).id) ==> r == Err::<(), WorkError>(
                WorkError::NotHired,
            ) && final(self)@ == old(self)@ && *final(player) == *old(player),
            roster_has(old(self).human_workers@, old(player).id) && roster_worked(
                old(self).human_workers@,
                old(player).id,
            ) ==> r == Err::<(), WorkError>(WorkError::AlreadyWorked) && final(self)@ == old(
                self,
            )@ && *final(player) == *old(player),
            roster_has(old(self).human_workers@, old(player).id) && !roster_worked(
                old(self).human_workers@,
                old(player).id,
            ) && old(player).energy < 4 ==> r == Err::<(), WorkError>(WorkError::NotEnoughEnergy)
                && final(self)@ == old(self)@ && *final(player) == *old(player),
            roster_has(old(self).human_workers@, old(player).id) && !roster_worked(
                old(self).human_workers@,
                old(player).id,
            ) && old(player).energy >= 4 && first_input_problem(
                old(self).consumes.inputs@,
                old(self).owns,
            ) is Some ==> r == Err::<(), WorkError>(
                first_input_problem(old(self).consumes.inputs@, old(self).owns).unwrap(),
            ) && final(self)@ == old(self)@ && *final(player) == *old(player),
            roster_has(old(self).human_workers@, old(player).id) && !roster_worked(
                old(self).human_workers@,
                old(player).id,
            ) && old(player).energy >= 4 && first_input_problem(
                old(self).consumes.inputs@,
                old(self).owns,
            ) is None ==> r == Ok::<(), WorkError>(()) && final(self)@ == old(self)@.with_owns(
                consume_inputs(old(self).owns, old(self).consumes.inputs@).with_amount(
                    old(self).creates,
                    sat_add_u32(
                        consume_inputs(old(self).owns, old(self).consumes.inputs@).amount_spec(
                            old(self).creates,
                        ),
                        old(self).human_prod_rate,
                    ),
                ),
            ).with_human_workers(roster_mark(old(self).human_workers@, old(player).id))
                && final(player).energy == old(player).energy - 4 && final(player).usd == old(
                player,
            ).usd && final(player).id == old(player).id && final(player).name == old(player).name
                && final(player).shares == old(player).shares,
    {
        let pid = player.id;
        match roster_find(&self.human_workers, pid) {
            None => Err(WorkError::NotHired),
            Some(i) => {
                let (_, worked) = self.human_workers[i];
                if worked {
                    proof {
                        assert(roster_worked(self.human_workers@, pid));
                    }
                    Err(WorkError::AlreadyWorked)
                } else {
                    proof {
                        assert(forall|j: int|
                            0 <= j < self.human_workers@.len() && j != i
                                ==> self.human_workers@[j].0 != pid);
                        assert(!roster_worked(self.human_workers@, pid));
                    }
                    if player.energy < 4 {
                        Err(WorkError::NotEnoughEnergy)
                    } else {
                        match self.check_inputs() {
                            Some(e) => Err(e),
                            None => {
                                self.consume();
                                self.owns.add(self.creates, self.human_prod_rate);
                                self.human_workers.set(i, (pid, true));
                                proof {
                                    assert(self.human_workers@ =~= roster_mark(
                                        old(self).human_workers@,
                                        pid,
                                    ));
                                }
                                player.energy = player.energy - 4;
                                Ok(())
                            },
                        }
                    }
                }
            },
        }
    }

    /// Reports the first recipe input that cannot be consumed, if any.
    fn check_inputs(&self) -> (r: Option<WorkError>)
        ensures
            r == first_input_problem(self.consumes.inputs@, self.owns),
    {
        let n = self.consumes.inputs.len();
        let mut i: usize = 0;
        proof {
            assert(self.consumes.inputs@.skip(0) =~= self.consumes.inputs@);
        }
        while i < n
            invariant
                i <= n,
                n == self.consumes.inputs@.len(),
                first_input_problem(self.consumes.inputs@, self.owns) == first_input_problem(
                    self.consumes.inputs@.skip(i as int),
                    self.owns,
                ),
            decreases n - i,
        {
            let (mat, amt) = self.consumes.inputs[i];
            proof {
                assert(self.consumes.inputs@.skip(i as int)[0] == (mat, amt));
                assert(self.consumes.inputs@.skip(i as int).drop_first()
                    =~= self.consumes.inputs@.skip(i + 1));
            }
            if matches!(mat, Material::Food) {
                return Some(WorkError::UnsupportedInput);
            }
            if self.owns.amount_of(mat) < amt {
                return Some(WorkError::MissingInput(mat));
            }
            i += 1;
        }
        proof {
            assert(self.consumes.inputs@.skip(n as int)
                =~= Seq::<(Material, u32)>::empty());
        }
        None
    }

    /// Consumes every recipe input out of the owned inventory.
    fn consume(&mut self)
        ensures
            final(self)@ == old(self)@.with_owns(
                consume_inputs(old(self).owns, old(self).consumes.inputs@),
            ),
    {
        let n = self.consumes.inputs.len();
        let mut i: usize = 0;
        proof {
            assert(self.consumes.inputs@.skip(0) =~= self.consumes.inputs@);
        }
        while i < n
            invariant
                i <= n,
                n == self.consumes.inputs@.len(),
                self@ == old(self)@.with_owns(self.owns),
                consume_inputs(old(self).owns, old(self).consumes.inputs@) == consume_inputs(
                    self.owns,
                    self.consumes.inputs@.skip(i as int),
                ),
            decreases n - i,
        {
            let (mat, amt) = self.consumes.inputs[i];
            proof {
                assert(self.consumes.inputs@.skip(i as int)[0] == (mat, amt));
                assert(self.consumes.inputs@.skip(i as int).drop_first()
                    =~= self.consumes.inputs@.skip(i + 1));
            }
            self.owns.remove(mat, amt);
            i += 1;
        }
        proof {
            assert(self.consumes.inputs@.skip(n as int)
                =~= Seq::<(Material, u32)>::empty());
        }
    }

    /// Credits money, stopping at the largest representable balance.
    pub fn earn(&mut self, money: u64)
        ensures
            final(self)@ == old(self)@.with_usd(sat_add_u64(old(self).usd, money)),
    {
        self.usd = self.usd.saturating_add(money);
    }

    /// Debits money; an overdraft empties the balance instead of failing.
    pub fn spend(&mut self, amount: u64)
        ensures
            final(self)@ == old(self)@.with_usd(sat_sub_u64(old(self).usd, amount)),
    {
        self.usd = self.usd.saturating_sub(amount);
    }

    /// Persists this instance: a new instance is assigned the next free
    /// identifier, a known one overwrites its stored record.
    pub fn save(&mut self, store: &mut CompanyStore) -> (id: u32)
        requires
            old(store).wf(),
            old(self).id is None ==> old(store).next_id < u32::MAX,
        ensures
            final(store).wf(),
            final(self)@ == old(self)@.with_id(Some(id)),
            final(store).next_id >= old(store).next_id,
            old(self).id == Some(id) || old(self).id is None,
            old(self).id is None ==> id == old(store).next_id && final(store).next_id == old(
                store,
            ).next_id + 1 && !old(store).has_entity(id),
            old(self).id is Some ==> id == old(self).id.unwrap() && final(store).next_id == old(
                store,
            ).next_id,
            old(self).id is Some && !old(store).has_entity(id) ==> *final(store) == *old(store),
            (old(self).id is None || old(store).has_entity(id)) ==> final(store).has_entity(id)
                && final(store).entity_at(id) == Entity::Tier2(*final(self)).view(),
            forall|j: u32|
                j != id ==> final(store).has_entity(j) == old(store).has_entity(j) && (old(
                    store,
                ).has_entity(j) ==> final(store).entity_at(j) == old(store).entity_at(j)),
    {
        let id = store.persist(Entity::Tier2(self.clone()));
        self.id = Some(id);
        id
    }
}

} // verus!
