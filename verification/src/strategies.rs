//! Convenience order strategies built on the matching engine: immediate
//! buys and sells at a caller price, liquidating all stock at the best
//! resting bid, and buying the shortfall a production recipe needs.

use vstd::prelude::*;
use crate::book::{has_row_of, is_best_price};
use crate::entity::{Entity, EntityModel};
use crate::exchange::{execute_post, Exchange, MatchError, MatchReport, Offer};
use crate::materials::{sat_mul_u32, Material};
use crate::offer_type::OfferType;
use crate::recipies::ConsumableRecipe;

verus! {

/// How one material fared during a liquidation.
#[derive(Debug)]
pub enum SellOutcome {
    /// Nothing of the material was owned, so nothing was offered.
    NoStock,
    /// No resting buy order exists for the material, so it was skipped.
    NoBuyInterest,
    /// A sell offer for the whole stock was submitted at the best bid.
    Sold(MatchReport),
    /// The match was aborted by the engine.
    Aborted(MatchError),
}

/// How one recipe input fared during a shortfall purchase.
#[derive(Debug)]
pub enum BuyOutcome {
    /// Enough of the input is already owned.
    Enough,
    /// No resting sell order exists for the input, so it was skipped.
    NoSellInterest,
    /// A buy offer for the shortfall was submitted at the best ask.
    Bought(MatchReport),
    /// The match was aborted by the engine.
    Aborted(MatchError),
}

/// What liquidating one material does. Without stock, or without a resting
/// bid, nothing at all happens and the outcome says which; otherwise a sell
/// of the whole stock at the highest resting bid is submitted, and the
/// outcome carries the engine's report or its abort.
pub open spec fn sell_step(
    item: Material,
    pre_ex: Exchange,
    post_ex: Exchange,
    pre_t: EntityModel,
    post_t: EntityModel,
    outcome: SellOutcome,
) -> bool {
    if pre_t.owns().amount_spec(item) == 0 {
        &&& outcome is NoStock
        &&& post_ex == pre_ex
        &&& post_t == pre_t
    } else if !has_row_of(pre_ex.book.rows@, item, OfferType::Buy) {
        &&& outcome is NoBuyInterest
        &&& post_ex == pre_ex
        &&& post_t == pre_t
    } else {
        exists|p: u32|
            #![trigger is_best_price(pre_ex.book.rows@, item, OfferType::Buy, p)]
            is_best_price(pre_ex.book.rows@, item, OfferType::Buy, p) && match outcome {
                SellOutcome::Sold(rep) => execute_post(
                    (Offer {
                        item,
                        quantity: pre_t.owns().amount_spec(item),
                        price: p,
                        offer_type: OfferType::Sell,
                    }),
                    pre_ex,
                    post_ex,
                    pre_t,
                    post_t,
                    Ok(rep),
                ),
                SellOutcome::Aborted(e) => execute_post(
                    (Offer {
                        item,
                        quantity: pre_t.owns().amount_spec(item),
                        price: p,
                        offer_type: OfferType::Sell,
                    }),
                    pre_ex,
                    post_ex,
                    pre_t,
                    post_t,
                    Err(e),
                ),
                _ => false,
            }
    }
}

/// What buying one recipe input's shortfall does. The needed total is
/// `amt_per_unit * units`, saturating at the largest representable
/// quantity. With enough on hand, or without a resting ask, nothing at all
/// happens and the outcome says which; otherwise a buy of exactly the
/// shortfall at the lowest resting ask is submitted.
pub open spec fn buy_step(
    mat: Material,
    amt_per_unit: u32,
    units: u32,
    pre_ex: Exchange,
    post_ex: Exchange,
    pre_t: EntityModel,
    post_t: EntityModel,
    outcome: BuyOutcome,
) -> bool {
    let needed = sat_mul_u32(amt_per_unit, units);
    if needed <= pre_t.owns().amount_spec(mat) {
        &&& outcome is Enough
        &&& post_ex == pre_ex
        &&& post_t == pre_t
    } else if !has_row_of(pre_ex.book.rows@, mat, OfferType::Sell) {
        &&& outcome is NoSellInterest
        &&& post_ex == pre_ex
        &&& post_t == pre_t
    } else {
        exists|p: u32|
            #![trigger is_best_price(pre_ex.book.rows@, mat, OfferType::Sell, p)]
            is_best_price(pre_ex.book.rows@, mat, OfferType::Sell, p) && match outcome {
                BuyOutcome::Bought(rep) => execute_post(
                    (Offer {
                        item: mat,
                        quantity: (needed - pre_t.owns().amount_spec(mat)) as u32,
                        price: p,
                        offer_type: OfferType::Buy,
                    }),
                    pre_ex,
                    post_ex,
                    pre_t,
                    post_t,
                    Ok(rep),
                ),
                BuyOutcome::Aborted(e) => execute_post(
                    (Offer {
                        item: mat,
                        quantity: (needed - pre_t.owns().amount_spec(mat)) as u32,
                        price: p,
                        offer_type: OfferType::Buy,
                    }),
                    pre_ex,
                    post_ex,
                    pre_t,
                    post_t,
                    Err(e),
                ),
                _ => false,
            }
    }
}

/// How an exchange changes when one entity is persisted into it: the book
/// is untouched and only the taker's own stored record is rewritten.
pub open spec fn saved_into(pre: Exchange, post: Exchange, taker: EntityModel) -> bool {
    &&& taker.id() is Some
    &&& post.book == pre.book
    &&& post.companies.next_id == pre.companies.next_id
    &&& forall|j: u32| post.companies.has_entity(j) == pre.companies.has_entity(j)
    &&& (pre.companies.has_entity(taker.id().unwrap()) ==> post.companies.entity_at(
        taker.id().unwrap(),
    ) == taker)
    &&& forall|j: u32|
        j != taker.id().unwrap() && pre.companies.has_entity(j) ==> post.companies.entity_at(j)
            == pre.companies.entity_at(j)
}

/// What buying the shortfalls of a whole recipe does: one `buy_step` per
/// input, in recipe order, each against the state the previous step left.
pub open spec fn buy_needed_post(
    inputs: Seq<(Material, u32)>,
    units: u32,
    pre_ex: Exchange,
    post_ex: Exchange,
    pre_t: EntityModel,
    post_t: EntityModel,
    r: Seq<(Material, BuyOutcome)>,
) -> bool {
    &&& r.len() == inputs.len()
    &&& (forall|i: int| 0 <= i < r.len() ==> (#[trigger] r[i]).0 == inputs[i].0)
    &&& exists|mids: Seq<(Exchange, EntityModel)>|
        #![trigger mids.len()]
        {
            &&& mids.len() == inputs.len() + 1
            &&& mids[0].0 == pre_ex
            &&& mids[0].1 == pre_t
            &&& mids[inputs.len() as int].0 == post_ex
            &&& mids[inputs.len() as int].1 == post_t
            &&& (forall|k: int|
                0 <= k < inputs.len() ==> #[trigger] buy_step(
                    inputs[k].0,
                    inputs[k].1,
                    units,
                    mids[k].0,
                    mids[k + 1].0,
                    mids[k].1,
                    mids[k + 1].1,
                    r[k].1,
                ))
        }
}

impl Entity {
    /// Submits a buy order for `amount` units of `item` at `price` and then
    /// persists this entity (again — the engine already persisted it, so
    /// the second save changes no record).
    pub fn quick_buy(&mut self, ex: &mut Exchange, item: Material, price: u32, amount: u32) -> (r:
        Result<MatchReport, MatchError>)
        requires
            old(ex).wf(),
            old(ex).book.next_id < u64::MAX,
            old(self)@.id() is Some,
        ensures
            final(ex).wf(),
            final(self)@.id() == old(self)@.id(),
            old(ex).book.next_id <= final(ex).book.next_id <= old(ex).book.next_id + 1,
            execute_post(
                (Offer { item, quantity: amount, price, offer_type: OfferType::Buy }),
                *old(ex),
                *final(ex),
                old(self)@,
                final(self)@,
                r,
            ),
    {
        let offer = Offer { item, quantity: amount, price, offer_type: OfferType::Buy };
        let r = offer.execute(ex, self);
        let ghost mid_ex = *ex;
        let ghost mid_taker = self@;
        let _ = self.save(&mut ex.companies);
        proof {
            let tid = old(self)@.id().unwrap();
            assert forall|j: u32| ex.companies.has_entity(j)
                == mid_ex.companies.has_entity(j) by {
                if j != tid {
                } else {
                    if !mid_ex.companies.has_entity(tid) {
                        assert(*ex == mid_ex);
                    }
                }
            }
            lemma_resave_keeps_post(offer, *old(ex), mid_ex, *ex, old(self)@, self@, r);
        }
        r
    }

    /// Submits a sell order for `amount` units of `item` at `price` and
    /// then persists this entity.
    pub fn quick_sell(&mut self, ex: &mut Exchange, item: Material, price: u32, amount: u32) -> (
        r: Result<MatchReport, MatchError>)
        requires
            old(ex).wf(),
            old(ex).book.next_id < u64::MAX,
            old(self)@.id() is Some,
        ensures
            final(ex).wf(),
            final(self)@.id() == old(self)@.id(),
            old(ex).book.next_id <= final(ex).book.next_id <= old(ex).book.next_id + 1,
            execute_post(
                (Offer { item, quantity: amount, price, offer_type: OfferType::Sell }),
                *old(ex),
                *final(ex),
                old(self)@,
                final(self)@,
                r,
            ),
    {
        let offer = Offer { item, quantity: amount, price, offer_type: OfferType::Sell };
        let r = offer.execute(ex, self);
        let ghost mid_ex = *ex;
        let ghost mid_taker = self@;
        let _ = self.save(&mut ex.companies);
        proof {
            let tid = old(self)@.id().unwrap();
            assert forall|j: u32| ex.companies.has_entity(j)
                == mid_ex.companies.has_entity(j) by {
                if j != tid {
                } else {
                    if !mid_ex.companies.has_entity(tid) {
                        assert(*ex == mid_ex);
                    }
                }
            }
            lemma_resave_keeps_post(offer, *old(ex), mid_ex, *ex, old(self)@, self@, r);
        }
        r
    }

    /// Offers this entity's whole stock of each material it owns for sale
    /// at the highest resting bid, in the fixed order electricity, water,
    /// grain, food; materials without stock or without buy interest are
    /// skipped, and the entity is persisted once at the end. Each step is a
    /// full `sell_step` against the state the previous step left. Selling
    /// never touches the seller's inventory (the engine's known gap) and
    /// never lowers its balance.
    pub fn sell_all(&mut self, ex: &mut Exchange) -> (r: Vec<(Material, SellOutcome)>)
        requires
            old(ex).wf(),
            old(ex).book.next_id + 4 <= u64::MAX,
            old(self)@.id() is Some,
        ensures
            final(ex).wf(),
            final(self)@.id() == old(self)@.id(),
            final(self)@.owns() == old(self)@.owns(),
            final(self)@.usd() >= old(self)@.usd(),
            r@.len() == 4,
            r@[0].0 == Material::Electricity,
            r@[1].0 == Material::Water,
            r@[2].0 == Material::Grain,
            r@[3].0 == Material::Food,
            forall|i: int|
                0 <= i < 4 ==> ((#[trigger] r@[i]).1 matches SellOutcome::NoStock <==> old(
                    self,
                )@.owns().amount_spec(r@[i].0) == 0),
            forall|i: int|
                0 <= i < 4 ==> match (#[trigger] r@[i]).1 {
                    SellOutcome::Sold(rep) => rep.remaining <= old(self)@.owns().amount_spec(
                        r@[i].0,
                    ),
                    _ => true,
                },
            exists|
                ex1: Exchange,
                t1: EntityModel,
                ex2: Exchange,
                t2: EntityModel,
                ex3: Exchange,
                t3: EntityModel,
                ex4: Exchange,
                t4: EntityModel,
            |
                #![trigger sell_step(Material::Electricity, *old(ex), ex1, old(self)@, t1, r@[0].1), sell_step(Material::Water, ex1, ex2, t1, t2, r@[1].1), sell_step(Material::Grain, ex2, ex3, t2, t3, r@[2].1), sell_step(Material::Food, ex3, ex4, t3, t4, r@[3].1)]
                {
                    &&& sell_step(Material::Electricity, *old(ex), ex1, old(self)@, t1, r@[0].1)
                    &&& sell_step(Material::Water, ex1, ex2, t1, t2, r@[1].1)
                    &&& sell_step(Material::Grain, ex2, ex3, t2, t3, r@[2].1)
                    &&& sell_step(Material::Food, ex3, ex4, t3, t4, r@[3].1)
                    &&& t4 == final(self)@
                    &&& saved_into(ex4, *final(ex), final(self)@)
                },
    {
        let mut out: Vec<(Material, SellOutcome)> = Vec::new();
        let o1 = self.sell_one(ex, Material::Electricity);
        let ghost ex1 = *ex;
        let ghost t1 = self@;
        out.push((Material::Electricity, o1));
        let o2 = self.sell_one(ex, Material::Water);
        let ghost ex2 = *ex;
        let ghost t2 = self@;
        out.push((Material::Water, o2));
        let o3 = self.sell_one(ex, Material::Grain);
        let ghost ex3 = *ex;
        let ghost t3 = self@;
        out.push((Material::Grain, o3));
        let o4 = self.sell_one(ex, Material::Food);
        let ghost ex4 = *ex;
        let ghost t4 = self@;
        out.push((Material::Food, o4));
        let _ = self.save(&mut ex.companies);
        proof {
            let tid = old(self)@.id().unwrap();
            assert(sell_step(Material::Electricity, *old(ex), ex1, old(self)@, t1, out@[0].1));
            assert(sell_step(Material::Water, ex1, ex2, t1, t2, out@[1].1));
            assert(sell_step(Material::Grain, ex2, ex3, t2, t3, out@[2].1));
            assert(sell_step(Material::Food, ex3, ex4, t3, t4, out@[3].1));
            assert(t4 == self@);
            assert forall|j: u32| ex.companies.has_entity(j)
                == ex4.companies.has_entity(j) by {
                if j != tid {
                } else {
                    if !ex4.companies.has_entity(tid) {
                        assert(*ex == ex4);
                    }
                }
            }
            assert(saved_into(ex4, *ex, self@));
        }
        out
    }

    /// Offers the whole owned stock of one material at the best resting
    /// bid.
    fn sell_one(&mut self, ex: &mut Exchange, item: Material) -> (r: SellOutcome)
        requires
            old(ex).wf(),
            old(ex).book.next_id < u64::MAX,
            old(self)@.id() is Some,
        ensures
            final(ex).wf(),
            final(self)@.id() == old(self)@.id(),
            final(self)@.owns() == old(self)@.owns(),
            final(self)@.usd() >= old(self)@.usd(),
            old(ex).book.next_id <= final(ex).book.next_id <= old(ex).book.next_id + 1,
            sell_step(item, *old(ex), *final(ex), old(self)@, final(self)@, r),
            (r matches SellOutcome::NoStock) <==> old(self)@.owns().amount_spec(item) == 0,
            match r {
                SellOutcome::Sold(rep) => rep.accepted && rep.remaining <= old(
                    self,
                )@.owns().amount_spec(item),
                _ => *final(self) == *old(self),
            },
    {
        let amount = self.materials().amount_of(item);
        if amount == 0 {
            return SellOutcome::NoStock;
        }
        match ex.book.max_buy_price(item) {
            None => SellOutcome::NoBuyInterest,
            Some(price) => {
                proof {
                    assert(is_best_price(ex.book.rows@, item, OfferType::Buy, price));
                }
                let offer = Offer { item, quantity: amount, price, offer_type: OfferType::Sell };
                let r = offer.execute(ex, self);
                match r {
                    Ok(rep) => {
                        proof {
                            crate::exchange::lemma_sums_nonneg(rep.legs@);
                        }
                        SellOutcome::Sold(rep)
                    },
                    Err(e) => SellOutcome::Aborted(e),
                }
            },
        }
    }

    /// Buys, for each input of `recipe` (handed in by the caller: the
    /// recipe lives on the facility, outside this entity view), whatever is
    /// missing to cover `units_worth_of` production units, at the lowest
    /// resting ask; amounts saturate at the largest representable quantity,
    /// and inputs already covered or without sell interest are skipped.
    /// Returns one outcome per recipe input, in recipe order; each step is
    /// a full `buy_step` against the state the previous step left.
    pub fn buy_needed(
        &mut self,
        ex: &mut Exchange,
        recipe: &ConsumableRecipe,
        units_worth_of: u32,
    ) -> (r: Vec<(Material, BuyOutcome)>)
        requires
            old(ex).wf(),
            old(ex).book.next_id + recipe.inputs@.len() <= u64::MAX,
            old(self)@.id() is Some,
        ensures
            final(ex).wf(),
            final(self)@.id() == old(self)@.id(),
            buy_needed_post(
                recipe.inputs@,
                units_worth_of,
                *old(ex),
                *final(ex),
                old(self)@,
                final(self)@,
                r@,
            ),
    {
        let n = recipe.inputs.len();
        let mut out: Vec<(Material, BuyOutcome)> = Vec::new();
        let mut i: usize = 0;
        let ghost mut mids: Seq<(Exchange, EntityModel)> = seq![(*ex, self@)];
        while i < n
            invariant
                i <= n,
                n == recipe.inputs@.len(),
                ex.wf(),
                self@.id() == old(self)@.id(),
                old(self)@.id() is Some,
                ex.book.next_id + (n - i) <= u64::MAX,
                out@.len() == i,
                forall|j: int| 0 <= j < i ==> (#[trigger] out@[j]).0 == recipe.inputs@[j].0,
                mids.len() == i + 1,
                mids[0].0 == *old(ex),
                mids[0].1 == old(self)@,
                mids[i as int].0 == *ex,
                mids[i as int].1 == self@,
                forall|k: int|
                    0 <= k < i ==> #[trigger] buy_step(
                        recipe.inputs@[k].0,
                        recipe.inputs@[k].1,
                        units_worth_of,
                        mids[k].0,
                        mids[k + 1].0,
                        mids[k].1,
                        mids[k + 1].1,
                        out@[k].1,
                    ),
            decreases n - i,
        {
            let (mat, amt_per_unit) = recipe.inputs[i];
            let ghost mids0 = mids;
            let outcome = self.buy_one(ex, mat, amt_per_unit, units_worth_of);
            out.push((mat, outcome));
            proof {
                mids = mids.push((*ex, self@));
                assert forall|k: int|
                    0 <= k < i + 1 implies #[trigger] buy_step(
                    recipe.inputs@[k].0,
                    recipe.inputs@[k].1,
                    units_worth_of,
                    mids[k].0,
                    mids[k + 1].0,
                    mids[k].1,
                    mids[k + 1].1,
                    out@[k].1,
                ) by {
                    if k < i {
                        assert(mids[k] == mids0[k]);
                        assert(mids[k + 1] == mids0[k + 1]);
                        assert(buy_step(
                            recipe.inputs@[k].0,
                            recipe.inputs@[k].1,
                            units_worth_of,
                            mids0[k].0,
                            mids0[k + 1].0,
                            mids0[k].1,
                            mids0[k + 1].1,
                            out@[k].1,
                        ));
                    }
                }
            }
            i += 1;
        }
        proof {
            assert(mids.len() == recipe.inputs@.len() + 1);
            assert(buy_needed_post(
                recipe.inputs@,
                units_worth_of,
                *old(ex),
                *ex,
                old(self)@,
                self@,
                out@,
            ));
        }
        out
    }

    /// Buys the shortfall of one recipe input at the best resting ask.
    fn buy_one(&mut self, ex: &mut Exchange, mat: Material, amt_per_unit: u32, units: u32) -> (r: BuyOutcome)
        requires
            old(ex).wf(),
            old(ex).book.next_id < u64::MAX,
            old(self)@.id() is Some,
        ensures
            final(ex).wf(),
            final(self)@.id() == old(self)@.id(),
            old(ex).book.next_id <= final(ex).book.next_id <= old(ex).book.next_id + 1,
            buy_step(mat, amt_per_unit, units, *old(ex), *final(ex), old(self)@, final(self)@, r),
    {
        let needed_total = match amt_per_unit.checked_mul(units) {
            Some(v) => v,
            None => u32::MAX,
        };
        let current_owned = self.materials().amount_of(mat);
        if needed_total <= current_owned {
            return BuyOutcome::Enough;
        }
        let need_to_buy = needed_total - current_owned;
        match ex.book.min_sell_price(mat) {
            None => BuyOutcome::NoSellInterest,
            Some(price) => {
                proof {
                    assert(is_best_price(ex.book.rows@, mat, OfferType::Sell, price));
                }
                let offer = Offer {
                    item: mat,
                    quantity: need_to_buy,
                    price,
                    offer_type: OfferType::Buy,
                };
                match offer.execute(ex, self) {
                    Ok(rep) => BuyOutcome::Bought(rep),
                    Err(e) => BuyOutcome::Aborted(e),
                }
            },
        }
    }
}

/// Persisting the taker once more, unchanged, keeps every guarantee of the
/// match it just took part in.
proof fn lemma_resave_keeps_post(
    offer: Offer,
    pre_ex: Exchange,
    mid_ex: Exchange,
    post_ex: Exchange,
    pre_taker: crate::entity::EntityModel,
    taker: crate::entity::EntityModel,
    r: Result<MatchReport, MatchError>,
)
    requires
        execute_post(offer, pre_ex, mid_ex, pre_taker, taker, r),
        post_ex.book == mid_ex.book,
        post_ex.companies.next_id == mid_ex.companies.next_id,
        forall|j: u32| post_ex.companies.has_entity(j) == mid_ex.companies.has_entity(j),
        taker.id() is Some,
        mid_ex.companies.has_entity(taker.id().unwrap()) ==> post_ex.companies.entity_at(
            taker.id().unwrap(),
        ) == taker,
        forall|j: u32|
            j != taker.id().unwrap() && mid_ex.companies.has_entity(j)
                ==> post_ex.companies.entity_at(j) == mid_ex.companies.entity_at(j),
    ensures
        execute_post(offer, pre_ex, post_ex, pre_taker, taker, r),
{
    if offer.valid_spec(pre_taker) && r is Ok {
    } else {
    }
}

} // verus!
