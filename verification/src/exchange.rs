//! The matching engine: crossing an incoming limit order against resting
//! opposite-side orders under price priority, settling every leg at the
//! resting (maker) price, and persisting the updated book state.

use vstd::prelude::*;
use crate::book::{rows_at, rows_has, rows_index, rows_unique, Book, BookRow};
use crate::entity::{Entity, EntityModel};
use crate::materials::Material;
use crate::offer_type::OfferType;

verus! {

/// Whether a resting order priced at `maker_price` crosses an incoming
/// `side` order limited at `limit`: a buyer accepts any resting sell at or
/// below its limit, a seller any resting buy at or above it.
pub open spec fn crosses(side: OfferType, limit: u32, maker_price: u32) -> bool {
    match side {
        OfferType::Buy => maker_price <= limit,
        OfferType::Sell => maker_price >= limit,
    }
}

/// Whether a resting row can trade against an incoming order for `item` on
/// `side` limited at `limit`.
pub open spec fn is_candidate(row: BookRow, item: Material, side: OfferType, limit: u32) -> bool {
    row.item == item && row.offer_type == side.opposite_spec() && crosses(side, limit, row.price)
}

/// Price priority: whether a resting order at `p1` (resting at book position
/// `i1`) is served before one at `p2` (position `i2`) by an incoming `side`
/// order. Cheaper sells serve a buyer first, dearer buys serve a seller
/// first; rows tied on price trade in insertion order.
pub open spec fn prio_before(side: OfferType, p1: u32, i1: int, p2: u32, i2: int) -> bool {
    if p1 == p2 {
        i1 < i2
    } else {
        match side {
            OfferType::Buy => p1 < p2,
            OfferType::Sell => p1 > p2,
        }
    }
}

/// One executed pairing of the incoming (taker) order with a resting
/// (maker) row.
#[derive(Clone, Copy, Debug, PartialEq, Eq, Structural)]
pub struct TradeLeg {
    /// The resting row traded against.
    pub row_id: u64,
    /// The entity owning the resting row.
    pub maker_entity_id: u32,
    pub maker_entity_type: i32,
    /// The execution price: always the resting row's own price.
    pub price: u32,
    /// The quantity traded on this leg.
    pub quantity: u32,
    /// Whether the resting row was fully consumed and deleted.
    pub maker_filled: bool,
}

/// The units traded over all legs.
pub open spec fn filled_total(legs: Seq<TradeLeg>) -> int
    decreases legs.len(),
{
    if legs.len() == 0 {
        0
    } else {
        filled_total(legs.drop_last()) + legs.last().quantity
    }
}

/// The currency traded over all legs.
pub open spec fn total_value(legs: Seq<TradeLeg>) -> int
    decreases legs.len(),
{
    if legs.len() == 0 {
        0
    } else {
        total_value(legs.drop_last()) + legs.last().quantity * legs.last().price
    }
}

/// The units taken off one resting row.
pub open spec fn qty_on_row(legs: Seq<TradeLeg>, row_id: u64) -> int
    decreases legs.len(),
{
    if legs.len() == 0 {
        0
    } else {
        qty_on_row(legs.drop_last(), row_id) + if legs.last().row_id == row_id {
            legs.last().quantity as int
        } else {
            0
        }
    }
}

/// The currency owed to (or by) one maker entity over all legs.
pub open spec fn cash_to_entity(legs: Seq<TradeLeg>, id: u32) -> int
    decreases legs.len(),
{
    if legs.len() == 0 {
        0
    } else {
        cash_to_entity(legs.drop_last(), id) + if legs.last().maker_entity_id == id {
            legs.last().quantity * legs.last().price
        } else {
            0
        }
    }
}

/// The units of material owed to one maker entity over all legs.
pub open spec fn mat_to_entity(legs: Seq<TradeLeg>, id: u32) -> int
    decreases legs.len(),
{
    if legs.len() == 0 {
        0
    } else {
        mat_to_entity(legs.drop_last(), id) + if legs.last().maker_entity_id == id {
            legs.last().quantity as int
        } else {
            0
        }
    }
}

/// How every per-leg sum grows when a leg is appended.
pub proof fn lemma_sums_push(legs: Seq<TradeLeg>, l: TradeLeg)
    ensures
        filled_total(legs.push(l)) == filled_total(legs) + l.quantity,
        total_value(legs.push(l)) == total_value(legs) + l.quantity * l.price,
        forall|id: u64|
            #[trigger] qty_on_row(legs.push(l), id) == qty_on_row(legs, id) + if l.row_id == id {
                l.quantity as int
            } else {
                0
            },
        forall|e: u32|
            #[trigger] cash_to_entity(legs.push(l), e) == cash_to_entity(legs, e)
                + if l.maker_entity_id == e {
                l.quantity * l.price
            } else {
                0
            },
        forall|e: u32|
            #[trigger] mat_to_entity(legs.push(l), e) == mat_to_entity(legs, e)
                + if l.maker_entity_id == e {
                l.quantity as int
            } else {
                0
            },
{
    assert(legs.push(l).drop_last() =~= legs);
    assert(legs.push(l).last() == l);
}

/// Every per-leg sum is non-negative.
pub proof fn lemma_sums_nonneg(legs: Seq<TradeLeg>)
    ensures
        filled_total(legs) >= 0,
        total_value(legs) >= 0,
        forall|id: u64| #[trigger] qty_on_row(legs, id) >= 0,
        forall|e: u32| #[trigger] cash_to_entity(legs, e) >= 0,
        forall|e: u32| #[trigger] mat_to_entity(legs, e) >= 0,
    decreases legs.len(),
{
    if legs.len() > 0 {
        lemma_sums_nonneg(legs.drop_last());
        assert(legs.last().quantity * legs.last().price >= 0) by (nonlinear_arith);
        assert forall|id: u64| #[trigger] qty_on_row(legs, id) >= 0 by {
            assert(qty_on_row(legs.drop_last(), id) >= 0);
        }
        assert forall|e: u32| #[trigger] cash_to_entity(legs, e) >= 0 by {
            assert(cash_to_entity(legs.drop_last(), e) >= 0);
        }
        assert forall|e: u32| #[trigger] mat_to_entity(legs, e) >= 0 by {
            assert(mat_to_entity(legs.drop_last(), e) >= 0);
        }
    }
}

/// The number of rows not yet fully consumed.
pub open spec fn live_count(rows: Seq<BookRow>) -> int
    decreases rows.len(),
{
    if rows.len() == 0 {
        0
    } else {
        live_count(rows.drop_last()) + if rows.last().quantity > 0 {
            1int
        } else {
            0
        }
    }
}

/// How the live-row count changes when one row's quantity is rewritten.
pub proof fn lemma_live_count_update(rows: Seq<BookRow>, i: int, r: BookRow)
    requires
        0 <= i < rows.len(),
    ensures
        live_count(rows.update(i, r)) == live_count(rows) - (if rows[i].quantity > 0 {
            1int
        } else {
            0
        }) + (if r.quantity > 0 {
            1int
        } else {
            0
        }),
    decreases rows.len(),
{
    let updated = rows.update(i, r);
    if i == rows.len() - 1 {
        assert(updated.drop_last() =~= rows.drop_last());
        assert(updated.last() == r);
    } else {
        assert(updated.drop_last() =~= rows.drop_last().update(i, r));
        assert(updated.last() == rows.last());
        lemma_live_count_update(rows.drop_last(), i, r);
    }
}

/// The live-row count never exceeds the number of rows and is never
/// negative.
pub proof fn lemma_live_count_bounds(rows: Seq<BookRow>)
    ensures
        0 <= live_count(rows) <= rows.len(),
    decreases rows.len(),
{
    if rows.len() > 0 {
        lemma_live_count_bounds(rows.drop_last());
    }
}

/// The best-priority row, among those not yet fully consumed, that crosses
/// the incoming order, if any.
pub(crate) fn find_best(book: &Book, item: Material, side: OfferType, limit: u32) -> (r: Option<
    usize,
>)
    ensures
        match r {
            Some(j) => j < book.rows@.len() && book.rows@[j as int].quantity > 0 && is_candidate(
                book.rows@[j as int],
                item,
                side,
                limit,
            ) && forall|c: int|
                0 <= c < book.rows@.len() && (#[trigger] book.rows@[c]).quantity > 0
                    && is_candidate(book.rows@[c], item, side, limit) && c != j ==> prio_before(
                    side,
                    book.rows@[j as int].price,
                    j as int,
                    book.rows@[c].price,
                    c,
                ),
            None => forall|c: int|
                0 <= c < book.rows@.len() ==> !((#[trigger] book.rows@[c]).quantity > 0
                    && is_candidate(book.rows@[c], item, side, limit)),
        },
{
    let n = book.rows.len();
    let mut best: Option<usize> = None;
    let mut k: usize = 0;
    while k < n
        invariant
            k <= n,
            n == book.rows@.len(),
            match best {
                Some(j) => j < k && book.rows@[j as int].quantity > 0 && is_candidate(
                    book.rows@[j as int],
                    item,
                    side,
                    limit,
                ) && forall|c: int|
                    0 <= c < k && (#[trigger] book.rows@[c]).quantity > 0 && is_candidate(
                        book.rows@[c],
                        item,
                        side,
                        limit,
                    ) && c != j ==> prio_before(
                        side,
                        book.rows@[j as int].price,
                        j as int,
                        book.rows@[c].price,
                        c,
                    ),
                None => forall|c: int|
                    0 <= c < k ==> !((#[trigger] book.rows@[c]).quantity > 0 && is_candidate(
                        book.rows@[c],
                        item,
                        side,
                        limit,
                    )),
            },
        decreases n - k,
    {
        let row = book.rows[k];
        let row_crosses = match side {
            OfferType::Buy => row.price <= limit,
            OfferType::Sell => row.price >= limit,
        };
        if row.quantity > 0 && row.item == item && row.offer_type == side.opposite()
            && row_crosses {
            best = match best {
                None => Some(k),
                Some(b) => {
                    let bp = book.rows[b].price;
                    if prio_lt(side, row.price, k, bp, b) {
                        Some(k)
                    } else {
                        Some(b)
                    }
                },
            };
        }
        k += 1;
    }
    best
}

/// Whether the incoming `side` order serves a row at `p1` (position `i1`)
/// before one at `p2` (position `i2`).
fn prio_lt(side: OfferType, p1: u32, i1: usize, p2: u32, i2: usize) -> (r: bool)
    ensures
        r == prio_before(side, p1, i1 as int, p2, i2 as int),
{
    if p1 == p2 {
        i1 < i2
    } else {
        match side {
            OfferType::Buy => p1 < p2,
            OfferType::Sell => p1 > p2,
        }
    }
}

/// No leg rests on a row that no leg names.
pub proof fn lemma_qty_on_row_zero(legs: Seq<TradeLeg>, id: u64)
    requires
        forall|i: int| 0 <= i < legs.len() ==> (#[trigger] legs[i]).row_id != id,
    ensures
        qty_on_row(legs, id) == 0,
    decreases legs.len(),
{
    if legs.len() > 0 {
        assert(legs.drop_last() =~= legs.subrange(0, legs.len() - 1));
        lemma_qty_on_row_zero(legs.drop_last(), id);
    }
}

/// With distinct rows per leg, the units taken off one row are exactly the
/// units of its single leg.
pub proof fn lemma_qty_on_row_single(legs: Seq<TradeLeg>, i: int)
    requires
        forall|a: int, b: int| 0 <= a < b < legs.len() ==> legs[a].row_id != legs[b].row_id,
        0 <= i < legs.len(),
    ensures
        qty_on_row(legs, legs[i].row_id) == legs[i].quantity,
    decreases legs.len(),
{
    let id = legs[i].row_id;
    if i == legs.len() - 1 {
        assert forall|a: int| 0 <= a < legs.drop_last().len() implies (#[trigger] legs.drop_last()[a]).row_id
            != id by {
            assert(legs[a].row_id != legs[i].row_id);
        }
        lemma_qty_on_row_zero(legs.drop_last(), id);
    } else {
        lemma_qty_on_row_single(legs.drop_last(), i);
        assert(legs.last().row_id != id);
    }
}

/// A row's state after the legs of one match have been taken off it.
pub open spec fn settled_row(r: BookRow, legs: Seq<TradeLeg>) -> BookRow {
    BookRow { quantity: (r.quantity - qty_on_row(legs, r.id)) as u32, ..r }
}

/// The book rows left after a match: every row loses what its legs traded,
/// and fully-consumed rows are deleted.
pub open spec fn settle_rows(rows: Seq<BookRow>, legs: Seq<TradeLeg>) -> Seq<BookRow>
    decreases rows.len(),
{
    if rows.len() == 0 {
        Seq::empty()
    } else {
        let rest = settle_rows(rows.drop_last(), legs);
        let s = settled_row(rows.last(), legs);
        if s.quantity > 0 {
            rest.push(s)
        } else {
            rest
        }
    }
}

/// Dropping the zero-quantity rows of a pointwise-settled book gives
/// exactly the settled rows.
pub proof fn lemma_settle_live(rows0: Seq<BookRow>, cur: Seq<BookRow>, legs: Seq<TradeLeg>)
    requires
        cur.len() == rows0.len(),
        forall|j: int| 0 <= j < rows0.len() ==> cur[j] == settled_row(#[trigger] rows0[j], legs),
    ensures
        crate::book::live_only(cur) == settle_rows(rows0, legs),
    decreases rows0.len(),
{
    if rows0.len() > 0 {
        assert(cur.drop_last().len() == rows0.drop_last().len());
        assert forall|j: int| 0 <= j < rows0.drop_last().len() implies cur.drop_last()[j]
            == settled_row(#[trigger] rows0.drop_last()[j], legs) by {
            assert(cur[j] == settled_row(rows0[j], legs));
        }
        lemma_settle_live(rows0.drop_last(), cur.drop_last(), legs);
        assert(cur.last() == settled_row(rows0.last(), legs));
    }
}

/// A transient trade intent: one attempt to buy or sell `quantity` units of
/// `item` at the limit price `price` (in minor currency units per unit).
#[derive(Clone, Copy, Debug, PartialEq, Eq, Structural)]
pub struct Offer {
    pub item: Material,
    pub quantity: u32,
    pub price: u32,
    pub offer_type: OfferType,
}

/// The order book together with the store of entities that own its orders.
#[derive(Debug)]
pub struct Exchange {
    pub book: Book,
    pub companies: crate::store::CompanyStore,
}

impl Exchange {
    pub open spec fn wf(self) -> bool {
        self.book.wf() && self.companies.wf()
    }

    /// An empty exchange.
    pub fn new() -> (r: Exchange)
        ensures
            r.wf(),
            r.book.rows@.len() == 0,
            r.book.next_id == 1,
            r.companies.next_id == 1,
            forall|id: u32| !r.companies.has_entity(id),
    {
        Exchange { book: Book::new(), companies: crate::store::CompanyStore::new() }
    }
}

/// What one submission did: the legs it executed, in execution order, the
/// unfilled remainder and, if that remainder was persisted, the new resting
/// row's identifier. A rejected (invalid) order reports `accepted == false`
/// and no effect.
#[derive(Debug)]
pub struct MatchReport {
    pub accepted: bool,
    pub legs: Vec<TradeLeg>,
    pub remaining: u32,
    pub rested_id: Option<u64>,
}

/// Why a match was aborted: a resting row references an entity the store
/// does not hold.
#[derive(Clone, Copy, Debug, PartialEq, Eq, Structural)]
pub enum MatchError {
    ReferentialGap { row_id: u64, entity_id: u32 },
}

/// Every leg pairs the order with a distinct resting row of the old book
/// that crosses it, executes at that row's own price, within that row's
/// quantity, and records whether it consumed the row.
pub open spec fn legs_wf(rows0: Seq<BookRow>, offer: Offer, legs: Seq<TradeLeg>) -> bool {
    &&& forall|i: int| 0 <= i < legs.len() ==> leg_wf(rows0, offer, #[trigger] legs[i])
    &&& forall|i: int, j: int| 0 <= i < j < legs.len() ==> legs[i].row_id != legs[j].row_id
}

pub open spec fn leg_wf(rows0: Seq<BookRow>, offer: Offer, l: TradeLeg) -> bool {
    &&& rows_has(rows0, l.row_id)
    &&& {
        let row = rows_at(rows0, l.row_id);
        &&& is_candidate(row, offer.item, offer.offer_type, offer.price)
        &&& l.price == row.price
        &&& l.maker_entity_id == row.entity_id
        &&& l.maker_entity_type == row.entity_type
        &&& 0 < l.quantity <= row.quantity
        &&& (l.maker_filled <==> l.quantity == row.quantity)
    }
}

/// Legs execute in strict price-priority order.
pub open spec fn legs_prioritized(
    rows0: Seq<BookRow>,
    side: OfferType,
    legs: Seq<TradeLeg>,
) -> bool {
    forall|i: int, j: int|
        0 <= i < j < legs.len() ==> prio_before(
            side,
            legs[i].price,
            rows_index(rows0, legs[i].row_id),
            legs[j].price,
            rows_index(rows0, legs[j].row_id),
        )
}

/// Each leg trades the most it can: the whole resting row, or everything the
/// order still wants.
pub open spec fn legs_greedy(
    rows0: Seq<BookRow>,
    offer: Offer,
    legs: Seq<TradeLeg>,
    remaining: u32,
) -> bool {
    &&& forall|i: int|
        0 <= i < legs.len() ==> (#[trigger] legs[i]).quantity == vstd::math::min(
            rows_at(rows0, legs[i].row_id).quantity as int,
            offer.quantity - filled_total(legs.take(i)),
        )
    &&& filled_total(legs) + remaining == offer.quantity
}

/// A crossing row is left unmatched only when the order was already filled,
/// and every executed leg had priority over it.
pub open spec fn match_exhaustive(
    rows0: Seq<BookRow>,
    offer: Offer,
    legs: Seq<TradeLeg>,
    remaining: u32,
) -> bool {
    forall|k: int|
        0 <= k < rows0.len() && is_candidate(
            #[trigger] rows0[k],
            offer.item,
            offer.offer_type,
            offer.price,
        ) && qty_on_row(legs, rows0[k].id) == 0 ==> remaining == 0 && (forall|i: int|
            0 <= i < legs.len() ==> prio_before(
                offer.offer_type,
                (#[trigger] legs[i]).price,
                rows_index(rows0, legs[i].row_id),
                rows0[k].price,
                k,
            ))
}

/// The book after a match: settled rows, plus — when the order was not
/// fully filled — a new resting row holding the remainder verbatim.
pub open spec fn book_after(
    pre: Book,
    post: Book,
    offer: Offer,
    legs: Seq<TradeLeg>,
    remaining: u32,
    rested: Option<u64>,
    taker: EntityModel,
) -> bool {
    if remaining > 0 {
        &&& rested == Some(pre.next_id)
        &&& post.next_id == pre.next_id + 1
        &&& post.rows@ == settle_rows(pre.rows@, legs).push(
            BookRow {
                id: pre.next_id,
                item: offer.item,
                offer_type: offer.offer_type,
                quantity: remaining,
                price: offer.price,
                entity_id: taker.id().unwrap(),
                entity_type: taker.type_code(),
            },
        )
    } else {
        &&& rested is None
        &&& post.next_id == pre.next_id
        &&& post.rows@ == settle_rows(pre.rows@, legs)
    }
}

/// The taker's state after a match. A buyer pays exactly the summed leg
/// values — never more than its balance held at submission — and gains the
/// traded units; a seller is credited the summed leg values. A seller's
/// inventory is not debited here: the engine does not verify or collect
/// sold stock, a known gap of the design.
pub open spec fn taker_after(
    offer: Offer,
    t0: EntityModel,
    t: EntityModel,
    legs: Seq<TradeLeg>,
) -> bool {
    match offer.offer_type {
        OfferType::Buy => {
            &&& total_value(legs) <= t0.usd()
            &&& t == t0.with_usd((t0.usd() - total_value(legs)) as u64).with_owns(
                t0.owns().with_amount(
                    offer.item,
                    crate::materials::sat_add_u32_int(
                        t0.owns().amount_spec(offer.item),
                        filled_total(legs),
                    ),
                ),
            )
        },
        OfferType::Sell => t == t0.with_usd(
            crate::money::sat_add_u64_int(t0.usd(), total_value(legs)),
        ),
    }
}

/// A maker entity's state after a match: the counterparty of a buyer is
/// credited its legs' value; the counterparty of a seller pays its legs'
/// value and gains the traded units. A resting buyer whose balance has
/// fallen below its commitment since it was listed pays only down to zero
/// while the seller is still credited in full: validity is checked at
/// submission, never re-checked per leg.
#[verifier::opaque]
pub open spec fn maker_effect(
    e: EntityModel,
    offer: Offer,
    legs: Seq<TradeLeg>,
    id: u32,
) -> EntityModel {
    match offer.offer_type {
        OfferType::Buy => e.with_usd(
            crate::money::sat_add_u64_int(e.usd(), cash_to_entity(legs, id)),
        ),
        OfferType::Sell => e.with_usd(
            crate::money::sat_sub_u64_int(e.usd(), cash_to_entity(legs, id)),
        ).with_owns(
            e.owns().with_amount(
                offer.item,
                crate::materials::sat_add_u32_int(
                    e.owns().amount_spec(offer.item),
                    mat_to_entity(legs, id),
                ),
            ),
        ),
    }
}

impl Offer {
    /// An offer is valid when its owner can pay for it in full at the limit
    /// price; sell offers are always valid (the engine does not verify that
    /// the seller holds the stock, a known gap of the design).
    pub open spec fn valid_spec(self, entity: EntityModel) -> bool {
        match self.offer_type {
            OfferType::Buy => entity.usd() >= self.quantity * self.price,
            OfferType::Sell => true,
        }
    }

    pub fn valid(&self, entity: &Entity) -> (r: bool)
        ensures
            r == self.valid_spec(entity@),
    {
        match self.offer_type {
            OfferType::Buy => {
                let cost = crate::money::leg_value(self.quantity, self.price);
                entity.usd() >= cost
            },
            OfferType::Sell => true,
        }
    }
}

/// Finds a crossing row whose owning entity is missing from the store, if
/// any: such a row would make the match unexecutable.
fn orphan_scan(
    book: &Book,
    companies: &crate::store::CompanyStore,
    item: Material,
    side: OfferType,
    limit: u32,
) -> (r: Option<(u64, u32)>)
    requires
        companies.wf(),
        rows_unique(book.rows@),
    ensures
        match r {
            Some(p) => rows_has(book.rows@, p.0) && is_candidate(
                rows_at(book.rows@, p.0),
                item,
                side,
                limit,
            ) && rows_at(book.rows@, p.0).entity_id == p.1 && !companies.has_entity(p.1),
            None => forall|k: int|
                0 <= k < book.rows@.len() && is_candidate(
                    #[trigger] book.rows@[k],
                    item,
                    side,
                    limit,
                ) ==> companies.has_entity(book.rows@[k].entity_id),
        },
{
    let n = book.rows.len();
    let mut k: usize = 0;
    while k < n
        invariant
            k <= n,
            n == book.rows@.len(),
            companies.wf(),
            rows_unique(book.rows@),
            forall|j: int|
                0 <= j < k && is_candidate(#[trigger] book.rows@[j], item, side, limit)
                    ==> companies.has_entity(book.rows@[j].entity_id),
        decreases n - k,
    {
        let row = book.rows[k];
        let row_crosses = match side {
            OfferType::Buy => row.price <= limit,
            OfferType::Sell => row.price >= limit,
        };
        if row.item == item && row.offer_type == side.opposite() && row_crosses {
            if !companies.contains_entity(row.entity_id) {
                proof {
                    assert(rows_has(book.rows@, row.id));
                    crate::book::lemma_rows_index(book.rows@, row.id);
                    assert(rows_at(book.rows@, row.id) == row);
                }
                return Some((row.id, row.entity_id));
            }
        }
        k += 1;
    }
    None
}

/// The entity store after a match: the taker's record holds its final
/// state, every other entity shows exactly its maker effect (none, for
/// entities that took no leg).
pub open spec fn store_after(
    pre: crate::store::CompanyStore,
    post: crate::store::CompanyStore,
    offer: Offer,
    legs: Seq<TradeLeg>,
    taker: EntityModel,
) -> bool {
    &&& post.next_id == pre.next_id
    &&& forall|j: u32| post.has_entity(j) == pre.has_entity(j)
    &&& forall|j: u32|
        pre.has_entity(j) && Some(j) == taker.id() ==> post.entity_at(j) == taker
    &&& forall|j: u32|
        pre.has_entity(j) && Some(j) != taker.id() ==> post.entity_at(j) == maker_effect(
            pre.entity_at(j),
            offer,
            legs,
            j,
        )
}

/// Everything that holds at every step of one match: the book is the old
/// book with the executed legs taken off it, every maker entity shows its
/// maker effect, the taker has paid and received exactly its legs, and the
/// legs themselves are well-formed, prioritized and greedy.
pub open spec fn match_loop_inv(
    offer: Offer,
    ex: Exchange,
    taker: EntityModel,
    legs: Seq<TradeLeg>,
    remaining: u32,
    rows0: Seq<BookRow>,
    store0: crate::store::CompanyStore,
    taker0: EntityModel,
    book_next0: u64,
) -> bool {
    &&& ex.companies.wf()
    &&& rows_unique(rows0)
    &&& crate::book::rows_bounded(rows0, book_next0)
    &&& (forall|j: int| 0 <= j < rows0.len() ==> (#[trigger] rows0[j]).quantity > 0)
    &&& book_next0 < u64::MAX
    &&& offer.valid_spec(taker0)
    &&& taker0.id() is Some
    &&& (forall|k: int|
        0 <= k < rows0.len() && is_candidate(
            #[trigger] rows0[k],
            offer.item,
            offer.offer_type,
            offer.price,
        ) ==> store0.has_entity(rows0[k].entity_id))
    &&& ex.book.next_id == book_next0
    &&& ex.book.rows@.len() == rows0.len()
    &&& (forall|j: int|
        0 <= j < rows0.len() ==> ex.book.rows@[j] == settled_row(#[trigger] rows0[j], legs))
    &&& (forall|j: int|
        0 <= j < rows0.len() ==> qty_on_row(legs, (#[trigger] rows0[j]).id)
            <= rows0[j].quantity)
    &&& legs_wf(rows0, offer, legs)
    &&& legs_prioritized(rows0, offer.offer_type, legs)
    &&& (forall|i: int|
        0 <= i < legs.len() ==> (#[trigger] legs[i]).quantity == vstd::math::min(
            rows_at(rows0, legs[i].row_id).quantity as int,
            offer.quantity - filled_total(legs.take(i)),
        ))
    &&& filled_total(legs) + remaining == offer.quantity
    &&& (remaining > 0 ==> forall|i: int|
        0 <= i < legs.len() ==> (#[trigger] legs[i]).maker_filled)
    &&& (forall|i: int, c: int|
        0 <= i < legs.len() && 0 <= c < rows0.len() && ex.book.rows@[c].quantity > 0
            && qty_on_row(legs, rows0[c].id) == 0 && is_candidate(
            #[trigger] rows0[c],
            offer.item,
            offer.offer_type,
            offer.price,
        ) ==> prio_before(
            offer.offer_type,
            (#[trigger] legs[i]).price,
            rows_index(rows0, legs[i].row_id),
            rows0[c].price,
            c,
        ))
    &&& ex.companies.next_id == store0.next_id
    &&& (forall|j: u32| ex.companies.has_entity(j) == store0.has_entity(j))
    &&& (forall|j: u32|
        store0.has_entity(j) ==> ex.companies.entity_at(j) == maker_effect(
            store0.entity_at(j),
            offer,
            legs,
            j,
        ))
    &&& taker.id() == taker0.id()
    &&& (offer.offer_type == OfferType::Buy ==> total_value(legs) + remaining * offer.price
        <= taker0.usd())
    &&& taker_after(offer, taker0, taker, legs)
}

/// The trade leg taking `q` units off `row`.
pub open spec fn make_leg(row: BookRow, q: u32) -> TradeLeg {
    TradeLeg {
        row_id: row.id,
        maker_entity_id: row.entity_id,
        maker_entity_type: row.entity_type,
        price: row.price,
        quantity: q,
        maker_filled: q == row.quantity,
    }
}

/// Settles one leg between the taker and the maker's stored record: the
/// money and the goods move in opposite directions at the resting row's
/// price, and the maker's record is persisted at once.
#[verifier::rlimit(100)]
#[verifier::spinoff_prover]
fn settle_leg_entities(
    offer: &Offer,
    companies: &mut crate::store::CompanyStore,
    entity: &mut Entity,
    row: BookRow,
    q: u32,
    remaining: u32,
    Ghost(legs0): Ghost<Seq<TradeLeg>>,
    Ghost(store0): Ghost<crate::store::CompanyStore>,
    Ghost(taker0): Ghost<EntityModel>,
)
    requires
        old(companies).wf(),
        old(companies).next_id == store0.next_id,
        forall|j: u32| old(companies).has_entity(j) == store0.has_entity(j),
        forall|j: u32|
            store0.has_entity(j) ==> old(companies).entity_at(j) == maker_effect(
                store0.entity_at(j),
                *offer,
                legs0,
                j,
            ),
        store0.has_entity(row.entity_id),
        taker_after(*offer, taker0, old(entity)@, legs0),
        old(entity)@.id() == taker0.id(),
        crosses(offer.offer_type, offer.price, row.price),
        0 < q <= remaining,
        q <= row.quantity,
        offer.offer_type == OfferType::Buy ==> total_value(legs0) + remaining * offer.price
            <= taker0.usd(),
    ensures
        final(companies).wf(),
        final(companies).next_id == store0.next_id,
        forall|j: u32| final(companies).has_entity(j) == store0.has_entity(j),
        forall|j: u32|
            store0.has_entity(j) ==> final(companies).entity_at(j) == maker_effect(
                store0.entity_at(j),
                *offer,
                legs0.push(make_leg(row, q)),
                j,
            ),
        taker_after(*offer, taker0, final(entity)@, legs0.push(make_leg(row, q))),
        final(entity)@.id() == taker0.id(),
        offer.offer_type == OfferType::Buy ==> total_value(legs0.push(make_leg(row, q))) + (
        remaining - q) * offer.price <= taker0.usd(),
{
    proof {
        lemma_sums_nonneg(legs0);
        lemma_sums_push(legs0, make_leg(row, q));
    }
    let value = crate::money::leg_value(q, row.price);
    let mut maker = match companies.load_entity(row.entity_id) {
        Some(m) => m,
        None => vstd::pervasive::unreached(),
    };
    match offer.offer_type {
        OfferType::Buy => {
            proof {
                let tv = total_value(legs0);
                let usd0 = taker0.usd() as int;
                assert(q * row.price <= remaining * offer.price && tv + q * row.price + (
                remaining - q) * offer.price <= usd0) by (nonlinear_arith)
                    requires
                        row.price <= offer.price,
                        0 <= q <= remaining,
                        tv + remaining * offer.price <= usd0,
                        tv >= 0,
                ;
                assert(value <= entity@.usd());
            }
            entity.add_material(offer.item, q);
            entity.spend(value);
            maker.earn(value);
        },
        OfferType::Sell => {
            maker.add_material(offer.item, q);
            maker.spend(value);
            entity.earn(value);
        },
    }
    let _ = companies.persist(maker);
    proof {
        let leg = make_leg(row, q);
        assert forall|j: u32| store0.has_entity(j) implies companies.entity_at(j) == maker_effect(
            store0.entity_at(j),
            *offer,
            legs0.push(leg),
            j,
        ) by {
            lemma_maker_effect_push(store0.entity_at(j), *offer, legs0, leg, j);
        }
    }
}

/// Executes one leg of a match against the live candidate row at `ri`.
#[verifier::rlimit(100)]
#[verifier::spinoff_prover]
fn execute_leg(
    offer: &Offer,
    ex: &mut Exchange,
    entity: &mut Entity,
    legs: &mut Vec<TradeLeg>,
    remaining: &mut u32,
    ri: usize,
    Ghost(rows0): Ghost<Seq<BookRow>>,
    Ghost(store0): Ghost<crate::store::CompanyStore>,
    Ghost(taker0): Ghost<EntityModel>,
    Ghost(book_next0): Ghost<u64>,
)
    requires
        match_loop_inv(
            *offer,
            *old(ex),
            old(entity)@,
            old(legs)@,
            *old(remaining),
            rows0,
            store0,
            taker0,
            book_next0,
        ),
        *old(remaining) > 0,
        ri < old(ex).book.rows@.len(),
        old(ex).book.rows@[ri as int].quantity > 0,
        is_candidate(old(ex).book.rows@[ri as int], offer.item, offer.offer_type, offer.price),
        forall|c: int|
            0 <= c < old(ex).book.rows@.len() && (#[trigger] old(ex).book.rows@[c]).quantity > 0
                && is_candidate(old(ex).book.rows@[c], offer.item, offer.offer_type, offer.price)
                && c != ri ==> prio_before(
                offer.offer_type,
                old(ex).book.rows@[ri as int].price,
                ri as int,
                old(ex).book.rows@[c].price,
                c,
            ),
    ensures
        match_loop_inv(
            *offer,
            *final(ex),
            final(entity)@,
            final(legs)@,
            *final(remaining),
            rows0,
            store0,
            taker0,
            book_next0,
        ),
        live_count(final(ex).book.rows@) <= live_count(old(ex).book.rows@),
        live_count(final(ex).book.rows@) < live_count(old(ex).book.rows@) || *final(remaining)
            < *old(remaining),
{
    let ghost legs0 = legs@;
    let ghost tid = taker0.id().unwrap();
    let row = ex.book.rows[ri];
    proof {
        lemma_sums_nonneg(legs0);
        // a row still alive while quantity remains was never matched before
        assert(row == settled_row(rows0[ri as int], legs0));
        if qty_on_row(legs0, rows0[ri as int].id) != 0 {
            lemma_qty_nonzero_has_leg(legs0, rows0[ri as int].id);
            let rid = rows0[ri as int].id;
            let i = choose|i: int| 0 <= i < legs0.len() && #[trigger] legs0[i].row_id == rid;
            assert(legs0[i].maker_filled);
            lemma_qty_on_row_single(legs0, i);
            assert(rows_at(rows0, legs0[i].row_id) == rows0[ri as int]) by {
                crate::book::lemma_rows_index(rows0, legs0[i].row_id);
            }
            assert(row.quantity == 0);
        }
        assert(row == rows0[ri as int]);
        assert(rows_has(rows0, row.id));
        crate::book::lemma_rows_index(rows0, row.id);
        assert(rows_index(rows0, row.id) == ri as int);
    }
    let q = if *remaining < row.quantity {
        *remaining
    } else {
        row.quantity
    };
    settle_leg_entities(
        offer,
        &mut ex.companies,
        entity,
        row,
        q,
        *remaining,
        Ghost(legs0),
        Ghost(store0),
        Ghost(taker0),
    );
    let new_qty = row.quantity - q;
    let ghost rows_before = ex.book.rows@;
    ex.book.rows.set(ri, BookRow { quantity: new_qty, ..row });
    let leg = TradeLeg {
        row_id: row.id,
        maker_entity_id: row.entity_id,
        maker_entity_type: row.entity_type,
        price: row.price,
        quantity: q,
        maker_filled: new_qty == 0,
    };
    legs.push(leg);
    *remaining = *remaining - q;
    proof {
        lemma_sums_push(legs0, leg);
        lemma_live_count_update(rows_before, ri as int, BookRow { quantity: new_qty, ..row });
        lemma_live_count_bounds(rows_before);
        lemma_live_count_bounds(ex.book.rows@);
        assert(legs@.take(legs0.len() as int) =~= legs0);
        assert forall|i: int| 0 <= i < legs@.len() implies (#[trigger] legs@[i]).quantity
            == vstd::math::min(
            rows_at(rows0, legs@[i].row_id).quantity as int,
            offer.quantity - filled_total(legs@.take(i)),
        ) by {
            assert(legs@.take(i) =~= legs0.take(i));
            if i < legs0.len() {
                assert(legs0[i].quantity == vstd::math::min(
                    rows_at(rows0, legs0[i].row_id).quantity as int,
                    offer.quantity - filled_total(legs0.take(i)),
                ));
            }
        }
        assert forall|j: int| 0 <= j < rows0.len() implies ex.book.rows@[j] == settled_row(
            #[trigger] rows0[j],
            legs@,
        ) && qty_on_row(legs@, rows0[j].id) <= rows0[j].quantity by {
            if j != ri as int {
                assert(rows0[j].id != rows0[ri as int].id);
                assert(qty_on_row(legs@, rows0[j].id) == qty_on_row(legs0, rows0[j].id));
            }
        }
        assert(leg == make_leg(row, q));
        assert(legs@ == legs0.push(leg));
        // each leg is well-formed, and legs never share a row
        assert forall|i: int| 0 <= i < legs@.len() implies leg_wf(
            rows0,
            *offer,
            #[trigger] legs@[i],
        ) by {
            if i < legs0.len() {
                assert(leg_wf(rows0, *offer, legs0[i]));
            }
        }
        assert forall|i: int, j: int| 0 <= i < j < legs@.len() implies legs@[i].row_id
            != legs@[j].row_id by {
            if j < legs0.len() {
                assert(legs0[i].row_id != legs0[j].row_id);
            } else {
                if legs0[i].row_id == leg.row_id {
                    lemma_qty_on_row_single(legs0, i);
                }
            }
        }
        // priority order extends to the new leg
        assert forall|i: int, j: int| 0 <= i < j < legs@.len() implies prio_before(
            offer.offer_type,
            legs@[i].price,
            rows_index(rows0, legs@[i].row_id),
            legs@[j].price,
            rows_index(rows0, legs@[j].row_id),
        ) by {
            if j < legs0.len() {
                assert(prio_before(
                    offer.offer_type,
                    legs0[i].price,
                    rows_index(rows0, legs0[i].row_id),
                    legs0[j].price,
                    rows_index(rows0, legs0[j].row_id),
                ));
            } else {
                assert(rows_before[ri as int].quantity > 0);
                assert(qty_on_row(legs0, rows0[ri as int].id) == 0);
                assert(prio_before(
                    offer.offer_type,
                    legs0[i].price,
                    rows_index(rows0, legs0[i].row_id),
                    rows0[ri as int].price,
                    ri as int,
                ));
            }
        }
        // while quantity remains, every matched row was fully consumed
        assert forall|i: int|
            *remaining > 0 && 0 <= i < legs@.len() implies (#[trigger] legs@[i]).maker_filled by {
            if i < legs0.len() {
            }
        }
        // the priority frontier still holds of every live unmatched candidate
        assert forall|i: int, c: int|
            0 <= i < legs@.len() && 0 <= c < rows0.len() && ex.book.rows@[c].quantity > 0
                && qty_on_row(legs@, rows0[c].id) == 0 && is_candidate(
                #[trigger] rows0[c],
                offer.item,
                offer.offer_type,
                offer.price,
            ) implies prio_before(
            offer.offer_type,
            (#[trigger] legs@[i]).price,
            rows_index(rows0, legs@[i].row_id),
            rows0[c].price,
            c,
        ) by {
            assert(qty_on_row(legs@, rows0[c].id) == qty_on_row(legs0, rows0[c].id) + (
            if leg.row_id == rows0[c].id {
                leg.quantity as int
            } else {
                0
            }));
            lemma_sums_nonneg(legs0);
            assert(c != ri as int);
            assert(ex.book.rows@[c] == rows_before[c]);
            if i < legs0.len() {
            } else {
                assert(rows_before[c] == settled_row(rows0[c], legs0));
                assert(rows_before[c].price == rows0[c].price);
            }
        }
    }
}

/// Everything one submission guarantees. An invalid offer is rejected with
/// no effect. An accepted offer yields well-formed, prioritized, greedy and
/// exhaustive legs against the old book, the settled book (plus the rested
/// remainder, if any), the taker's exact debit or credit, and every maker's
/// exact effect in the store. A referential gap is reported — naming an
/// orphaned crossing row — exactly when one exists, and changes nothing.
pub open spec fn execute_post(
    offer: Offer,
    pre_ex: Exchange,
    post_ex: Exchange,
    pre_taker: EntityModel,
    post_taker: EntityModel,
    r: Result<MatchReport, MatchError>,
) -> bool {
    &&& (!offer.valid_spec(pre_taker) ==> r is Ok && !r.unwrap().accepted && r.unwrap().legs@
        == Seq::<TradeLeg>::empty() && r.unwrap().remaining == offer.quantity
        && r.unwrap().rested_id is None && post_ex.book == pre_ex.book && post_taker == pre_taker)
    &&& (offer.valid_spec(pre_taker) && r is Ok ==> {
        let rep = r.unwrap();
        &&& rep.accepted
        &&& rep.remaining <= offer.quantity
        &&& legs_wf(pre_ex.book.rows@, offer, rep.legs@)
        &&& legs_prioritized(pre_ex.book.rows@, offer.offer_type, rep.legs@)
        &&& legs_greedy(pre_ex.book.rows@, offer, rep.legs@, rep.remaining)
        &&& match_exhaustive(pre_ex.book.rows@, offer, rep.legs@, rep.remaining)
        &&& book_after(
            pre_ex.book,
            post_ex.book,
            offer,
            rep.legs@,
            rep.remaining,
            rep.rested_id,
            post_taker,
        )
        &&& taker_after(offer, pre_taker, post_taker, rep.legs@)
        &&& store_after(pre_ex.companies, post_ex.companies, offer, rep.legs@, post_taker)
    })
    &&& (offer.valid_spec(pre_taker) ==> ((r is Err) <==> exists|k: int|
        0 <= k < pre_ex.book.rows@.len() && is_candidate(
            #[trigger] pre_ex.book.rows@[k],
            offer.item,
            offer.offer_type,
            offer.price,
        ) && !pre_ex.companies.has_entity(pre_ex.book.rows@[k].entity_id)))
    &&& (r is Err ==> post_ex.book == pre_ex.book && post_taker == pre_taker)
    &&& match r {
        Err(MatchError::ReferentialGap { row_id, entity_id }) => {
            &&& rows_has(pre_ex.book.rows@, row_id)
            &&& is_candidate(
                rows_at(pre_ex.book.rows@, row_id),
                offer.item,
                offer.offer_type,
                offer.price,
            )
            &&& rows_at(pre_ex.book.rows@, row_id).entity_id == entity_id
            &&& !pre_ex.companies.has_entity(entity_id)
        },
        Ok(_) => true,
    }
}

impl Offer {
    /// Submits this offer against the exchange on behalf of `entity`, which
    /// must have been persisted at least once. An invalid offer is a clean
    /// no-op. Otherwise the offer crosses resting opposite-side rows in
    /// strict price priority, settles every leg at the resting row's price,
    /// persists every counterparty, rests any remainder verbatim as a new
    /// row, and persists `entity` itself — unless some crossing row
    /// references a missing entity, in which case nothing at all is changed
    /// and the orphaned row is reported.
    #[verifier::rlimit(100)]
    pub fn execute(&self, ex: &mut Exchange, entity: &mut crate::entity::Entity) -> (r: Result<
        MatchReport,
        MatchError,
    >)
        requires
            old(ex).wf(),
            old(ex).book.next_id < u64::MAX,
            old(entity)@.id() is Some,
        ensures
            final(ex).wf(),
            final(entity)@.id() == old(entity)@.id(),
            old(ex).book.next_id <= final(ex).book.next_id <= old(ex).book.next_id + 1,
            execute_post(*self, *old(ex), *final(ex), old(entity)@, final(entity)@, r),
            !self.valid_spec(old(entity)@) || r is Err ==> *final(ex) == *old(ex)
                && *final(entity) == *old(entity),
    {
        if !self.valid(entity) {
            return Ok(
                MatchReport {
                    accepted: false,
                    legs: Vec::new(),
                    remaining: self.quantity,
                    rested_id: None,
                },
            );
        }
        match orphan_scan(&ex.book, &ex.companies, self.item, self.offer_type, self.price) {
            Some((row_id, entity_id)) => {
                return Err(MatchError::ReferentialGap { row_id, entity_id });
            },
            None => {},
        }
        let ghost rows0 = ex.book.rows@;
        let ghost store0 = ex.companies;
        let ghost taker0 = entity@;
        let ghost book_next0 = ex.book.next_id;

        let mut legs: Vec<TradeLeg> = Vec::new();
        let mut remaining: u32 = self.quantity;
        proof {
            assert forall|j: u32| store0.has_entity(j) implies ex.companies.entity_at(j)
                == maker_effect(store0.entity_at(j), *self, legs@, j) by {
                lemma_maker_effect_empty(store0.entity_at(j), *self, j);
                assert(legs@ =~= Seq::<TradeLeg>::empty());
            }
            assert(legs@ =~= Seq::<TradeLeg>::empty());
        }
        loop
            invariant
                match_loop_inv(
                    *self,
                    *ex,
                    entity@,
                    legs@,
                    remaining,
                    rows0,
                    store0,
                    taker0,
                    book_next0,
                ),
            ensures
                match_loop_inv(
                    *self,
                    *ex,
                    entity@,
                    legs@,
                    remaining,
                    rows0,
                    store0,
                    taker0,
                    book_next0,
                ),
                remaining == 0 || forall|c: int|
                    0 <= c < rows0.len() ==> !((#[trigger] ex.book.rows@[c]).quantity > 0
                        && is_candidate(rows0[c], self.item, self.offer_type, self.price)),
            decreases live_count(ex.book.rows@), remaining,
        {
            if remaining == 0 {
                break;
            }
            let found = find_best(&ex.book, self.item, self.offer_type, self.price);
            match found {
                None => {
                    proof {
                        assert forall|c: int|
                            0 <= c < rows0.len() implies !((#[trigger] ex.book.rows@[c]).quantity
                            > 0 && is_candidate(
                            rows0[c],
                            self.item,
                            self.offer_type,
                            self.price,
                        )) by {
                            if ex.book.rows@[c].quantity > 0 && is_candidate(
                                rows0[c],
                                self.item,
                                self.offer_type,
                                self.price,
                            ) {
                                assert(ex.book.rows@[c] == settled_row(rows0[c], legs@));
                                assert(is_candidate(
                                    ex.book.rows@[c],
                                    self.item,
                                    self.offer_type,
                                    self.price,
                                ));
                            }
                        }
                    }
                    break;
                },
                Some(ri) => {
                    proof {
                        assert(is_candidate(
                            rows0[ri as int],
                            self.item,
                            self.offer_type,
                            self.price,
                        )) by {
                            assert(ex.book.rows@[ri as int] == settled_row(
                                rows0[ri as int],
                                legs@,
                            ));
                        }
                        lemma_live_count_bounds(ex.book.rows@);
                    }
                    execute_leg(
                        self,
                        ex,
                        entity,
                        &mut legs,
                        &mut remaining,
                        ri,
                        Ghost(rows0),
                        Ghost(store0),
                        Ghost(taker0),
                        Ghost(book_next0),
                    );
                    proof {
                        lemma_live_count_bounds(ex.book.rows@);
                    }
                },
            }
        }
        proof {
            assert forall|k: int|
                0 <= k < rows0.len() && is_candidate(
                    #[trigger] rows0[k],
                    self.item,
                    self.offer_type,
                    self.price,
                ) && qty_on_row(legs@, rows0[k].id) == 0 implies remaining == 0 && (forall|i: int|
                0 <= i < legs@.len() ==> prio_before(
                    self.offer_type,
                    (#[trigger] legs@[i]).price,
                    rows_index(rows0, legs@[i].row_id),
                    rows0[k].price,
                    k,
                )) by {
                assert(ex.book.rows@[k] == settled_row(rows0[k], legs@));
                assert(ex.book.rows@[k].quantity == rows0[k].quantity);
                assert(ex.book.rows@[k].quantity > 0);
                if remaining > 0 {
                    assert(!(ex.book.rows@[k].quantity > 0 && is_candidate(
                        rows0[k],
                        self.item,
                        self.offer_type,
                        self.price,
                    )));
                }
            }
            assert(match_exhaustive(rows0, *self, legs@, remaining));
            assert forall|j: int| 0 <= j < rows0.len() implies (#[trigger] ex.book.rows@[j]).id
                == rows0[j].id && ex.book.rows@[j].id < book_next0 by {
                assert(ex.book.rows@[j] == settled_row(rows0[j], legs@));
            }
            assert(rows_unique(ex.book.rows@)) by {
                assert forall|a: int, b: int|
                    0 <= a < b < ex.book.rows@.len() implies ex.book.rows@[a].id
                    != ex.book.rows@[b].id by {
                    assert(ex.book.rows@[a].id == rows0[a].id);
                    assert(ex.book.rows@[b].id == rows0[b].id);
                }
            }
            lemma_settle_live(rows0, ex.book.rows@, legs@);
            lemma_sums_nonneg(legs@);
        }
        let ghost rows_at_exit = ex.book.rows@;
        ex.book.compact();
        let mut rested: Option<u64> = None;
        if remaining > 0 {
            proof {
                assert forall|k: int|
                    0 <= k < rows0.len() && is_candidate(
                        #[trigger] rows0[k],
                        self.item,
                        self.offer_type,
                        self.price,
                    ) implies qty_on_row(legs@, rows0[k].id) != 0 by {
                    if qty_on_row(legs@, rows0[k].id) == 0 {
                        assert(rows_at_exit[k] == settled_row(rows0[k], legs@));
                        assert(rows_at_exit[k].quantity > 0);
                    }
                }
            }
            let tc = entity.type_code();
            let taker_id = entity.id();
            let rid = ex.book.insert(
                self.item,
                self.offer_type,
                remaining,
                self.price,
                taker_id,
                tc,
            );
            rested = Some(rid);
        }
        let _ = entity.save(&mut ex.companies);
        Ok(MatchReport { accepted: true, legs, remaining, rested_id: rested })
    }
}

/// A row with units taken off it was the subject of some leg.
pub proof fn lemma_qty_nonzero_has_leg(legs: Seq<TradeLeg>, id: u64)
    requires
        qty_on_row(legs, id) != 0,
    ensures
        exists|i: int| 0 <= i < legs.len() && #[trigger] legs[i].row_id == id,
    decreases legs.len(),
{
    if legs.len() > 0 {
        if legs.last().row_id == id {
            assert(legs[legs.len() - 1].row_id == id);
        } else {
            lemma_qty_nonzero_has_leg(legs.drop_last(), id);
            let i = choose|i: int|
                0 <= i < legs.drop_last().len() && #[trigger] legs.drop_last()[i].row_id == id;
            assert(legs[i].row_id == id);
        }
    }
}

/// Appending a leg changes each entity's maker effect by exactly that leg's
/// contribution.
pub proof fn lemma_maker_effect_push(
    e: EntityModel,
    offer: Offer,
    legs: Seq<TradeLeg>,
    l: TradeLeg,
    j: u32,
)
    ensures
        maker_effect(e, offer, legs.push(l), j) == if l.maker_entity_id == j {
            apply_leg_to_maker(maker_effect(e, offer, legs, j), offer, l)
        } else {
            maker_effect(e, offer, legs, j)
        },
{
    reveal(maker_effect);
    lemma_sums_push(legs, l);
    lemma_sums_nonneg(legs);
    assert(l.quantity * l.price >= 0) by (nonlinear_arith);
}

/// With no legs at all, a maker entity is unchanged.
pub proof fn lemma_maker_effect_empty(e: EntityModel, offer: Offer, j: u32)
    ensures
        maker_effect(e, offer, Seq::<TradeLeg>::empty(), j) == e,
{
    reveal(maker_effect);
}

/// Settling no legs at all leaves a book of live rows unchanged.
pub proof fn lemma_settle_rows_empty(rows: Seq<BookRow>)
    requires
        forall|j: int| 0 <= j < rows.len() ==> (#[trigger] rows[j]).quantity > 0,
    ensures
        settle_rows(rows, Seq::<TradeLeg>::empty()) == rows,
    decreases rows.len(),
{
    if rows.len() > 0 {
        lemma_settle_rows_empty(rows.drop_last());
        assert(settled_row(rows.last(), Seq::<TradeLeg>::empty()) == rows.last());
        assert(settle_rows(rows, Seq::<TradeLeg>::empty()) =~= rows);
    } else {
        assert(settle_rows(rows, Seq::<TradeLeg>::empty()) =~= rows);
    }
}

/// An order with zero crossing candidates trades nothing and is persisted
/// verbatim: the book keeps every old row unchanged and gains exactly one
/// new resting row carrying the order's own material, side, quantity and
/// price.
pub proof fn lemma_unmatched_remainder_verbatim(
    offer: Offer,
    pre_ex: Exchange,
    post_ex: Exchange,
    pre_taker: EntityModel,
    post_taker: EntityModel,
    r: Result<MatchReport, MatchError>,
)
    requires
        execute_post(offer, pre_ex, post_ex, pre_taker, post_taker, r),
        offer.valid_spec(pre_taker),
        offer.quantity > 0,
        pre_ex.book.wf(),
        r is Ok,
        forall|k: int|
            0 <= k < pre_ex.book.rows@.len() ==> !is_candidate(
                #[trigger] pre_ex.book.rows@[k],
                offer.item,
                offer.offer_type,
                offer.price,
            ),
    ensures
        r.unwrap().legs@ == Seq::<TradeLeg>::empty(),
        r.unwrap().remaining == offer.quantity,
        r.unwrap().rested_id == Some(pre_ex.book.next_id),
        post_ex.book.rows@ == pre_ex.book.rows@.push(
            BookRow {
                id: pre_ex.book.next_id,
                item: offer.item,
                offer_type: offer.offer_type,
                quantity: offer.quantity,
                price: offer.price,
                entity_id: post_taker.id().unwrap(),
                entity_type: post_taker.type_code(),
            },
        ),
{
    let rows0 = pre_ex.book.rows@;
    let legs = r.unwrap().legs@;
    assert(legs.len() == 0) by {
        if legs.len() > 0 {
            assert(leg_wf(rows0, offer, legs[0]));
            let idx = rows_index(rows0, legs[0].row_id);
            assert(0 <= idx < rows0.len() && rows0[idx].id == legs[0].row_id);
            assert(is_candidate(rows0[idx], offer.item, offer.offer_type, offer.price));
        }
    }
    assert(legs =~= Seq::<TradeLeg>::empty());
    assert(filled_total(Seq::<TradeLeg>::empty()) == 0);
    lemma_settle_rows_empty(rows0);
}

/// Conservation across one leg: on a buy the currency lost by the taker
/// equals the currency gained by the maker, namely the traded quantity at
/// the maker's price; the material gained by the taker equals the quantity
/// taken off the maker's resting row. Stated away from the representable
/// bounds: a maker balance or taker inventory at the very top of its range
/// would saturate instead.
pub proof fn lemma_leg_conservation(
    offer: Offer,
    t0: EntityModel,
    t1: EntityModel,
    m0: EntityModel,
    l: TradeLeg,
)
    requires
        offer.offer_type == OfferType::Buy,
        taker_after(offer, t0, t1, seq![l]),
        m0.usd() + l.quantity * l.price <= u64::MAX,
        t0.owns().amount_spec(offer.item) + l.quantity <= u32::MAX,
    ensures
        t0.usd() - t1.usd() == l.quantity * l.price,
        maker_effect(m0, offer, seq![l], l.maker_entity_id).usd() - m0.usd() == l.quantity
            * l.price,
        t1.owns().amount_spec(offer.item) - t0.owns().amount_spec(offer.item) == l.quantity,
        qty_on_row(seq![l], l.row_id) == l.quantity,
{
    reveal(maker_effect);
    assert(seq![l].drop_last() =~= Seq::<TradeLeg>::empty());
    assert(seq![l].last() == l);
    assert(l.quantity * l.price >= 0) by (nonlinear_arith);
    assert(total_value(Seq::<TradeLeg>::empty()) == 0);
    assert(filled_total(Seq::<TradeLeg>::empty()) == 0);
    assert(cash_to_entity(Seq::<TradeLeg>::empty(), l.maker_entity_id) == 0);
    assert(qty_on_row(Seq::<TradeLeg>::empty(), l.row_id) == 0);
    assert(total_value(seq![l]) == l.quantity * l.price);
    assert(filled_total(seq![l]) == l.quantity);
    assert(cash_to_entity(seq![l], l.maker_entity_id) == l.quantity * l.price);
    let u = (t0.usd() - total_value(seq![l])) as u64;
    let o = t0.owns().with_amount(
        offer.item,
        crate::materials::sat_add_u32_int(
            t0.owns().amount_spec(offer.item),
            filled_total(seq![l]),
        ),
    );
    crate::entity::lemma_model_projections(t0, u, o);
    crate::entity::lemma_model_projections(t0.with_usd(u), u, o);
    t0.owns().lemma_with_amount(
        offer.item,
        crate::materials::sat_add_u32_int(
            t0.owns().amount_spec(offer.item),
            filled_total(seq![l]),
        ),
    );
    let mu = crate::money::sat_add_u64_int(
        m0.usd(),
        cash_to_entity(seq![l], l.maker_entity_id),
    );
    crate::entity::lemma_model_projections(m0, mu, m0.owns());
}

/// One leg's effect on the maker entity that owns its row.
pub open spec fn apply_leg_to_maker(e: EntityModel, offer: Offer, l: TradeLeg) -> EntityModel {
    match offer.offer_type {
        OfferType::Buy => e.with_usd(
            crate::money::sat_add_u64_int(e.usd(), l.quantity * l.price),
        ),
        OfferType::Sell => e.with_usd(
            crate::money::sat_sub_u64_int(e.usd(), l.quantity * l.price),
        ).with_owns(
            e.owns().with_amount(
                offer.item,
                crate::materials::sat_add_u32_int(
                    e.owns().amount_spec(offer.item),
                    l.quantity as int,
                ),
            ),
        ),
    }
}

} // verus!
