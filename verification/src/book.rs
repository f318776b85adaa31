//! The order book: the persisted table of resting orders. Rows keep the
//! order in which they were inserted, which serves as the tie-break among
//! rows resting at the same price: earliest inserted trades first.

use vstd::prelude::*;
use crate::materials::Material;
use crate::offer_type::OfferType;

verus! {

/// One resting order.
#[derive(Clone, Copy, Debug, PartialEq, Eq, Structural)]
pub struct BookRow {
    pub id: u64,
    pub item: Material,
    pub offer_type: OfferType,
    pub quantity: u32,
    pub price: u32,
    pub entity_id: u32,
    pub entity_type: i32,
}

/// Whether a row with identifier `id` is present.
pub open spec fn rows_has(rows: Seq<BookRow>, id: u64) -> bool {
    exists|i: int| 0 <= i < rows.len() && rows[i].id == id
}

/// The position of the row with identifier `id`.
pub open spec fn rows_index(rows: Seq<BookRow>, id: u64) -> int {
    choose|i: int| 0 <= i < rows.len() && rows[i].id == id
}

/// The row with identifier `id`.
pub open spec fn rows_at(rows: Seq<BookRow>, id: u64) -> BookRow {
    rows[rows_index(rows, id)]
}

/// No two rows share an identifier.
pub open spec fn rows_unique(rows: Seq<BookRow>) -> bool {
    forall|i: int, j: int| 0 <= i < j < rows.len() ==> rows[i].id != rows[j].id
}

/// Every identifier is below `next_id`.
pub open spec fn rows_bounded(rows: Seq<BookRow>, next_id: u64) -> bool {
    forall|i: int| 0 <= i < rows.len() ==> (#[trigger] rows[i]).id < next_id
}

/// In a sequence of rows with distinct identifiers, the position of a
/// stored identifier is the only one holding it.
pub proof fn lemma_rows_index(rows: Seq<BookRow>, id: u64)
    requires
        rows_unique(rows),
        rows_has(rows, id),
    ensures
        0 <= rows_index(rows, id) < rows.len(),
        rows[rows_index(rows, id)].id == id,
        forall|i: int| 0 <= i < rows.len() && rows[i].id == id ==> i == rows_index(rows, id),
{
    let k = rows_index(rows, id);
    assert(0 <= k < rows.len() && rows[k].id == id);
    assert forall|i: int| 0 <= i < rows.len() && rows[i].id == id implies i == k by {
        if i != k {
            assert(rows[i].id != rows[k].id);
        }
    }
}

/// The same rows with the fully-consumed ones (quantity zero) removed.
pub open spec fn live_only(rows: Seq<BookRow>) -> Seq<BookRow>
    decreases rows.len(),
{
    if rows.len() == 0 {
        Seq::empty()
    } else {
        let rest = live_only(rows.drop_last());
        if rows.last().quantity > 0 {
            rest.push(rows.last())
        } else {
            rest
        }
    }
}

/// Every row of `live_only(rows)` is a row of `rows`, and distinct
/// identifiers stay distinct.
pub proof fn lemma_live_only(rows: Seq<BookRow>)
    ensures
        forall|a: int|
            0 <= a < live_only(rows).len() ==> exists|j: int|
                0 <= j < rows.len() && rows[j] == #[trigger] live_only(rows)[a],
        forall|a: int| 0 <= a < live_only(rows).len() ==> (#[trigger] live_only(rows)[a]).quantity
            > 0,
        rows_unique(rows) ==> rows_unique(live_only(rows)),
    decreases rows.len(),
{
    if rows.len() > 0 {
        lemma_live_only(rows.drop_last());
        let rest = live_only(rows.drop_last());
        assert forall|a: int| 0 <= a < live_only(rows).len() implies exists|j: int|
            0 <= j < rows.len() && rows[j] == #[trigger] live_only(rows)[a] by {
            if a < rest.len() {
                let j = choose|j: int|
                    0 <= j < rows.drop_last().len() && rows.drop_last()[j] == rest[a];
                assert(rows[j] == live_only(rows)[a]);
            } else {
                assert(live_only(rows)[a] == rows.last());
                assert(rows[rows.len() - 1] == live_only(rows)[a]);
            }
        }
        if rows_unique(rows) {
            assert(rows_unique(rows.drop_last()));
            assert forall|a: int, b: int|
                0 <= a < b < live_only(rows).len() implies live_only(rows)[a].id != live_only(
                rows,
            )[b].id by {
                let ja = choose|j: int|
                    0 <= j < rows.len() && rows[j] == live_only(rows)[a];
                if b < rest.len() {
                } else {
                    // b is the pushed last row; a comes from the prefix
                    let j = choose|j: int|
                        0 <= j < rows.drop_last().len() && rows.drop_last()[j] == rest[a];
                    assert(rows[j].id != rows[rows.len() - 1].id);
                }
            }
        }
    }
}

/// The persisted order book.
#[derive(Debug)]
pub struct Book {
    pub rows: Vec<BookRow>,
    pub next_id: u64,
}

impl Book {
    /// Rows have positive quantities and distinct, bounded identifiers.
    pub open spec fn wf(self) -> bool {
        &&& forall|i: int| 0 <= i < self.rows@.len() ==> (#[trigger] self.rows@[i]).quantity > 0
        &&& rows_unique(self.rows@)
        &&& rows_bounded(self.rows@, self.next_id)
    }

    /// An empty book.
    pub fn new() -> (r: Book)
        ensures
            r.wf(),
            r.rows@.len() == 0,
            r.next_id == 1,
    {
        Book { rows: Vec::new(), next_id: 1 }
    }

    /// Appends a new resting order and returns its identifier.
    pub fn insert(
        &mut self,
        item: Material,
        offer_type: OfferType,
        quantity: u32,
        price: u32,
        entity_id: u32,
        entity_type: i32,
    ) -> (id: u64)
        requires
            old(self).wf(),
            old(self).next_id < u64::MAX,
            quantity > 0,
        ensures
            final(self).wf(),
            id == old(self).next_id,
            final(self).next_id == old(self).next_id + 1,
            final(self).rows@ == old(self).rows@.push(
                BookRow { id, item, offer_type, quantity, price, entity_id, entity_type },
            ),
    {
        let id = self.next_id;
        self.rows.push(BookRow { id, item, offer_type, quantity, price, entity_id, entity_type });
        self.next_id = self.next_id + 1;
        id
    }

    /// Removes every fully-consumed row, keeping the remaining rows in
    /// order.
    pub(crate) fn compact(&mut self)
        requires
            rows_unique(old(self).rows@),
            rows_bounded(old(self).rows@, old(self).next_id),
        ensures
            final(self).next_id == old(self).next_id,
            final(self).rows@ == live_only(old(self).rows@),
            final(self).wf(),
    {
        let n = self.rows.len();
        let mut out: Vec<BookRow> = Vec::new();
        let mut i: usize = 0;
        proof {
            assert(self.rows@.take(0) =~= Seq::<BookRow>::empty());
        }
        while i < n
            invariant
                i <= n,
                n == self.rows@.len(),
                out@ == live_only(self.rows@.take(i as int)),
            decreases n - i,
        {
            let row = self.rows[i];
            proof {
                assert(self.rows@.take((i + 1) as int).drop_last() =~= self.rows@.take(i as int));
                assert(self.rows@.take((i + 1) as int).last() == row);
            }
            if row.quantity > 0 {
                out.push(row);
            }
            i += 1;
        }
        proof {
            assert(self.rows@.take(n as int) =~= self.rows@);
            lemma_live_only(self.rows@);
            let live = live_only(self.rows@);
            assert forall|a: int| 0 <= a < live.len() implies (#[trigger] live[a]).id
                < self.next_id by {
                let j = choose|j: int| 0 <= j < self.rows@.len() && self.rows@[j] == live[a];
                assert(self.rows@[j].id < self.next_id);
            }
        }
        self.rows = out;
    }

    /// The highest price among resting buy orders for `item`, if any such
    /// order rests.
    pub fn max_buy_price(&self, item: Material) -> (r: Option<u32>)
        ensures
            match r {
                Some(p) => is_best_price(self.rows@, item, OfferType::Buy, p),
                None => !has_row_of(self.rows@, item, OfferType::Buy),
            },
    {
        self.extreme_price(item, OfferType::Buy, true)
    }

    /// The lowest price among resting sell orders for `item`, if any such
    /// order rests.
    pub fn min_sell_price(&self, item: Material) -> (r: Option<u32>)
        ensures
            match r {
                Some(p) => is_best_price(self.rows@, item, OfferType::Sell, p),
                None => !has_row_of(self.rows@, item, OfferType::Sell),
            },
    {
        self.extreme_price(item, OfferType::Sell, false)
    }

    /// The highest (when `want_max`) or lowest price among resting orders of
    /// the given side for `item`.
    fn extreme_price(&self, item: Material, side: OfferType, want_max: bool) -> (r: Option<u32>)
        ensures
            match r {
                Some(p) => (exists|i: int|
                    0 <= i < self.rows@.len() && is_side_item(#[trigger] self.rows@[i], item, side)
                        && self.rows@[i].price == p) && forall|i: int|
                    0 <= i < self.rows@.len() && is_side_item(#[trigger] self.rows@[i], item, side)
                        ==> (if want_max {
                        self.rows@[i].price <= p
                    } else {
                        self.rows@[i].price >= p
                    }),
                None => forall|i: int|
                    0 <= i < self.rows@.len() ==> !is_side_item(
                        #[trigger] self.rows@[i],
                        item,
                        side,
                    ),
            },
    {
        let n = self.rows.len();
        let mut best: Option<u32> = None;
        let mut i: usize = 0;
        while i < n
            invariant
                i <= n,
                n == self.rows@.len(),
                match best {
                    Some(p) => (exists|j: int|
                        0 <= j < i && is_side_item(#[trigger] self.rows@[j], item, side)
                            && self.rows@[j].price == p) && forall|j: int|
                        0 <= j < i && is_side_item(#[trigger] self.rows@[j], item, side) ==> (
                        if want_max {
                            self.rows@[j].price <= p
                        } else {
                            self.rows@[j].price >= p
                        }),
                    None => forall|j: int|
                        0 <= j < i ==> !is_side_item(#[trigger] self.rows@[j], item, side),
                },
            decreases n - i,
        {
            let row = self.rows[i];
            if row.item == item && row.offer_type == side {
                best = match best {
                    None => Some(row.price),
                    Some(p) => {
                        if (want_max && row.price > p) || (!want_max && row.price < p) {
                            Some(row.price)
                        } else {
                            Some(p)
                        }
                    },
                };
            }
            i += 1;
        }
        best
    }
}

/// Whether a row rests on `side` of the market for `item`.
pub open spec fn is_side_item(row: BookRow, item: Material, side: OfferType) -> bool {
    row.item == item && row.offer_type == side
}

/// Whether any row rests on `side` of the market for `item`.
pub open spec fn has_row_of(rows: Seq<BookRow>, item: Material, side: OfferType) -> bool {
    exists|i: int| 0 <= i < rows.len() && is_side_item(#[trigger] rows[i], item, side)
}

/// Whether `p` is the extreme resting price on `side` of the market for
/// `item`: the highest bid among buy rows, the lowest ask among sell rows.
pub open spec fn is_best_price(
    rows: Seq<BookRow>,
    item: Material,
    side: OfferType,
    p: u32,
) -> bool {
    &&& exists|i: int|
        0 <= i < rows.len() && is_side_item(#[trigger] rows[i], item, side) && rows[i].price == p
    &&& forall|i: int|
        0 <= i < rows.len() && is_side_item(#[trigger] rows[i], item, side) ==> (match side {
            OfferType::Buy => rows[i].price <= p,
            OfferType::Sell => rows[i].price >= p,
        })
}

} // verus!
