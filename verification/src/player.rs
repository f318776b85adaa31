//! The player: a human participant with a currency balance, an energy pool
//! and a ledger of company shares.

use vstd::prelude::*;
use vstd::string::StringExecFns;
use crate::money::{sat_add_u64, sat_sub_u64};

verus! {

/// How a share ledger changes when `amount` shares of company `id` are
/// added: an existing entry grows by `amount`, a missing one is appended.
pub open spec fn shares_edited(
    before: Seq<(u32, i16)>,
    after: Seq<(u32, i16)>,
    id: u32,
    amount: i16,
) -> bool {
    if exists|i: int| 0 <= i < before.len() && before[i].0 == id {
        exists|i: int|
            0 <= i < before.len() && before[i].0 == id && after == before.update(
                i,
                (id, (before[i].1 + amount) as i16),
            )
    } else {
        after == before.push((id, amount))
    }
}

/// A player account. `shares` maps a company identifier to the number of
/// shares held; each company appears at most once.
#[derive(Debug, Clone)]
pub struct Player {
    pub id: u32,
    pub name: String,
    pub usd: u64,
    pub energy: u8,
    pub shares: Vec<(u32, i16)>,
}

impl Player {
    /// The share ledger never lists the same company twice.
    pub open spec fn wf(self) -> bool {
        forall|i: int, j: int|
            0 <= i < j < self.shares@.len() ==> self.shares@[i].0 != self.shares@[j].0
    }

    /// Whether the ledger has an entry for `company_id`.
    pub open spec fn has_share(self, company_id: u32) -> bool {
        exists|i: int| 0 <= i < self.shares@.len() && self.shares@[i].0 == company_id
    }

    /// A fresh placeholder player, named "0".
    pub fn blank() -> (r: Player)
        ensures
            r.id == 0,
            r.name@ == "0"@,
            r.usd == 0,
            r.energy == 50,
            r.shares@ == Seq::<(u32, i16)>::empty(),
            r.wf(),
    {
        Player { id: 0, name: String::from_str("0"), usd: 0, energy: 50, shares: Vec::new() }
    }

    /// A fresh named player.
    pub fn new(username: String) -> (r: Player)
        ensures
            r.id == 1,
            r.name@ == username@,
            r.usd == 0,
            r.energy == 50,
            r.shares@ == Seq::<(u32, i16)>::empty(),
            r.wf(),
    {
        Player { id: 1, name: username, usd: 0, energy: 50, shares: Vec::new() }
    }

    /// Credits money, stopping at the largest representable balance.
    pub fn earn(&mut self, money: u64)
        ensures
            final(self).usd == sat_add_u64(old(self).usd, money),
            final(self).id == old(self).id,
            final(self).name == old(self).name,
            final(self).energy == old(self).energy,
            final(self).shares == old(self).shares,
    {
        self.usd = self.usd.saturating_add(money);
    }

    /// Debits money; an overdraft empties the balance instead of failing.
    pub fn spend(&mut self, amount: u64)
        ensures
            final(self).usd == sat_sub_u64(old(self).usd, amount),
            final(self).id == old(self).id,
            final(self).name == old(self).name,
            final(self).energy == old(self).energy,
            final(self).shares == old(self).shares,
    {
        self.usd = self.usd.saturating_sub(amount);
    }

    /// Adds `amount` (possibly negative) shares of a company to the ledger.
    /// A company not yet listed gets a new entry; share counts never go
    /// negative.
    pub fn edit_shares(&mut self, company_id_option: Option<u32>, amount: i16)
        requires
            old(self).wf(),
            company_id_option.is_some(),
            forall|i: int|
                0 <= i < old(self).shares@.len()
                    && old(self).shares@[i].0 == company_id_option.unwrap()
                    ==> 0 <= old(self).shares@[i].1 + amount <= i16::MAX,
            !old(self).has_share(company_id_option.unwrap()) ==> amount >= 0,
        ensures
            final(self).wf(),
            final(self).id == old(self).id,
            final(self).name == old(self).name,
            final(self).usd == old(self).usd,
            final(self).energy == old(self).energy,
            shares_edited(
                old(self).shares@,
                final(self).shares@,
                company_id_option.unwrap(),
                amount,
            ),
    {
        let company_id = match company_id_option {
            Some(id) => id,
            None => {
                proof {
                    assert(false);
                }
                0
            }
        };
        let n = self.shares.len();
        let mut i: usize = 0;
        while i < n
            invariant
                old(self).wf(),
                company_id_option == Some(company_id),
                *self == *old(self),
                n == self.shares@.len(),
                i <= n,
                forall|j: int| 0 <= j < i ==> self.shares@[j].0 != company_id,
                forall|k: int|
                    0 <= k < old(self).shares@.len()
                        && old(self).shares@[k].0 == company_id
                        ==> 0 <= old(self).shares@[k].1 + amount <= i16::MAX,
            decreases n - i,
        {
            let (cid, cur) = self.shares[i];
            if cid == company_id {
                let updated = cur + amount;
                self.shares.set(i, (company_id, updated));
                proof {
                    let k = i as int;
                    assert(old(self).shares@[k].0 == company_id);
                    assert(old(self).has_share(company_id));
                    assert(forall|a: int|
                        0 <= a < self.shares@.len()
                            ==> self.shares@[a].0 == old(self).shares@[a].0);
                    assert(self.wf());
                    assert(old(self).shares@[k].0 == company_id_option.unwrap());
                    assert(self.shares@ == old(self).shares@.update(
                        k,
                        (
                            company_id_option.unwrap(),
                            (old(self).shares@[k].1 + amount) as i16,
                        ),
                    ));
                }
                return;
            }
            i += 1;
        }
        proof {
            assert(!old(self).has_share(company_id));
        }
        self.shares.push((company_id, amount));
        proof {
            assert(forall|a: int|
                0 <= a < old(self).shares@.len()
                    ==> self.shares@[a] == old(self).shares@[a]);
            assert(self.wf());
        }
    }
}

} // verus!
