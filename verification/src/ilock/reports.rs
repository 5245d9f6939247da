//! Human-readable reports on stakeholders and pools.
use vstd::prelude::*;
use crate::account::AccountId;
use crate::text::{decimal, labelled_decimal, labelled_quoted};
use crate::ilock::pools::{pool, pool_cliffs, pool_name, pool_tokens, pool_vests, POOL_COUNT};
use crate::ilock::token::ILOCKtoken;

verus! {

/// A label, a name between double quotes, and a tail.
pub open spec fn quoted(label: Seq<char>, name: Seq<char>, tail: Seq<char>) -> Seq<char> {
    label + seq!['"'] + name + seq!['"'] + tail
}

impl ILOCKtoken {
    /// What `stakeholder` has been paid, has yet to collect and collects each
    /// month, as texts, and the number of the pool it belongs to.
    pub fn stakeholder_data(&self, stakeholder: AccountId) -> (r: (String, String, String, u8))
        requires
            self.wf(),
            self@.stakeholders.contains_key(stakeholder),
            self@.stakeholders[stakeholder].pool < POOL_COUNT,
            self@.stakeholders[stakeholder].paid <= self@.stakeholders[stakeholder].share,
        ensures
            ({
                let sd = self@.stakeholders[stakeholder];
                &&& r.0@ == "paidout: "@ + decimal(sd.paid as nat) + " "@
                &&& r.1@ == "payremaining: "@ + decimal((sd.share - sd.paid) as nat) + " "@
                &&& r.2@ == "payamount: "@ + decimal(
                    (sd.share as int / pool_vests(sd.pool as int) as int) as nat,
                ) + " "@
                &&& r.3 == sd.pool
            }),
    {
        let this_stakeholder = *self.stakeholderdata.get(&stakeholder).unwrap();
        let p = pool(this_stakeholder.pool);
        let paidout: u128 = this_stakeholder.paid;
        let payremaining: u128 = this_stakeholder.share - this_stakeholder.paid;
        let payamount: u128 = this_stakeholder.share / p.vests as u128;
        (
            labelled_decimal("paidout: ", paidout, " "),
            labelled_decimal("payremaining: ", payremaining, " "),
            labelled_decimal("payamount: ", payamount, " "),
            this_stakeholder.pool,
        )
    }

    /// The name, allotment in whole tokens, number of payments and cliff in
    /// months of pool `pool_index`.
    pub fn pool_data(&self, pool_index: u8) -> (r: (String, u128, u8, u8))
        requires
            pool_index < POOL_COUNT,
        ensures
            r.0@ == pool_name(pool_index as int),
            r.1 == pool_tokens(pool_index as int),
            r.2 == pool_vests(pool_index as int),
            r.3 == pool_cliffs(pool_index as int),
    {
        let p = pool(pool_index);
        (String::from_str(p.name), p.tokens, p.vests, p.cliffs)
    }

    /// The current balance of pool `pool`, described and as a number.
    pub fn pool_balance(&self, pool_index: u8) -> (r: (String, u128))
        requires
            pool_index < POOL_COUNT,
        ensures
            r.1 == self@.pools[pool_index as int],
            r.0@ == quoted("pool: "@, pool_name(pool_index as int), " balance: "@) + decimal(
                r.1 as nat,
            ),
    {
        let p = pool(pool_index);
        let balance = self.poolbalances[pool_index as usize];
        let mut text = labelled_quoted("pool: ", p.name, " balance: ");
        crate::text::push_decimal(&mut text, balance);
        (text, balance)
    }
}

} // verus!
