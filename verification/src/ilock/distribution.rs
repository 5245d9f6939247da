//! Token distribution: monthly vesting payouts to stakeholders, direct
//! distributions from the whitelist, public-sale and partner pools, and the
//! schedule of months.
use vstd::prelude::*;
use crate::account::AccountId;
use crate::psp22::{not_owner_error, psp22_result, PSP22Error, Psp22ErrorView};
use crate::ilock::errors::{other_into_psp22, other_result, OtherError, OtherErrorView};
use crate::ilock::pools::{
    pool, pool_cliffs, pool_vests, ONE_MONTH, PARTNERS, POOL_COUNT, PUBLIC_SALE, WHITELIST,
};
use crate::ilock::token::{refusal_of_ledger, transfer_step, ILOCKtoken, StakeholderData, TokenView};

verus! {

/// The monthly instalment of a stakeholder: its share divided by the number of
/// payments of its pool.
pub open spec fn instalment(sd: StakeholderData) -> int {
    (sd.share as int) / (pool_vests(sd.pool as int) as int)
}

/// What vesting owes a stakeholder with data `sd` once `months` months have
/// passed: the payout, or why there is none. `None` where the arithmetic of the
/// rule fails (an unknown pool, an instalment of zero, or a payment past the share).
pub open spec fn vesting_decision(sd: StakeholderData, months: u8) -> Option<Result<u128, OtherErrorView>> {
    let vests = pool_vests(sd.pool as int) as int;
    let base = instalment(sd);
    if sd.pool >= POOL_COUNT {
        None
    } else if months < pool_cliffs(sd.pool as int) {
        Some(Err(OtherErrorView::CliffNotPassed))
    } else if sd.paid == sd.share {
        Some(Err(OtherErrorView::StakeholderSharePaid))
    } else if base == 0 {
        None
    } else if (sd.paid as int) / base >= months {
        Some(Err(OtherErrorView::PayoutTooEarly))
    } else if sd.paid + base > sd.share {
        None
    } else if sd.share - sd.paid - base < base {
        Some(Ok((base + (sd.share as int) % vests) as u128))
    } else {
        Some(Ok(base as u128))
    }
}

/// A vesting payout by `caller` to `stakeholder`.
pub open spec fn distribute_tokens_step(v: TokenView, caller: AccountId, stakeholder: AccountId) -> Option<
    (TokenView, Result<(), Psp22ErrorView>),
> {
    if caller != v.owner {
        Some((v, Err(not_owner_error())))
    } else if !v.stakeholders.contains_key(stakeholder) {
        Some((v, Err(other_into_psp22(OtherErrorView::StakeholderNotFound))))
    } else {
        let sd = v.stakeholders[stakeholder];
        match vesting_decision(sd, v.months) {
            None => None,
            Some(Err(e)) => Some((v, Err(other_into_psp22(e)))),
            Some(Ok(payout)) => match transfer_step(v, caller, stakeholder, payout) {
                None => None,
                Some((v1, Err(e))) => Some((v1, Err(e))),
                Some((v1, Ok(()))) => {
                    if v1.pools[sd.pool as int] < payout || sd.paid + payout > u128::MAX {
                        None
                    } else {
                        Some(
                            (
                                TokenView {
                                    pools: v1.pools.update(
                                        sd.pool as int,
                                        (v1.pools[sd.pool as int] - payout) as u128,
                                    ),
                                    stakeholders: v1.stakeholders.insert(
                                        stakeholder,
                                        StakeholderData { paid: (sd.paid + payout) as u128, ..sd },
                                    ),
                                    ..v1
                                },
                                Ok(()),
                            ),
                        )
                    }
                },
            },
        }
    }
}

/// A distribution by `caller` of `amount` from pool `index` to `stakeholder`:
/// the pool is debited and the amount transferred. A refused transfer changes
/// nothing.
pub open spec fn pool_distribution_step(
    v: TokenView,
    caller: AccountId,
    stakeholder: AccountId,
    amount: u128,
    index: int,
) -> Option<(TokenView, Result<(), Psp22ErrorView>)> {
    if caller != v.owner {
        Some((v, Err(not_owner_error())))
    } else if v.pools[index] < amount {
        Some((v, Err(other_into_psp22(OtherErrorView::PaymentTooLarge))))
    } else {
        match transfer_step(
            TokenView { pools: v.pools.update(index, (v.pools[index] - amount) as u128), ..v },
            caller,
            stakeholder,
            amount,
        ) {
            None => None,
            Some((_, Err(e))) => Some((v, Err(e))),
            Some((v1, Ok(()))) => Some((v1, Ok(()))),
        }
    }
}

/// Registering `stakeholder` with `share` in pool `pool`, by `caller`.
pub open spec fn register_step(
    v: TokenView,
    caller: AccountId,
    stakeholder: AccountId,
    share: u128,
    pool: u8,
) -> (TokenView, Result<(), Psp22ErrorView>) {
    if caller != v.owner {
        (v, Err(not_owner_error()))
    } else {
        (
            TokenView {
                stakeholders: v.stakeholders.insert(
                    stakeholder,
                    StakeholderData { paid: 0, share, pool },
                ),
                ..v
            },
            Ok(()),
        )
    }
}

/// The month check at time `now`: once the payout date has passed, the date
/// moves one month on and one more month has passed. `None` where either
/// counter overflows.
pub open spec fn check_time_step(v: TokenView, now: u64) -> Option<(TokenView, Result<(), OtherErrorView>)> {
    if now > v.next_payout {
        if v.next_payout + ONE_MONTH > u64::MAX || v.months + 1 > u8::MAX {
            None
        } else {
            Some(
                (
                    TokenView {
                        next_payout: (v.next_payout + ONE_MONTH) as u64,
                        months: (v.months + 1) as u8,
                        ..v
                    },
                    Ok(()),
                ),
            )
        }
    } else {
        Some((v, Err(OtherErrorView::PayoutTooEarly)))
    }
}

impl ILOCKtoken {
    /// Checks whether the next payout date has passed at `now`; if so, moves
    /// it one month on and counts one more month.
    pub fn check_time(&mut self, now: u64) -> (r: Result<(), OtherError>)
        requires
            old(self).wf(),
            check_time_step(old(self)@, now) is Some,
        ensures
            final(self).wf(),
            check_time_step(old(self)@, now) == Some((final(self)@, other_result(r))),
    {
        if now > self.nextpayout {
            self.nextpayout = self.nextpayout + ONE_MONTH;
            self.monthspassed = self.monthspassed + 1;
            return Ok(());
        }
        Err(OtherError::PayoutTooEarly)
    }

    /// Whole minutes until the next payout date at `now`, 0 once it has passed.
    pub fn remaining_time_until_next_payout(&self, now: u64) -> (r: u64)
        ensures
            r == (if now <= self@.next_payout {
                ((self@.next_payout - now) / 60_000) as u64
            } else {
                0
            }),
    {
        if now <= self.nextpayout {
            (self.nextpayout - now) / 60_000
        } else {
            0
        }
    }

    /// Records `stakeholder`'s share and pool, with nothing paid yet.
    pub fn register_stakeholder(
        &mut self,
        caller: AccountId,
        stakeholder: AccountId,
        share: u128,
        pool: u8,
    ) -> (r: Result<(), PSP22Error>)
        requires
            old(self).wf(),
        ensures
            final(self).wf(),
            register_step(old(self)@, caller, stakeholder, share, pool) == (
                final(self)@,
                psp22_result(r),
            ),
    {
        self.only_owner(caller)?;
        let this_stakeholder = StakeholderData { paid: 0, share: share, pool: pool };
        self.stakeholderdata.insert(stakeholder, this_stakeholder);
        assert(self@ =~= register_step(old(self)@, caller, stakeholder, share, pool).0);
        Ok(())
    }

    /// Pays `stakeholder` the vesting instalment it is owed this month from
    /// its pool.
    pub fn distribute_tokens(&mut self, caller: AccountId, stakeholder: AccountId) -> (r: Result<
        (),
        PSP22Error,
    >)
        requires
            old(self).wf(),
            distribute_tokens_step(old(self)@, caller, stakeholder) is Some,
        ensures
            final(self).wf(),
            distribute_tokens_step(old(self)@, caller, stakeholder) == Some(
                (final(self)@, psp22_result(r)),
            ),
    {
        self.only_owner(caller)?;
        let mut this_stakeholder = match self.stakeholderdata.get(&stakeholder) {
            Some(s) => *s,
            None => {
                return Err(OtherError::StakeholderNotFound.into_psp22());
            },
        };
        let p = pool(this_stakeholder.pool);
        if self.monthspassed < p.cliffs {
            return Err(OtherError::CliffNotPassed.into_psp22());
        }
        if this_stakeholder.paid == this_stakeholder.share {
            return Err(OtherError::StakeholderSharePaid.into_psp22());
        }
        let vests = p.vests as u128;
        let mut payout: u128 = this_stakeholder.share / vests;
        let payments = this_stakeholder.paid / payout;
        if payments >= self.monthspassed as u128 {
            return Err(OtherError::PayoutTooEarly.into_psp22());
        }
        if this_stakeholder.share - this_stakeholder.paid - payout < this_stakeholder.share / vests {
            payout = payout + this_stakeholder.share % vests;
        }
        self.transfer(caller, stakeholder, payout, Vec::new())?;
        let index = this_stakeholder.pool as usize;
        self.poolbalances[index] = self.poolbalances[index] - payout;
        this_stakeholder.paid = this_stakeholder.paid + payout;
        self.stakeholderdata.insert(stakeholder, this_stakeholder);
        proof {
            let sd = old(self)@.stakeholders[stakeholder];
            assert(this_stakeholder == StakeholderData { paid: (sd.paid + payout) as u128, ..sd });
        }
        assert(self@ =~= distribute_tokens_step(old(self)@, caller, stakeholder).unwrap().0);
        Ok(())
    }

    fn distribute_from_pool(
        &mut self,
        caller: AccountId,
        stakeholder: AccountId,
        amount: u128,
        index: u8,
    ) -> (r: Result<(), PSP22Error>)
        requires
            old(self).wf(),
            index < POOL_COUNT,
            pool_distribution_step(old(self)@, caller, stakeholder, amount, index as int) is Some,
        ensures
            final(self).wf(),
            pool_distribution_step(old(self)@, caller, stakeholder, amount, index as int) == Some(
                (final(self)@, psp22_result(r)),
            ),
    {
        self.only_owner(caller)?;
        let i = index as usize;
        if self.poolbalances[i] < amount {
            return Err(OtherError::PaymentTooLarge.into_psp22());
        }
        let from_balance = self.psp22.balance_of(caller);
        match refusal_of_ledger(caller, stakeholder, amount, from_balance) {
            Some(e) => {
                return Err(e);
            },
            None => {},
        }
        self.poolbalances[i] = self.poolbalances[i] - amount;
        assert(self@ =~= TokenView {
            pools: old(self)@.pools.update(i as int, (old(self)@.pools[i as int] - amount) as u128),
            ..old(self)@
        });
        self.transfer(caller, stakeholder, amount, Vec::new())?;
        Ok(())
    }

    /// Pays `amount` from the whitelist pool to `stakeholder`.
    pub fn distribute_whitelist(&mut self, caller: AccountId, stakeholder: AccountId, amount: u128) -> (r:
        Result<(), PSP22Error>)
        requires
            old(self).wf(),
            pool_distribution_step(old(self)@, caller, stakeholder, amount, WHITELIST as int) is Some,
        ensures
            final(self).wf(),
            pool_distribution_step(old(self)@, caller, stakeholder, amount, WHITELIST as int)
                == Some((final(self)@, psp22_result(r))),
    {
        self.distribute_from_pool(caller, stakeholder, amount, WHITELIST)
    }

    /// Pays `amount` from the public-sale pool to `stakeholder`.
    pub fn distribute_publicsale(&mut self, caller: AccountId, stakeholder: AccountId, amount: u128) -> (r:
        Result<(), PSP22Error>)
        requires
            old(self).wf(),
            pool_distribution_step(old(self)@, caller, stakeholder, amount, PUBLIC_SALE as int) is Some,
        ensures
            final(self).wf(),
            pool_distribution_step(old(self)@, caller, stakeholder, amount, PUBLIC_SALE as int)
                == Some((final(self)@, psp22_result(r))),
    {
        self.distribute_from_pool(caller, stakeholder, amount, PUBLIC_SALE)
    }

    /// Pays `amount` from the partners pool to `stakeholder`.
    pub fn distribute_partners(&mut self, caller: AccountId, stakeholder: AccountId, amount: u128) -> (r:
        Result<(), PSP22Error>)
        requires
            old(self).wf(),
            pool_distribution_step(old(self)@, caller, stakeholder, amount, PARTNERS as int) is Some,
        ensures
            final(self).wf(),
            pool_distribution_step(old(self)@, caller, stakeholder, amount, PARTNERS as int)
                == Some((final(self)@, psp22_result(r))),
    {
        self.distribute_from_pool(caller, stakeholder, amount, PARTNERS)
    }

    /// The number of months counted so far.
    pub fn months_passed(&self) -> (r: u8)
        ensures
            r == self@.months,
    {
        self.monthspassed
    }

    /// Counts one more month, without any time check.
    #[allow(non_snake_case)]
    pub fn TESTING_increment_month(&mut self) -> (r: bool)
        requires
            old(self)@.months < u8::MAX,
        ensures
            r,
            final(self).wf() == old(self).wf(),
            final(self)@ == (TokenView { months: (old(self)@.months + 1) as u8, ..old(self)@ }),
    {
        self.monthspassed = self.monthspassed + 1;
        true
    }
}

} // verus!
