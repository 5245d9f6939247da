//! Checks that tell, before a message is sent, whether its arithmetic stays
//! within range, so that a caller outside the verified code can refuse the
//! inputs on which the message is not defined.
use vstd::prelude::*;
use crate::account::AccountId;
use crate::ilock::distribution::{distribute_tokens_step, pool_distribution_step, vesting_decision};
use crate::ilock::pools::{pool, POOL_COUNT, REWARDS};
use crate::ilock::rewards::{
    call_socket_step, reward_step, rewarded_to, tax_and_reward_step, withdraw_tax_step,
};
use crate::ilock::token::{
    allowance_in, approve_step, balance, burn_step, refusal_of_transfer_from, transfer_from_step,
    transfer_step, ILOCKtoken, Port, TokenView,
};

verus! {

/// Whether the ledger accepts a transfer of `value` from `from` to `to`.
pub open spec fn ledger_accepts(v: TokenView, from: AccountId, to: AccountId, value: u128) -> bool {
    !from.spec_is_zero() && !to.spec_is_zero() && balance(v, from) >= value
}

/// Whether the owner's bookkeeping after an accepted transfer stays in range,
/// given the circulating supply and the rewards pool before it.
pub open spec fn bookkeeping_fits(
    owner: AccountId,
    from: AccountId,
    to: AccountId,
    value: u128,
    circulating: u128,
    rewards: u128,
) -> bool {
    let c1: int = if from == owner {
        circulating + value
    } else {
        circulating as int
    };
    c1 <= u128::MAX && (to == owner ==> rewards + value <= u128::MAX && c1 >= value)
}

/// A transfer is defined exactly where the ledger refuses it or the
/// bookkeeping stays in range.
pub proof fn lemma_transfer_defined(v: TokenView, from: AccountId, to: AccountId, value: u128)
    ensures
        (transfer_step(v, from, to, value) is Some) == (!ledger_accepts(v, from, to, value)
            || bookkeeping_fits(v.owner, from, to, value, v.circulating, v.pools[REWARDS as int])),
        ledger_accepts(v, from, to, value) ==> (transfer_step(v, from, to, value) matches Some(
            (_, r),
        ) ==> r is Ok),
        !ledger_accepts(v, from, to, value) ==> (transfer_step(v, from, to, value) matches Some(
            (w, r),
        ) && w == v && r is Err),
{
}

fn fits(
    owner: &AccountId,
    from: &AccountId,
    to: &AccountId,
    value: u128,
    circulating: u128,
    rewards: u128,
) -> (r: bool)
    ensures
        r == bookkeeping_fits(*owner, *from, *to, value, circulating, rewards),
{
    let c1: u128 = if from.same(owner) {
        if circulating > u128::MAX - value {
            return false;
        }
        circulating + value
    } else {
        circulating
    };
    if to.same(owner) {
        if rewards > u128::MAX - value || c1 < value {
            return false;
        }
    }
    true
}

impl ILOCKtoken {
    fn accepts(&self, from: &AccountId, to: &AccountId, value: u128) -> (r: bool)
        requires
            self.wf(),
        ensures
            r == ledger_accepts(self@, *from, *to, value),
    {
        !from.is_zero() && !to.is_zero() && self.psp22.balance_of(*from) >= value
    }

    /// Whether `transfer` and `transfer_from` are defined on these arguments.
    pub fn transfer_defined(&self, from: AccountId, to: AccountId, value: u128) -> (r: bool)
        requires
            self.wf(),
        ensures
            r == (transfer_step(self@, from, to, value) is Some),
    {
        proof {
            lemma_transfer_defined(self@, from, to, value);
        }
        !self.accepts(&from, &to, value) || fits(
            &self.owner,
            &from,
            &to,
            value,
            self.circulatingsupply,
            self.poolbalances[REWARDS as usize],
        )
    }

    /// Whether `burn` is defined on these arguments.
    pub fn burn_defined(&self, caller: AccountId, donor: AccountId, amount: u128) -> (r: bool)
        requires
            self.wf(),
        ensures
            r == (burn_step(self@, caller, donor, amount) is Some),
    {
        if !caller.same(&self.owner) || donor.is_zero() || self.psp22.balance_of(donor) < amount {
            return true;
        }
        self.circulatingsupply >= amount
    }

    /// Whether `distribute_tokens` is defined on these arguments.
    pub fn distribute_tokens_defined(&self, caller: AccountId, stakeholder: AccountId) -> (r: bool)
        requires
            self.wf(),
        ensures
            r == (distribute_tokens_step(self@, caller, stakeholder) is Some),
    {
        if !caller.same(&self.owner) {
            return true;
        }
        let sd = match self.stakeholderdata.get(&stakeholder) {
            Some(s) => *s,
            None => {
                return true;
            },
        };
        if sd.pool >= POOL_COUNT as u8 {
            return false;
        }
        let p = pool(sd.pool);
        if self.monthspassed < p.cliffs || sd.paid == sd.share {
            return true;
        }
        let vests = p.vests as u128;
        let base = sd.share / vests;
        if base == 0 {
            return false;
        }
        if sd.paid / base >= self.monthspassed as u128 {
            return true;
        }
        if sd.paid > sd.share || sd.share - sd.paid < base {
            return false;
        }
        let payout = if sd.share - sd.paid - base < base {
            base + sd.share % vests
        } else {
            base
        };
        proof {
            assert(vesting_decision(sd, self@.months) == Some(
                Ok::<u128, crate::ilock::errors::OtherErrorView>(payout),
            ));
            lemma_transfer_defined(self@, caller, stakeholder, payout);
        }
        if !self.transfer_defined(caller, stakeholder, payout) {
            return false;
        }
        if !self.accepts(&caller, &stakeholder, payout) {
            return true;
        }
        let index = sd.pool as usize;
        let pool_after = if index == REWARDS as usize && stakeholder.same(&self.owner) {
            self.poolbalances[index] + payout
        } else {
            self.poolbalances[index]
        };
        pool_after >= payout && sd.paid <= u128::MAX - payout
    }

    /// Whether `distribute_whitelist`, `distribute_publicsale` or
    /// `distribute_partners` (pool `index`) is defined on these arguments.
    pub fn pool_distribution_defined(&self, caller: AccountId, stakeholder: AccountId, amount: u128, index: u8) -> (r:
        bool)
        requires
            self.wf(),
            index < POOL_COUNT,
        ensures
            r == (pool_distribution_step(self@, caller, stakeholder, amount, index as int) is Some),
    {
        let i = index as usize;
        if !caller.same(&self.owner) || self.poolbalances[i] < amount {
            return true;
        }
        let rewards = if i == REWARDS as usize {
            self.poolbalances[i] - amount
        } else {
            self.poolbalances[REWARDS as usize]
        };
        proof {
            let v0 = TokenView {
                pools: self@.pools.update(i as int, (self@.pools[i as int] - amount) as u128),
                ..self@
            };
            lemma_transfer_defined(v0, caller, stakeholder, amount);
        }
        !self.accepts(&caller, &stakeholder, amount) || fits(
            &self.owner,
            &caller,
            &stakeholder,
            amount,
            self.circulatingsupply,
            rewards,
        )
    }

    /// Whether `reward_interlocker` is defined on these arguments.
    pub fn reward_defined(&self, caller: AccountId, reward: u128, interlocker: AccountId) -> (r: bool)
        requires
            self.wf(),
        ensures
            r == (reward_step(self@, caller, reward, interlocker) is Some),
    {
        let i = REWARDS as usize;
        if !caller.same(&self.owner) || self.poolbalances[i] < reward {
            return true;
        }
        if self.rewardedtotal > u128::MAX - reward {
            return false;
        }
        let ghost v0 = TokenView {
            rewarded_total: (self@.rewarded_total + reward) as u128,
            pools: self@.pools.update(REWARDS as int, (self@.pools[REWARDS as int] - reward) as u128),
            ..self@
        };
        proof {
            lemma_transfer_defined(v0, caller, interlocker, reward);
        }
        if !self.accepts(&caller, &interlocker, reward) {
            return true;
        }
        if !fits(&self.owner, &caller, &interlocker, reward, self.circulatingsupply, self.poolbalances[i] - reward) {
            return false;
        }
        let previous = self.rewarded_interlocker_total(interlocker);
        assert(rewarded_to(transfer_step(v0, caller, interlocker, reward).unwrap().0, interlocker)
            == rewarded_to(self@, interlocker));
        previous <= u128::MAX - reward
    }

    /// Whether `withdraw_tax` is defined on these arguments.
    pub fn withdraw_tax_defined(&self, caller: AccountId, wallet: AccountId, amount: u128) -> (r: bool)
        requires
            self.wf(),
        ensures
            r == (withdraw_tax_step(self@, caller, wallet, amount) is Some),
    {
        if !caller.same(&self.owner) || amount > self.taxpool {
            return true;
        }
        proof {
            lemma_transfer_defined(self@, caller, wallet, amount);
        }
        self.transfer_defined(caller, wallet, amount)
    }

    /// Whether `transfer_from` is defined on these arguments.
    pub fn transfer_from_defined(&self, caller: AccountId, from: AccountId, to: AccountId, value: u128) -> (r:
        bool)
        requires
            self.wf(),
        ensures
            r == (transfer_from_step(self@, caller, from, to, value) is Some),
    {
        let allowance = self.psp22.allowance(from, caller);
        let from_balance = self.psp22.balance_of(from);
        if refusal_of_transfer_from(caller, from, to, value, allowance, from_balance).is_some() {
            return true;
        }
        proof {
            let w = approve_step(self@, from, caller, (allowance - value) as u128).0;
            lemma_transfer_defined(w, from, to, value);
        }
        fits(
            &self.owner,
            &from,
            &to,
            value,
            self.circulatingsupply,
            self.poolbalances[REWARDS as usize],
        )
    }

    /// Whether `tax_and_reward` is defined on these arguments.
    pub fn tax_and_reward_defined(
        &self,
        caller: AccountId,
        owner: AccountId,
        address: AccountId,
        amount: u128,
        portnumber: u16,
    ) -> (r: bool)
        requires
            self.wf(),
        ensures
            r == (tax_and_reward_step(self@, caller, owner, address, amount, portnumber) is Some),
    {
        let port: Port = match self.ports.get(&portnumber) {
            Some(p) => *p,
            None => {
                return true;
            },
        };
        if port.paid > u128::MAX - amount {
            return false;
        }
        if port.cap < port.paid + amount {
            return true;
        }
        let token_owner = self.owner;
        let ghost v = self@;
        let tax_allowance = self.psp22.allowance(owner, caller);
        let owner_balance = self.psp22.balance_of(owner);
        if refusal_of_transfer_from(caller, owner, token_owner, port.tax, tax_allowance, owner_balance).is_some() {
            return true;
        }
        let ghost w1 = approve_step(v, owner, caller, (tax_allowance - port.tax) as u128).0;
        proof {
            lemma_transfer_defined(w1, owner, token_owner, port.tax);
        }
        let rewards = self.poolbalances[REWARDS as usize];
        if !fits(&token_owner, &owner, &token_owner, port.tax, self.circulatingsupply, rewards) {
            return false;
        }
        // after the tax has moved to the token owner
        let c1: u128 = if owner.same(&token_owner) {
            self.circulatingsupply
        } else {
            self.circulatingsupply - port.tax
        };
        let rewards1 = rewards + port.tax;
        let reward_allowance = if owner.same(&token_owner) {
            tax_allowance - port.tax
        } else {
            self.psp22.allowance(token_owner, caller)
        };
        proof {
            if owner != token_owner {
                self.psp22.lemma_two_balances_le_supply(owner, token_owner);
            }
        }
        let owner_balance1: u128 = if owner.same(&token_owner) {
            owner_balance
        } else {
            self.psp22.balance_of(token_owner) + port.tax
        };
        if self.taxpool > u128::MAX - port.tax || port.collected > u128::MAX - port.tax {
            return false;
        }
        let ghost v1 = transfer_step(w1, owner, token_owner, port.tax).unwrap().0;
        let ghost v2 = TokenView { taxpool: (v1.taxpool + port.tax) as u128, ..v1 };
        proof {
            assert(v1 == transfer_from_step(v, caller, owner, token_owner, port.tax).unwrap().0);
            assert(v2.circulating == c1);
            assert(v2.pools[REWARDS as int] == rewards1);
            assert(balance(w1, token_owner) == balance(v, token_owner));
            assert(balance(v2, token_owner) == owner_balance1);
            assert(allowance_in(v2, token_owner, caller) == reward_allowance);
            assert(v2.owner == token_owner);
        }
        if refusal_of_transfer_from(caller, token_owner, address, amount, reward_allowance, owner_balance1).is_some() {
            return true;
        }
        let ghost w2 = approve_step(v2, token_owner, caller, (reward_allowance - amount) as u128).0;
        proof {
            lemma_transfer_defined(w2, token_owner, address, amount);
        }
        if !fits(&token_owner, &token_owner, &address, amount, c1, rewards1) {
            return false;
        }
        let rewards2: u128 = if address.same(&token_owner) {
            rewards1 + amount
        } else {
            rewards1
        };
        amount <= u128::MAX - port.tax && rewards2 >= amount + port.tax && self.rewardedtotal
            <= u128::MAX - amount
    }

    /// Whether `call_socket` is defined on these arguments.
    pub fn call_socket_defined(
        &self,
        caller: AccountId,
        address: AccountId,
        address_is_contract: bool,
        amount: u128,
    ) -> (r: bool)
        requires
            self.wf(),
        ensures
            r == (call_socket_step(self@, caller, address, address_is_contract, amount) is Some),
    {
        if address_is_contract {
            return true;
        }
        let socket = match self.sockets.get(&caller) {
            Some(s) => *s,
            None => {
                return true;
            },
        };
        if socket.port <= 39 || socket.port == 65535 {
            self.tax_and_reward_defined(caller, socket.address, address, amount, socket.port)
        } else {
            true
        }
    }
}

} // verus!
