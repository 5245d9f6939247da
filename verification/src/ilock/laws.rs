//! Properties that hold across the token's operations.
use vstd::prelude::*;
use crate::account::{AccountId, CodeHash};
use crate::psp22::{balance_in, moved, not_owner_error, Psp22ErrorView};
use crate::ilock::errors::{other_into_psp22, OtherErrorView};
use crate::ilock::pools::{pool_vests, ONE_MONTH, POOL_COUNT, REWARDS};
use crate::ilock::token::{
    allowance_in, approve_step, balance, burn_step, circulation_consistent, initial_view,
    transfer_from_refusal, transfer_from_step, transfer_step,
    with_owner,
    ILOCKtoken, StakeholderData, TokenView,
};
use crate::ilock::distribution::{
    check_time_step, distribute_tokens_step, instalment, pool_distribution_step, register_step,
    vesting_decision,
};
use crate::ilock::rewards::{
    rewarded_to,
    call_socket_step, create_port_step, reward_step, tax_and_reward_step, withdraw_tax_step,
};

verus! {

/// A transfer moves exactly `value` from `from` to `to` and leaves every other
/// balance as it was.
pub proof fn lemma_transfer_moves_value(
    t: &ILOCKtoken,
    from: AccountId,
    to: AccountId,
    value: u128,
    a: AccountId,
)
    requires
        t.wf(),
        transfer_step(t@, from, to, value) matches Some((_, Ok(()))),
    ensures
        ({
            let v = t@;
            let w = transfer_step(v, from, to, value).unwrap().0;
            &&& from != to ==> balance(w, from) == balance(v, from) - value
            &&& from != to ==> balance(w, to) == balance(v, to) + value
            &&& from == to ==> balance(w, from) == balance(v, from)
            &&& a != from && a != to ==> balance(w, a) == balance(v, a)
            &&& w.supply == v.supply
        }),
{
    let v = t@;
    if from != to {
        t.psp22.lemma_two_balances_le_supply(from, to);
    }
    let w = transfer_step(v, from, to, value).unwrap().0;
    assert(w.balances == moved(v.balances, from, to, value));
    let m1 = v.balances.insert(from, (balance_in(v.balances, from) - value) as u128);
    assert(balance_in(m1, from) == balance_in(v.balances, from) - value);
    assert(a != from ==> balance_in(m1, a) == balance_in(v.balances, a));
}

/// The ledger's balances add up to its total supply, so no balance, and no
/// two balances together, exceed it.
pub proof fn lemma_balances_within_supply(t: &ILOCKtoken, a: AccountId, b: AccountId)
    requires
        t.wf(),
    ensures
        t.psp22.balances_total() == t@.supply,
        balance(t@, a) <= t@.supply,
        a != b ==> balance(t@, a) + balance(t@, b) <= t@.supply,
{
    t.psp22.lemma_balances_total();
    t.psp22.lemma_balance_le_supply(a);
    if a != b {
        t.psp22.lemma_two_balances_le_supply(a, b);
    }
}

/// A refused transfer changes nothing.
pub proof fn lemma_refused_transfer_changes_nothing(v: TokenView, from: AccountId, to: AccountId, value: u128)
    requires
        transfer_step(v, from, to, value) matches Some((_, Err(_))),
    ensures
        transfer_step(v, from, to, value).unwrap().0 == v,
{
}

/// Spending an allowance: a transfer beyond it is refused with
/// `InsufficientAllowance` and changes nothing, and a successful one lowers it
/// by exactly the value moved.
pub proof fn lemma_transfer_from_spends_allowance(
    v: TokenView,
    caller: AccountId,
    from: AccountId,
    to: AccountId,
    value: u128,
)
    ensures
        value > allowance_in(v, from, caller) ==> transfer_from_step(v, caller, from, to, value) == Some(
            (v, Err::<(), _>(Psp22ErrorView::InsufficientAllowance)),
        ),
        transfer_from_step(v, caller, from, to, value) matches Some((w, Ok(()))) ==> allowance_in(
            w,
            from,
            caller,
        ) == allowance_in(v, from, caller) - value,
{
}

/// A message that fails leaves the token as it was: whatever it had done
/// before failing is undone.
pub proof fn lemma_refused_messages_change_nothing(
    v: TokenView,
    caller: AccountId,
    from: AccountId,
    to: AccountId,
    amount: u128,
    index: int,
    portnumber: u16,
    address_is_contract: bool,
    now: u64,
)
    ensures
        transfer_step(v, from, to, amount) matches Some((w, Err(_))) ==> w == v,
        transfer_from_step(v, caller, from, to, amount) matches Some((w, Err(_))) ==> w == v,
        approve_step(v, from, to, amount) matches (w, Err(_)) ==> w == v,
        burn_step(v, caller, from, amount) matches Some((w, Err(_))) ==> w == v,
        distribute_tokens_step(v, caller, to) matches Some((w, Err(_))) ==> w == v,
        pool_distribution_step(v, caller, to, amount, index) matches Some((w, Err(_))) ==> w == v,
        reward_step(v, caller, amount, to) matches Some((w, Err(_))) ==> w == v,
        withdraw_tax_step(v, caller, to, amount) matches Some((w, Err(_))) ==> w == v,
        tax_and_reward_step(v, caller, from, to, amount, portnumber) matches Some((w, Err(_))) ==> w
            == v,
        call_socket_step(v, caller, to, address_is_contract, amount) matches Some((w, Err(_))) ==> w
            == v,
        check_time_step(v, now) matches Some((w, Err(_))) ==> w == v,
{
}

/// Transfers keep the circulating supply equal to what is held outside the
/// owner's account.
pub proof fn lemma_transfer_keeps_circulation(v: TokenView, from: AccountId, to: AccountId, value: u128)
    requires
        circulation_consistent(v),
        transfer_step(v, from, to, value) is Some,
    ensures
        circulation_consistent(transfer_step(v, from, to, value).unwrap().0),
{
}

/// Burning tokens outside the owner's account keeps the circulating supply
/// equal to what is held outside the owner's account.
pub proof fn lemma_burn_keeps_circulation(v: TokenView, caller: AccountId, donor: AccountId, amount: u128)
    requires
        circulation_consistent(v),
        donor != v.owner,
        burn_step(v, caller, donor, amount) is Some,
    ensures
        circulation_consistent(burn_step(v, caller, donor, amount).unwrap().0),
{
}

/// Vesting payouts, distributions from pools, rewards, tax withdrawals and
/// socket rewards keep the circulating supply equal to what is held outside
/// the owner's account.
pub proof fn lemma_distributions_keep_circulation(
    v: TokenView,
    caller: AccountId,
    target: AccountId,
    amount: u128,
    index: int,
)
    requires
        circulation_consistent(v),
    ensures
        distribute_tokens_step(v, caller, target) is Some ==> circulation_consistent(
            distribute_tokens_step(v, caller, target).unwrap().0,
        ),
        pool_distribution_step(v, caller, target, amount, index) is Some ==> circulation_consistent(
            pool_distribution_step(v, caller, target, amount, index).unwrap().0,
        ),
        reward_step(v, caller, amount, target) is Some ==> circulation_consistent(
            reward_step(v, caller, amount, target).unwrap().0,
        ),
        withdraw_tax_step(v, caller, target, amount) is Some ==> circulation_consistent(
            withdraw_tax_step(v, caller, target, amount).unwrap().0,
        ),
{
    if distribute_tokens_step(v, caller, target) is Some && caller == v.owner
        && v.stakeholders.contains_key(target) {
        let sd = v.stakeholders[target];
        if let Some(Ok(payout)) = vesting_decision(sd, v.months) {
            lemma_transfer_keeps_circulation(v, caller, target, payout);
        }
    }
    if pool_distribution_step(v, caller, target, amount, index) is Some && caller == v.owner
        && v.pools[index] >= amount {
        let v0 = TokenView { pools: v.pools.update(index, (v.pools[index] - amount) as u128), ..v };
        lemma_transfer_keeps_circulation(v0, caller, target, amount);
    }
    if reward_step(v, caller, amount, target) is Some && caller == v.owner && v.rewarded_total
        + amount <= u128::MAX && v.pools[7] >= amount {
        let v0 = TokenView {
            rewarded_total: (v.rewarded_total + amount) as u128,
            pools: v.pools.update(7, (v.pools[7] - amount) as u128),
            ..v
        };
        lemma_transfer_keeps_circulation(v0, caller, target, amount);
    }
    if withdraw_tax_step(v, caller, target, amount) is Some && caller == v.owner && amount
        <= v.taxpool {
        lemma_transfer_keeps_circulation(v, caller, target, amount);
    }
}

/// Handing ownership over keeps the circulating supply equal to what is held
/// outside the owner's account when the new owner holds exactly what the old
/// owner holds.
pub proof fn lemma_ownership_transfer_keeps_circulation(v: TokenView, new_owner: AccountId)
    requires
        circulation_consistent(v),
        balance(v, new_owner) == balance(v, v.owner),
    ensures
        circulation_consistent(with_owner(v, new_owner)),
{
}

/// Spending an allowance keeps the circulating supply equal to what is held
/// outside the owner's account.
pub proof fn lemma_transfer_from_keeps_circulation(
    v: TokenView,
    caller: AccountId,
    from: AccountId,
    to: AccountId,
    value: u128,
)
    requires
        circulation_consistent(v),
        transfer_from_step(v, caller, from, to, value) is Some,
    ensures
        circulation_consistent(transfer_from_step(v, caller, from, to, value).unwrap().0),
{
    let a = allowance_in(v, from, caller);
    if transfer_from_refusal(caller, from, to, value, a, balance(v, from)) is None {
        let w = approve_step(v, from, caller, (a - value) as u128).0;
        lemma_transfer_keeps_circulation(w, from, to, value);
    }
}

/// Socket rewards keep the circulating supply equal to what is held outside
/// the owner's account.
pub proof fn lemma_tax_and_reward_keeps_circulation(
    v: TokenView,
    caller: AccountId,
    owner: AccountId,
    address: AccountId,
    amount: u128,
    portnumber: u16,
)
    requires
        circulation_consistent(v),
        tax_and_reward_step(v, caller, owner, address, amount, portnumber) is Some,
    ensures
        circulation_consistent(
            tax_and_reward_step(v, caller, owner, address, amount, portnumber).unwrap().0,
        ),
{
    if v.ports.contains_key(portnumber) {
        let port = v.ports[portnumber];
        if port.paid + amount <= u128::MAX && port.cap >= port.paid + amount {
            lemma_transfer_from_keeps_circulation(v, caller, owner, v.owner, port.tax);
            if let Some((v1, Ok(()))) = transfer_from_step(v, caller, owner, v.owner, port.tax) {
                if v1.taxpool + port.tax <= u128::MAX {
                    let v2 = TokenView { taxpool: (v1.taxpool + port.tax) as u128, ..v1 };
                    lemma_transfer_from_keeps_circulation(v2, caller, v.owner, address, amount);
                }
            }
        }
    }
}

/// Every port has paid out at most its cap.
pub open spec fn ports_within_cap(v: TokenView) -> bool {
    forall|n: u16| #[trigger] v.ports.contains_key(n) ==> v.ports[n].paid <= v.ports[n].cap
}

/// Opening ports and paying rewards through them never lets a port pay out
/// beyond its cap.
pub proof fn lemma_ports_stay_within_cap(
    v: TokenView,
    caller: AccountId,
    codehash: CodeHash,
    tax: u128,
    cap: u128,
    locked: bool,
    number: u16,
    owner: AccountId,
    address: AccountId,
    address_is_contract: bool,
    amount: u128,
)
    requires
        ports_within_cap(v),
    ensures
        ports_within_cap(create_port_step(v, caller, codehash, tax, cap, locked, number).0),
        tax_and_reward_step(v, caller, owner, address, amount, number) is Some ==> ports_within_cap(
            tax_and_reward_step(v, caller, owner, address, amount, number).unwrap().0,
        ),
        call_socket_step(v, caller, address, address_is_contract, amount) is Some ==> ports_within_cap(
            call_socket_step(v, caller, address, address_is_contract, amount).unwrap().0,
        ),
{
    if v.sockets.contains_key(caller) {
        let socket = v.sockets[caller];
        lemma_tax_and_reward_within_cap(v, caller, socket.address, address, amount, socket.port);
    }
    lemma_tax_and_reward_within_cap(v, caller, owner, address, amount, number);
}

proof fn lemma_tax_and_reward_within_cap(
    v: TokenView,
    caller: AccountId,
    owner: AccountId,
    address: AccountId,
    amount: u128,
    portnumber: u16,
)
    requires
        ports_within_cap(v),
    ensures
        tax_and_reward_step(v, caller, owner, address, amount, portnumber) is Some ==> ports_within_cap(
            tax_and_reward_step(v, caller, owner, address, amount, portnumber).unwrap().0,
        ),
{
}

/// A stakeholder whose payments so far are whole instalments, or who is paid in full.
pub open spec fn vesting_on_track(sd: StakeholderData) -> bool {
    &&& sd.paid <= sd.share
    &&& (sd.paid == sd.share || instalment(sd) == 0 || (sd.paid as int) % instalment(sd) == 0)
}

/// The instalments paid so far are at most the months passed.
pub open spec fn payments_within_months(sd: StakeholderData, months: u8) -> bool {
    instalment(sd) > 0 ==> (sd.paid as int) / instalment(sd) <= months
}

/// A vesting payment never pays a stakeholder past its share, and never more
/// instalments than months have passed, when the share's remainder after
/// dividing it into instalments is smaller than one instalment.
pub proof fn lemma_vesting_payment(sd: StakeholderData, months: u8)
    requires
        sd.pool < POOL_COUNT,
        vesting_on_track(sd),
        (sd.share as int) % (pool_vests(sd.pool as int) as int) < instalment(sd),
        vesting_decision(sd, months) matches Some(Ok(_)),
    ensures
        ({
            let payout = vesting_decision(sd, months)->Some_0->Ok_0;
            let after = StakeholderData { paid: (sd.paid + payout) as u128, ..sd };
            &&& sd.paid + payout <= sd.share
            &&& vesting_on_track(after)
            &&& payments_within_months(after, months)
        }),
{
    let vests = pool_vests(sd.pool as int) as int;
    let base = instalment(sd);
    let share = sd.share as int;
    let paid = sd.paid as int;
    let r = share % vests;
    assert(vests >= 1);
    assert(share == vests * base + r) by (nonlinear_arith)
        requires
            vests >= 1,
            base == share / vests,
            r == share % vests,
    ;
    assert(paid % base == 0);
    let k = paid / base;
    assert(paid == k * base) by (nonlinear_arith)
        requires
            base > 0,
            paid % base == 0,
            k == paid / base,
    ;
    assert(k < months);
    if share - paid - base < base {
        // the last instalment: the remainder is added, and the share is reached
        assert(k + 1 >= vests) by (nonlinear_arith)
            requires
                share == vests * base + r,
                paid == k * base,
                share - paid - base < base,
                0 <= r,
                base > 0,
        ;
        assert(k + 1 <= vests) by (nonlinear_arith)
            requires
                share == vests * base + r,
                paid == k * base,
                paid + base <= share,
                r < base,
                base > 0,
        ;
        assert(paid + base + r == share) by (nonlinear_arith)
            requires
                share == vests * base + r,
                paid == k * base,
                k + 1 == vests,
        ;
        assert(share / base == vests) by (nonlinear_arith)
            requires
                share == vests * base + r,
                0 <= r < base,
                base > 0,
        ;
    } else {
        assert(paid + base == (k + 1) * base) by (nonlinear_arith)
            requires
                paid == k * base,
        ;
        assert((paid + base) % base == 0 && (paid + base) / base == k + 1) by (nonlinear_arith)
            requires
                paid + base == (k + 1) * base,
                base > 0,
                k >= 0,
        ;
    }
}

/// The point from which months are counted: the payout date less one month
/// for each month counted, is `t0` plus one month.
pub open spec fn schedule_anchored(v: TokenView, t0: int) -> bool {
    v.next_payout == t0 + (v.months + 1) * ONE_MONTH
}

/// The month count cannot run ahead of time: counting a month keeps the
/// schedule anchored at launch time `t0`, and whenever it succeeds at time
/// `now`, the months counted span less time than has passed since `t0`.
pub proof fn lemma_check_time_schedule(v: TokenView, now: u64, t0: int)
    requires
        schedule_anchored(v, t0),
        check_time_step(v, now) is Some,
    ensures
        schedule_anchored(check_time_step(v, now).unwrap().0, t0),
        check_time_step(v, now).unwrap().1 is Ok ==> check_time_step(v, now).unwrap().0.months
            * ONE_MONTH < now - t0,
{
}

/// Right after construction the whole supply is held by the owner, nothing
/// circulates, no port has paid anything, and the month schedule is anchored
/// at the construction time.
pub proof fn lemma_initial_state(caller: AccountId, now: u64)
    requires
        now + ONE_MONTH <= u64::MAX,
    ensures
        circulation_consistent(initial_view(caller, now)),
        ports_within_cap(initial_view(caller, now)),
        schedule_anchored(initial_view(caller, now), now as int),
        balance(initial_view(caller, now), caller) == initial_view(caller, now).supply,
{
}

/// Only the owner may burn, register stakeholders, distribute from pools,
/// reward interlockers, withdraw tax or open ports: for anyone else these
/// messages fail with the ownership error and change nothing.
pub proof fn lemma_owner_only_messages(
    v: TokenView,
    caller: AccountId,
    target: AccountId,
    amount: u128,
    pool: u8,
    index: int,
    codehash: CodeHash,
    locked: bool,
    number: u16,
)
    requires
        caller != v.owner,
    ensures
        burn_step(v, caller, target, amount) == Some((v, Err::<(), _>(not_owner_error()))),
        register_step(v, caller, target, amount, pool) == (v, Err::<(), _>(not_owner_error())),
        distribute_tokens_step(v, caller, target) == Some((v, Err::<(), _>(not_owner_error()))),
        pool_distribution_step(v, caller, target, amount, index) == Some(
            (v, Err::<(), _>(not_owner_error())),
        ),
        reward_step(v, caller, amount, target) == Some((v, Err::<u128, _>(not_owner_error()))),
        withdraw_tax_step(v, caller, target, amount) == Some((v, Err::<(), _>(not_owner_error()))),
        create_port_step(v, caller, codehash, amount, amount, locked, number) == (
            v,
            Err::<(), _>(not_owner_error()),
        ),
{
}

/// After `approve`, the allowance is what was approved.
pub proof fn lemma_approve_then_allowance(v: TokenView, owner: AccountId, spender: AccountId, amount: u128)
    requires
        approve_step(v, owner, spender, amount).1 is Ok,
    ensures
        allowance_in(approve_step(v, owner, spender, amount).0, owner, spender) == amount,
{
}

/// Withdrawing collected tax: a withdrawal above what was collected is refused
/// with `PaymentTooLarge` and changes nothing; a successful one lowers the tax
/// available by exactly the amount withdrawn, moves that amount from the owner
/// to `wallet`, and leaves the rest of the collected tax on record.
pub proof fn lemma_withdraw_tax_accounting(v: TokenView, caller: AccountId, wallet: AccountId, amount: u128)
    ensures
        caller == v.owner && amount > v.taxpool ==> withdraw_tax_step(v, caller, wallet, amount) == Some(
            (v, Err::<(), _>(other_into_psp22(OtherErrorView::PaymentTooLarge))),
        ),
        withdraw_tax_step(v, caller, wallet, amount) matches Some((w, Ok(()))) ==> {
            &&& caller == v.owner
            &&& amount <= v.taxpool
            &&& w.taxpool == v.taxpool - amount
            &&& w.balances == moved(v.balances, caller, wallet, amount)
            &&& w.rewarded_total == v.rewarded_total
        },
{
}

/// A socket reward of `amount` to an account other than the owner lowers the
/// rewards pool by exactly `amount`: the tax that reached the owner is not
/// counted as new reward tokens. The tax pool and the port's collected tax grow
/// by the port's tax, the port's paid total and the rewarded total by `amount`.
pub proof fn lemma_socket_reward_accounting(
    v: TokenView,
    caller: AccountId,
    owner: AccountId,
    address: AccountId,
    amount: u128,
    portnumber: u16,
)
    requires
        v.pools.len() == POOL_COUNT,
        address != v.owner,
        tax_and_reward_step(v, caller, owner, address, amount, portnumber) matches Some((_, Ok(()))),
    ensures
        ({
            let w = tax_and_reward_step(v, caller, owner, address, amount, portnumber).unwrap().0;
            let port = v.ports[portnumber];
            &&& w.pools[REWARDS as int] == v.pools[REWARDS as int] - amount
            &&& forall|i: int| 0 <= i < POOL_COUNT && i != REWARDS ==> #[trigger] w.pools[i] == v.pools[i]
            &&& w.taxpool == v.taxpool + port.tax
            &&& w.rewarded_total == v.rewarded_total + amount
            &&& w.ports[portnumber].paid == port.paid + amount
            &&& w.ports[portnumber].collected == port.collected + port.tax
        }),
{
    let port = v.ports[portnumber];
    let a1 = allowance_in(v, owner, caller);
    let u1 = approve_step(v, owner, caller, (a1 - port.tax) as u128).0;
    let v1 = transfer_step(u1, owner, v.owner, port.tax).unwrap().0;
    assert(v1.pools[REWARDS as int] == v.pools[REWARDS as int] + port.tax);
    let v2 = TokenView { taxpool: (v1.taxpool + port.tax) as u128, ..v1 };
    let a2 = allowance_in(v2, v.owner, caller);
    let u2 = approve_step(v2, v.owner, caller, (a2 - amount) as u128).0;
    let v3 = transfer_step(u2, v.owner, address, amount).unwrap().0;
    assert(v3.pools[REWARDS as int] == v1.pools[REWARDS as int]);
}

/// The same through a connected contract's socket: a successful socket call
/// rewarding an account other than the owner lowers the rewards pool by
/// exactly the reward.
pub proof fn lemma_call_socket_reward_accounting(
    v: TokenView,
    caller: AccountId,
    address: AccountId,
    address_is_contract: bool,
    amount: u128,
)
    requires
        v.pools.len() == POOL_COUNT,
        address != v.owner,
        call_socket_step(v, caller, address, address_is_contract, amount) matches Some((_, Ok(()))),
    ensures
        call_socket_step(v, caller, address, address_is_contract, amount).unwrap().0.pools[REWARDS as int]
            == v.pools[REWARDS as int] - amount,
{
    let socket = v.sockets[caller];
    lemma_socket_reward_accounting(v, caller, socket.address, address, amount, socket.port);
}

/// The vesting schedule of every stakeholder pool, in payments and months of
/// cliff: each instalment of a stakeholder is its share divided by its pool's
/// number of payments (24 for early backers, 18, 15 and 12 for the three
/// presales, 36 for the team, 24 for Outlier Ventures and the advisors, 1 for
/// rewards, 84 for the foundation, 1 for partners, 48 for the whitelist and
/// the public sale), and no payment comes before the pool's cliff (6 months
/// for the team, none for rewards, partners, whitelist and public sale, 1
/// month otherwise).
pub proof fn lemma_vesting_schedule(sd: StakeholderData, months: u8)
    requires
        sd.pool < POOL_COUNT,
    ensures
        instalment(sd) == sd.share as int / (if sd.pool == 0 {
            24int
        } else if sd.pool == 1 {
            18
        } else if sd.pool == 2 {
            15
        } else if sd.pool == 3 {
            12
        } else if sd.pool == 4 {
            36
        } else if sd.pool == 5 || sd.pool == 6 {
            24
        } else if sd.pool == 7 || sd.pool == 9 {
            1
        } else if sd.pool == 8 {
            84
        } else {
            48
        }),
        months < (if sd.pool == 4 {
            6u8
        } else if sd.pool == 7 || sd.pool >= 9 {
            0
        } else {
            1
        }) ==> vesting_decision(sd, months) == Some(Err::<u128, _>(OtherErrorView::CliffNotPassed)),
{
}

/// Paying out of a pool: a reward to an interlocker other than the owner lowers
/// the rewards pool by the reward and raises the interlocker's and the overall
/// rewarded totals by it; a direct distribution from pool `index` to another
/// account lowers that pool by the amount; a vesting payout lowers the
/// stakeholder's pool by the payout and raises what it has been paid by the
/// same; a burn lowers the ledger supply and the circulating supply by the
/// amount burned.
pub proof fn lemma_payout_accounting(
    v: TokenView,
    caller: AccountId,
    target: AccountId,
    amount: u128,
    index: int,
)
    requires
        v.pools.len() == POOL_COUNT,
        0 <= index < POOL_COUNT,
        target != v.owner,
    ensures
        reward_step(v, caller, amount, target) matches Some((w, Ok(total))) ==> {
            &&& w.pools[REWARDS as int] == v.pools[REWARDS as int] - amount
            &&& w.rewarded_total == v.rewarded_total + amount
            &&& total == rewarded_to(v, target) + amount
            &&& rewarded_to(w, target) == total
        },
        pool_distribution_step(v, caller, target, amount, index) matches Some((w, Ok(()))) ==> {
            &&& w.pools[index] == v.pools[index] - amount
            &&& w.balances == moved(v.balances, caller, target, amount)
        },
        distribute_tokens_step(v, caller, target) matches Some((w, Ok(()))) ==> {
            let sd = v.stakeholders[target];
            let after = w.stakeholders[target];
            &&& v.stakeholders.contains_key(target)
            &&& after.share == sd.share && after.pool == sd.pool
            &&& after.paid > sd.paid
            &&& w.pools[sd.pool as int] == v.pools[sd.pool as int] - (after.paid - sd.paid)
            &&& w.balances == moved(v.balances, caller, target, (after.paid - sd.paid) as u128)
        },
        burn_step(v, caller, target, amount) matches Some((w, Ok(()))) ==> {
            &&& amount <= v.supply ==> w.supply == v.supply - amount
            &&& w.circulating == v.circulating - amount
            &&& balance(w, target) == balance(v, target) - amount
        },
{
}

/// At launch each pool holds its allotment, in whole tokens times 10^18: 2
/// million for early backers, 48,622,222, 66,666,667 and 40 million for the
/// three presales, 200 million for the team, 40 million for Outlier Ventures,
/// 25 million for the advisors, 285 million for rewards, 172,711,111 for the
/// foundation, 37 million for partners, 15 million for the whitelist and 50
/// million for the public sale.
pub proof fn lemma_initial_pool_allotments(caller: AccountId, now: u64, i: int)
    requires
        0 <= i < POOL_COUNT,
    ensures
        initial_view(caller, now).pools.len() == POOL_COUNT,
        initial_view(caller, now).pools[i] == (if i == 0 {
            2_000_000u128
        } else if i == 1 {
            48_622_222
        } else if i == 2 {
            66_666_667
        } else if i == 3 || i == 5 {
            40_000_000
        } else if i == 4 {
            200_000_000
        } else if i == 6 {
            25_000_000
        } else if i == 7 {
            285_000_000
        } else if i == 8 {
            172_711_111
        } else if i == 9 {
            37_000_000
        } else if i == 10 {
            15_000_000
        } else {
            50_000_000
        }) * 1_000_000_000_000_000_000,
{
}

} // verus!
