//! Properties of the token over sequences of calls.
use vstd::prelude::*;
use crate::account::{AccountId, CodeHash};
use vstd::set::fold::{is_fun_commutative, lemma_fold_empty, lemma_fold_insert};
use crate::ilock::distribution::{
    check_time_step, distribute_tokens_step, instalment, pool_distribution_step, register_step,
    vesting_decision,
};
use crate::ilock::errors::OtherErrorView;
use crate::ilock::laws::{
    lemma_burn_keeps_circulation, lemma_check_time_schedule, lemma_distributions_keep_circulation,
    lemma_ports_stay_within_cap, lemma_tax_and_reward_keeps_circulation,
    lemma_transfer_from_keeps_circulation, lemma_transfer_keeps_circulation, lemma_vesting_payment,
    payments_within_months, ports_within_cap, schedule_anchored, vesting_on_track,
};
use crate::ilock::pools::{
    pool_cliffs, pool_tokens, pool_vests, DECIMALS_POWER10, ONE_MONTH, PARTNERS, POOL_COUNT, PUBLIC_SALE,
    REWARDS, SUPPLY_CAP, WHITELIST,
};
use crate::ilock::rewards::{
    call_socket_step, create_port_step, create_socket_step, reward_step, tax_and_reward_step,
    valid_socket_port, withdraw_tax_step,
};
use crate::ilock::token::{
    allowance_in, approve_step, balance, burn_step, circulation_consistent, initial_view,
    transfer_from_step, transfer_step, Port, StakeholderData, TokenView,
};

verus! {

/// One vesting payout call at month count `months`: the stakeholder's record
/// after it, and whether a payout was made.
pub open spec fn vest_once(sd: StakeholderData, months: u8) -> (StakeholderData, bool) {
    match vesting_decision(sd, months) {
        Some(Ok(payout)) => (StakeholderData { paid: (sd.paid + payout) as u128, ..sd }, true),
        _ => (sd, false),
    }
}

/// The stakeholder's record after payout calls at the month counts `ms`, in
/// order, and the number of payouts made.
pub open spec fn vest_calls(sd: StakeholderData, ms: Seq<u8>) -> (StakeholderData, nat)
    decreases ms.len(),
{
    if ms.len() == 0 {
        (sd, 0)
    } else {
        let (s1, n) = vest_calls(sd, ms.drop_last());
        let (s2, paid) = vest_once(s1, ms.last());
        (s2, if paid {
            n + 1
        } else {
            n
        })
    }
}

/// The share of `sd` is split into whole instalments with a remainder smaller
/// than one instalment.
pub open spec fn splits_evenly(sd: StakeholderData) -> bool {
    &&& sd.pool < POOL_COUNT
    &&& (sd.share as int) % (pool_vests(sd.pool as int) as int) < instalment(sd)
}

/// What `n` payouts have paid: `n` instalments, or the whole share once all
/// the pool's payments are made.
pub open spec fn paid_after(sd: StakeholderData, n: nat) -> int {
    if n == pool_vests(sd.pool as int) {
        sd.share as int
    } else {
        n * instalment(sd)
    }
}

proof fn lemma_share_split(sd: StakeholderData)
    requires
        splits_evenly(sd),
    ensures
        instalment(sd) > 0,
        sd.share as int == pool_vests(sd.pool as int) * instalment(sd) + (sd.share as int) % (
        pool_vests(sd.pool as int) as int),
        (sd.share as int) / instalment(sd) == pool_vests(sd.pool as int),
{
    let vests = pool_vests(sd.pool as int) as int;
    let base = instalment(sd);
    let share = sd.share as int;
    let r = share % vests;
    assert(vests >= 1);
    assert(share == vests * base + r) by (nonlinear_arith)
        requires
            vests >= 1,
            base == share / vests,
            r == share % vests,
    ;
    assert(share / base == vests) by (nonlinear_arith)
        requires
            share == vests * base + r,
            0 <= r < base,
    ;
}

proof fn lemma_vest_step(s: StakeholderData, n: nat, m: u8)
    requires
        splits_evenly(s),
        n <= pool_vests(s.pool as int),
        s.paid == paid_after(s, n),
    ensures
        ({
            let (t, made) = vest_once(s, m);
            let n2 = if made {
                n + 1
            } else {
                n
            };
            &&& t.share == s.share && t.pool == s.pool
            &&& n2 <= pool_vests(s.pool as int)
            &&& t.paid == paid_after(s, n2)
            &&& (t.paid as int) / instalment(s) == n2
            &&& made ==> n2 <= m
        }),
{
    lemma_share_split(s);
    let vests = pool_vests(s.pool as int) as int;
    let base = instalment(s);
    let share = s.share as int;
    let r = share % vests;
    let paid = s.paid as int;
    if n < vests {
        assert(paid / base == n) by (nonlinear_arith)
            requires
                paid == n * base,
                base > 0,
                n >= 0,
        ;
        assert(paid < share) by (nonlinear_arith)
            requires
                paid == n * base,
                share == vests * base + r,
                n < vests,
                base > 0,
                r >= 0,
        ;
    }
    match vesting_decision(s, m) {
        Some(Ok(payout)) => {
            assert(n < vests);
            assert(n < m);
            if share - paid - base < base {
                assert(payout == base + r);
                assert(n + 1 == vests) by (nonlinear_arith)
                    requires
                        paid == n * base,
                        share == vests * base + r,
                        share - paid - base < base,
                        n < vests,
                        0 <= r,
                        base > 0,
                ;
                assert(paid + base + r == share) by (nonlinear_arith)
                    requires
                        paid == n * base,
                        share == vests * base + r,
                        n + 1 == vests,
                ;
            } else {
                assert(payout == base);
                assert(n + 1 < vests) by (nonlinear_arith)
                    requires
                        paid == n * base,
                        share == vests * base + r,
                        share - paid - base >= base,
                        r < base,
                        base > 0,
                ;
                assert(paid + base == (n + 1) * base) by (nonlinear_arith)
                    requires
                        paid == n * base,
                ;
                assert((paid + base) / base == n + 1) by (nonlinear_arith)
                    requires
                        paid + base == (n + 1) * base,
                        base > 0,
                        n >= 0,
                ;
            }
        },
        _ => {},
    }
}

/// Vesting over any sequence of payout calls: a stakeholder registered with a
/// share that splits into whole instalments with a remainder smaller than one
/// instalment is paid one instalment per payout and never past its share; the
/// payouts never outnumber the months counted at the calls; after exactly as
/// many payouts as its pool has payments it has its whole share, and every
/// later call once the cliff has passed is refused with `StakeholderSharePaid`.
pub proof fn lemma_vesting_over_calls(sd: StakeholderData, ms: Seq<u8>, max_months: u8)
    requires
        splits_evenly(sd),
        sd.paid == 0,
        forall|i: int| 0 <= i < ms.len() ==> #[trigger] ms[i] <= max_months,
    ensures
        ({
            let (s, n) = vest_calls(sd, ms);
            &&& s.share == sd.share && s.pool == sd.pool
            &&& s.paid <= sd.share
            &&& n <= pool_vests(sd.pool as int)
            &&& n <= max_months
            &&& s.paid == paid_after(sd, n)
            &&& n == pool_vests(sd.pool as int) ==> forall|m: u8|
                m >= pool_cliffs(sd.pool as int) ==> #[trigger] vesting_decision(s, m) == Some(
                    Err::<u128, _>(OtherErrorView::StakeholderSharePaid),
                )
        }),
    decreases ms.len(),
{
    lemma_share_split(sd);
    if ms.len() == 0 {
        assert(paid_after(sd, 0) == 0);
    } else {
        let prefix = ms.drop_last();
        assert forall|i: int| 0 <= i < prefix.len() implies #[trigger] prefix[i] <= max_months by {
            assert(prefix[i] == ms[i]);
        }
        lemma_vesting_over_calls(sd, prefix, max_months);
        let (s1, n) = vest_calls(sd, prefix);
        assert(instalment(s1) == instalment(sd));
        lemma_vest_step(s1, n, ms.last());
        assert(ms.last() == ms[ms.len() - 1]);
        let (s2, made) = vest_once(s1, ms.last());
        let n2: nat = if made {
            n + 1
        } else {
            n
        };
        if n2 < pool_vests(sd.pool as int) {
            assert(s2.paid <= sd.share) by (nonlinear_arith)
                requires
                    s2.paid == n2 * instalment(sd),
                    n2 < pool_vests(sd.pool as int),
                    sd.share as int == pool_vests(sd.pool as int) * instalment(sd) + (
                    sd.share as int) % (pool_vests(sd.pool as int) as int),
                    (sd.share as int) % (pool_vests(sd.pool as int) as int) >= 0,
                    instalment(sd) > 0,
            ;
        }
    }
}

/// Each vesting payout call changes the stakeholder's record exactly as one
/// step of `vest_once` with a payout, or leaves the whole token as it was.
pub proof fn lemma_distribute_tokens_is_vest_once(v: TokenView, caller: AccountId, stakeholder: AccountId)
    requires
        distribute_tokens_step(v, caller, stakeholder) is Some,
    ensures
        ({
            let (w, r) = distribute_tokens_step(v, caller, stakeholder).unwrap();
            &&& r is Err ==> w == v
            &&& r is Ok ==> v.stakeholders.contains_key(stakeholder) && vest_once(
                v.stakeholders[stakeholder],
                v.months,
            ) == (w.stakeholders[stakeholder], true) && w.months == v.months
        }),
{
}

/// A socket call by a connected contract with a valid port, for a recipient
/// that is not a contract, is exactly `tax_and_reward` through its socket.
pub proof fn lemma_call_socket_is_tax_and_reward(
    v: TokenView,
    caller: AccountId,
    address: AccountId,
    amount: u128,
)
    requires
        v.sockets.contains_key(caller),
        valid_socket_port(v.sockets[caller].port),
    ensures
        call_socket_step(v, caller, address, false, amount) == tax_and_reward_step(
            v,
            caller,
            v.sockets[caller].address,
            address,
            amount,
            v.sockets[caller].port,
        ),
{
}

/// A call of one of the token's messages, with the arguments it is given and
/// what the environment tells it (the caller, the time, whether an account is
/// a contract, a contract's code hash). Ownership changes are not among them.
pub enum TokenCall {
    Transfer { caller: AccountId, to: AccountId, value: u128 },
    TransferFrom { caller: AccountId, from: AccountId, to: AccountId, value: u128 },
    Approve { caller: AccountId, spender: AccountId, value: u128 },
    IncreaseAllowance { caller: AccountId, spender: AccountId, delta: u128 },
    DecreaseAllowance { caller: AccountId, spender: AccountId, delta: u128 },
    Burn { caller: AccountId, donor: AccountId, amount: u128 },
    CheckTime { now: u64 },
    RegisterStakeholder { caller: AccountId, stakeholder: AccountId, share: u128, pool: u8 },
    DistributeTokens { caller: AccountId, stakeholder: AccountId },
    DistributeFromPool { caller: AccountId, stakeholder: AccountId, amount: u128, pool: u8 },
    RewardInterlocker { caller: AccountId, reward: u128, interlocker: AccountId },
    WithdrawTax { caller: AccountId, wallet: AccountId, amount: u128 },
    CreatePort {
        caller: AccountId,
        codehash: CodeHash,
        tax: u128,
        cap: u128,
        locked: bool,
        number: u16,
    },
    CreateSocket {
        caller: AccountId,
        caller_is_contract: bool,
        caller_hash: Option<CodeHash>,
        owner: AccountId,
        number: u16,
    },
    CallSocket { caller: AccountId, address: AccountId, address_is_contract: bool, amount: u128 },
    /// The testing message that counts one more month without a time check.
    IncrementMonth,
}

/// The state after one call, `None` where the call is not defined (its
/// arithmetic fails, or no such message exists).
pub open spec fn apply_call(v: TokenView, c: TokenCall) -> Option<TokenView> {
    match c {
        TokenCall::Transfer { caller, to, value } => match transfer_step(v, caller, to, value) {
            Some((w, _)) => Some(w),
            None => None,
        },
        TokenCall::TransferFrom { caller, from, to, value } => match transfer_from_step(
            v,
            caller,
            from,
            to,
            value,
        ) {
            Some((w, _)) => Some(w),
            None => None,
        },
        TokenCall::Approve { caller, spender, value } => Some(approve_step(v, caller, spender, value).0),
        TokenCall::IncreaseAllowance { caller, spender, delta } => {
            if allowance_in(v, caller, spender) + delta > u128::MAX {
                None
            } else {
                Some(
                    approve_step(
                        v,
                        caller,
                        spender,
                        (allowance_in(v, caller, spender) + delta) as u128,
                    ).0,
                )
            }
        },
        TokenCall::DecreaseAllowance { caller, spender, delta } => {
            if allowance_in(v, caller, spender) < delta {
                Some(v)
            } else {
                Some(
                    approve_step(
                        v,
                        caller,
                        spender,
                        (allowance_in(v, caller, spender) - delta) as u128,
                    ).0,
                )
            }
        },
        TokenCall::Burn { caller, donor, amount } => match burn_step(v, caller, donor, amount) {
            Some((w, _)) => Some(w),
            None => None,
        },
        TokenCall::CheckTime { now } => match check_time_step(v, now) {
            Some((w, _)) => Some(w),
            None => None,
        },
        TokenCall::RegisterStakeholder { caller, stakeholder, share, pool } => Some(
            register_step(v, caller, stakeholder, share, pool).0,
        ),
        TokenCall::DistributeTokens { caller, stakeholder } => match distribute_tokens_step(
            v,
            caller,
            stakeholder,
        ) {
            Some((w, _)) => Some(w),
            None => None,
        },
        TokenCall::DistributeFromPool { caller, stakeholder, amount, pool } => {
            if pool != WHITELIST && pool != PUBLIC_SALE && pool != PARTNERS {
                None
            } else {
                match pool_distribution_step(v, caller, stakeholder, amount, pool as int) {
                    Some((w, _)) => Some(w),
                    None => None,
                }
            }
        },
        TokenCall::RewardInterlocker { caller, reward, interlocker } => match reward_step(
            v,
            caller,
            reward,
            interlocker,
        ) {
            Some((w, _)) => Some(w),
            None => None,
        },
        TokenCall::WithdrawTax { caller, wallet, amount } => match withdraw_tax_step(
            v,
            caller,
            wallet,
            amount,
        ) {
            Some((w, _)) => Some(w),
            None => None,
        },
        TokenCall::CreatePort { caller, codehash, tax, cap, locked, number } => Some(
            create_port_step(v, caller, codehash, tax, cap, locked, number).0,
        ),
        TokenCall::CreateSocket { caller, caller_is_contract, caller_hash, owner, number } => Some(
            create_socket_step(v, caller, caller_is_contract, caller_hash, owner, number).0,
        ),
        TokenCall::CallSocket { caller, address, address_is_contract, amount } => match call_socket_step(
            v,
            caller,
            address,
            address_is_contract,
            amount,
        ) {
            Some((w, _)) => Some(w),
            None => None,
        },
        TokenCall::IncrementMonth => {
            if v.months == u8::MAX {
                None
            } else {
                Some(TokenView { months: (v.months + 1) as u8, ..v })
            }
        },
    }
}

/// The state after the calls `cs`, in order, `None` where one of them is not
/// defined.
pub open spec fn run_calls(v: TokenView, cs: Seq<TokenCall>) -> Option<TokenView>
    decreases cs.len(),
{
    if cs.len() == 0 {
        Some(v)
    } else {
        match run_calls(v, cs.drop_last()) {
            Some(w) => apply_call(w, cs.last()),
            None => None,
        }
    }
}

/// The calls that the whole-history invariant speaks of: no burn takes tokens
/// from the owner's own account, no month is counted without a time check, and
/// no month check is made later than `clock`.
pub open spec fn call_admitted(c: TokenCall, owner: AccountId, clock: int) -> bool {
    match c {
        TokenCall::Burn { donor, .. } => donor != owner,
        TokenCall::CheckTime { now } => now <= clock,
        TokenCall::IncrementMonth => false,
        _ => true,
    }
}

/// A stakeholder whose share splits evenly is on track: paid whole
/// instalments, never past its share, and no more of them than months counted.
pub open spec fn stakeholders_on_track(v: TokenView) -> bool {
    forall|h: AccountId|
        #[trigger] v.stakeholders.contains_key(h) && splits_evenly(v.stakeholders[h]) ==> {
            &&& vesting_on_track(v.stakeholders[h])
            &&& payments_within_months(v.stakeholders[h], v.months)
        }
}

/// What holds in every state reached from construction by `owner` at time
/// `t0`, up to a moment `clock` no earlier than any month check.
pub open spec fn token_invariant(v: TokenView, owner: AccountId, t0: int, clock: int) -> bool {
    &&& v.owner == owner
    &&& circulation_consistent(v)
    &&& v.supply <= SUPPLY_CAP
    &&& ports_within_cap(v)
    &&& schedule_anchored(v, t0)
    &&& v.months * ONE_MONTH <= clock - t0
    &&& stakeholders_on_track(v)
}

/// The parts of the state that the ledger's own operations leave alone.
pub open spec fn ledger_frame(v: TokenView, w: TokenView) -> bool {
    &&& w.owner == v.owner
    &&& w.supply == v.supply
    &&& w.ports == v.ports
    &&& w.months == v.months
    &&& w.next_payout == v.next_payout
    &&& w.stakeholders == v.stakeholders
}

proof fn lemma_ledger_steps_frame(v: TokenView, caller: AccountId, from: AccountId, to: AccountId, value: u128)
    ensures
        transfer_step(v, from, to, value) matches Some((w, _)) ==> ledger_frame(v, w),
        transfer_from_step(v, caller, from, to, value) matches Some((w, _)) ==> ledger_frame(v, w),
        ledger_frame(v, approve_step(v, from, to, value).0),
{
}

#[verifier::spinoff_prover]
#[verifier::rlimit(80)]
proof fn lemma_call_keeps_invariant(v: TokenView, c: TokenCall, owner: AccountId, t0: int, clock: int)
    requires
        token_invariant(v, owner, t0, clock),
        call_admitted(c, owner, clock),
        apply_call(v, c) is Some,
    ensures
        token_invariant(apply_call(v, c).unwrap(), owner, t0, clock),
{
    let w = apply_call(v, c).unwrap();
    match c {
        TokenCall::Transfer { caller, to, value } => {
            lemma_ledger_steps_frame(v, caller, caller, to, value);
            lemma_transfer_keeps_circulation(v, caller, to, value);
        },
        TokenCall::TransferFrom { caller, from, to, value } => {
            lemma_ledger_steps_frame(v, caller, from, to, value);
            lemma_transfer_from_keeps_circulation(v, caller, from, to, value);
        },
        TokenCall::Approve { caller, spender, value } => {
            lemma_ledger_steps_frame(v, caller, caller, spender, value);
        },
        TokenCall::IncreaseAllowance { caller, spender, delta } => {
            lemma_ledger_steps_frame(v, caller, caller, spender, (allowance_in(v, caller, spender) + delta) as u128);
        },
        TokenCall::DecreaseAllowance { caller, spender, delta } => {
            lemma_ledger_steps_frame(v, caller, caller, spender, (allowance_in(v, caller, spender) - delta) as u128);
        },
        TokenCall::Burn { caller, donor, amount } => {
            lemma_burn_keeps_circulation(v, caller, donor, amount);
        },
        TokenCall::CheckTime { now } => {
            lemma_check_time_schedule(v, now, t0);
            assert(stakeholders_on_track(w));
        },
        TokenCall::RegisterStakeholder { caller, stakeholder, share, pool } => {
            assert(stakeholders_on_track(w));
        },
        TokenCall::DistributeTokens { caller, stakeholder } => {
            lemma_distributions_keep_circulation(v, caller, stakeholder, 0, 0);
            if caller == v.owner && v.stakeholders.contains_key(stakeholder) {
                let sd = v.stakeholders[stakeholder];
                if let Some(Ok(payout)) = vesting_decision(sd, v.months) {
                    lemma_ledger_steps_frame(v, caller, caller, stakeholder, payout);
                    if splits_evenly(sd) {
                        lemma_vesting_payment(sd, v.months);
                    }
                }
            }
            assert(stakeholders_on_track(w));
        },
        TokenCall::DistributeFromPool { caller, stakeholder, amount, pool } => {
            lemma_distributions_keep_circulation(v, caller, stakeholder, amount, pool as int);
            let v0 = TokenView {
                pools: v.pools.update(pool as int, (v.pools[pool as int] - amount) as u128),
                ..v
            };
            lemma_ledger_steps_frame(v0, caller, caller, stakeholder, amount);
        },
        TokenCall::RewardInterlocker { caller, reward, interlocker } => {
            lemma_distributions_keep_circulation(v, caller, interlocker, reward, 0);
            let v0 = TokenView {
                rewarded_total: (v.rewarded_total + reward) as u128,
                pools: v.pools.update(7, (v.pools[7] - reward) as u128),
                ..v
            };
            lemma_ledger_steps_frame(v0, caller, caller, interlocker, reward);
        },
        TokenCall::WithdrawTax { caller, wallet, amount } => {
            lemma_distributions_keep_circulation(v, caller, wallet, amount, 0);
            lemma_ledger_steps_frame(v, caller, caller, wallet, amount);
        },
        TokenCall::CreatePort { caller, codehash, tax, cap, locked, number } => {
            lemma_ports_stay_within_cap(v, caller, codehash, tax, cap, locked, number, caller, caller, false, 0);
        },
        TokenCall::CreateSocket { caller, caller_is_contract, caller_hash, owner, number } => {
        },
        TokenCall::CallSocket { caller, address, address_is_contract, amount } => {
            lemma_ports_stay_within_cap(
                v,
                caller,
                CodeHash(crate::account::filled(0)),
                0,
                0,
                false,
                0,
                caller,
                address,
                address_is_contract,
                amount,
            );
            if !address_is_contract && v.sockets.contains_key(caller) && valid_socket_port(
                v.sockets[caller].port,
            ) {
                let socket = v.sockets[caller];
                lemma_tax_and_reward_frame(v, caller, socket.address, address, amount, socket.port);
                lemma_tax_and_reward_keeps_circulation(
                    v,
                    caller,
                    socket.address,
                    address,
                    amount,
                    socket.port,
                );
            }
        },
        TokenCall::IncrementMonth => {},
    }
}

proof fn lemma_tax_and_reward_frame(
    v: TokenView,
    caller: AccountId,
    owner: AccountId,
    address: AccountId,
    amount: u128,
    portnumber: u16,
)
    requires
        tax_and_reward_step(v, caller, owner, address, amount, portnumber) is Some,
    ensures
        ({
            let w = tax_and_reward_step(v, caller, owner, address, amount, portnumber).unwrap().0;
            &&& w.owner == v.owner
            &&& w.supply == v.supply
            &&& w.months == v.months
            &&& w.next_payout == v.next_payout
            &&& w.stakeholders == v.stakeholders
        }),
{
    if v.ports.contains_key(portnumber) {
        let port = v.ports[portnumber];
        lemma_ledger_steps_frame(v, caller, owner, v.owner, port.tax);
        if let Some((v1, Ok(()))) = transfer_from_step(v, caller, owner, v.owner, port.tax) {
            let v2 = TokenView { taxpool: (v1.taxpool + port.tax) as u128, ..v1 };
            lemma_ledger_steps_frame(v2, caller, v.owner, address, amount);
        }
    }
}

/// Over any sequence of calls from construction by `owner` at time `t0` —
/// no ownership change, no burn from the owner's own account, no testing month
/// increment, and no month check later than `clock` — every state reached
/// keeps: the owner; the reported total supply equal to the ledger supply less
/// the owner's balance (the tokens in circulation), with the ledger supply never
/// above the cap minted at launch; every port within its cap; the month count
/// anchored at launch and never running ahead of the time elapsed up to
/// `clock`; and every stakeholder whose share splits evenly on track, paid
/// whole instalments, never past its share, and no more of them than months
/// counted.
pub proof fn lemma_history_invariant(owner: AccountId, t0: u64, clock: int, cs: Seq<TokenCall>)
    requires
        t0 + ONE_MONTH <= u64::MAX,
        t0 <= clock,
        forall|i: int| 0 <= i < cs.len() ==> call_admitted(#[trigger] cs[i], owner, clock),
        run_calls(initial_view(owner, t0), cs) is Some,
    ensures
        token_invariant(run_calls(initial_view(owner, t0), cs).unwrap(), owner, t0 as int, clock),
        ({
            let v = run_calls(initial_view(owner, t0), cs).unwrap();
            &&& v.circulating + balance(v, owner) == v.supply
            &&& v.circulating + balance(v, owner) <= SUPPLY_CAP
        }),
    decreases cs.len(),
{
    let v0 = initial_view(owner, t0);
    if cs.len() == 0 {
        assert(stakeholders_on_track(v0));
        assert(ports_within_cap(v0));
    } else {
        let prefix = cs.drop_last();
        assert forall|i: int| 0 <= i < prefix.len() implies call_admitted(#[trigger] prefix[i], owner, clock) by {
            assert(prefix[i] == cs[i]);
        }
        assert(run_calls(v0, cs) == match run_calls(v0, prefix) {
            Some(w) => apply_call(w, cs.last()),
            None => None,
        });
        lemma_history_invariant(owner, t0, clock, prefix);
        let w = run_calls(v0, prefix).unwrap();
        assert(cs.last() == cs[cs.len() - 1]);
        lemma_call_keeps_invariant(w, cs.last(), owner, t0 as int, clock);
    }
}

/// What stakeholder `h` of `m` counts toward pool `k`: what it is still owed
/// (`owed`) or what it has been paid, and nothing if it is in another pool.
pub open spec fn pool_part(m: Map<AccountId, StakeholderData>, k: u8, h: AccountId, owed: bool) -> int {
    if m[h].pool == k {
        if owed {
            m[h].share - m[h].paid
        } else {
            m[h].paid as int
        }
    } else {
        0
    }
}

/// Adds what stakeholder `h` counts toward pool `k` to a running total.
pub open spec fn add_part(m: Map<AccountId, StakeholderData>, k: u8, owed: bool) -> spec_fn(
    int,
    AccountId,
) -> int {
    |acc: int, h: AccountId| acc + pool_part(m, k, h, owed)
}

/// What the stakeholders of pool `k` in `m` count in all.
pub open spec fn pool_sum(m: Map<AccountId, StakeholderData>, k: u8, owed: bool) -> int {
    m.dom().fold(0int, add_part(m, k, owed))
}

/// What stakeholder `h` of `m` is still owed from pool `k`.
pub open spec fn owed_from(m: Map<AccountId, StakeholderData>, k: u8, h: AccountId) -> int {
    pool_part(m, k, h, true)
}

/// What the stakeholders of pool `k` in `m` are still owed in all.
pub open spec fn pool_owed(m: Map<AccountId, StakeholderData>, k: u8) -> int {
    pool_sum(m, k, true)
}

/// What the stakeholders of pool `k` in `m` have been paid in all.
pub open spec fn pool_paid(m: Map<AccountId, StakeholderData>, k: u8) -> int {
    pool_sum(m, k, false)
}

proof fn lemma_add_part_commutative(m: Map<AccountId, StakeholderData>, k: u8, owed: bool)
    ensures
        is_fun_commutative(add_part(m, k, owed)),
{
}

proof fn lemma_fold_part_agree(
    s: Set<AccountId>,
    m1: Map<AccountId, StakeholderData>,
    m2: Map<AccountId, StakeholderData>,
    k: u8,
    owed: bool,
)
    requires
        s.finite(),
        forall|h: AccountId| #[trigger] s.contains(h) ==> pool_part(m1, k, h, owed) == pool_part(m2, k, h, owed),
    ensures
        s.fold(0int, add_part(m1, k, owed)) == s.fold(0int, add_part(m2, k, owed)),
    decreases s.len(),
{
    lemma_add_part_commutative(m1, k, owed);
    lemma_add_part_commutative(m2, k, owed);
    if s.len() == 0 {
        assert(s =~= Set::empty());
        lemma_fold_empty(0int, add_part(m1, k, owed));
        lemma_fold_empty(0int, add_part(m2, k, owed));
    } else {
        let a = s.choose();
        let r = s.remove(a);
        assert(s =~= r.insert(a));
        lemma_fold_part_agree(r, m1, m2, k, owed);
        lemma_fold_insert(r, 0int, add_part(m1, k, owed), a);
        lemma_fold_insert(r, 0int, add_part(m2, k, owed), a);
    }
}

/// Recording `sd` for `h` changes what pool `k`'s stakeholders count by what
/// `h` counted before and counts after.
proof fn lemma_pool_sum_insert(
    m: Map<AccountId, StakeholderData>,
    k: u8,
    h: AccountId,
    sd: StakeholderData,
    owed: bool,
)
    requires
        m.dom().finite(),
    ensures
        m.insert(h, sd).dom().finite(),
        pool_sum(m.insert(h, sd), k, owed) == pool_sum(m, k, owed) - (if m.contains_key(h) {
            pool_part(m, k, h, owed)
        } else {
            0
        }) + pool_part(m.insert(h, sd), k, h, owed),
{
    let m2 = m.insert(h, sd);
    let r = m.dom().remove(h);
    lemma_add_part_commutative(m, k, owed);
    lemma_add_part_commutative(m2, k, owed);
    assert(m2.dom() =~= r.insert(h));
    lemma_fold_part_agree(r, m, m2, k, owed);
    lemma_fold_insert(r, 0int, add_part(m2, k, owed), h);
    if m.contains_key(h) {
        assert(m.dom() =~= r.insert(h));
        lemma_fold_insert(r, 0int, add_part(m, k, owed), h);
    } else {
        assert(m.dom() =~= r);
    }
}

proof fn lemma_pool_owed_insert(
    m: Map<AccountId, StakeholderData>,
    k: u8,
    h: AccountId,
    sd: StakeholderData,
)
    requires
        m.dom().finite(),
    ensures
        m.insert(h, sd).dom().finite(),
        pool_owed(m.insert(h, sd), k) == pool_owed(m, k) - (if m.contains_key(h) {
            owed_from(m, k, h)
        } else {
            0
        }) + owed_from(m.insert(h, sd), k, h),
{
    lemma_pool_sum_insert(m, k, h, sd, true);
}

/// Pool `k` holds enough tokens for what its stakeholders are still owed, and
/// each of them has a share that splits evenly and is on track.
pub open spec fn pool_covers(v: TokenView, k: u8) -> bool {
    &&& v.pools.len() == POOL_COUNT
    &&& v.stakeholders.dom().finite()
    &&& forall|h: AccountId|
        #[trigger] v.stakeholders.contains_key(h) && v.stakeholders[h].pool == k ==> splits_evenly(
            v.stakeholders[h],
        ) && vesting_on_track(v.stakeholders[h])
    &&& pool_owed(v.stakeholders, k) <= v.pools[k as int]
}

/// The calls that the pool law for pool `k` speaks of, in state `v`: each
/// stakeholder is registered once, into pool `k` only with a share that splits
/// evenly and that the pool still covers; and pool `k` is drawn on by vesting
/// payouts alone.
pub open spec fn call_keeps_pool(v: TokenView, c: TokenCall, k: u8) -> bool {
    match c {
        TokenCall::RegisterStakeholder { caller, stakeholder, share, pool } => caller != v.owner || (
        !v.stakeholders.contains_key(stakeholder) && (pool == k ==> splits_evenly(
            StakeholderData { paid: 0, share, pool },
        ) && pool_owed(v.stakeholders, k) + share <= v.pools[k as int])),
        TokenCall::DistributeFromPool { pool, .. } => pool != k,
        TokenCall::RewardInterlocker { .. } => k != REWARDS,
        TokenCall::CallSocket { .. } => k != REWARDS,
        _ => true,
    }
}

/// A transfer leaves the stakeholders and every pool but the rewards pool as
/// they were, and the rewards pool no lower.
proof fn lemma_transfer_pools(v: TokenView, caller: AccountId, from: AccountId, to: AccountId, value: u128)
    requires
        v.pools.len() == POOL_COUNT,
    ensures
        transfer_step(v, from, to, value) matches Some((w, _)) ==> {
            &&& w.pools.len() == POOL_COUNT
            &&& w.stakeholders == v.stakeholders
            &&& forall|i: int| 0 <= i < POOL_COUNT ==> #[trigger] w.pools[i] >= v.pools[i]
            &&& forall|i: int| 0 <= i < POOL_COUNT && i != REWARDS ==> #[trigger] w.pools[i] == v.pools[i]
        },
        transfer_from_step(v, caller, from, to, value) matches Some((w, _)) ==> {
            &&& w.pools.len() == POOL_COUNT
            &&& w.stakeholders == v.stakeholders
            &&& forall|i: int| 0 <= i < POOL_COUNT ==> #[trigger] w.pools[i] >= v.pools[i]
            &&& forall|i: int| 0 <= i < POOL_COUNT && i != REWARDS ==> #[trigger] w.pools[i] == v.pools[i]
        },
{
}

proof fn lemma_pool_frame(v: TokenView, w: TokenView, k: u8)
    requires
        k < POOL_COUNT,
        pool_covers(v, k),
        w.pools.len() == POOL_COUNT,
        w.stakeholders == v.stakeholders,
        w.pools[k as int] >= v.pools[k as int],
    ensures
        pool_covers(w, k),
{
}

proof fn lemma_register_keeps_pool(
    v: TokenView,
    caller: AccountId,
    stakeholder: AccountId,
    share: u128,
    pool: u8,
    k: u8,
)
    requires
        k < POOL_COUNT,
        pool_covers(v, k),
        call_keeps_pool(v, TokenCall::RegisterStakeholder { caller, stakeholder, share, pool }, k),
    ensures
        pool_covers(register_step(v, caller, stakeholder, share, pool).0, k),
{
    if caller == v.owner {
        let sd = StakeholderData { paid: 0, share, pool };
        lemma_pool_owed_insert(v.stakeholders, k, stakeholder, sd);
        let w = register_step(v, caller, stakeholder, share, pool).0;
        assert(w.stakeholders == v.stakeholders.insert(stakeholder, sd));
        if pool == k {
            assert(vesting_on_track(sd)) by {
                lemma_share_split(sd);
            }
        }
    }
}

#[verifier::spinoff_prover]
#[verifier::rlimit(50)]
proof fn lemma_distribute_keeps_pool(v: TokenView, caller: AccountId, stakeholder: AccountId, k: u8)
    requires
        k < POOL_COUNT,
        pool_covers(v, k),
        distribute_tokens_step(v, caller, stakeholder) is Some,
    ensures
        pool_covers(distribute_tokens_step(v, caller, stakeholder).unwrap().0, k),
{
    let w = distribute_tokens_step(v, caller, stakeholder).unwrap().0;
    if caller == v.owner && v.stakeholders.contains_key(stakeholder) {
        let sd = v.stakeholders[stakeholder];
        if let Some(Ok(payout)) = vesting_decision(sd, v.months) {
            lemma_transfer_pools(v, caller, caller, stakeholder, payout);
            if let Some((v1, Ok(()))) = transfer_step(v, caller, stakeholder, payout) {
                let after = StakeholderData { paid: (sd.paid + payout) as u128, ..sd };
                if sd.pool == k {
                    lemma_vesting_payment(sd, v.months);
                }
                lemma_pool_owed_insert(v.stakeholders, k, stakeholder, after);
                assert(w.stakeholders == v.stakeholders.insert(stakeholder, after));
                assert(w.pools == v1.pools.update(sd.pool as int, (v1.pools[sd.pool as int] - payout) as u128));
                assert(w.pools.len() == POOL_COUNT);
                assert(w.pools[k as int] >= v.pools[k as int] - owed_from(v.stakeholders, k, stakeholder)
                    + owed_from(w.stakeholders, k, stakeholder));
                assert forall|h: AccountId|
                    #[trigger] w.stakeholders.contains_key(h) && w.stakeholders[h].pool == k implies splits_evenly(
                    w.stakeholders[h]) && vesting_on_track(w.stakeholders[h]) by {
                    if h != stakeholder {
                        assert(w.stakeholders[h] == v.stakeholders[h]);
                    }
                }
            } else {
                assert(w == v);
            }
        } else {
            assert(w == v);
        }
    } else {
        assert(w == v);
    }
}

#[verifier::spinoff_prover]
#[verifier::rlimit(80)]
proof fn lemma_call_keeps_pool(v: TokenView, c: TokenCall, k: u8)
    requires
        k < POOL_COUNT,
        pool_covers(v, k),
        call_keeps_pool(v, c, k),
        apply_call(v, c) is Some,
    ensures
        pool_covers(apply_call(v, c).unwrap(), k),
{
    let w = apply_call(v, c).unwrap();
    match c {
        TokenCall::Transfer { caller, to, value } => {
            lemma_transfer_pools(v, caller, caller, to, value);
            lemma_pool_frame(v, w, k);
        },
        TokenCall::TransferFrom { caller, from, to, value } => {
            lemma_transfer_pools(v, caller, from, to, value);
            lemma_pool_frame(v, w, k);
        },
        TokenCall::RegisterStakeholder { caller, stakeholder, share, pool } => {
            lemma_register_keeps_pool(v, caller, stakeholder, share, pool, k);
        },
        TokenCall::DistributeTokens { caller, stakeholder } => {
            lemma_distribute_keeps_pool(v, caller, stakeholder, k);
        },
        TokenCall::DistributeFromPool { caller, stakeholder, amount, pool } => {
            if caller == v.owner && v.pools[pool as int] >= amount {
                let v0 = TokenView {
                    pools: v.pools.update(pool as int, (v.pools[pool as int] - amount) as u128),
                    ..v
                };
                lemma_transfer_pools(v0, caller, caller, stakeholder, amount);
            }
            lemma_pool_frame(v, w, k);
        },
        TokenCall::RewardInterlocker { caller, reward, interlocker } => {
            if caller == v.owner && v.pools[REWARDS as int] >= reward && v.rewarded_total + reward
                <= u128::MAX {
                let v0 = TokenView {
                    rewarded_total: (v.rewarded_total + reward) as u128,
                    pools: v.pools.update(REWARDS as int, (v.pools[REWARDS as int] - reward) as u128),
                    ..v
                };
                lemma_transfer_pools(v0, caller, caller, interlocker, reward);
            }
            lemma_pool_frame(v, w, k);
        },
        TokenCall::WithdrawTax { caller, wallet, amount } => {
            lemma_transfer_pools(v, caller, caller, wallet, amount);
            lemma_pool_frame(v, w, k);
        },
        TokenCall::CallSocket { caller, address, address_is_contract, amount } => {
            if !address_is_contract && v.sockets.contains_key(caller) && valid_socket_port(
                v.sockets[caller].port,
            ) {
                let socket = v.sockets[caller];
                lemma_tax_and_reward_pools(v, caller, socket.address, address, amount, socket.port);
            }
            lemma_pool_frame(v, w, k);
        },
        _ => {
            lemma_pool_frame(v, w, k);
        },
    }
}

proof fn lemma_tax_and_reward_pools(
    v: TokenView,
    caller: AccountId,
    owner: AccountId,
    address: AccountId,
    amount: u128,
    portnumber: u16,
)
    requires
        v.pools.len() == POOL_COUNT,
        tax_and_reward_step(v, caller, owner, address, amount, portnumber) is Some,
    ensures
        ({
            let w = tax_and_reward_step(v, caller, owner, address, amount, portnumber).unwrap().0;
            &&& w.pools.len() == POOL_COUNT
            &&& w.stakeholders == v.stakeholders
            &&& forall|i: int| 0 <= i < POOL_COUNT && i != REWARDS ==> #[trigger] w.pools[i] == v.pools[i]
        }),
{
    if v.ports.contains_key(portnumber) {
        let port = v.ports[portnumber];
        lemma_transfer_pools(v, caller, owner, v.owner, port.tax);
        if let Some((v1, Ok(()))) = transfer_from_step(v, caller, owner, v.owner, port.tax) {
            let v2 = TokenView { taxpool: (v1.taxpool + port.tax) as u128, ..v1 };
            lemma_transfer_pools(v2, caller, v.owner, address, amount);
        }
    }
}

/// Over any sequence of calls from construction in which each stakeholder is
/// registered once, every stakeholder of pool `k` is registered with a share
/// that splits evenly and that the pool still covers, and pool `k` is drawn
/// on by vesting payouts alone: pool `k` always holds at least what its
/// stakeholders are still owed, so no vesting payout ever finds it short.
pub proof fn lemma_pool_covers_over_calls(owner: AccountId, t0: u64, k: u8, cs: Seq<TokenCall>)
    requires
        k < POOL_COUNT,
        t0 + ONE_MONTH <= u64::MAX,
        forall|i: int|
            0 <= i < cs.len() ==> (run_calls(initial_view(owner, t0), #[trigger] cs.take(i)) matches Some(
                w,
            ) ==> call_keeps_pool(w, cs[i], k)),
        run_calls(initial_view(owner, t0), cs) is Some,
    ensures
        pool_covers(run_calls(initial_view(owner, t0), cs).unwrap(), k),
        pool_owed(run_calls(initial_view(owner, t0), cs).unwrap().stakeholders, k) <= run_calls(
            initial_view(owner, t0),
            cs,
        ).unwrap().pools[k as int],
    decreases cs.len(),
{
    let v0 = initial_view(owner, t0);
    if cs.len() == 0 {
        assert(v0.stakeholders.dom() =~= Set::empty());
        lemma_fold_empty(0int, add_part(v0.stakeholders, k, true));
        assert(v0.pools[k as int] == (pool_tokens(k as int) * DECIMALS_POWER10) as u128);
    } else {
        let prefix = cs.drop_last();
        assert forall|i: int|
            0 <= i < prefix.len() implies (run_calls(v0, #[trigger] prefix.take(i)) matches Some(w)
            ==> call_keeps_pool(w, prefix[i], k)) by {
            assert(prefix.take(i) =~= cs.take(i));
            assert(prefix[i] == cs[i]);
        }
        lemma_pool_covers_over_calls(owner, t0, k, prefix);
        let w = run_calls(v0, prefix).unwrap();
        let last = cs.len() - 1;
        assert(cs.take(last) =~= prefix);
        assert(cs.last() == cs[last]);
        assert(call_keeps_pool(w, cs[last], k));
        lemma_call_keeps_pool(w, cs.last(), k);
    }
}

/// What every call leaves alone, or only moves forward.
proof fn lemma_call_frame(v: TokenView, c: TokenCall)
    requires
        apply_call(v, c) is Some,
    ensures
        ({
            let w = apply_call(v, c).unwrap();
            &&& w.owner == v.owner
            &&& w.months >= v.months
            &&& !(c is CheckTime) && !(c is IncrementMonth) ==> w.months == v.months
            &&& !(c is CheckTime) ==> w.next_payout == v.next_payout
            &&& !(c is RegisterStakeholder) && !(c is DistributeTokens) ==> w.stakeholders
                == v.stakeholders
            &&& !(c is CreatePort) && !(c is CallSocket) ==> w.ports == v.ports
        }),
{
    match c {
        TokenCall::Transfer { caller, to, value } => {
            lemma_ledger_steps_frame(v, caller, caller, to, value);
        },
        TokenCall::TransferFrom { caller, from, to, value } => {
            lemma_ledger_steps_frame(v, caller, from, to, value);
        },
        TokenCall::Approve { caller, spender, value } => {
            lemma_ledger_steps_frame(v, caller, caller, spender, value);
        },
        TokenCall::IncreaseAllowance { caller, spender, delta } => {
            lemma_ledger_steps_frame(
                v,
                caller,
                caller,
                spender,
                (allowance_in(v, caller, spender) + delta) as u128,
            );
        },
        TokenCall::DecreaseAllowance { caller, spender, delta } => {
            lemma_ledger_steps_frame(
                v,
                caller,
                caller,
                spender,
                (allowance_in(v, caller, spender) - delta) as u128,
            );
        },
        TokenCall::DistributeTokens { caller, stakeholder } => {
            if caller == v.owner && v.stakeholders.contains_key(stakeholder) {
                let sd = v.stakeholders[stakeholder];
                if let Some(Ok(payout)) = vesting_decision(sd, v.months) {
                    lemma_ledger_steps_frame(v, caller, caller, stakeholder, payout);
                }
            }
        },
        TokenCall::DistributeFromPool { caller, stakeholder, amount, pool } => {
            let v0 = TokenView {
                pools: v.pools.update(pool as int, (v.pools[pool as int] - amount) as u128),
                ..v
            };
            lemma_ledger_steps_frame(v0, caller, caller, stakeholder, amount);
        },
        TokenCall::RewardInterlocker { caller, reward, interlocker } => {
            let v0 = TokenView {
                rewarded_total: (v.rewarded_total + reward) as u128,
                pools: v.pools.update(REWARDS as int, (v.pools[REWARDS as int] - reward) as u128),
                ..v
            };
            lemma_ledger_steps_frame(v0, caller, caller, interlocker, reward);
        },
        TokenCall::WithdrawTax { caller, wallet, amount } => {
            lemma_ledger_steps_frame(v, caller, caller, wallet, amount);
        },
        TokenCall::CallSocket { caller, address, address_is_contract, amount } => {
            if !address_is_contract && v.sockets.contains_key(caller) && valid_socket_port(
                v.sockets[caller].port,
            ) {
                let socket = v.sockets[caller];
                lemma_tax_and_reward_frame(v, caller, socket.address, address, amount, socket.port);
            }
        },
        _ => {},
    }
}

/// The month count is anchored at launch time `t0` and does not run ahead of
/// the time elapsed up to `clock`.
pub open spec fn schedule_within(v: TokenView, t0: int, clock: int) -> bool {
    &&& schedule_anchored(v, t0)
    &&& v.months * ONE_MONTH <= clock - t0
}

/// Over any sequence of calls from construction at time `t0` in which months
/// are counted only by the month check, and no month check is made later than
/// `clock`: the payout date stays one month past launch plus one month for
/// each month counted, and the months counted never span more time than has
/// passed up to `clock`.
pub proof fn lemma_schedule_over_calls(owner: AccountId, t0: u64, clock: int, cs: Seq<TokenCall>)
    requires
        t0 + ONE_MONTH <= u64::MAX,
        t0 <= clock,
        forall|i: int|
            0 <= i < cs.len() ==> !(#[trigger] cs[i] is IncrementMonth) && (cs[i] matches TokenCall::CheckTime {
                now,
            } ==> now <= clock),
        run_calls(initial_view(owner, t0), cs) is Some,
    ensures
        schedule_within(run_calls(initial_view(owner, t0), cs).unwrap(), t0 as int, clock),
    decreases cs.len(),
{
    let v0 = initial_view(owner, t0);
    if cs.len() > 0 {
        let prefix = cs.drop_last();
        assert forall|i: int| 0 <= i < prefix.len() implies !(#[trigger] prefix[i] is IncrementMonth) && (
        prefix[i] matches TokenCall::CheckTime { now } ==> now <= clock) by {
            assert(prefix[i] == cs[i]);
        }
        lemma_schedule_over_calls(owner, t0, clock, prefix);
        let w = run_calls(v0, prefix).unwrap();
        let c = cs.last();
        assert(c == cs[cs.len() - 1]);
        lemma_call_frame(w, c);
        if let TokenCall::CheckTime { now } = c {
            lemma_check_time_schedule(w, now, t0 as int);
        }
    }
}

/// The number of calls among `cs`, run from `v`, that paid `h` a vesting
/// instalment.
pub open spec fn payouts_to(v: TokenView, cs: Seq<TokenCall>, h: AccountId) -> nat
    decreases cs.len(),
{
    if cs.len() == 0 {
        0
    } else {
        let before = payouts_to(v, cs.drop_last(), h);
        match run_calls(v, cs.drop_last()) {
            Some(w) => match cs.last() {
                TokenCall::DistributeTokens { caller, stakeholder } => {
                    if stakeholder == h && distribute_tokens_step(w, caller, h) matches Some(
                        (_, Ok(())),
                    ) {
                        before + 1
                    } else {
                        before
                    }
                },
                _ => before,
            },
            None => before,
        }
    }
}

/// The state of stakeholder `h` after `n` instalments, starting from record
/// `sd0` with nothing paid.
pub open spec fn vested(v: TokenView, h: AccountId, sd0: StakeholderData, n: nat) -> bool {
    &&& v.stakeholders.contains_key(h)
    &&& v.stakeholders[h] == StakeholderData { paid: paid_after(sd0, n) as u128, ..sd0 }
    &&& n <= pool_vests(sd0.pool as int)
    &&& n <= v.months
    &&& n > 0 ==> v.months >= pool_cliffs(sd0.pool as int)
}

/// Whether call `c` in state `w` pays `h` a vesting instalment.
pub open spec fn pays(w: TokenView, c: TokenCall, h: AccountId) -> bool {
    match c {
        TokenCall::DistributeTokens { caller, stakeholder } => stakeholder == h
            && distribute_tokens_step(w, caller, h) matches Some((_, Ok(()))),
        _ => false,
    }
}

#[verifier::spinoff_prover]
#[verifier::rlimit(50)]
proof fn lemma_vested_step(w: TokenView, c: TokenCall, h: AccountId, sd0: StakeholderData, n: nat)
    requires
        splits_evenly(sd0),
        sd0.paid == 0,
        vested(w, h, sd0, n),
        !(c matches TokenCall::RegisterStakeholder { stakeholder, .. } && stakeholder == h),
        apply_call(w, c) is Some,
    ensures
        vested(apply_call(w, c).unwrap(), h, sd0, if pays(w, c, h) {
            n + 1
        } else {
            n
        }),
{
    lemma_share_split(sd0);
    lemma_paid_after_bounds(sd0, n);
    lemma_call_frame(w, c);
    let sd = w.stakeholders[h];
    assert(instalment(sd) == instalment(sd0));
    assert(pool_vests(sd.pool as int) == pool_vests(sd0.pool as int));
    match c {
        TokenCall::DistributeTokens { caller, stakeholder } => {
            if stakeholder == h {
                lemma_distribute_tokens_is_vest_once(w, caller, h);
                lemma_vest_step(sd, n, w.months);
                assert(paid_after(sd, n) == paid_after(sd0, n));
                assert(paid_after(sd, n + 1) == paid_after(sd0, n + 1));
                if pays(w, c, h) {
                    assert(vesting_decision(sd, w.months) is Some);
                }
            } else {
                lemma_distribute_other_keeps(w, caller, stakeholder, h);
            }
        },
        TokenCall::RegisterStakeholder { caller, stakeholder, share, pool } => {
            assert(stakeholder != h);
        },
        _ => {},
    }
}

/// Once every payment is made, a payout call by the owner is refused with
/// `StakeholderSharePaid` and changes nothing.
proof fn lemma_fully_vested(w: TokenView, h: AccountId, sd0: StakeholderData)
    requires
        splits_evenly(sd0),
        vested(w, h, sd0, pool_vests(sd0.pool as int) as nat),
    ensures
        w.stakeholders[h].paid == sd0.share,
        distribute_tokens_step(w, w.owner, h) == Some(
            (
                w,
                Err::<(), _>(
                    crate::ilock::errors::other_into_psp22(OtherErrorView::StakeholderSharePaid),
                ),
            ),
        ),
{
    lemma_share_split(sd0);
}

/// Vesting over any sequence of calls: once `h` is registered with a share
/// that splits into whole instalments with a remainder smaller than one
/// instalment, and as long as it is not registered again, whatever else is
/// called in between (month checks and increments among them): after `n`
/// successful payouts `h` has been paid exactly `n` instalments, or its whole
/// share once `n` is its pool's number of payments; the payouts never
/// outnumber the months counted; and once all are made, every payout call by
/// the owner is refused with `StakeholderSharePaid` and changes nothing.
pub proof fn lemma_vesting_over_token_calls(v: TokenView, h: AccountId, cs: Seq<TokenCall>)
    requires
        v.stakeholders.contains_key(h),
        v.stakeholders[h].paid == 0,
        splits_evenly(v.stakeholders[h]),
        forall|i: int|
            0 <= i < cs.len() ==> !(#[trigger] cs[i] matches TokenCall::RegisterStakeholder {
                stakeholder,
                ..
            } && stakeholder == h),
        run_calls(v, cs) is Some,
    ensures
        ({
            let sd0 = v.stakeholders[h];
            let w = run_calls(v, cs).unwrap();
            let n = payouts_to(v, cs, h);
            &&& vested(w, h, sd0, n)
            &&& w.stakeholders[h].paid <= sd0.share
            &&& (w.stakeholders[h].paid as int) / instalment(sd0) == n
            &&& (w.stakeholders[h].paid as int) / instalment(sd0) <= w.months
            &&& n == pool_vests(sd0.pool as int) ==> w.stakeholders[h].paid == sd0.share
                && distribute_tokens_step(w, w.owner, h) == Some(
                (
                    w,
                    Err::<(), _>(
                        crate::ilock::errors::other_into_psp22(OtherErrorView::StakeholderSharePaid),
                    ),
                ),
            )
        }),
    decreases cs.len(),
{
    let sd0 = v.stakeholders[h];
    lemma_share_split(sd0);
    if cs.len() == 0 {
        assert(paid_after(sd0, 0) == 0);
        assert(v.stakeholders[h] == StakeholderData { paid: 0, ..sd0 });
    } else {
        let prefix = cs.drop_last();
        assert forall|i: int| 0 <= i < prefix.len() implies !(#[trigger] prefix[i] matches TokenCall::RegisterStakeholder {
            stakeholder,
            ..
        } && stakeholder == h) by {
            assert(prefix[i] == cs[i]);
        }
        lemma_vesting_over_token_calls(v, h, prefix);
        let w = run_calls(v, prefix).unwrap();
        let c = cs.last();
        assert(c == cs[cs.len() - 1]);
        lemma_vested_step(w, c, h, sd0, payouts_to(v, prefix, h));
        assert(payouts_to(v, cs, h) == if pays(w, c, h) {
            payouts_to(v, prefix, h) + 1
        } else {
            payouts_to(v, prefix, h)
        });
    }
    let w = run_calls(v, cs).unwrap();
    let n = payouts_to(v, cs, h);
    lemma_paid_after_bounds(sd0, n);
    if n == pool_vests(sd0.pool as int) {
        lemma_fully_vested(w, h, sd0);
    }
}

/// What `n` payouts have paid is between nothing and the whole share.
proof fn lemma_paid_after_bounds(sd: StakeholderData, n: nat)
    requires
        splits_evenly(sd),
        n <= pool_vests(sd.pool as int),
    ensures
        0 <= paid_after(sd, n) <= sd.share,
        paid_after(sd, n) / instalment(sd) == n,
{
    lemma_share_split(sd);
    if n < pool_vests(sd.pool as int) {
        assert((n * instalment(sd)) / instalment(sd) == n) by (nonlinear_arith)
            requires
                instalment(sd) > 0,
        ;
        assert(0 <= n * instalment(sd) <= sd.share) by (nonlinear_arith)
            requires
                n < pool_vests(sd.pool as int),
                sd.share as int == pool_vests(sd.pool as int) * instalment(sd) + (
                sd.share as int) % (pool_vests(sd.pool as int) as int),
                (sd.share as int) % (pool_vests(sd.pool as int) as int) >= 0,
                instalment(sd) > 0,
        ;
    }
}

/// A payout to another stakeholder leaves `h`'s record as it was.
proof fn lemma_distribute_other_keeps(v: TokenView, caller: AccountId, stakeholder: AccountId, h: AccountId)
    requires
        stakeholder != h,
        distribute_tokens_step(v, caller, stakeholder) is Some,
    ensures
        ({
            let w = distribute_tokens_step(v, caller, stakeholder).unwrap().0;
            &&& w.stakeholders.contains_key(h) == v.stakeholders.contains_key(h)
            &&& v.stakeholders.contains_key(h) ==> w.stakeholders[h] == v.stakeholders[h]
        }),
{
    if caller == v.owner && v.stakeholders.contains_key(stakeholder) {
        let sd = v.stakeholders[stakeholder];
        if let Some(Ok(payout)) = vesting_decision(sd, v.months) {
            lemma_ledger_steps_frame(v, caller, caller, stakeholder, payout);
        }
    }
}

/// Whether call `c` in state `w` pays a reward through port `n`.
pub open spec fn rewards_through(w: TokenView, c: TokenCall, n: u16) -> bool {
    match c {
        TokenCall::CallSocket { caller, address, address_is_contract, amount } => w.sockets.contains_key(
            caller,
        ) && w.sockets[caller].port == n && call_socket_step(
            w,
            caller,
            address,
            address_is_contract,
            amount,
        ) matches Some((_, Ok(()))),
        _ => false,
    }
}

/// The rewards paid through port `n` by the calls among `cs`, run from `v`:
/// their total and their number.
pub open spec fn port_rewards(v: TokenView, cs: Seq<TokenCall>, n: u16) -> (int, nat)
    decreases cs.len(),
{
    if cs.len() == 0 {
        (0, 0)
    } else {
        let (sum, count) = port_rewards(v, cs.drop_last(), n);
        match run_calls(v, cs.drop_last()) {
            Some(w) => if rewards_through(w, cs.last(), n) {
                match cs.last() {
                    TokenCall::CallSocket { amount, .. } => (sum + amount, count + 1),
                    _ => (sum, count),
                }
            } else {
                (sum, count)
            },
            None => (sum, count),
        }
    }
}

/// Port `n` of `w` is port `p` with `sum` more paid out and `count` more
/// taxes collected, and still within its cap if `p` was.
pub open spec fn port_accounted(w: TokenView, n: u16, p: Port, sum: int, count: nat) -> bool {
    &&& w.ports.contains_key(n)
    &&& w.ports[n].hash == p.hash && w.ports[n].tax == p.tax && w.ports[n].cap == p.cap
    &&& w.ports[n].locked == p.locked
    &&& w.ports[n].paid == p.paid + sum
    &&& w.ports[n].collected == p.collected + p.tax * count
    &&& p.paid <= p.cap ==> w.ports[n].paid <= p.cap
}

/// A socket reward through port `portnumber` records its amount and tax on
/// that port alone, within the cap; a refused one changes nothing.
proof fn lemma_tax_and_reward_ports(
    v: TokenView,
    caller: AccountId,
    owner: AccountId,
    address: AccountId,
    amount: u128,
    portnumber: u16,
)
    requires
        tax_and_reward_step(v, caller, owner, address, amount, portnumber) is Some,
    ensures
        ({
            let (w, r) = tax_and_reward_step(v, caller, owner, address, amount, portnumber).unwrap();
            &&& r is Err ==> w == v
            &&& r is Ok ==> {
                let port = v.ports[portnumber];
                &&& v.ports.contains_key(portnumber)
                &&& port.paid + amount <= port.cap
                &&& w.ports == v.ports.insert(
                    portnumber,
                    Port {
                        paid: (port.paid + amount) as u128,
                        collected: (port.collected + port.tax) as u128,
                        ..port
                    },
                )
            }
        }),
{
    if v.ports.contains_key(portnumber) {
        let port = v.ports[portnumber];
        lemma_ledger_steps_frame(v, caller, owner, v.owner, port.tax);
        if let Some((v1, Ok(()))) = transfer_from_step(v, caller, owner, v.owner, port.tax) {
            let v2 = TokenView { taxpool: (v1.taxpool + port.tax) as u128, ..v1 };
            lemma_ledger_steps_frame(v2, caller, v.owner, address, amount);
        }
    }
}

#[verifier::spinoff_prover]
#[verifier::rlimit(50)]
proof fn lemma_port_step(w: TokenView, c: TokenCall, n: u16, p: Port, sum: int, count: nat)
    requires
        port_accounted(w, n, p, sum, count),
        !(c matches TokenCall::CreatePort { number, .. } && number == n),
        apply_call(w, c) is Some,
    ensures
        ({
            let (sum2, count2) = if rewards_through(w, c, n) {
                match c {
                    TokenCall::CallSocket { amount, .. } => (sum + amount, count + 1),
                    _ => (sum, count),
                }
            } else {
                (sum, count)
            };
            port_accounted(apply_call(w, c).unwrap(), n, p, sum2, count2)
        }),
{
    lemma_call_frame(w, c);
    match c {
        TokenCall::CallSocket { caller, address, address_is_contract, amount } => {
            if !address_is_contract && w.sockets.contains_key(caller) && valid_socket_port(
                w.sockets[caller].port,
            ) {
                let socket = w.sockets[caller];
                lemma_tax_and_reward_ports(w, caller, socket.address, address, amount, socket.port);
                if rewards_through(w, c, n) {
                    assert(p.tax * (count + 1) == p.tax * count + p.tax) by (nonlinear_arith);
                }
            }
        },
        TokenCall::CreatePort { caller, codehash, tax, cap, locked, number } => {
            assert(number != n);
        },
        _ => {},
    }
}

/// Port accounting over any sequence of calls that does not reopen port `n`:
/// what the port has paid out grows by exactly the rewards paid through it,
/// what it has collected by its tax once for each of them, and it never pays
/// out past its cap.
pub proof fn lemma_port_accounting_over_calls(v: TokenView, n: u16, cs: Seq<TokenCall>)
    requires
        v.ports.contains_key(n),
        forall|i: int|
            0 <= i < cs.len() ==> !(#[trigger] cs[i] matches TokenCall::CreatePort { number, .. }
                && number == n),
        run_calls(v, cs) is Some,
    ensures
        ({
            let (sum, count) = port_rewards(v, cs, n);
            port_accounted(run_calls(v, cs).unwrap(), n, v.ports[n], sum, count)
        }),
    decreases cs.len(),
{
    if cs.len() == 0 {
        assert(v.ports[n].tax * 0nat == 0) by (nonlinear_arith);
    } else {
        let prefix = cs.drop_last();
        assert forall|i: int| 0 <= i < prefix.len() implies !(#[trigger] prefix[i] matches TokenCall::CreatePort {
            number,
            ..
        } && number == n) by {
            assert(prefix[i] == cs[i]);
        }
        lemma_port_accounting_over_calls(v, n, prefix);
        let w = run_calls(v, prefix).unwrap();
        let c = cs.last();
        assert(c == cs[cs.len() - 1]);
        let (sum, count) = port_rewards(v, prefix, n);
        lemma_port_step(w, c, n, v.ports[n], sum, count);
    }
}

/// Right after port `n` is opened, it has paid nothing and collected nothing,
/// so over any later calls that do not reopen it, what it has paid is the total
/// of the rewards paid through it, what it has collected is its tax times
/// their number, and it stays within its cap.
pub proof fn lemma_new_port_accounting(
    v: TokenView,
    caller: AccountId,
    codehash: CodeHash,
    tax: u128,
    cap: u128,
    locked: bool,
    n: u16,
    cs: Seq<TokenCall>,
)
    requires
        caller == v.owner,
        forall|i: int|
            0 <= i < cs.len() ==> !(#[trigger] cs[i] matches TokenCall::CreatePort { number, .. }
                && number == n),
        run_calls(create_port_step(v, caller, codehash, tax, cap, locked, n).0, cs) is Some,
    ensures
        ({
            let v1 = create_port_step(v, caller, codehash, tax, cap, locked, n).0;
            let (sum, count) = port_rewards(v1, cs, n);
            let w = run_calls(v1, cs).unwrap();
            &&& w.ports.contains_key(n)
            &&& w.ports[n].paid == sum
            &&& w.ports[n].collected == tax * count
            &&& w.ports[n].paid <= cap
        }),
{
    let v1 = create_port_step(v, caller, codehash, tax, cap, locked, n).0;
    lemma_port_accounting_over_calls(v1, n, cs);
}

/// The allotment of pool `k` in smallest units.
pub open spec fn allotment(k: u8) -> int {
    pool_tokens(k as int) * DECIMALS_POWER10
}

/// Pool `k` holds its allotment less what its stakeholders have been paid.
pub open spec fn pool_balance_accounted(v: TokenView, k: u8) -> bool {
    &&& v.pools.len() == POOL_COUNT
    &&& v.stakeholders.dom().finite()
    &&& v.pools[k as int] + pool_paid(v.stakeholders, k) == allotment(k)
}

/// The calls that the pool-balance law for pool `k` speaks of, in state `v`:
/// each stakeholder is registered once, and pool `k` is not paid out directly.
pub open spec fn call_draws_by_vesting(v: TokenView, c: TokenCall, k: u8) -> bool {
    match c {
        TokenCall::RegisterStakeholder { caller, stakeholder, .. } => caller != v.owner
            || !v.stakeholders.contains_key(stakeholder),
        TokenCall::DistributeFromPool { pool, .. } => pool != k,
        _ => true,
    }
}

proof fn lemma_balance_frame(v: TokenView, w: TokenView, k: u8)
    requires
        pool_balance_accounted(v, k),
        w.pools.len() == POOL_COUNT,
        w.stakeholders == v.stakeholders,
        w.pools[k as int] == v.pools[k as int],
    ensures
        pool_balance_accounted(w, k),
{
}

#[verifier::spinoff_prover]
#[verifier::rlimit(50)]
proof fn lemma_distribute_keeps_balance(v: TokenView, caller: AccountId, stakeholder: AccountId, k: u8)
    requires
        k < POOL_COUNT,
        k != REWARDS,
        pool_balance_accounted(v, k),
        distribute_tokens_step(v, caller, stakeholder) is Some,
    ensures
        pool_balance_accounted(distribute_tokens_step(v, caller, stakeholder).unwrap().0, k),
{
    let w = distribute_tokens_step(v, caller, stakeholder).unwrap().0;
    if caller == v.owner && v.stakeholders.contains_key(stakeholder) {
        let sd = v.stakeholders[stakeholder];
        if let Some(Ok(payout)) = vesting_decision(sd, v.months) {
            lemma_transfer_pools(v, caller, caller, stakeholder, payout);
            if let Some((v1, Ok(()))) = transfer_step(v, caller, stakeholder, payout) {
                let after = StakeholderData { paid: (sd.paid + payout) as u128, ..sd };
                lemma_pool_sum_insert(v.stakeholders, k, stakeholder, after, false);
                assert(w.stakeholders == v.stakeholders.insert(stakeholder, after));
                assert(w.pools == v1.pools.update(sd.pool as int, (v1.pools[sd.pool as int] - payout) as u128));
            } else {
                assert(w == v);
            }
        } else {
            assert(w == v);
        }
    } else {
        assert(w == v);
    }
}

#[verifier::spinoff_prover]
#[verifier::rlimit(80)]
proof fn lemma_call_keeps_balance(v: TokenView, c: TokenCall, k: u8)
    requires
        k < POOL_COUNT,
        k != REWARDS,
        pool_balance_accounted(v, k),
        call_draws_by_vesting(v, c, k),
        apply_call(v, c) is Some,
    ensures
        pool_balance_accounted(apply_call(v, c).unwrap(), k),
{
    let w = apply_call(v, c).unwrap();
    match c {
        TokenCall::Transfer { caller, to, value } => {
            lemma_transfer_pools(v, caller, caller, to, value);
            lemma_balance_frame(v, w, k);
        },
        TokenCall::TransferFrom { caller, from, to, value } => {
            lemma_transfer_pools(v, caller, from, to, value);
            lemma_balance_frame(v, w, k);
        },
        TokenCall::RegisterStakeholder { caller, stakeholder, share, pool } => {
            if caller == v.owner {
                lemma_pool_sum_insert(
                    v.stakeholders,
                    k,
                    stakeholder,
                    StakeholderData { paid: 0, share, pool },
                    false,
                );
            }
        },
        TokenCall::DistributeTokens { caller, stakeholder } => {
            lemma_distribute_keeps_balance(v, caller, stakeholder, k);
        },
        TokenCall::DistributeFromPool { caller, stakeholder, amount, pool } => {
            if caller == v.owner && v.pools[pool as int] >= amount {
                let v0 = TokenView {
                    pools: v.pools.update(pool as int, (v.pools[pool as int] - amount) as u128),
                    ..v
                };
                lemma_transfer_pools(v0, caller, caller, stakeholder, amount);
            }
            lemma_balance_frame(v, w, k);
        },
        TokenCall::RewardInterlocker { caller, reward, interlocker } => {
            if caller == v.owner && v.pools[REWARDS as int] >= reward && v.rewarded_total + reward
                <= u128::MAX {
                let v0 = TokenView {
                    rewarded_total: (v.rewarded_total + reward) as u128,
                    pools: v.pools.update(REWARDS as int, (v.pools[REWARDS as int] - reward) as u128),
                    ..v
                };
                lemma_transfer_pools(v0, caller, caller, interlocker, reward);
            }
            lemma_balance_frame(v, w, k);
        },
        TokenCall::WithdrawTax { caller, wallet, amount } => {
            lemma_transfer_pools(v, caller, caller, wallet, amount);
            lemma_balance_frame(v, w, k);
        },
        TokenCall::CallSocket { caller, address, address_is_contract, amount } => {
            if !address_is_contract && v.sockets.contains_key(caller) && valid_socket_port(
                v.sockets[caller].port,
            ) {
                let socket = v.sockets[caller];
                lemma_tax_and_reward_pools(v, caller, socket.address, address, amount, socket.port);
            }
            lemma_balance_frame(v, w, k);
        },
        _ => {
            lemma_balance_frame(v, w, k);
        },
    }
}

/// Over any sequence of calls from construction in which each stakeholder is
/// registered once and pool `k` (not the rewards pool, which transfers to the
/// owner refill) is paid out only by vesting payouts: after every call, pool
/// `k` holds exactly its allotment less what its stakeholders have been paid,
/// and they have been paid no more than the allotment.
pub proof fn lemma_pool_balance_over_calls(owner: AccountId, t0: u64, k: u8, cs: Seq<TokenCall>)
    requires
        k < POOL_COUNT,
        k != REWARDS,
        t0 + ONE_MONTH <= u64::MAX,
        forall|i: int|
            0 <= i < cs.len() ==> (run_calls(initial_view(owner, t0), #[trigger] cs.take(i)) matches Some(
                w,
            ) ==> call_draws_by_vesting(w, cs[i], k)),
        run_calls(initial_view(owner, t0), cs) is Some,
    ensures
        ({
            let w = run_calls(initial_view(owner, t0), cs).unwrap();
            &&& pool_balance_accounted(w, k)
            &&& w.pools[k as int] == allotment(k) - pool_paid(w.stakeholders, k)
            &&& pool_paid(w.stakeholders, k) <= allotment(k)
        }),
    decreases cs.len(),
{
    let v0 = initial_view(owner, t0);
    if cs.len() == 0 {
        assert(v0.stakeholders.dom() =~= Set::empty());
        lemma_fold_empty(0int, add_part(v0.stakeholders, k, false));
        assert(v0.pools[k as int] == (pool_tokens(k as int) * DECIMALS_POWER10) as u128);
    } else {
        let prefix = cs.drop_last();
        assert forall|i: int|
            0 <= i < prefix.len() implies (run_calls(v0, #[trigger] prefix.take(i)) matches Some(w)
            ==> call_draws_by_vesting(w, prefix[i], k)) by {
            assert(prefix.take(i) =~= cs.take(i));
            assert(prefix[i] == cs[i]);
        }
        lemma_pool_balance_over_calls(owner, t0, k, prefix);
        let w = run_calls(v0, prefix).unwrap();
        let last = cs.len() - 1;
        assert(cs.take(last) =~= prefix);
        assert(cs.last() == cs[last]);
        lemma_call_keeps_balance(w, cs.last(), k);
    }
}

} // verus!
