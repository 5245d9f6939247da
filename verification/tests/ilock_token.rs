use interlock::account::{AccountId, CodeHash};
use interlock::ilock::errors::OtherError;
use interlock::ilock::pools::{
    DECIMALS_POWER10, ONE_MONTH, PARTNERS, POOL_COUNT, PUBLIC_SALE, REWARDS, SUPPLY_CAP,
    TEAM_FOUNDERS, WHITELIST,
};
use interlock::ilock::token::{Approval, Event, ILOCKtoken, Reward, StakeholderData, Transfer};
use interlock::psp22::{OwnableError, PSP22Error};

fn alice() -> AccountId {
    AccountId([0x01; 32])
}
fn bob() -> AccountId {
    AccountId([0x02; 32])
}
fn charlie() -> AccountId {
    AccountId([0x03; 32])
}
fn eve() -> AccountId {
    AccountId([0x05; 32])
}
fn zero() -> AccountId {
    AccountId([0xff; 32])
}

fn custom(text: &str) -> PSP22Error {
    PSP22Error::Custom(text.as_bytes().to_vec())
}

fn token() -> ILOCKtoken {
    ILOCKtoken::new_token(alice(), 0)
}

#[test]
fn constructor_works() {
    let t = token();
    assert_eq!(t.monthspassed, 0);
    assert_eq!(t.nextpayout, 0 + ONE_MONTH);
}

#[test]
fn name_works() {
    let t = token();
    assert_eq!(t.metadata.name, Some("Interlock Network".to_string()));
}

#[test]
fn symbol_works() {
    let t = token();
    assert_eq!(t.metadata.symbol, Some("ILOCK".to_string()));
}

#[test]
fn decimals_works() {
    let t = token();
    assert_eq!(t.metadata.decimals, 18);
}

#[test]
fn balance_of_works() {
    let mut t = token();
    // leave alice (the owner) with exactly 100
    t.transfer(alice(), bob(), SUPPLY_CAP - 100, vec![]).unwrap();
    assert_eq!(t.balance_of(alice()), 100);
}

#[test]
fn allowance_works() {
    let mut t = token();
    assert_eq!(t.allowance(alice(), bob()), 0);
    assert_eq!(t.approve(alice(), bob(), 10), Ok(()));
    assert_eq!(t.allowance(alice(), bob()), 10);
}

#[test]
fn increase_allowance_works() {
    let mut t = token();
    assert_eq!(t.approve(alice(), bob(), 10), Ok(()));
    assert_eq!(t.allowance(alice(), bob()), 10);
    assert_eq!(t.increase_allowance(alice(), bob(), 10), Ok(()));
    assert_eq!(t.allowance(alice(), bob()), 20);
}

#[test]
fn decrease_allowance_works() {
    let mut t = token();
    assert_eq!(t.approve(alice(), bob(), 10), Ok(()));
    assert_eq!(t.allowance(alice(), bob()), 10);
    assert_eq!(t.decrease_allowance(alice(), bob(), 5), Ok(()));
    assert_eq!(t.allowance(alice(), bob()), 5);
}

#[test]
fn register_stakeholder_works() {
    let mut t = token();
    let share: u128 = 1_000_000;
    let pool: u8 = 3;
    t.register_stakeholder(alice(), bob(), share, pool).unwrap();
    let this_stakeholder = *t.stakeholderdata.get(&bob()).unwrap();
    assert_eq!(this_stakeholder.paid, 0);
    assert_eq!(this_stakeholder.share, share);
    assert_eq!(this_stakeholder.pool, pool);
}

#[test]
fn pool_data_works() {
    let t = token();
    let pool = interlock::ilock::pools::pool(1);
    assert_eq!(t.pool_data(1), (pool.name.to_string(), pool.tokens, pool.vests, pool.cliffs));
    assert_eq!(t.pool_data(1), ("presale_1".to_string(), 48_622_222, 18, 1));
}

#[test]
fn months_passed_works() {
    let mut t = token();
    t.monthspassed = 99;
    assert_eq!(t.months_passed(), 99);
}

#[test]
fn construction_mints_cap_to_owner_and_fills_pools() {
    let t = token();
    assert_eq!(t.owner(), alice());
    assert_eq!(t.balance_of(alice()), SUPPLY_CAP);
    assert_eq!(SUPPLY_CAP, 1_000_000_000_000_000_000_000_000_000);
    assert_eq!(t.total_supply(), 0);
    assert_eq!(t.cap(), SUPPLY_CAP);
    assert_eq!(t.pool_balance(REWARDS).1, 285_000_000 * DECIMALS_POWER10);
    assert_eq!(t.pool_balance(0).1, 2_000_000 * DECIMALS_POWER10);
    assert_eq!(t.events, vec![Event::Transfer(Transfer { from: None, to: Some(alice()), amount: SUPPLY_CAP })]);
    assert_eq!(t.token_name(), Some("Interlock Network".to_string()));
    assert_eq!(t.token_symbol(), Some("ILOCK".to_string()));
    assert_eq!(t.token_decimals(), 18);
}

#[test]
fn pool_balance_reports_name_and_amount() {
    let t = token();
    let (text, amount) = t.pool_balance(WHITELIST);
    assert_eq!(amount, 15_000_000 * DECIMALS_POWER10);
    assert_eq!(text, "pool: \"whitelist\" balance: 15000000000000000000000000");
}

#[test]
fn transfer_from_owner_enters_circulation() {
    let mut t = token();
    assert_eq!(t.transfer(alice(), bob(), 100, vec![]), Ok(()));
    assert_eq!(t.balance_of(bob()), 100);
    assert_eq!(t.balance_of(alice()), SUPPLY_CAP - 100);
    assert_eq!(t.total_supply(), 100);
    assert_eq!(t.events.len(), 2);
    assert_eq!(t.events[1], Event::Transfer(Transfer { from: Some(alice()), to: Some(bob()), amount: 100 }));
}

#[test]
fn transfer_to_owner_returns_tokens_to_rewards_pool() {
    let mut t = token();
    let rewards_before = t.pool_balance(REWARDS).1;
    t.transfer(alice(), bob(), 100, vec![]).unwrap();
    assert_eq!(t.transfer(bob(), alice(), 40, vec![]), Ok(()));
    assert_eq!(t.total_supply(), 60);
    assert_eq!(t.pool_balance(REWARDS).1, rewards_before + 40);
    assert_eq!(t.balance_of(bob()), 60);
}

#[test]
fn transfer_between_others_keeps_circulation() {
    let mut t = token();
    t.transfer(alice(), bob(), 100, vec![]).unwrap();
    assert_eq!(t.transfer(bob(), charlie(), 30, vec![]), Ok(()));
    assert_eq!(t.total_supply(), 100);
    assert_eq!(t.balance_of(charlie()), 30);
}

#[test]
fn transfer_errors() {
    let mut t = token();
    assert_eq!(t.transfer(bob(), charlie(), 1, vec![]), Err(PSP22Error::InsufficientBalance));
    assert_eq!(t.transfer(zero(), charlie(), 1, vec![]), Err(PSP22Error::ZeroSenderAddress));
    assert_eq!(t.transfer(alice(), zero(), 1, vec![]), Err(PSP22Error::ZeroRecipientAddress));
    assert_eq!(t.events.len(), 1);
    assert_eq!(t.total_supply(), 0);
}

#[test]
fn transfer_from_works() {
    let mut t = token();
    // alice approves bob for token transfers on her behalf
    assert_eq!(t.approve(alice(), bob(), 10), Ok(()));
    assert_eq!(t.allowance(alice(), bob()), 10);
    // bob transfers tokens from alice to eve
    assert_eq!(t.transfer_from(bob(), alice(), eve(), 10, vec![]), Ok(()));
    assert_eq!(t.balance_of(eve()), 10);
    assert_eq!(t.allowance(alice(), bob()), 0);
    // bob attempts a transfer beyond his allowance
    assert_eq!(
        t.transfer_from(bob(), alice(), eve(), 100, vec![]),
        Err(PSP22Error::InsufficientAllowance)
    );
    assert_eq!(t.balance_of(eve()), 10);
    assert_eq!(t.events.len(), 4);
    assert_eq!(
        t.events[2],
        Event::Approval(Approval { owner: Some(alice()), spender: Some(bob()), amount: 0 })
    );
    assert_eq!(t.events[3], Event::Transfer(Transfer { from: Some(alice()), to: Some(eve()), amount: 10 }));
    assert_eq!(t.total_supply(), 10);
}

#[test]
fn transfer_from_refusals_change_nothing() {
    let mut t = token();
    t.transfer(alice(), bob(), 100, vec![]).unwrap();
    // no allowance at all
    assert_eq!(t.transfer_from(charlie(), bob(), charlie(), 50, vec![]), Err(PSP22Error::InsufficientAllowance));
    assert_eq!(t.approve(bob(), charlie(), 500), Ok(()));
    // allowance enough, balance not
    assert_eq!(t.transfer_from(charlie(), bob(), eve(), 200, vec![]), Err(PSP22Error::InsufficientBalance));
    assert_eq!(t.transfer_from(charlie(), bob(), zero(), 1, vec![]), Err(PSP22Error::ZeroRecipientAddress));
    assert_eq!(t.allowance(bob(), charlie()), 500);
    assert_eq!(t.balance_of(bob()), 100);
    assert_eq!(t.events.len(), 3);
    assert_eq!(t.transfer_from(charlie(), bob(), eve(), 60, vec![]), Ok(()));
    assert_eq!(t.allowance(bob(), charlie()), 440);
    assert_eq!(t.balance_of(eve()), 60);
    assert!(t.transfer_from_defined(charlie(), bob(), eve(), 40));
}

#[test]
fn approve_errors_and_event() {
    let mut t = token();
    assert_eq!(t.approve(alice(), zero(), 5), Err(PSP22Error::ZeroRecipientAddress));
    assert_eq!(t.approve(zero(), bob(), 5), Err(PSP22Error::ZeroSenderAddress));
    assert_eq!(t.approve(alice(), bob(), 5), Ok(()));
    assert_eq!(
        t.events.last(),
        Some(&Event::Approval(Approval { owner: Some(alice()), spender: Some(bob()), amount: 5 }))
    );
    assert_eq!(t.decrease_allowance(alice(), bob(), 6), Err(PSP22Error::InsufficientAllowance));
    assert_eq!(t.allowance(alice(), bob()), 5);
}

#[test]
fn burn_by_owner_from_holder() {
    let mut t = token();
    t.transfer(alice(), bob(), 100, vec![]).unwrap();
    assert_eq!(t.burn(alice(), bob(), 100), Ok(()));
    assert_eq!(t.balance_of(bob()), 0);
    assert_eq!(t.total_supply(), 0);
    assert_eq!(t.psp22.total_supply(), SUPPLY_CAP - 100);
    assert_eq!(t.burn(bob(), bob(), 1), Err(custom("O::CallerIsNotOwner")));
    assert_eq!(t.burn(alice(), bob(), 1), Err(PSP22Error::InsufficientBalance));
    assert_eq!(t.burn(alice(), zero(), 1), Err(PSP22Error::ZeroRecipientAddress));
}

#[test]
fn ownership_transfer_and_renounce() {
    let mut t = token();
    assert_eq!(t.transfer_ownership(bob(), charlie()), Err(OwnableError::CallerIsNotOwner));
    assert_eq!(t.transfer_ownership(alice(), zero()), Err(OwnableError::NewOwnerIsZero));
    assert_eq!(t.transfer_ownership(alice(), bob()), Ok(()));
    assert_eq!(t.owner(), bob());
    assert_eq!(t.renounce_ownership(alice()), Err(OwnableError::CallerIsNotOwner));
    assert_eq!(t.renounce_ownership(bob()), Ok(()));
    assert_eq!(t.owner(), zero());
}

#[test]
fn check_time_counts_months_only_after_payout_date() {
    let mut t = token();
    assert_eq!(t.check_time(ONE_MONTH), Err(OtherError::PayoutTooEarly));
    assert_eq!(t.months_passed(), 0);
    assert_eq!(t.remaining_time_until_next_payout(0), ONE_MONTH / 60_000);
    assert_eq!(t.remaining_time_until_next_payout(60_000), ONE_MONTH / 60_000 - 1);
    assert_eq!(t.remaining_time_until_next_payout(ONE_MONTH), 0);
    assert_eq!(t.remaining_time_until_next_payout(ONE_MONTH + 1), 0);
    assert_eq!(t.check_time(ONE_MONTH + 1), Ok(()));
    assert_eq!(t.months_passed(), 1);
    assert_eq!(t.nextpayout, 2 * ONE_MONTH);
    assert_eq!(t.check_time(ONE_MONTH + 2), Err(OtherError::PayoutTooEarly));
    assert_eq!(t.months_passed(), 1);
}

#[test]
fn stakeholder_data_reports_progress() {
    let mut t = token();
    t.register_stakeholder(alice(), bob(), 1_000_000, TEAM_FOUNDERS).unwrap();
    assert_eq!(
        t.stakeholder_data(bob()),
        (
            "paidout: 0 ".to_string(),
            "payremaining: 1000000 ".to_string(),
            "payamount: 27777 ".to_string(),
            TEAM_FOUNDERS,
        )
    );
}

#[test]
fn register_requires_owner() {
    let mut t = token();
    assert_eq!(t.register_stakeholder(bob(), bob(), 1, 1), Err(custom("O::CallerIsNotOwner")));
    assert!(t.stakeholderdata.get(&bob()).is_none());
}

#[test]
fn distribute_tokens_follows_vesting_schedule() {
    // pool 4: 36 monthly payments after a 6 month cliff
    let mut t = token();
    let share: u128 = 1_000_000;
    t.register_stakeholder(alice(), bob(), share, TEAM_FOUNDERS).unwrap();
    assert_eq!(t.distribute_tokens(alice(), charlie()), Err(custom("StakeholderNotFound")));
    assert_eq!(t.distribute_tokens(bob(), bob()), Err(custom("O::CallerIsNotOwner")));
    assert_eq!(t.distribute_tokens(alice(), bob()), Err(custom("CliffNotPassed")));
    let pool_before = t.pool_balance(TEAM_FOUNDERS).1;
    for month in 1..=6u8 {
        t.TESTING_increment_month();
        assert_eq!(t.months_passed(), month);
    }
    // six months have passed: six instalments can be collected, one per call
    for paid in 1..=6u128 {
        assert_eq!(t.distribute_tokens(alice(), bob()), Ok(()));
        assert_eq!(t.balance_of(bob()), paid * 27_777);
    }
    assert_eq!(t.distribute_tokens(alice(), bob()), Err(custom("PayoutTooEarly")));
    for _ in 0..40 {
        t.TESTING_increment_month();
    }
    let mut calls = 0;
    while t.distribute_tokens(alice(), bob()).is_ok() {
        calls += 1;
    }
    assert_eq!(calls, 30);
    let sd: StakeholderData = *t.stakeholderdata.get(&bob()).unwrap();
    assert_eq!(sd.paid, share);
    assert_eq!(t.balance_of(bob()), share);
    assert_eq!(t.pool_balance(TEAM_FOUNDERS).1, pool_before - share);
    assert_eq!(t.distribute_tokens(alice(), bob()), Err(custom("StakeholderSharePaid")));
    assert_eq!(t.total_supply(), share);
}

#[test]
fn distribute_from_pools() {
    let mut t = token();
    assert_eq!(t.distribute_whitelist(alice(), bob(), 10), Ok(()));
    assert_eq!(t.distribute_publicsale(alice(), bob(), 20), Ok(()));
    assert_eq!(t.distribute_partners(alice(), bob(), 30), Ok(()));
    assert_eq!(t.balance_of(bob()), 60);
    assert_eq!(t.pool_balance(WHITELIST).1, 15_000_000 * DECIMALS_POWER10 - 10);
    assert_eq!(t.pool_balance(PUBLIC_SALE).1, 50_000_000 * DECIMALS_POWER10 - 20);
    assert_eq!(t.pool_balance(PARTNERS).1, 37_000_000 * DECIMALS_POWER10 - 30);
    assert_eq!(
        t.distribute_partners(alice(), bob(), 37_000_000 * DECIMALS_POWER10),
        Err(custom("PaymentTooLarge"))
    );
    assert_eq!(t.distribute_whitelist(bob(), bob(), 1), Err(custom("O::CallerIsNotOwner")));
    // a failed transfer leaves the pool as it was
    assert_eq!(t.distribute_whitelist(alice(), zero(), 5), Err(PSP22Error::ZeroRecipientAddress));
    assert_eq!(t.pool_balance(WHITELIST).1, 15_000_000 * DECIMALS_POWER10 - 10);
}

#[test]
fn reward_interlocker_accumulates() {
    let mut t = token();
    let pool = t.pool_balance(REWARDS).1;
    assert_eq!(t.reward_interlocker(alice(), 10, bob()), Ok(10));
    assert_eq!(t.reward_interlocker(alice(), 5, bob()), Ok(15));
    assert_eq!(t.rewarded_interlocker_total(bob()), 15);
    assert_eq!(t.rewarded_interlocker_total(charlie()), 0);
    assert_eq!(t.rewarded_total(), 15);
    assert_eq!(t.pool_balance(REWARDS).1, pool - 15);
    assert_eq!(t.balance_of(bob()), 15);
    assert_eq!(t.events.last(), Some(&Event::Reward(Reward { to: Some(bob()), amount: 5 })));
    assert_eq!(t.reward_interlocker(alice(), pool, bob()), Err(custom("PaymentTooLarge")));
    assert_eq!(t.reward_interlocker(bob(), 1, bob()), Err(custom("O::CallerIsNotOwner")));
    // a refused transfer leaves the totals and the pool as they were
    let events = t.events.len();
    assert_eq!(t.reward_interlocker(alice(), 3, zero()), Err(PSP22Error::ZeroRecipientAddress));
    assert_eq!(t.rewarded_total(), 15);
    assert_eq!(t.pool_balance(REWARDS).1, pool - 15);
    assert_eq!(t.events.len(), events);
}

#[test]
fn ports_and_sockets() {
    let mut t = token();
    let hash = CodeHash([7; 32]);
    let other_hash = CodeHash([8; 32]);
    let contract = eve();
    assert_eq!(t.port(3).cap, 0);
    assert_eq!(t.create_port(bob(), hash, 2, 100, false, 3), Err(custom("O::CallerIsNotOwner")));
    assert_eq!(t.create_port(alice(), hash, 2, 100, false, 3), Ok(()));
    assert_eq!(t.port(3).cap, 100);
    assert_eq!(t.create_socket(contract, false, Some(hash), bob(), 3), Err(OtherError::NotContract));
    assert_eq!(t.create_socket(contract, true, None, bob(), 3), Err(OtherError::NotContract));
    assert_eq!(t.create_socket(contract, true, Some(hash), bob(), 4), Err(OtherError::NoPort));
    assert_eq!(t.create_socket(contract, true, Some(other_hash), bob(), 3), Err(OtherError::UnsafeContract));
    assert_eq!(t.create_socket(contract, true, Some(hash), bob(), 3), Ok(()));
    assert_eq!(t.socket(contract).address, bob());
    assert_eq!(t.socket(contract).port, 3);
    assert_eq!(t.socket(charlie()).address, AccountId([0; 32]));
    assert_eq!(t.allowance(alice(), contract), 100);
    // the socket owner pays the tax out of its own balance, through an
    // allowance given to the connected contract
    t.transfer(alice(), bob(), 10, vec![]).unwrap();
    assert_eq!(t.approve(bob(), contract, 2), Ok(()));
    assert_eq!(t.call_socket(contract, charlie(), true, 5), Err(OtherError::CannotRewardContract));
    assert_eq!(t.call_socket(bob(), charlie(), false, 5), Err(OtherError::NoSocket));
    assert_eq!(t.call_socket(contract, charlie(), false, 5), Ok(()));
    assert_eq!(t.balance_of(charlie()), 5);
    assert_eq!(t.balance_of(bob()), 8);
    assert_eq!(t.tax_available(), 2);
    assert_eq!(t.port(3).paid, 5);
    assert_eq!(t.port(3).collected, 2);
    assert_eq!(t.rewarded_total(), 5);
    assert_eq!(t.allowance(alice(), contract), 95);
    assert_eq!(t.allowance(bob(), contract), 0);
    assert_eq!(t.call_socket(contract, charlie(), false, 96), Err(OtherError::PortCapSurpassed));
    assert_eq!(t.withdraw_tax(alice(), charlie(), 3), Err(custom("PaymentTooLarge")));
    assert_eq!(t.withdraw_tax(alice(), charlie(), 2), Ok(()));
    assert_eq!(t.tax_available(), 0);
}

#[test]
fn locked_port_and_invalid_port() {
    let mut t = token();
    let hash = CodeHash([7; 32]);
    t.create_port(alice(), hash, 0, 100, true, 40).unwrap();
    assert_eq!(t.create_socket(eve(), true, Some(hash), bob(), 40), Err(OtherError::PortLocked));
    assert_eq!(t.create_socket(eve(), true, Some(hash), alice(), 40), Ok(()));
    assert_eq!(
        t.call_socket(eve(), charlie(), false, 1),
        Err(OtherError::Custom("Socket registered with invalid port.".to_string()))
    );
}

#[test]
fn tax_failure_is_reported_as_custom_text() {
    let mut t = token();
    let hash = CodeHash([7; 32]);
    t.create_port(alice(), hash, 2, 100, false, 1).unwrap();
    t.create_socket(eve(), true, Some(hash), bob(), 1).unwrap();
    assert_eq!(
        t.call_socket(eve(), charlie(), false, 5),
        Err(OtherError::Custom("InsufficientAllowance".to_string()))
    );
    t.approve(bob(), eve(), 2).unwrap();
    assert_eq!(
        t.call_socket(eve(), charlie(), false, 5),
        Err(OtherError::Custom("InsufficientBalance".to_string()))
    );
    assert_eq!(t.tax_and_reward(eve(), bob(), charlie(), 1, 9), Err(OtherError::NoPort));
}

#[test]
fn refused_reward_transfer_undoes_the_tax() {
    let mut t = token();
    let hash = CodeHash([7; 32]);
    t.create_port(alice(), hash, 2, 100, false, 1).unwrap();
    t.create_socket(eve(), true, Some(hash), bob(), 1).unwrap();
    t.transfer(alice(), bob(), 10, vec![]).unwrap();
    t.approve(bob(), eve(), 2).unwrap();
    let events = t.events.len();
    let rewards = t.pool_balance(REWARDS).1;
    // the tax could be paid, but the reward cannot go to the zero address
    assert_eq!(
        t.call_socket(eve(), zero(), false, 5),
        Err(OtherError::Custom("ZeroRecipientAddress".to_string()))
    );
    assert_eq!(t.balance_of(bob()), 10);
    assert_eq!(t.allowance(bob(), eve()), 2);
    assert_eq!(t.allowance(alice(), eve()), 100);
    assert_eq!(t.tax_available(), 0);
    assert_eq!(t.port(1).collected, 0);
    assert_eq!(t.pool_balance(REWARDS).1, rewards);
    assert_eq!(t.total_supply(), 10);
    assert_eq!(t.events.len(), events);
    // beyond the contract's allowance from the owner
    t.approve(alice(), eve(), 3).unwrap();
    assert_eq!(
        t.call_socket(eve(), charlie(), false, 5),
        Err(OtherError::Custom("InsufficientAllowance".to_string()))
    );
    assert_eq!(t.balance_of(bob()), 10);
    assert_eq!(t.tax_available(), 0);
}

#[test]
fn error_conversions_carry_debug_text() {
    assert_eq!(OtherError::PayoutTooEarly.into_psp22(), custom("PayoutTooEarly"));
    assert_eq!(
        OtherError::Custom("a\"b".to_string()).into_psp22(),
        custom("Custom(\"a\\\"b\")")
    );
    assert_eq!(
        OtherError::from_psp22(PSP22Error::ZeroSenderAddress),
        OtherError::Custom("ZeroSenderAddress".to_string())
    );
    assert_eq!(
        OtherError::from_psp22(PSP22Error::SafeTransferCheckFailed(b"x".to_vec())),
        OtherError::Custom("SafeTransferCheckFailed([120])".to_string())
    );
    assert_eq!(
        OtherError::from_psp22(custom("PayoutTooEarly")),
        OtherError::Custom(format!("Custom({:?})", "PayoutTooEarly".as_bytes().to_vec()))
    );
    assert_eq!(OwnableError::NewOwnerIsZero.into_psp22(), custom("O::NewOwnerIsZero"));
}

#[test]
fn update_contract_only_owner() {
    let t = token();
    assert_eq!(t.update_contract(alice(), [0; 32]), Ok(()));
    assert_eq!(t.update_contract(bob(), [0; 32]), Err(custom("O::CallerIsNotOwner")));
}

#[test]
fn pool_table() {
    let p = interlock::ilock::pools::pool(0);
    assert_eq!(p.name, "early_backers+venture_capital");
    assert_eq!(p.tokens, 20_000_00);
    assert_eq!(POOL_COUNT, 12);
}

#[test]
fn guards_accept_ordinary_calls() {
    let mut t = token();
    assert!(t.transfer_defined(alice(), bob(), 100));
    assert!(t.transfer_defined(bob(), alice(), 100));
    assert!(t.burn_defined(alice(), bob(), 1));
    assert!(t.reward_defined(alice(), 10, bob()));
    assert!(t.withdraw_tax_defined(alice(), bob(), 0));
    assert!(t.pool_distribution_defined(alice(), bob(), 10, WHITELIST));
    t.register_stakeholder(alice(), bob(), 1_000_000, TEAM_FOUNDERS).unwrap();
    assert!(t.distribute_tokens_defined(alice(), bob()));
    // the circulating supply is zero: burning from the owner's own account
    // would take it below zero
    assert!(!t.burn_defined(alice(), alice(), 1));
    // an instalment of zero: the share is smaller than the number of payments
    t.register_stakeholder(alice(), charlie(), 5, TEAM_FOUNDERS).unwrap();
    for _ in 0..6 {
        t.TESTING_increment_month();
    }
    assert!(!t.distribute_tokens_defined(alice(), charlie()));
    assert!(t.call_socket_defined(eve(), bob(), false, 1));
    assert!(t.tax_and_reward_defined(eve(), bob(), charlie(), 1, 3));
    assert!(t.transfer_from_defined(bob(), alice(), charlie(), 0));
}

#[test]
fn vesting_with_large_remainder_overpays() {
    // pool 0 has 24 payments: a share of 30 gives instalments of 1 and a
    // remainder of 6, larger than an instalment
    let mut t = token();
    t.register_stakeholder(alice(), bob(), 30, 0).unwrap();
    for _ in 0..30 {
        t.TESTING_increment_month();
    }
    let mut paid = 0u128;
    while t.distribute_tokens_defined(alice(), bob()) && t.distribute_tokens(alice(), bob()).is_ok() {
        paid = t.stakeholderdata.get(&bob()).unwrap().paid;
    }
    assert!(paid > 30);
}

#[test]
fn circulation_is_ledger_supply_less_owner_reserve() {
    let mut t = token();
    t.transfer(alice(), bob(), 1_000, vec![]).unwrap();
    t.transfer(bob(), charlie(), 300, vec![]).unwrap();
    t.transfer(charlie(), alice(), 100, vec![]).unwrap();
    t.distribute_whitelist(alice(), eve(), 50).unwrap();
    t.reward_interlocker(alice(), 20, eve()).unwrap();
    t.burn(alice(), bob(), 200).unwrap();
    assert_eq!(t.total_supply() + t.balance_of(alice()), t.psp22.total_supply());
    assert_eq!(t.total_supply(), t.balance_of(bob()) + t.balance_of(charlie()) + t.balance_of(eve()));
    assert_eq!(t.total_supply(), 1_000 - 100 + 50 + 20 - 200);
    assert!(t.total_supply() + t.balance_of(alice()) <= SUPPLY_CAP);
}

#[test]
fn pool_keeps_enough_for_its_stakeholders() {
    // pool 4: 36 payments after a 6 month cliff; both shares split evenly
    let mut t = token();
    let shares: [u128; 2] = [1_000_000, 720_036];
    t.register_stakeholder(alice(), bob(), shares[0], TEAM_FOUNDERS).unwrap();
    t.register_stakeholder(alice(), charlie(), shares[1], TEAM_FOUNDERS).unwrap();
    let start = t.pool_balance(TEAM_FOUNDERS).1;
    for _ in 0..45 {
        t.TESTING_increment_month();
        let _ = t.distribute_tokens(alice(), bob());
        let _ = t.distribute_tokens(alice(), charlie());
        let paid: u128 = [bob(), charlie()].iter().map(|h| t.stakeholderdata.get(h).unwrap().paid).sum();
        let owed: u128 = shares.iter().sum::<u128>() - paid;
        assert_eq!(t.pool_balance(TEAM_FOUNDERS).1, start - paid);
        assert!(t.pool_balance(TEAM_FOUNDERS).1 >= owed);
    }
    assert_eq!(t.pool_balance(TEAM_FOUNDERS).1, start - shares[0] - shares[1]);
    assert_eq!(t.distribute_tokens(alice(), charlie()), Err(custom("StakeholderSharePaid")));
}

#[test]
fn months_never_run_ahead_of_time() {
    let mut t = token();
    let mut now = 0u64;
    for _ in 0..200 {
        now += ONE_MONTH / 3;
        let _ = t.check_time(now);
        assert!(t.months_passed() as u64 * ONE_MONTH <= now);
        assert_eq!(t.nextpayout, (t.months_passed() as u64 + 1) * ONE_MONTH);
    }
    assert_eq!(t.months_passed(), 66);
}

#[test]
fn byte_debug_text_is_the_list_of_bytes() {
    let b = vec![80u8, 0, 255];
    assert_eq!(interlock::ilock::errors::debug_bytes(&b), "[80, 0, 255]");
    assert_eq!(interlock::ilock::errors::debug_bytes(&b), format!("{:?}", b));
    assert_eq!(interlock::ilock::errors::debug_bytes(&vec![]), "[]");
    assert_eq!(interlock::ilock::errors::debug_bytes(&vec![7]), "[7]");
}

#[test]
fn port_counts_rewards_and_taxes() {
    let mut t = token();
    let hash = CodeHash([7; 32]);
    t.create_port(alice(), hash, 3, 1_000, false, 5).unwrap();
    t.create_socket(eve(), true, Some(hash), bob(), 5).unwrap();
    t.transfer(alice(), bob(), 100, vec![]).unwrap();
    t.approve(bob(), eve(), 100).unwrap();
    let amounts = [10u128, 25, 7];
    for a in amounts {
        assert_eq!(t.call_socket(eve(), charlie(), false, a), Ok(()));
    }
    // a refused call counts nothing
    assert_eq!(t.call_socket(eve(), zero(), false, 1), Err(OtherError::Custom("ZeroRecipientAddress".to_string())));
    assert_eq!(t.port(5).paid, 42);
    assert_eq!(t.port(5).collected, 3 * 3);
    assert_eq!(t.tax_available(), 9);
    assert_eq!(t.balance_of(charlie()), 42);
    assert!(t.port(5).paid <= t.port(5).cap);
}
