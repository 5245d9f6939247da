use interlock::account::{AccountId, CodeHash};
use interlock::solana::{program_error, ContractError, ContractInstruction};
use interlock::supreme::{Constructor, INTRsupreme};
use solana_program::program_error::ProgramError;

#[test]
fn supreme_plan_splits_balance_and_salts_with_version() {
    let plan = INTRsupreme::new_supreme(1000, 0x0102_0304, CodeHash([1; 32]), CodeHash([2; 32]), CodeHash([3; 32]), 1003);
    assert_eq!(plan.steps.len(), 3);
    assert_eq!(plan.steps[0].constructor, Constructor::NewToken { init_value: 1000 });
    assert_eq!(plan.steps[1].constructor, Constructor::NewStakeData);
    assert_eq!(plan.steps[2].constructor, Constructor::NewStake { token_step: 0, stakedata_step: 1 });
    for step in &plan.steps {
        assert_eq!(step.endowment, 250);
        assert_eq!(step.salt, [4, 3, 2, 1]);
    }
    assert_eq!(plan.steps[0].salt, 0x0102_0304u32.to_le_bytes());
    assert_eq!(plan.steps[0].code_hash, CodeHash([1; 32]));
    assert_eq!(plan.steps[1].code_hash, CodeHash([3; 32]));
    assert_eq!(plan.steps[2].code_hash, CodeHash([2; 32]));
}

#[test]
fn supreme_staking_step_is_built_from_the_earlier_contracts() {
    let plan = INTRsupreme::new_supreme(7, 1, CodeHash([1; 32]), CodeHash([2; 32]), CodeHash([3; 32]), 8);
    let token = AccountId([0x11; 32]);
    let stakedata = AccountId([0x22; 32]);
    let stake = AccountId([0x33; 32]);
    let mut created = Vec::new();
    assert_eq!(INTRsupreme::stake_arguments(&plan, &created, 0), None);
    created.push(token);
    assert_eq!(INTRsupreme::stake_arguments(&plan, &created, 1), None);
    created.push(stakedata);
    assert_eq!(INTRsupreme::stake_arguments(&plan, &created, 2), Some((token, stakedata)));
    created.push(stake);
    let node = INTRsupreme::from_created(&created);
    assert_eq!(node, INTRsupreme { intrtoken: token, intrstake: stake, stakedata });
}

#[test]
fn contract_error_codes_and_messages() {
    assert_eq!(ContractError::InvalidInstruction.code(), 0);
    assert_eq!(ContractError::GlobalAlreadyExistsError.code(), 5);
    assert_eq!(ContractError::UserNotHunterError.code(), 15);
    assert_eq!(ContractError::UserNotHunterError as u32, 15);
    assert_eq!(ContractError::OwnerImposterError.message(), "'Owner' is an imposter!");
    assert_eq!(ContractError::TryFromSliceError.message(), "Try From Slice Fail");
}

#[test]
fn contract_error_becomes_custom_program_error() {
    assert_eq!(program_error(ContractError::NotRentExempt), ProgramError::Custom(1));
    assert_eq!(program_error(ContractError::EntityClaimedError), ProgramError::Custom(13));
}

#[test]
fn instructions_carry_their_fields() {
    let ix: ContractInstruction<3> = ContractInstruction::UpdateGlobal { updateFlags: 1, values: [1, 2, 3] };
    match ix {
        ContractInstruction::UpdateGlobal { updateFlags, values } => {
            assert_eq!(updateFlags, 1);
            assert_eq!(values, [1, 2, 3]);
        }
        _ => unreachable!(),
    }
}
