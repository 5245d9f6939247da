//! The supreme node: it deploys the token, stake-data and staking contracts,
//! giving each a quarter of its balance, and forwards token messages to the
//! token contract.
use vstd::prelude::*;
use crate::account::{AccountId, CodeHash};

verus! {

/// The constructor that an instantiation calls, with its arguments.
#[derive(Clone, Copy, Debug, PartialEq, Eq)]
pub enum Constructor {
    /// The token's constructor, `new_token(init_value)`.
    NewToken { init_value: u32 },
    /// The stake-data contract's constructor, `new()`.
    NewStakeData,
    /// The staking contract's constructor, `new(token, stakedata)`, given the
    /// contracts created by the earlier steps at positions `token_step` and
    /// `stakedata_step` of the plan.
    NewStake { token_step: usize, stakedata_step: usize },
}

/// One contract instantiation: the constructor to call, the code to run, the
/// balance to give it, and the salt that makes its address unique.
#[derive(Clone, Copy, Debug, PartialEq, Eq)]
pub struct Instantiation {
    pub constructor: Constructor,
    pub code_hash: CodeHash,
    pub endowment: u128,
    pub salt: [u8; 4],
}

/// The instantiations the supreme node makes, in the order it makes them.
pub struct SupremePlan {
    pub steps: Vec<Instantiation>,
}

/// The deployed supreme node: the addresses of the contracts it created.
#[derive(Clone, Copy, Debug, PartialEq, Eq)]
pub struct INTRsupreme {
    pub intrtoken: AccountId,
    pub intrstake: AccountId,
    pub stakedata: AccountId,
}

/// The salt of every instantiation: the little-endian bytes of `version`.
pub open spec fn version_salt(version: u32) -> Seq<u8> {
    seq![le_byte(version, 0), le_byte(version, 1), le_byte(version, 2), le_byte(version, 3)]
}

/// The instantiation that calls `constructor` on `code_hash`, with a quarter of
/// `total_balance` and the salt of `version`.
pub open spec fn planned_step(
    s: Instantiation,
    constructor: Constructor,
    code_hash: CodeHash,
    total_balance: u128,
    version: u32,
) -> bool {
    &&& s.constructor == constructor
    &&& s.code_hash == code_hash
    &&& s.endowment == total_balance / 4
    &&& s.salt@ == version_salt(version)
}

/// Byte `i` (from the least significant) of `v`.
pub open spec fn le_byte(v: u32, i: int) -> u8 {
    if i == 0 {
        (v % 256) as u8
    } else if i == 1 {
        ((v / 256) % 256) as u8
    } else if i == 2 {
        ((v / 65536) % 256) as u8
    } else {
        ((v / 16777216) % 256) as u8
    }
}

/// The little-endian bytes of `v`.
pub fn le_bytes(v: u32) -> (r: [u8; 4])
    ensures
        forall|i: int| 0 <= i < 4 ==> #[trigger] r[i] == le_byte(v, i),
{
    [(v % 256) as u8, ((v / 256) % 256) as u8, ((v / 65536) % 256) as u8, ((v / 16777216) % 256) as u8]
}

impl INTRsupreme {
    /// What deploying the supreme node with balance `total_balance` does, in
    /// order: instantiate the token with `init_value`, then the stake data,
    /// then the staking contract built from the two contracts just created;
    /// each is given a quarter of the balance and salted with the little-endian
    /// bytes of `version`.
    pub fn new_supreme(
        init_value: u32,
        version: u32,
        token_code_hash: CodeHash,
        stake_code_hash: CodeHash,
        stakedata_code_hash: CodeHash,
        total_balance: u128,
    ) -> (r: SupremePlan)
        ensures
            r.steps@.len() == 3,
            planned_step(
                r.steps@[0],
                Constructor::NewToken { init_value },
                token_code_hash,
                total_balance,
                version,
            ),
            planned_step(r.steps@[1], Constructor::NewStakeData, stakedata_code_hash, total_balance, version),
            planned_step(
                r.steps@[2],
                Constructor::NewStake { token_step: 0, stakedata_step: 1 },
                stake_code_hash,
                total_balance,
                version,
            ),
    {
        let salt = le_bytes(version);
        assert(salt@ =~= version_salt(version));
        let endowment = total_balance / 4;
        let mut steps: Vec<Instantiation> = Vec::new();
        steps.push(
            Instantiation {
                constructor: Constructor::NewToken { init_value },
                code_hash: token_code_hash,
                endowment,
                salt,
            },
        );
        steps.push(
            Instantiation {
                constructor: Constructor::NewStakeData,
                code_hash: stakedata_code_hash,
                endowment,
                salt,
            },
        );
        steps.push(
            Instantiation {
                constructor: Constructor::NewStake { token_step: 0, stakedata_step: 1 },
                code_hash: stake_code_hash,
                endowment,
                salt,
            },
        );
        SupremePlan { steps }
    }

    /// The constructor arguments of step `step` of `plan`, with each reference
    /// to an earlier step replaced by the contract that step created
    /// (`created[i]` for step `i`): for the staking contract, the token and
    /// stake-data contracts; `None` for a step that takes no contract, or one
    /// that refers to a step not yet made.
    pub fn stake_arguments(plan: &SupremePlan, created: &Vec<AccountId>, step: usize) -> (r: Option<
        (AccountId, AccountId),
    >)
        requires
            step < plan.steps@.len(),
        ensures
            r == (match plan.steps@[step as int].constructor {
                Constructor::NewStake { token_step, stakedata_step } => if token_step < step
                    && stakedata_step < step && token_step < created@.len() && stakedata_step
                    < created@.len() {
                    Some((created@[token_step as int], created@[stakedata_step as int]))
                } else {
                    None
                },
                _ => None,
            }),
    {
        match plan.steps[step].constructor {
            Constructor::NewStake { token_step, stakedata_step } => {
                if token_step < step && stakedata_step < step && token_step < created.len()
                    && stakedata_step < created.len() {
                    Some((created[token_step], created[stakedata_step]))
                } else {
                    None
                }
            },
            _ => None,
        }
    }

    /// The deployed node, from the contracts that the three steps of the plan
    /// created, in order: token, stake data, staking.
    pub fn from_created(created: &Vec<AccountId>) -> (r: INTRsupreme)
        requires
            created@.len() == 3,
        ensures
            r.intrtoken == created@[0],
            r.stakedata == created@[1],
            r.intrstake == created@[2],
    {
        INTRsupreme { intrtoken: created[0], intrstake: created[2], stakedata: created[1] }
    }
}

} // verus!
