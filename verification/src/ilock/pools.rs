//! Token constants and the vesting parameters of the twelve stakeholder pools.
use vstd::prelude::*;

verus! {

/// Bytes in an account id.
pub const ID_LENGTH: usize = 32;

/// Number of stakeholder pools.
pub const POOL_COUNT: usize = 12;

/// Milliseconds in 30 days.
pub const ONE_MONTH: u64 = 2_592_000_000;

/// Whole tokens that will ever exist.
pub const TOKEN_CAP: u128 = 1_000_000_000;

/// Smallest units per whole token.
pub const DECIMALS_POWER10: u128 = 1_000_000_000_000_000_000;

/// Smallest units minted at launch.
pub const SUPPLY_CAP: u128 = TOKEN_CAP * DECIMALS_POWER10;

/// Decimal places of the token.
pub const TOKEN_DECIMALS: u8 = 18;

pub const EARLY_BACKERS: u8 = 0;
pub const PRESALE_1: u8 = 1;
pub const PRESALE_2: u8 = 2;
pub const PRESALE_3: u8 = 3;
pub const TEAM_FOUNDERS: u8 = 4;
pub const OUTLIER_VENTURES: u8 = 5;
pub const ADVISORS: u8 = 6;
pub const REWARDS: u8 = 7;
pub const FOUNDATION: u8 = 8;
pub const PARTNERS: u8 = 9;
pub const WHITELIST: u8 = 10;
pub const PUBLIC_SALE: u8 = 11;

/// The vesting parameters of one pool.
#[derive(Debug, Clone, Copy)]
pub struct PoolData {
    pub name: &'static str,
    pub tokens: u128,
    pub vests: u8,
    pub cliffs: u8,
}

/// Whole tokens allotted to pool `i`.
pub open spec fn pool_tokens(i: int) -> u128 {
    if i == 0 { 20_000_00 }
    else if i == 1 { 48_622_222 }
    else if i == 2 { 66_666_667 }
    else if i == 3 { 40_000_000 }
    else if i == 4 { 200_000_000 }
    else if i == 5 { 40_000_000 }
    else if i == 6 { 25_000_000 }
    else if i == 7 { 285_000_000 }
    else if i == 8 { 172_711_111 }
    else if i == 9 { 37_000_000 }
    else if i == 10 { 15_000_000 }
    else { 50_000_000 }
}

/// Number of monthly payments of pool `i`.
pub open spec fn pool_vests(i: int) -> u8 {
    if i == 0 { 24 }
    else if i == 1 { 18 }
    else if i == 2 { 15 }
    else if i == 3 { 12 }
    else if i == 4 { 36 }
    else if i == 5 { 24 }
    else if i == 6 { 24 }
    else if i == 7 { 1 }
    else if i == 8 { 84 }
    else if i == 9 { 1 }
    else { 48 }
}

/// Months before pool `i` pays anything.
pub open spec fn pool_cliffs(i: int) -> u8 {
    if i == 0 { 1 }
    else if i == 1 { 1 }
    else if i == 2 { 1 }
    else if i == 3 { 1 }
    else if i == 4 { 6 }
    else if i == 5 { 1 }
    else if i == 6 { 1 }
    else if i == 8 { 1 }
    else { 0 }
}

/// The name of pool `i`.
pub open spec fn pool_name(i: int) -> Seq<char> {
    if i == 0 { "early_backers+venture_capital"@ }
    else if i == 1 { "presale_1"@ }
    else if i == 2 { "presale_2"@ }
    else if i == 3 { "presale_3"@ }
    else if i == 4 { "team+founders"@ }
    else if i == 5 { "outlier_ventures"@ }
    else if i == 6 { "advisors"@ }
    else if i == 7 { "rewards"@ }
    else if i == 8 { "foundation"@ }
    else if i == 9 { "partners"@ }
    else if i == 10 { "whitelist"@ }
    else { "public_sale"@ }
}

/// The vesting parameters of pool `index`.
pub fn pool(index: u8) -> (p: PoolData)
    requires
        index < POOL_COUNT,
    ensures
        p.name@ == pool_name(index as int),
        p.tokens == pool_tokens(index as int),
        p.vests == pool_vests(index as int),
        p.cliffs == pool_cliffs(index as int),
{
    match index {
        0 => PoolData { name: "early_backers+venture_capital", tokens: 20_000_00, vests: 24, cliffs: 1 },
        1 => PoolData { name: "presale_1", tokens: 48_622_222, vests: 18, cliffs: 1 },
        2 => PoolData { name: "presale_2", tokens: 66_666_667, vests: 15, cliffs: 1 },
        3 => PoolData { name: "presale_3", tokens: 40_000_000, vests: 12, cliffs: 1 },
        4 => PoolData { name: "team+founders", tokens: 200_000_000, vests: 36, cliffs: 6 },
        5 => PoolData { name: "outlier_ventures", tokens: 40_000_000, vests: 24, cliffs: 1 },
        6 => PoolData { name: "advisors", tokens: 25_000_000, vests: 24, cliffs: 1 },
        7 => PoolData { name: "rewards", tokens: 285_000_000, vests: 1, cliffs: 0 },
        8 => PoolData { name: "foundation", tokens: 172_711_111, vests: 84, cliffs: 1 },
        9 => PoolData { name: "partners", tokens: 37_000_000, vests: 1, cliffs: 0 },
        10 => PoolData { name: "whitelist", tokens: 15_000_000, vests: 48, cliffs: 0 },
        _ => PoolData { name: "public_sale", tokens: 50_000_000, vests: 48, cliffs: 0 },
    }
}

} // verus!
