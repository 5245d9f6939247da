//! The ILOCK token: a PSP22 token whose owner holds the not-yet-circulating supply,
//! with stakeholder vesting pools, interlocker rewards and reward ports/sockets.
//!
//! Every message takes what the chain environment would tell it (the caller, the
//! block time, whether an account is a contract, a contract's code hash) as
//! arguments, and records the events it emits in the `events` log.
use vstd::prelude::*;
use crate::account::{AccountId, CodeHash};
use crate::keymap::KeyMap;
use crate::psp22::{
    balance_in, moved, not_owner_error, psp22_result, OwnableError, PSP22Error, Psp22Data,
    Psp22ErrorView,
};
use crate::ilock::pools::{
    pool_tokens, DECIMALS_POWER10, ONE_MONTH, POOL_COUNT, REWARDS, SUPPLY_CAP, TOKEN_DECIMALS,
};

verus! {

/// The name of the token.
pub const TOKEN_NAME: &'static str = "Interlock Network";

/// The ticker symbol of the token.
pub const TOKEN_SYMBOL: &'static str = "ILOCK";

/// What each stakeholder is owed and has been paid.
#[derive(Clone, Copy, Debug, PartialEq, Eq)]
pub struct StakeholderData {
    pub paid: u128,
    pub share: u128,
    pub pool: u8,
}

/// A reward port: the code hash of the contracts that may connect to it, the tax
/// charged per reward, the most it may pay out, and what it paid and collected.
#[derive(Clone, Copy, Debug, PartialEq, Eq)]
pub struct Port {
    pub hash: CodeHash,
    pub tax: u128,
    pub cap: u128,
    pub locked: bool,
    pub paid: u128,
    pub collected: u128,
}

/// A socket: the owner of a connected rewards contract, and the port it uses.
#[derive(Clone, Copy, Debug, PartialEq, Eq)]
pub struct Socket {
    pub address: AccountId,
    pub port: u16,
}

impl Default for Port {
    fn default() -> (r: Port)
        ensures
            r == empty_port(),
    {
        Port {
            hash: CodeHash([0u8; 32]),
            tax: 0,
            cap: 0,
            locked: false,
            paid: 0,
            collected: 0,
        }
    }
}

impl Default for Socket {
    fn default() -> (r: Socket)
        ensures
            r == empty_socket(),
    {
        Socket { address: AccountId([0u8; 32]), port: 0 }
    }
}

/// The port reported for a number that has none: every field zero.
pub open spec fn empty_port() -> Port {
    Port {
        hash: CodeHash(crate::account::filled(0)),
        tax: 0,
        cap: 0,
        locked: false,
        paid: 0,
        collected: 0,
    }
}

/// The socket reported for a contract that has none: every field zero.
pub open spec fn empty_socket() -> Socket {
    Socket { address: AccountId(crate::account::filled(0)), port: 0 }
}

/// Token metadata.
pub struct Metadata {
    pub name: Option<String>,
    pub symbol: Option<String>,
    pub decimals: u8,
}

/// A transfer of tokens; `None` stands for minting or burning.
#[derive(Clone, Copy, Debug, PartialEq, Eq)]
pub struct Transfer {
    pub from: Option<AccountId>,
    pub to: Option<AccountId>,
    pub amount: u128,
}

/// An allowance was set.
#[derive(Clone, Copy, Debug, PartialEq, Eq)]
pub struct Approval {
    pub owner: Option<AccountId>,
    pub spender: Option<AccountId>,
    pub amount: u128,
}

/// An interlocker was rewarded.
#[derive(Clone, Copy, Debug, PartialEq, Eq)]
pub struct Reward {
    pub to: Option<AccountId>,
    pub amount: u128,
}

/// The events the token emits.
#[derive(Clone, Copy, Debug, PartialEq, Eq)]
pub enum Event {
    Transfer(Transfer),
    Approval(Approval),
    Reward(Reward),
}

/// The result of a PSP22 message.
pub type PSP22Result<T> = Result<T, PSP22Error>;

/// The result of one of the token's own messages.
pub type OtherResult<T> = Result<T, crate::ilock::errors::OtherError>;

/// The token's storage.
pub struct ILOCKtoken {
    pub psp22: Psp22Data,
    pub owner: AccountId,
    pub metadata: Metadata,
    pub stakeholderdata: KeyMap<AccountId, StakeholderData>,
    pub rewardedinterlocker: KeyMap<AccountId, u128>,
    pub poolbalances: [u128; POOL_COUNT],
    pub rewardedtotal: u128,
    pub circulatingsupply: u128,
    pub taxpool: u128,
    pub monthspassed: u8,
    pub nextpayout: u64,
    pub ports: KeyMap<u16, Port>,
    pub sockets: KeyMap<AccountId, Socket>,
    pub events: Vec<Event>,
}

/// The abstract state of the token.
#[verifier::ext_equal]
pub struct TokenView {
    pub balances: Map<AccountId, u128>,
    pub allowances: Map<(AccountId, AccountId), u128>,
    pub supply: u128,
    pub owner: AccountId,
    pub name: Option<Seq<char>>,
    pub symbol: Option<Seq<char>>,
    pub decimals: u8,
    pub stakeholders: Map<AccountId, StakeholderData>,
    pub rewarded: Map<AccountId, u128>,
    pub pools: Seq<u128>,
    pub rewarded_total: u128,
    pub circulating: u128,
    pub taxpool: u128,
    pub months: u8,
    pub next_payout: u64,
    pub ports: Map<u16, Port>,
    pub sockets: Map<AccountId, Socket>,
    pub events: Seq<Event>,
}

/// The text of an optional string.
pub open spec fn opt_text(o: Option<String>) -> Option<Seq<char>> {
    match o {
        Some(s) => Some(s@),
        None => None,
    }
}

impl View for ILOCKtoken {
    type V = TokenView;

    open spec fn view(&self) -> TokenView {
        TokenView {
            balances: self.psp22.balances(),
            allowances: self.psp22.allowances(),
            supply: self.psp22.supply(),
            owner: self.owner,
            name: opt_text(self.metadata.name),
            symbol: opt_text(self.metadata.symbol),
            decimals: self.metadata.decimals,
            stakeholders: self.stakeholderdata@,
            rewarded: self.rewardedinterlocker@,
            pools: self.poolbalances@,
            rewarded_total: self.rewardedtotal,
            circulating: self.circulatingsupply,
            taxpool: self.taxpool,
            months: self.monthspassed,
            next_payout: self.nextpayout,
            ports: self.ports@,
            sockets: self.sockets@,
            events: self.events@,
        }
    }
}

/// The state right after construction by `caller` at time `now`.
pub open spec fn initial_view(caller: AccountId, now: u64) -> TokenView {
    TokenView {
        balances: Map::empty().insert(caller, SUPPLY_CAP),
        allowances: Map::empty(),
        supply: SUPPLY_CAP,
        owner: caller,
        name: Some(TOKEN_NAME@),
        symbol: Some(TOKEN_SYMBOL@),
        decimals: TOKEN_DECIMALS,
        stakeholders: Map::empty(),
        rewarded: Map::empty(),
        pools: Seq::new(POOL_COUNT as nat, |i: int| (pool_tokens(i) * DECIMALS_POWER10) as u128),
        rewarded_total: 0,
        circulating: 0,
        taxpool: 0,
        months: 0,
        next_payout: (now + ONE_MONTH) as u64,
        ports: Map::empty(),
        sockets: Map::empty(),
        events: seq![Event::Transfer(Transfer { from: None, to: Some(caller), amount: SUPPLY_CAP })],
    }
}

/// The balance of `a`.
pub open spec fn balance(v: TokenView, a: AccountId) -> u128 {
    balance_in(v.balances, a)
}

/// The allowance that `owner` gave `spender`.
pub open spec fn allowance_in(v: TokenView, owner: AccountId, spender: AccountId) -> u128 {
    if v.allowances.contains_key((owner, spender)) {
        v.allowances[(owner, spender)]
    } else {
        0
    }
}

/// Why the ledger refuses to move `value` from `from` (holding `from_balance`)
/// to `to`, or `None` where it accepts.
pub open spec fn ledger_refusal(from: AccountId, to: AccountId, value: u128, from_balance: u128) -> Option<
    Psp22ErrorView,
> {
    if from.spec_is_zero() {
        Some(Psp22ErrorView::ZeroSenderAddress)
    } else if to.spec_is_zero() {
        Some(Psp22ErrorView::ZeroRecipientAddress)
    } else if from_balance < value {
        Some(Psp22ErrorView::InsufficientBalance)
    } else {
        None
    }
}

/// Why `caller` may not spend `value` of `from`'s tokens for `to`, given the
/// allowance `from` gave `caller` and `from`'s balance, or `None` where it may:
/// the allowance is checked first, then the allowance update, then the ledger.
pub open spec fn transfer_from_refusal(
    caller: AccountId,
    from: AccountId,
    to: AccountId,
    value: u128,
    allowance: u128,
    from_balance: u128,
) -> Option<Psp22ErrorView> {
    if allowance < value {
        Some(Psp22ErrorView::InsufficientAllowance)
    } else if from.spec_is_zero() {
        Some(Psp22ErrorView::ZeroSenderAddress)
    } else if caller.spec_is_zero() {
        Some(Psp22ErrorView::ZeroRecipientAddress)
    } else {
        ledger_refusal(from, to, value, from_balance)
    }
}

/// The abstract value of an optional error.
pub open spec fn opt_error(e: Option<PSP22Error>) -> Option<Psp22ErrorView> {
    match e {
        Some(x) => Some(x@),
        None => None,
    }
}

/// The ledger transfer of `value` from `from` to `to`, with its event.
pub open spec fn ledger_transfer(v: TokenView, from: AccountId, to: AccountId, value: u128) -> Result<
    TokenView,
    Psp22ErrorView,
> {
    match ledger_refusal(from, to, value, balance(v, from)) {
        Some(e) => Err(e),
        None => Ok(
            TokenView {
                balances: moved(v.balances, from, to, value),
                events: v.events.push(
                    Event::Transfer(Transfer { from: Some(from), to: Some(to), amount: value }),
                ),
                ..v
            },
        ),
    }
}

/// A token transfer: the ledger transfer, then the bookkeeping of the owner's
/// side. Tokens leaving the owner enter circulation; tokens reaching the owner
/// leave circulation and are added to the rewards pool. `None` where that
/// bookkeeping overflows.
pub open spec fn transfer_step(v: TokenView, from: AccountId, to: AccountId, value: u128) -> Option<
    (TokenView, Result<(), Psp22ErrorView>),
> {
    match ledger_transfer(v, from, to, value) {
        Err(e) => Some((v, Err(e))),
        Ok(v1) => {
            let c1: int = if from == v.owner {
                v.circulating + value
            } else {
                v.circulating as int
            };
            if c1 > u128::MAX {
                None
            } else if to == v.owner {
                if v.pools[REWARDS as int] + value > u128::MAX || c1 < value {
                    None
                } else {
                    Some(
                        (
                            TokenView {
                                pools: v.pools.update(
                                    REWARDS as int,
                                    (v.pools[REWARDS as int] + value) as u128,
                                ),
                                circulating: (c1 - value) as u128,
                                ..v1
                            },
                            Ok(()),
                        ),
                    )
                }
            } else {
                Some((TokenView { circulating: c1 as u128, ..v1 }, Ok(())))
            }
        },
    }
}

/// Setting the allowance that `owner` gives `spender`, with its event.
pub open spec fn approve_step(v: TokenView, owner: AccountId, spender: AccountId, amount: u128) -> (
    TokenView,
    Result<(), Psp22ErrorView>,
) {
    if owner.spec_is_zero() {
        (v, Err(Psp22ErrorView::ZeroSenderAddress))
    } else if spender.spec_is_zero() {
        (v, Err(Psp22ErrorView::ZeroRecipientAddress))
    } else {
        (
            TokenView {
                allowances: v.allowances.insert((owner, spender), amount),
                events: v.events.push(
                    Event::Approval(
                        Approval { owner: Some(owner), spender: Some(spender), amount },
                    ),
                ),
                ..v
            },
            Ok(()),
        )
    }
}

/// `caller` spending `value` of the allowance `from` gave it, to move that
/// much from `from` to `to`: the allowance is lowered by `value` (with its
/// event), then the tokens move as in a transfer. A refusal changes nothing.
pub open spec fn transfer_from_step(
    v: TokenView,
    caller: AccountId,
    from: AccountId,
    to: AccountId,
    value: u128,
) -> Option<(TokenView, Result<(), Psp22ErrorView>)> {
    let a = allowance_in(v, from, caller);
    match transfer_from_refusal(caller, from, to, value, a, balance(v, from)) {
        Some(e) => Some((v, Err(e))),
        None => transfer_step(approve_step(v, from, caller, (a - value) as u128).0, from, to, value),
    }
}

/// Burning `amount` of `donor`'s tokens by `caller`. `None` where the
/// circulating supply would go below zero.
pub open spec fn burn_step(v: TokenView, caller: AccountId, donor: AccountId, amount: u128) -> Option<
    (TokenView, Result<(), Psp22ErrorView>),
> {
    if caller != v.owner {
        Some((v, Err(not_owner_error())))
    } else if donor.spec_is_zero() {
        Some((v, Err(Psp22ErrorView::ZeroRecipientAddress)))
    } else if balance(v, donor) < amount {
        Some((v, Err(Psp22ErrorView::InsufficientBalance)))
    } else if v.circulating < amount {
        None
    } else {
        Some(
            (
                TokenView {
                    balances: v.balances.insert(donor, (balance(v, donor) - amount) as u128),
                    supply: (v.supply - amount) as u128,
                    circulating: (v.circulating - amount) as u128,
                    events: v.events.push(
                        Event::Transfer(Transfer { from: Some(donor), to: None, amount }),
                    ),
                    ..v
                },
                Ok(()),
            ),
        )
    }
}

/// The state with `owner` as its owner.
pub open spec fn with_owner(v: TokenView, owner: AccountId) -> TokenView {
    TokenView { owner, ..v }
}

/// The circulating supply is what is held outside the owner's account.
pub open spec fn circulation_consistent(v: TokenView) -> bool {
    v.circulating == v.supply - balance(v, v.owner)
}

/// Why the ledger refuses to move `value` from `from` (holding `from_balance`)
/// to `to`, or `None` where it accepts.
pub fn refusal_of_ledger(from: AccountId, to: AccountId, value: u128, from_balance: u128) -> (r: Option<
    PSP22Error,
>)
    ensures
        opt_error(r) == ledger_refusal(from, to, value, from_balance),
{
    if from.is_zero() {
        Some(PSP22Error::ZeroSenderAddress)
    } else if to.is_zero() {
        Some(PSP22Error::ZeroRecipientAddress)
    } else if from_balance < value {
        Some(PSP22Error::InsufficientBalance)
    } else {
        None
    }
}

/// Why `caller` may not spend `value` of `from`'s tokens for `to`, given the
/// allowance and `from`'s balance, or `None` where it may.
pub fn refusal_of_transfer_from(
    caller: AccountId,
    from: AccountId,
    to: AccountId,
    value: u128,
    allowance: u128,
    from_balance: u128,
) -> (r: Option<PSP22Error>)
    ensures
        opt_error(r) == transfer_from_refusal(caller, from, to, value, allowance, from_balance),
{
    if allowance < value {
        Some(PSP22Error::InsufficientAllowance)
    } else if from.is_zero() {
        Some(PSP22Error::ZeroSenderAddress)
    } else if caller.is_zero() {
        Some(PSP22Error::ZeroRecipientAddress)
    } else {
        refusal_of_ledger(from, to, value, from_balance)
    }
}

impl ILOCKtoken {
    /// The storage is consistent: maps have distinct keys and the ledger's
    /// balances add up to its supply.
    pub open spec fn wf(&self) -> bool {
        &&& self.psp22.wf()
        &&& self.stakeholderdata.wf()
        &&& self.rewardedinterlocker.wf()
        &&& self.ports.wf()
        &&& self.sockets.wf()
    }

    /// Creates the token: mints the whole supply to `caller`, who becomes the
    /// owner, fills the stakeholder pools, and sets the first payout one month
    /// after `now`.
    pub fn new_token(caller: AccountId, now: u64) -> (r: ILOCKtoken)
        requires
            !caller.spec_is_zero(),
            now + ONE_MONTH <= u64::MAX,
        ensures
            r.wf(),
            r@ == initial_view(caller, now),
    {
        let mut contract = ILOCKtoken {
            psp22: Psp22Data::new(),
            owner: AccountId::zero(),
            metadata: Metadata { name: None, symbol: None, decimals: 0 },
            stakeholderdata: KeyMap::new(),
            rewardedinterlocker: KeyMap::new(),
            poolbalances: [0u128; POOL_COUNT],
            rewardedtotal: 0,
            circulatingsupply: 0,
            taxpool: 0,
            monthspassed: 0,
            nextpayout: 0,
            ports: KeyMap::new(),
            sockets: KeyMap::new(),
            events: Vec::new(),
        };
        contract.monthspassed = 0;
        contract.nextpayout = now + ONE_MONTH;
        contract.rewardedtotal = 0;
        contract.circulatingsupply = 0;
        contract.metadata.name = Some(String::from_str(TOKEN_NAME));
        contract.metadata.symbol = Some(String::from_str(TOKEN_SYMBOL));
        contract.metadata.decimals = TOKEN_DECIMALS;
        let minted = contract.psp22.mint_to(caller, SUPPLY_CAP);
        contract.events.push(Event::Transfer(Transfer { from: None, to: Some(caller), amount: SUPPLY_CAP }));
        contract.owner = caller;
        let mut balances = [0u128; POOL_COUNT];
        let mut pool: usize = 0;
        while pool < POOL_COUNT
            invariant
                0 <= pool <= POOL_COUNT,
                forall|i: int|
                    0 <= i < pool ==> #[trigger] balances@[i] == (pool_tokens(i)
                        * DECIMALS_POWER10) as u128,
            decreases POOL_COUNT - pool,
        {
            let p = crate::ilock::pools::pool(pool as u8);
            balances[pool] = p.tokens * DECIMALS_POWER10;
            pool = pool + 1;
        }
        contract.poolbalances = balances;
        assert(contract.poolbalances@ =~= initial_view(caller, now).pools);
        assert(contract.psp22.balances() =~= Map::empty().insert(caller, SUPPLY_CAP));
        assert(contract@ =~= initial_view(caller, now));
        contract
    }
}


impl ILOCKtoken {
    /// Moves `value` from `from` to `to` and keeps the owner's bookkeeping.
    pub(crate) fn move_tokens(&mut self, from: AccountId, to: AccountId, value: u128) -> (r: Result<
        (),
        PSP22Error,
    >)
        requires
            old(self).wf(),
            transfer_step(old(self)@, from, to, value) is Some,
        ensures
            final(self).wf(),
            transfer_step(old(self)@, from, to, value) == Some((final(self)@, psp22_result(r))),
    {
        match self.psp22.transfer_from_to(from, to, value) {
            Err(e) => {
                return Err(e);
            },
            Ok(()) => {},
        }
        self.events.push(Event::Transfer(Transfer { from: Some(from), to: Some(to), amount: value }));
        if from.same(&self.owner) {
            self.circulatingsupply = self.circulatingsupply + value;
        }
        if to.same(&self.owner) {
            self.poolbalances[REWARDS as usize] = self.poolbalances[REWARDS as usize] + value;
            self.circulatingsupply = self.circulatingsupply - value;
        }
        assert(self@ =~= transfer_step(old(self)@, from, to, value).unwrap().0);
        Ok(())
    }

    /// Fails with the ownership error unless `caller` is the owner.
    pub(crate) fn only_owner(&self, caller: AccountId) -> (r: Result<(), PSP22Error>)
        ensures
            r is Ok <==> caller == self.owner,
            r matches Err(e) ==> e@ == not_owner_error(),
    {
        if !caller.same(&self.owner) {
            return Err(OwnableError::CallerIsNotOwner.into_psp22());
        }
        Ok(())
    }

    /// The tokens in circulation: the total supply as this token reports it.
    pub fn total_supply(&self) -> (r: u128)
        ensures
            r == self@.circulating,
    {
        self.circulatingsupply
    }

    /// The balance of `owner`.
    pub fn balance_of(&self, owner: AccountId) -> (r: u128)
        requires
            self.wf(),
        ensures
            r == balance(self@, owner),
    {
        self.psp22.balance_of(owner)
    }

    /// The allowance that `owner` gave `spender`.
    pub fn allowance(&self, owner: AccountId, spender: AccountId) -> (r: u128)
        requires
            self.wf(),
        ensures
            r == allowance_in(self@, owner, spender),
    {
        self.psp22.allowance(owner, spender)
    }

    /// Transfers `value` from `caller` to `to`. Tokens leaving the owner enter
    /// circulation; tokens reaching the owner return to the rewards pool.
    pub fn transfer(&mut self, caller: AccountId, to: AccountId, value: u128, data: Vec<u8>) -> (r:
        Result<(), PSP22Error>)
        requires
            old(self).wf(),
            transfer_step(old(self)@, caller, to, value) is Some,
        ensures
            final(self).wf(),
            transfer_step(old(self)@, caller, to, value) == Some((final(self)@, psp22_result(r))),
    {
        self.move_tokens(caller, to, value)
    }

    /// `caller` transfers `value` from `from` to `to` out of the allowance
    /// `from` gave it, which drops by `value`; the tokens move with the same
    /// bookkeeping as `transfer`. Beyond the allowance it fails with
    /// `InsufficientAllowance`, and any failure changes nothing.
    pub fn transfer_from(
        &mut self,
        caller: AccountId,
        from: AccountId,
        to: AccountId,
        value: u128,
        data: Vec<u8>,
    ) -> (r: Result<(), PSP22Error>)
        requires
            old(self).wf(),
            transfer_from_step(old(self)@, caller, from, to, value) is Some,
        ensures
            final(self).wf(),
            transfer_from_step(old(self)@, caller, from, to, value) == Some(
                (final(self)@, psp22_result(r)),
            ),
    {
        let allowance = self.psp22.allowance(from, caller);
        let from_balance = self.psp22.balance_of(from);
        match refusal_of_transfer_from(caller, from, to, value, allowance, from_balance) {
            Some(e) => {
                return Err(e);
            },
            None => {},
        }
        self.approve_from_to(from, caller, allowance - value)?;
        self.move_tokens(from, to, value)
    }

    /// Sets the allowance that `caller` gives `spender` to `value`.
    pub fn approve(&mut self, caller: AccountId, spender: AccountId, value: u128) -> (r: Result<
        (),
        PSP22Error,
    >)
        requires
            old(self).wf(),
        ensures
            final(self).wf(),
            approve_step(old(self)@, caller, spender, value) == (final(self)@, psp22_result(r)),
    {
        self.approve_from_to(caller, spender, value)
    }

    fn approve_from_to(&mut self, owner: AccountId, spender: AccountId, value: u128) -> (r: Result<
        (),
        PSP22Error,
    >)
        requires
            old(self).wf(),
        ensures
            final(self).wf(),
            approve_step(old(self)@, owner, spender, value) == (final(self)@, psp22_result(r)),
    {
        match self.psp22.approve_from_to(owner, spender, value) {
            Err(e) => {
                return Err(e);
            },
            Ok(()) => {},
        }
        self.events.push(
            Event::Approval(Approval { owner: Some(owner), spender: Some(spender), amount: value }),
        );
        assert(self@ =~= approve_step(old(self)@, owner, spender, value).0);
        Ok(())
    }

    /// Raises the allowance that `caller` gives `spender` by `delta_value`.
    pub fn increase_allowance(&mut self, caller: AccountId, spender: AccountId, delta_value: u128) -> (r:
        Result<(), PSP22Error>)
        requires
            old(self).wf(),
            allowance_in(old(self)@, caller, spender) + delta_value <= u128::MAX,
        ensures
            final(self).wf(),
            approve_step(
                old(self)@,
                caller,
                spender,
                (allowance_in(old(self)@, caller, spender) + delta_value) as u128,
            ) == (final(self)@, psp22_result(r)),
    {
        let current = self.psp22.allowance(caller, spender);
        self.approve_from_to(caller, spender, current + delta_value)
    }

    /// Lowers the allowance that `caller` gives `spender` by `delta_value`.
    pub fn decrease_allowance(&mut self, caller: AccountId, spender: AccountId, delta_value: u128) -> (r:
        Result<(), PSP22Error>)
        requires
            old(self).wf(),
        ensures
            final(self).wf(),
            allowance_in(old(self)@, caller, spender) < delta_value ==> *final(self) == *old(self)
                && psp22_result(r) == Err::<(), _>(Psp22ErrorView::InsufficientAllowance),
            allowance_in(old(self)@, caller, spender) >= delta_value ==> approve_step(
                old(self)@,
                caller,
                spender,
                (allowance_in(old(self)@, caller, spender) - delta_value) as u128,
            ) == (final(self)@, psp22_result(r)),
    {
        let current = self.psp22.allowance(caller, spender);
        if current < delta_value {
            return Err(PSP22Error::InsufficientAllowance);
        }
        self.approve_from_to(caller, spender, current - delta_value)
    }

    /// Burns `amount` of `donor`'s tokens; only the owner may.
    pub fn burn(&mut self, caller: AccountId, donor: AccountId, amount: u128) -> (r: Result<
        (),
        PSP22Error,
    >)
        requires
            old(self).wf(),
            burn_step(old(self)@, caller, donor, amount) is Some,
        ensures
            final(self).wf(),
            burn_step(old(self)@, caller, donor, amount) == Some((final(self)@, psp22_result(r))),
    {
        self.only_owner(caller)?;
        match self.psp22.burn_from(donor, amount) {
            Err(e) => {
                return Err(e);
            },
            Ok(()) => {},
        }
        self.events.push(Event::Transfer(Transfer { from: Some(donor), to: None, amount }));
        self.circulatingsupply = self.circulatingsupply - amount;
        assert(self@ =~= burn_step(old(self)@, caller, donor, amount).unwrap().0);
        Ok(())
    }

    /// The token's name.
    pub fn token_name(&self) -> (r: Option<String>)
        ensures
            opt_text(r) == self@.name,
    {
        match &self.metadata.name {
            Some(s) => Some(s.clone()),
            None => None,
        }
    }

    /// The token's symbol.
    pub fn token_symbol(&self) -> (r: Option<String>)
        ensures
            opt_text(r) == self@.symbol,
    {
        match &self.metadata.symbol {
            Some(s) => Some(s.clone()),
            None => None,
        }
    }

    /// The token's decimal places.
    pub fn token_decimals(&self) -> (r: u8)
        ensures
            r == self@.decimals,
    {
        self.metadata.decimals
    }

    /// The owner of the token.
    pub fn owner(&self) -> (r: AccountId)
        ensures
            r == self@.owner,
    {
        self.owner
    }

    /// Gives up ownership: the owner becomes the zero address.
    pub fn renounce_ownership(&mut self, caller: AccountId) -> (r: Result<(), OwnableError>)
        ensures
            caller != old(self)@.owner ==> r == Err::<(), _>(OwnableError::CallerIsNotOwner)
                && *final(self) == *old(self),
            caller == old(self)@.owner ==> (r is Ok) && final(self)@ == with_owner(
                old(self)@,
                AccountId(crate::account::filled(crate::account::ZERO_ADDRESS_BYTE)),
            ),
    {
        if !caller.same(&self.owner) {
            return Err(OwnableError::CallerIsNotOwner);
        }
        self.owner = AccountId::zero();
        Ok(())
    }

    /// Hands ownership to `new_owner`.
    pub fn transfer_ownership(&mut self, caller: AccountId, new_owner: AccountId) -> (r: Result<
        (),
        OwnableError,
    >)
        ensures
            caller != old(self)@.owner ==> r == Err::<(), _>(OwnableError::CallerIsNotOwner)
                && *final(self) == *old(self),
            caller == old(self)@.owner && new_owner.spec_is_zero() ==> r == Err::<(), _>(
                OwnableError::NewOwnerIsZero,
            ) && *final(self) == *old(self),
            caller == old(self)@.owner && !new_owner.spec_is_zero() ==> (r is Ok) && final(self)@
                == with_owner(old(self)@, new_owner),
    {
        if !caller.same(&self.owner) {
            return Err(OwnableError::CallerIsNotOwner);
        }
        if new_owner.is_zero() {
            return Err(OwnableError::NewOwnerIsZero);
        }
        self.owner = new_owner;
        Ok(())
    }
}

} // verus!
