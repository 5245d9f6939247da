//! The PSP22 fungible-token ledger: balances, allowances and total supply.
use vstd::prelude::*;
use crate::account::AccountId;
use crate::keymap::KeyMap;
use vstd::utf8::encode_utf8;

verus! {

/// Errors of PSP22 operations.
#[derive(Debug, PartialEq, Eq)]
pub enum PSP22Error {
    /// Custom error type for cases where a contract adds its own restrictions;
    /// it carries the bytes of its text.
    Custom(Vec<u8>),
    /// Not enough balance to fulfill the request.
    InsufficientBalance,
    /// Not enough allowance to fulfill the request.
    InsufficientAllowance,
    /// The recipient's address is the zero address.
    ZeroRecipientAddress,
    /// The sender's address is the zero address.
    ZeroSenderAddress,
    /// A safe transfer check failed; it carries the bytes of its text.
    SafeTransferCheckFailed(Vec<u8>),
}

/// The abstract value of a [`PSP22Error`], with its payloads as byte sequences.
pub enum Psp22ErrorView {
    Custom(Seq<u8>),
    InsufficientBalance,
    InsufficientAllowance,
    ZeroRecipientAddress,
    ZeroSenderAddress,
    SafeTransferCheckFailed(Seq<u8>),
}

impl View for PSP22Error {
    type V = Psp22ErrorView;

    open spec fn view(&self) -> Psp22ErrorView {
        match self {
            PSP22Error::Custom(s) => Psp22ErrorView::Custom(s@),
            PSP22Error::InsufficientBalance => Psp22ErrorView::InsufficientBalance,
            PSP22Error::InsufficientAllowance => Psp22ErrorView::InsufficientAllowance,
            PSP22Error::ZeroRecipientAddress => Psp22ErrorView::ZeroRecipientAddress,
            PSP22Error::ZeroSenderAddress => Psp22ErrorView::ZeroSenderAddress,
            PSP22Error::SafeTransferCheckFailed(s) => Psp22ErrorView::SafeTransferCheckFailed(s@),
        }
    }
}

/// The abstract value of a result whose error is a [`PSP22Error`].
pub open spec fn psp22_result<T>(r: Result<T, PSP22Error>) -> Result<T, Psp22ErrorView> {
    match r {
        Ok(t) => Ok(t),
        Err(e) => Err(e@),
    }
}

/// Errors of the ownership checks.
#[derive(Debug, PartialEq, Eq, Clone, Copy)]
pub enum OwnableError {
    /// The caller is not the owner.
    CallerIsNotOwner,
    /// The proposed new owner is the zero address.
    NewOwnerIsZero,
}

/// The text that an ownership error carries inside a PSP22 custom error.
pub open spec fn ownable_error_text(e: OwnableError) -> Seq<char> {
    match e {
        OwnableError::CallerIsNotOwner => "O::CallerIsNotOwner"@,
        OwnableError::NewOwnerIsZero => "O::NewOwnerIsZero"@,
    }
}

impl OwnableError {
    /// The PSP22 error that an ownership error becomes.
    pub fn into_psp22(self) -> (r: PSP22Error)
        ensures
            r@ == Psp22ErrorView::Custom(encode_utf8(ownable_error_text(self))),
    {
        match self {
            OwnableError::CallerIsNotOwner => PSP22Error::Custom("O::CallerIsNotOwner".as_bytes_vec()),
            OwnableError::NewOwnerIsZero => PSP22Error::Custom("O::NewOwnerIsZero".as_bytes_vec()),
        }
    }
}

/// The error that a failed ownership check of the caller gives.
pub open spec fn not_owner_error() -> Psp22ErrorView {
    Psp22ErrorView::Custom(encode_utf8(ownable_error_text(OwnableError::CallerIsNotOwner)))
}

/// The balances after moving `amount` from `from` to `to`.
pub open spec fn moved(m: Map<AccountId, u128>, from: AccountId, to: AccountId, amount: u128) -> Map<
    AccountId,
    u128,
> {
    let from_after = (balance_in(m, from) - amount) as u128;
    let m1 = m.insert(from, from_after);
    m1.insert(to, (balance_in(m1, to) + amount) as u128)
}

/// The balance recorded for `a` in `m`, 0 where none is.
pub open spec fn balance_in(m: Map<AccountId, u128>, a: AccountId) -> u128 {
    if m.contains_key(a) {
        m[a]
    } else {
        0
    }
}

/// The value under `a`, or 0 where there is none.
fn value_or_zero(m: &KeyMap<AccountId, u128>, a: &AccountId) -> (r: u128)
    requires
        m.wf(),
    ensures
        r == m.value_or_zero(*a),
{
    match m.get(a) {
        Some(b) => *b,
        None => 0,
    }
}

/// The ledger of a PSP22 token.
pub struct Psp22Data {
    supply: u128,
    balances: KeyMap<AccountId, u128>,
    allowances: KeyMap<(AccountId, AccountId), u128>,
}

impl Psp22Data {
    /// The total supply.
    pub closed spec fn supply(&self) -> u128 {
        self.supply
    }

    /// The recorded balances.
    pub closed spec fn balances(&self) -> Map<AccountId, u128> {
        self.balances@
    }

    /// The recorded allowances, keyed by (owner, spender).
    pub closed spec fn allowances(&self) -> Map<(AccountId, AccountId), u128> {
        self.allowances@
    }

    /// The sum of all recorded balances.
    pub closed spec fn balances_total(&self) -> int {
        self.balances.total()
    }

    /// The balance of `a`.
    pub open spec fn balance(&self, a: AccountId) -> u128 {
        balance_in(self.balances(), a)
    }

    /// The allowance that `owner` gave `spender`.
    pub open spec fn allowance_of(&self, owner: AccountId, spender: AccountId) -> u128 {
        if self.allowances().contains_key((owner, spender)) {
            self.allowances()[(owner, spender)]
        } else {
            0
        }
    }

    /// The ledger is consistent: the balances add up to the total supply.
    pub closed spec fn wf(&self) -> bool {
        &&& self.balances.wf()
        &&& self.allowances.wf()
        &&& self.balances.total() == self.supply
    }

    /// The ledger balances always add up to the total supply.
    pub proof fn lemma_balances_total(&self)
        requires
            self.wf(),
        ensures
            self.balances_total() == self.supply(),
    {
    }

    /// No balance exceeds the total supply.
    pub proof fn lemma_balance_le_supply(&self, a: AccountId)
        requires
            self.wf(),
        ensures
            self.balance(a) <= self.supply(),
    {
        self.balances.lemma_value_le_total(a);
    }

    /// The balances of two different accounts add up to at most the total supply.
    pub proof fn lemma_two_balances_le_supply(&self, a: AccountId, b: AccountId)
        requires
            self.wf(),
            a != b,
        ensures
            self.balance(a) + self.balance(b) <= self.supply(),
    {
        self.balances.lemma_two_values_le_total(a, b);
    }

    /// An empty ledger.
    pub fn new() -> (r: Psp22Data)
        ensures
            r.wf(),
            r.supply() == 0,
            r.balances() == Map::<AccountId, u128>::empty(),
            r.allowances() == Map::<(AccountId, AccountId), u128>::empty(),
    {
        let r = Psp22Data { supply: 0, balances: KeyMap::new(), allowances: KeyMap::new() };
        proof {
            reveal_with_fuel(crate::keymap::values_sum, 1);
        }
        r
    }

    /// The total supply.
    pub fn total_supply(&self) -> (r: u128)
        ensures
            r == self.supply(),
    {
        self.supply
    }

    /// The balance of `owner`.
    pub fn balance_of(&self, owner: AccountId) -> (r: u128)
        requires
            self.wf(),
        ensures
            r == self.balance(owner),
    {
        match self.balances.get(&owner) {
            Some(b) => *b,
            None => 0,
        }
    }

    /// The allowance that `owner` gave `spender`.
    pub fn allowance(&self, owner: AccountId, spender: AccountId) -> (r: u128)
        requires
            self.wf(),
        ensures
            r == self.allowance_of(owner, spender),
    {
        match self.allowances.get(&(owner, spender)) {
            Some(b) => *b,
            None => 0,
        }
    }

    /// Moves `amount` from `from` to `to`.
    pub fn transfer_from_to(&mut self, from: AccountId, to: AccountId, amount: u128) -> (r: Result<
        (),
        PSP22Error,
    >)
        requires
            old(self).wf(),
        ensures
            final(self).wf(),
            r == (if from.spec_is_zero() {
                Err(PSP22Error::ZeroSenderAddress)
            } else if to.spec_is_zero() {
                Err(PSP22Error::ZeroRecipientAddress)
            } else if old(self).balance(from) < amount {
                Err(PSP22Error::InsufficientBalance)
            } else {
                Ok(())
            }),
            r is Err ==> *final(self) == *old(self),
            r is Ok ==> final(self).balances() == moved(old(self).balances(), from, to, amount)
                && final(self).supply() == old(self).supply() && final(self).allowances()
                == old(self).allowances(),
    {
        if from.is_zero() {
            return Err(PSP22Error::ZeroSenderAddress);
        }
        if to.is_zero() {
            return Err(PSP22Error::ZeroRecipientAddress);
        }
        let from_balance = self.balance_of(from);
        if from_balance < amount {
            return Err(PSP22Error::InsufficientBalance);
        }
        self.balances.put(from, from_balance - amount);
        let to_balance = value_or_zero(&self.balances, &to);
        proof {
            self.balances.lemma_value_le_total(to);
        }
        self.balances.put(to, to_balance + amount);
        Ok(())
    }

    /// Sets the allowance that `owner` gives `spender`.
    pub fn approve_from_to(&mut self, owner: AccountId, spender: AccountId, amount: u128) -> (r:
        Result<(), PSP22Error>)
        requires
            old(self).wf(),
        ensures
            final(self).wf(),
            r == (if owner.spec_is_zero() {
                Err(PSP22Error::ZeroSenderAddress)
            } else if spender.spec_is_zero() {
                Err(PSP22Error::ZeroRecipientAddress)
            } else {
                Ok(())
            }),
            r is Err ==> *final(self) == *old(self),
            r is Ok ==> final(self).allowances() == old(self).allowances().insert((owner, spender), amount)
                && final(self).balances() == old(self).balances() && final(self).supply()
                == old(self).supply(),
    {
        if owner.is_zero() {
            return Err(PSP22Error::ZeroSenderAddress);
        }
        if spender.is_zero() {
            return Err(PSP22Error::ZeroRecipientAddress);
        }
        self.allowances.insert((owner, spender), amount);
        Ok(())
    }

    /// Sets an allowance directly, without the zero-address checks.
    pub fn set_allowance(&mut self, owner: AccountId, spender: AccountId, amount: u128)
        requires
            old(self).wf(),
        ensures
            final(self).wf(),
            final(self).allowances() == old(self).allowances().insert((owner, spender), amount),
            final(self).balances() == old(self).balances(),
            final(self).supply() == old(self).supply(),
    {
        self.allowances.insert((owner, spender), amount);
    }

    /// Creates `amount` new tokens in `account`.
    pub fn mint_to(&mut self, account: AccountId, amount: u128) -> (r: Result<(), PSP22Error>)
        requires
            old(self).wf(),
            !account.spec_is_zero() ==> old(self).supply() + amount <= u128::MAX,
        ensures
            final(self).wf(),
            r == (if account.spec_is_zero() {
                Err(PSP22Error::ZeroRecipientAddress)
            } else {
                Ok(())
            }),
            r is Err ==> *final(self) == *old(self),
            r is Ok ==> final(self).balances() == old(self).balances().insert(
                account,
                (old(self).balance(account) + amount) as u128,
            ) && final(self).supply() == old(self).supply() + amount && final(self).allowances()
                == old(self).allowances(),
    {
        if account.is_zero() {
            return Err(PSP22Error::ZeroRecipientAddress);
        }
        let balance = self.balance_of(account);
        proof {
            self.balances.lemma_value_le_total(account);
        }
        self.balances.put(account, balance + amount);
        self.supply = self.supply + amount;
        Ok(())
    }

    /// Destroys `amount` tokens of `account`.
    pub fn burn_from(&mut self, account: AccountId, amount: u128) -> (r: Result<(), PSP22Error>)
        requires
            old(self).wf(),
        ensures
            final(self).wf(),
            r == (if account.spec_is_zero() {
                Err(PSP22Error::ZeroRecipientAddress)
            } else if old(self).balance(account) < amount {
                Err(PSP22Error::InsufficientBalance)
            } else {
                Ok(())
            }),
            r is Err ==> *final(self) == *old(self),
            r is Ok ==> final(self).balances() == old(self).balances().insert(
                account,
                (old(self).balance(account) - amount) as u128,
            ) && final(self).supply() == old(self).supply() - amount && final(self).allowances()
                == old(self).allowances(),
    {
        if account.is_zero() {
            return Err(PSP22Error::ZeroRecipientAddress);
        }
        let balance = self.balance_of(account);
        if balance < amount {
            return Err(PSP22Error::InsufficientBalance);
        }
        proof {
            self.balances.lemma_value_le_total(account);
        }
        self.balances.put(account, balance - amount);
        self.supply = self.supply - amount;
        Ok(())
    }
}

} // verus!
