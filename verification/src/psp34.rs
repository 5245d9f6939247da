//! The PSP34 non-fungible-token ledger: token owners, owned-token counts and
//! total supply, and token attributes.
use vstd::prelude::*;
use crate::account::AccountId;
use crate::keymap::{KeyMap, MapKey};

verus! {

/// The identifier of a token; `U8(1)` and `U16(1)` are different identifiers.
#[derive(Debug, PartialEq, Eq, Clone)]
pub enum Id {
    U8(u8),
    U16(u16),
    U32(u32),
    U64(u64),
    U128(u128),
    Bytes(Vec<u8>),
}

/// The abstract value of an [`Id`].
pub enum IdView {
    U8(u8),
    U16(u16),
    U32(u32),
    U64(u64),
    U128(u128),
    Bytes(Seq<u8>),
}

impl View for Id {
    type V = IdView;

    open spec fn view(&self) -> IdView {
        match self {
            Id::U8(n) => IdView::U8(*n),
            Id::U16(n) => IdView::U16(*n),
            Id::U32(n) => IdView::U32(*n),
            Id::U64(n) => IdView::U64(*n),
            Id::U128(n) => IdView::U128(*n),
            Id::Bytes(b) => IdView::Bytes(b@),
        }
    }
}

/// Compares two byte vectors.
fn bytes_eq(a: &Vec<u8>, b: &Vec<u8>) -> (r: bool)
    ensures
        r == (a@ == b@),
{
    if a.len() != b.len() {
        return false;
    }
    let mut i: usize = 0;
    while i < a.len()
        invariant
            a@.len() == b@.len(),
            0 <= i <= a@.len(),
            forall|j: int| 0 <= j < i ==> a@[j] == b@[j],
        decreases a@.len() - i,
    {
        if a[i] != b[i] {
            return false;
        }
        i = i + 1;
    }
    assert(a@ =~= b@);
    true
}

impl MapKey for Id {
    fn same(&self, other: &Self) -> (r: bool) {
        match (self, other) {
            (Id::U8(a), Id::U8(b)) => *a == *b,
            (Id::U16(a), Id::U16(b)) => *a == *b,
            (Id::U32(a), Id::U32(b)) => *a == *b,
            (Id::U64(a), Id::U64(b)) => *a == *b,
            (Id::U128(a), Id::U128(b)) => *a == *b,
            (Id::Bytes(a), Id::Bytes(b)) => bytes_eq(a, b),
            _ => false,
        }
    }
}

/// Errors of PSP34 operations.
#[derive(Debug, PartialEq, Eq)]
pub enum PSP34Error {
    /// Custom error type for cases where a contract adds its own restrictions.
    Custom(String),
    /// The owner approves itself.
    SelfApprove,
    /// The caller has no allowance for the transfer.
    NotApproved,
    /// The token already exists.
    TokenExists,
    /// The token does not exist.
    TokenNotExists,
    /// A safe transfer check failed.
    SafeTransferCheckFailed(String),
}

/// The abstract value of a [`PSP34Error`].
pub enum Psp34ErrorView {
    Custom(Seq<char>),
    SelfApprove,
    NotApproved,
    TokenExists,
    TokenNotExists,
    SafeTransferCheckFailed(Seq<char>),
}

impl View for PSP34Error {
    type V = Psp34ErrorView;

    open spec fn view(&self) -> Psp34ErrorView {
        match self {
            PSP34Error::Custom(s) => Psp34ErrorView::Custom(s@),
            PSP34Error::SelfApprove => Psp34ErrorView::SelfApprove,
            PSP34Error::NotApproved => Psp34ErrorView::NotApproved,
            PSP34Error::TokenExists => Psp34ErrorView::TokenExists,
            PSP34Error::TokenNotExists => Psp34ErrorView::TokenNotExists,
            PSP34Error::SafeTransferCheckFailed(s) => Psp34ErrorView::SafeTransferCheckFailed(s@),
        }
    }
}

/// The abstract value of a result whose error is a [`PSP34Error`].
pub open spec fn psp34_result<T>(r: Result<T, PSP34Error>) -> Result<T, Psp34ErrorView> {
    match r {
        Ok(t) => Ok(t),
        Err(e) => Err(e@),
    }
}

/// The abstract value of an optional token identifier.
pub open spec fn opt_id(id: Option<Id>) -> Option<IdView> {
    match id {
        Some(i) => Some(i@),
        None => None,
    }
}

/// An operator approval: `owner` lets `operator` transfer token `id`, or all
/// of its tokens where `id` is `None`.
pub struct ApprovalKey {
    pub owner: AccountId,
    pub operator: AccountId,
    pub id: Option<Id>,
}

impl View for ApprovalKey {
    type V = (AccountId, AccountId, Option<IdView>);

    open spec fn view(&self) -> (AccountId, AccountId, Option<IdView>) {
        (self.owner, self.operator, opt_id(self.id))
    }
}

impl MapKey for ApprovalKey {
    fn same(&self, other: &Self) -> (r: bool) {
        let ids = match (&self.id, &other.id) {
            (Some(a), Some(b)) => a.same(b),
            (None, None) => true,
            _ => false,
        };
        self.owner.same(&other.owner) && self.operator.same(&other.operator) && ids
    }
}

/// Whether `approvals` let `operator` transfer `owner`'s token `id` (any of
/// its tokens where `id` is `None`).
pub open spec fn allowed(
    approvals: Set<(AccountId, AccountId, Option<IdView>)>,
    owner: AccountId,
    operator: AccountId,
    id: Option<IdView>,
) -> bool {
    approvals.contains((owner, operator, None)) || (id is Some && approvals.contains(
        (owner, operator, id),
    ))
}

/// The ledger of a PSP34 token.
pub struct Psp34Data {
    token_owner: KeyMap<Id, AccountId>,
    owned_tokens_count: KeyMap<AccountId, u32>,
    total_supply: u128,
    operator_approvals: KeyMap<ApprovalKey, ()>,
}

/// The number of tokens that `m` records for `a`, 0 where it records none.
pub open spec fn count_in(m: Map<AccountId, u32>, a: AccountId) -> u32 {
    if m.contains_key(a) {
        m[a]
    } else {
        0
    }
}

impl Psp34Data {
    /// The owner of each existing token.
    pub closed spec fn owners(&self) -> Map<IdView, AccountId> {
        self.token_owner@
    }

    /// The number of tokens each account owns.
    pub closed spec fn counts(&self) -> Map<AccountId, u32> {
        self.owned_tokens_count@
    }

    /// The number of tokens in existence.
    pub closed spec fn supply(&self) -> u128 {
        self.total_supply
    }

    /// The operator approvals in force.
    pub closed spec fn approvals(&self) -> Set<(AccountId, AccountId, Option<IdView>)> {
        self.operator_approvals@.dom()
    }

    /// The maps have distinct keys.
    pub closed spec fn wf(&self) -> bool {
        self.token_owner.wf() && self.owned_tokens_count.wf() && self.operator_approvals.wf()
    }

    /// A ledger with no tokens.
    pub fn new() -> (r: Psp34Data)
        ensures
            r.wf(),
            r.owners() == Map::<IdView, AccountId>::empty(),
            r.counts() == Map::<AccountId, u32>::empty(),
            r.supply() == 0,
            r.approvals() == Set::<(AccountId, AccountId, Option<IdView>)>::empty(),
    {
        let r = Psp34Data {
            token_owner: KeyMap::new(),
            owned_tokens_count: KeyMap::new(),
            total_supply: 0,
            operator_approvals: KeyMap::new(),
        };
        assert(r.approvals() =~= Set::<(AccountId, AccountId, Option<IdView>)>::empty());
        r
    }

    /// The owner of token `id`, if it exists.
    pub fn owner_of(&self, id: &Id) -> (r: Option<AccountId>)
        requires
            self.wf(),
        ensures
            r == (if self.owners().contains_key(id@) {
                Some(self.owners()[id@])
            } else {
                None
            }),
    {
        match self.token_owner.get(id) {
            Some(a) => Some(*a),
            None => None,
        }
    }

    /// The number of tokens `owner` owns.
    pub fn balance_of(&self, owner: AccountId) -> (r: u32)
        requires
            self.wf(),
        ensures
            r == count_in(self.counts(), owner),
    {
        match self.owned_tokens_count.get(&owner) {
            Some(n) => *n,
            None => 0,
        }
    }

    /// The number of tokens in existence.
    pub fn total_supply(&self) -> (r: u128)
        ensures
            r == self.supply(),
    {
        self.total_supply
    }

    /// Creates token `id` owned by `to`.
    pub fn mint_to(&mut self, to: AccountId, id: Id) -> (r: Result<(), PSP34Error>)
        requires
            old(self).wf(),
            !old(self).owners().contains_key(id@) ==> count_in(old(self).counts(), to) < u32::MAX
                && old(self).supply() < u128::MAX,
        ensures
            final(self).wf(),
            old(self).owners().contains_key(id@) ==> r == Err::<(), PSP34Error>(
                PSP34Error::TokenExists,
            ) && *final(self) == *old(self),
            !old(self).owners().contains_key(id@) ==> (r is Ok),
            !old(self).owners().contains_key(id@) ==> final(self).owners() == old(self).owners().insert(
                id@,
                to,
            ),
            !old(self).owners().contains_key(id@) ==> final(self).counts() == old(self).counts().insert(
                to,
                (count_in(old(self).counts(), to) + 1) as u32,
            ),
            !old(self).owners().contains_key(id@) ==> final(self).supply() == old(self).supply() + 1,
            final(self).approvals() == old(self).approvals(),
    {
        if self.token_owner.get(&id).is_some() {
            return Err(PSP34Error::TokenExists);
        }
        let count = self.balance_of(to);
        self.owned_tokens_count.insert(to, count + 1);
        self.total_supply = self.total_supply + 1;
        self.token_owner.insert(id, to);
        Ok(())
    }

    /// Whether `operator` may transfer `owner`'s token `id` (any of its
    /// tokens where `id` is `None`).
    pub fn allowance(&self, owner: AccountId, operator: AccountId, id: Option<Id>) -> (r: bool)
        requires
            self.wf(),
        ensures
            r == allowed(self.approvals(), owner, operator, opt_id(id)),
    {
        let all = ApprovalKey { owner, operator, id: None };
        if self.operator_approvals.get(&all).is_some() {
            return true;
        }
        match id {
            None => false,
            Some(i) => {
                let one = ApprovalKey { owner, operator, id: Some(i) };
                self.operator_approvals.get(&one).is_some()
            },
        }
    }

    /// Grants or revokes, on behalf of `caller`, the approval of `to` for
    /// token `id` (all tokens where `id` is `None`). For a single token the
    /// approval is recorded for the token's owner, and the caller must be the
    /// owner or an operator for all of the owner's tokens.
    pub fn approve_for(&mut self, caller: AccountId, to: AccountId, id: Option<Id>, approved: bool) -> (r:
        Result<(), PSP34Error>)
        requires
            old(self).wf(),
        ensures
            final(self).wf(),
            psp34_result(r) == without_owner(
                approval_owner(old(self).owners(), old(self).approvals(), caller, to, opt_id(id), approved),
            ),
            r is Err ==> *final(self) == *old(self),
            r is Ok ==> final(self).owners() == old(self).owners() && final(self).counts()
                == old(self).counts() && final(self).supply() == old(self).supply(),
            r is Ok ==> final(self).approvals() == (if approved {
                old(self).approvals().insert((approval_owner(old(self).owners(), old(self).approvals(), caller, to, opt_id(id), approved)->Ok_0, to, opt_id(id)))
            } else {
                old(self).approvals().remove((approval_owner(old(self).owners(), old(self).approvals(), caller, to, opt_id(id), approved)->Ok_0, to, opt_id(id)))
            }),
    {
        let mut owner = caller;
        match &id {
            Some(i) => {
                let token_owner = match self.owner_of(i) {
                    Some(o) => o,
                    None => {
                        return Err(PSP34Error::TokenNotExists);
                    },
                };
                if approved && token_owner.same(&to) {
                    return Err(PSP34Error::SelfApprove);
                }
                if !token_owner.same(&caller) && !self.allowance(token_owner, caller, None) {
                    return Err(PSP34Error::NotApproved);
                }
                owner = token_owner;
            },
            None => {},
        }
        let ghost key = (owner, to, opt_id(id));
        if approved {
            self.operator_approvals.insert(ApprovalKey { owner, operator: to, id }, ());
            assert(self.approvals() =~= old(self).approvals().insert(key));
        } else {
            self.operator_approvals.remove(&ApprovalKey { owner, operator: to, id });
            assert(self.approvals() =~= old(self).approvals().remove(key));
        }
        Ok(())
    }

    /// Moves token `id` to `to` on behalf of `caller`, who must own it or be
    /// approved for it.
    pub fn transfer_token(&mut self, caller: AccountId, to: AccountId, id: Id) -> (r: Result<(), PSP34Error>)
        requires
            old(self).wf(),
            token_transfer_defined(old(self).owners(), old(self).counts(), old(self).approvals(), caller, to, id@),
        ensures
            final(self).wf(),
            !old(self).owners().contains_key(id@) ==> r == Err::<(), PSP34Error>(PSP34Error::TokenNotExists)
                && *final(self) == *old(self),
            old(self).owners().contains_key(id@) && !token_transfer_allowed(old(self).owners(), old(self).approvals(), caller, id@)
                ==> r == Err::<(), PSP34Error>(PSP34Error::NotApproved) && *final(self) == *old(self),
            old(self).owners().contains_key(id@) && token_transfer_allowed(old(self).owners(), old(self).approvals(), caller, id@)
                ==> (r is Ok) && ({
                    let owner = old(self).owners()[id@];
                    let counts1 = old(self).counts().insert(owner, (count_in(old(self).counts(), owner) - 1) as u32);
                    &&& final(self).owners() == old(self).owners().remove(id@).insert(id@, to)
                    &&& final(self).counts() == counts1.insert(to, (count_in(counts1, to) + 1) as u32)
                    &&& final(self).supply() == old(self).supply()
                    &&& final(self).approvals() == old(self).approvals().remove((owner, caller, Some(id@)))
                }),
    {
        let owner = match self.owner_of(&id) {
            Some(o) => o,
            None => {
                return Err(PSP34Error::TokenNotExists);
            },
        };
        if !owner.same(&caller) && !self.allowance(owner, caller, Some(id.clone_id())) {
            return Err(PSP34Error::NotApproved);
        }
        let key = ApprovalKey { owner, operator: caller, id: Some(id.clone_id()) };
        self.operator_approvals.remove(&key);
        assert(self.approvals() =~= old(self).approvals().remove((owner, caller, Some(id@))));
        let from_count = self.balance_of(owner);
        self.owned_tokens_count.insert(owner, from_count - 1);
        self.token_owner.remove(&id);
        let to_count = self.balance_of(to);
        self.owned_tokens_count.insert(to, to_count + 1);
        self.token_owner.insert(id, to);
        Ok(())
    }
}

/// Whether `caller` may move token `id`: it owns it, or is approved for it.
pub open spec fn token_transfer_allowed(
    owners: Map<IdView, AccountId>,
    approvals: Set<(AccountId, AccountId, Option<IdView>)>,
    caller: AccountId,
    id: IdView,
) -> bool {
    owners[id] == caller || allowed(approvals, owners[id], caller, Some(id))
}

/// Whether moving token `id` keeps the token counts in range: the owner holds
/// at least one token and the recipient fewer than the most a count can hold.
pub open spec fn token_transfer_defined(
    owners: Map<IdView, AccountId>,
    counts: Map<AccountId, u32>,
    approvals: Set<(AccountId, AccountId, Option<IdView>)>,
    caller: AccountId,
    to: AccountId,
    id: IdView,
) -> bool {
    owners.contains_key(id) && token_transfer_allowed(owners, approvals, caller, id) ==> {
        let owner = owners[id];
        let counts1 = counts.insert(owner, (count_in(counts, owner) - 1) as u32);
        count_in(counts, owner) >= 1 && count_in(counts1, to) < u32::MAX
    }
}

/// The outcome of an approval, without the account it is recorded for.
pub open spec fn without_owner(r: Result<AccountId, Psp34ErrorView>) -> Result<(), Psp34ErrorView> {
    match r {
        Ok(_) => Ok(()),
        Err(e) => Err(e),
    }
}

/// For an approval by `caller` of `to` for `id`: the account the approval is
/// recorded for, or why it is refused.
pub open spec fn approval_owner(
    owners: Map<IdView, AccountId>,
    approvals: Set<(AccountId, AccountId, Option<IdView>)>,
    caller: AccountId,
    to: AccountId,
    id: Option<IdView>,
    approved: bool,
) -> Result<AccountId, Psp34ErrorView> {
    match id {
        None => Ok(caller),
        Some(i) => {
            if !owners.contains_key(i) {
                Err(Psp34ErrorView::TokenNotExists)
            } else if approved && owners[i] == to {
                Err(Psp34ErrorView::SelfApprove)
            } else if owners[i] != caller && !allowed(approvals, owners[i], caller, None) {
                Err(Psp34ErrorView::NotApproved)
            } else {
                Ok(owners[i])
            }
        },
    }
}

impl Id {
    /// A copy of this identifier.
    pub fn clone_id(&self) -> (r: Id)
        ensures
            r@ == self@,
    {
        match self {
            Id::U8(n) => Id::U8(*n),
            Id::U16(n) => Id::U16(*n),
            Id::U32(n) => Id::U32(*n),
            Id::U64(n) => Id::U64(*n),
            Id::U128(n) => Id::U128(*n),
            Id::Bytes(b) => Id::Bytes(copy_bytes(b)),
        }
    }
}

/// A copy of a byte vector.
fn copy_bytes(b: &Vec<u8>) -> (r: Vec<u8>)
    ensures
        r@ == b@,
{
    let mut r: Vec<u8> = Vec::new();
    let mut i: usize = 0;
    while i < b.len()
        invariant
            0 <= i <= b@.len(),
            r@ =~= b@.take(i as int),
        decreases b@.len() - i,
    {
        r.push(b[i]);
        i = i + 1;
    }
    assert(b@.take(b@.len() as int) =~= b@);
    r
}

/// Who may approve for a single token: the token's owner, or an operator the
/// owner approved for all its tokens; either way the approval is recorded for
/// the owner. Anyone else is refused.
pub proof fn lemma_token_approval_rights(
    owners: Map<IdView, AccountId>,
    approvals: Set<(AccountId, AccountId, Option<IdView>)>,
    caller: AccountId,
    to: AccountId,
    i: IdView,
    approved: bool,
)
    requires
        owners.contains_key(i),
        !(approved && owners[i] == to),
    ensures
        (caller == owners[i] || approvals.contains((owners[i], caller, None))) ==> approval_owner(
            owners,
            approvals,
            caller,
            to,
            Some(i),
            approved,
        ) == Ok::<AccountId, Psp34ErrorView>(owners[i]),
        (caller != owners[i] && !approvals.contains((owners[i], caller, None))) ==> approval_owner(
            owners,
            approvals,
            caller,
            to,
            Some(i),
            approved,
        ) == Err::<AccountId, Psp34ErrorView>(Psp34ErrorView::NotApproved),
{
}

} // verus!
