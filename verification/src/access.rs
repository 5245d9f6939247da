//! The Interlock access NFT contract: Bouncer licenses and VIP memberships
//! minted by the owner, with an "authenticated" flag per holder and token.
use vstd::prelude::*;
use crate::account::AccountId;
use crate::keymap::KeyMap;
use crate::psp22::{ownable_error_text, OwnableError};
use crate::psp34::{
    allowed, approval_owner, count_in, opt_id, psp34_result, token_transfer_allowed,
    token_transfer_defined, Id, IdView, PSP34Error, Psp34Data, Psp34ErrorView,
};

verus! {

/// The attribute key that holds an access token's class.
pub const ACCESS_CLASS: &'static str = "ACCESS_CLASS";

/// The class of a Bouncer license.
pub const BOUNCER_LICENSE: &'static str = "BOUNCER_LICENSE";

/// The class of a VIP membership.
pub const VIP_MEMBERSHIP: &'static str = "VIP_MEMBERSHIP";

/// The contract's storage.
pub struct ILOCKaccess1 {
    pub psp34: Psp34Data,
    pub attributes: KeyMap<(Id, String), String>,
    pub owner: AccountId,
    pub next_bouncerlicense_id: u32,
    pub next_vipmembership_id: u32,
    pub authenticated: KeyMap<(AccountId, u32), bool>,
}

/// The abstract state of the contract.
#[verifier::ext_equal]
pub struct AccessView {
    pub owners: Map<IdView, AccountId>,
    pub counts: Map<AccountId, u32>,
    pub supply: u128,
    pub approvals: Set<(AccountId, AccountId, Option<IdView>)>,
    pub attributes: Map<(IdView, Seq<char>), Seq<char>>,
    pub owner: AccountId,
    pub next_bouncerlicense_id: u32,
    pub next_vipmembership_id: u32,
    pub authenticated: Map<(AccountId, u32), bool>,
}

impl View for ILOCKaccess1 {
    type V = AccessView;

    open spec fn view(&self) -> AccessView {
        AccessView {
            owners: self.psp34.owners(),
            counts: self.psp34.counts(),
            supply: self.psp34.supply(),
            approvals: self.psp34.approvals(),
            attributes: self.attributes@.map_values(|s: String| s@),
            owner: self.owner,
            next_bouncerlicense_id: self.next_bouncerlicense_id,
            next_vipmembership_id: self.next_vipmembership_id,
            authenticated: self.authenticated@,
        }
    }
}

/// The identifier of the collection of a contract at address `account`.
pub open spec fn collection_id_of(account: AccountId) -> IdView {
    IdView::Bytes(account.0@)
}

/// The state right after construction by `caller` of the contract at `account`.
pub open spec fn initial_access(caller: AccountId, account: AccountId) -> AccessView {
    AccessView {
        owners: Map::empty(),
        counts: Map::empty(),
        supply: 0,
        approvals: Set::empty(),
        attributes: Map::empty().insert((collection_id_of(account), "name"@), "Interlock Access NFTs"@).insert(
            (collection_id_of(account), "symbol"@),
            "ILOCKACCESS"@,
        ),
        owner: caller,
        next_bouncerlicense_id: 0,
        next_vipmembership_id: 10_000,
        authenticated: Map::empty(),
    }
}

/// The error of a failed ownership check.
pub open spec fn access_not_owner() -> Psp34ErrorView {
    Psp34ErrorView::Custom(ownable_error_text(OwnableError::CallerIsNotOwner))
}

/// Minting token `id` to `recipient`, by `caller`. `None` where the counts overflow.
pub open spec fn mint_step(v: AccessView, caller: AccountId, recipient: AccountId, id: IdView) -> Option<
    (AccessView, Result<(), Psp34ErrorView>),
> {
    if caller != v.owner {
        Some((v, Err(access_not_owner())))
    } else if v.owners.contains_key(id) {
        Some((v, Err(Psp34ErrorView::TokenExists)))
    } else if count_in(v.counts, recipient) == u32::MAX || v.supply == u128::MAX {
        None
    } else {
        Some(
            (
                AccessView {
                    owners: v.owners.insert(id, recipient),
                    counts: v.counts.insert(recipient, (count_in(v.counts, recipient) + 1) as u32),
                    supply: (v.supply + 1) as u128,
                    ..v
                },
                Ok(()),
            ),
        )
    }
}

/// Minting the next Bouncer license (`bouncer`) or VIP membership, by
/// `caller`: token `U32(next)` gets the class as its access class, and that
/// class's next identifier moves on by one. `None` where the counts or the
/// identifier overflow.
pub open spec fn mint_class_step(v: AccessView, caller: AccountId, recipient: AccountId, bouncer: bool) -> Option<
    (AccessView, Result<(), Psp34ErrorView>),
> {
    let next = if bouncer {
        v.next_bouncerlicense_id
    } else {
        v.next_vipmembership_id
    };
    let class = if bouncer {
        BOUNCER_LICENSE@
    } else {
        VIP_MEMBERSHIP@
    };
    match mint_step(v, caller, recipient, IdView::U32(next)) {
        None => None,
        Some((_, Err(e))) => Some((v, Err(e))),
        Some((v1, Ok(()))) => {
            if next == u32::MAX {
                None
            } else {
                Some(
                    (
                        AccessView {
                            attributes: v1.attributes.insert(
                                (IdView::U32(next), ACCESS_CLASS@),
                                class,
                            ),
                            next_bouncerlicense_id: if bouncer {
                                (next + 1) as u32
                            } else {
                                v1.next_bouncerlicense_id
                            },
                            next_vipmembership_id: if bouncer {
                                v1.next_vipmembership_id
                            } else {
                                (next + 1) as u32
                            },
                            ..v1
                        },
                        Ok(()),
                    ),
                )
            }
        },
    }
}

/// Setting the authenticated flag of (`holder`, `id`), by `caller`.
pub open spec fn authenticate_step(v: AccessView, caller: AccountId, holder: AccountId, id: u32, flag: bool) -> (
    AccessView,
    Result<(), Psp34ErrorView>,
) {
    if caller != v.owner {
        (v, Err(access_not_owner()))
    } else {
        (AccessView { authenticated: v.authenticated.insert((holder, id), flag), ..v }, Ok(()))
    }
}

/// An approval by `caller` of `to` for token `id` (all tokens where `id` is `None`).
pub open spec fn approve_step(v: AccessView, caller: AccountId, to: AccountId, id: Option<IdView>, approved: bool) -> (
    AccessView,
    Result<(), Psp34ErrorView>,
) {
    match approval_owner(v.owners, v.approvals, caller, to, id, approved) {
        Err(e) => (v, Err(e)),
        Ok(owner) => (
            AccessView {
                approvals: if approved {
                    v.approvals.insert((owner, to, id))
                } else {
                    v.approvals.remove((owner, to, id))
                },
                ..v
            },
            Ok(()),
        ),
    }
}

/// Moving token `id` to `to` on behalf of `caller`; a single-token approval
/// of the caller is used up. `None` where the token counts leave their range.
pub open spec fn transfer_step(v: AccessView, caller: AccountId, to: AccountId, id: IdView) -> Option<
    (AccessView, Result<(), Psp34ErrorView>),
> {
    if !v.owners.contains_key(id) {
        Some((v, Err(Psp34ErrorView::TokenNotExists)))
    } else if !token_transfer_allowed(v.owners, v.approvals, caller, id) {
        Some((v, Err(Psp34ErrorView::NotApproved)))
    } else if !token_transfer_defined(v.owners, v.counts, v.approvals, caller, to, id) {
        None
    } else {
        let owner = v.owners[id];
        let counts1 = v.counts.insert(owner, (count_in(v.counts, owner) - 1) as u32);
        Some(
            (
                AccessView {
                    owners: v.owners.remove(id).insert(id, to),
                    counts: counts1.insert(to, (count_in(counts1, to) + 1) as u32),
                    approvals: v.approvals.remove((owner, caller, Some(id))),
                    ..v
                },
                Ok(()),
            ),
        )
    }
}

/// The bytes of an account identifier.
fn account_bytes(a: &AccountId) -> (r: Vec<u8>)
    ensures
        r@ == a.0@,
{
    let mut r: Vec<u8> = Vec::new();
    let mut i: usize = 0;
    while i < 32
        invariant
            0 <= i <= 32,
            r@ =~= a.0@.take(i as int),
        decreases 32 - i,
    {
        r.push(a.0[i]);
        i = i + 1;
    }
    assert(a.0@.take(32) =~= a.0@);
    r
}

impl ILOCKaccess1 {
    /// The maps have distinct keys.
    pub open spec fn wf(&self) -> bool {
        &&& self.psp34.wf()
        &&& self.attributes.wf()
        &&& self.authenticated.wf()
    }

    /// Creates the contract at address `account`, owned by `caller`, with the
    /// collection's name and symbol set.
    pub fn new(caller: AccountId, account: AccountId) -> (r: ILOCKaccess1)
        ensures
            r.wf(),
            r@ == initial_access(caller, account),
    {
        let mut contract = ILOCKaccess1 {
            psp34: Psp34Data::new(),
            attributes: KeyMap::new(),
            owner: AccountId::zero(),
            next_bouncerlicense_id: 0,
            next_vipmembership_id: 0,
            authenticated: KeyMap::new(),
        };
        contract.owner = caller;
        contract.next_bouncerlicense_id = 0;
        contract.next_vipmembership_id = 10_000;
        contract.attributes.insert(
            (Self::collection_id(account), String::from_str("name")),
            String::from_str("Interlock Access NFTs"),
        );
        contract.attributes.insert(
            (Self::collection_id(account), String::from_str("symbol")),
            String::from_str("ILOCKACCESS"),
        );
        assert(contract@ =~= initial_access(caller, account));
        contract
    }

    /// The identifier of the collection of the contract at address `account`.
    pub fn collection_id(account: AccountId) -> (r: Id)
        ensures
            r@ == collection_id_of(account),
    {
        Id::Bytes(account_bytes(&account))
    }

    fn only_owner(&self, caller: AccountId) -> (r: Result<(), PSP34Error>)
        ensures
            (r is Ok) <==> caller == self.owner,
            r matches Err(e) ==> e@ == access_not_owner(),
    {
        if !caller.same(&self.owner) {
            return Err(PSP34Error::Custom(String::from_str("O::CallerIsNotOwner")));
        }
        Ok(())
    }

    /// Mints token `id` to `recipient`; only the owner may.
    pub fn mint(&mut self, caller: AccountId, recipient: AccountId, id: Id) -> (r: Result<(), PSP34Error>)
        requires
            old(self).wf(),
            mint_step(old(self)@, caller, recipient, id@) is Some,
        ensures
            final(self).wf(),
            mint_step(old(self)@, caller, recipient, id@) == Some((final(self)@, psp34_result(r))),
    {
        self.only_owner(caller)?;
        let r = self.psp34.mint_to(recipient, id);
        assert(self@ =~= mint_step(old(self)@, caller, recipient, id@).unwrap().0);
        r
    }

    fn mint_class(&mut self, caller: AccountId, recipient: AccountId, bouncer: bool) -> (r: Result<
        (),
        PSP34Error,
    >)
        requires
            old(self).wf(),
            mint_class_step(old(self)@, caller, recipient, bouncer) is Some,
        ensures
            final(self).wf(),
            mint_class_step(old(self)@, caller, recipient, bouncer) == Some(
                (final(self)@, psp34_result(r)),
            ),
    {
        self.only_owner(caller)?;
        let next = if bouncer {
            self.next_bouncerlicense_id
        } else {
            self.next_vipmembership_id
        };
        self.psp34.mint_to(recipient, Id::U32(next))?;
        let class = if bouncer {
            String::from_str(BOUNCER_LICENSE)
        } else {
            String::from_str(VIP_MEMBERSHIP)
        };
        self.attributes.insert((Id::U32(next), String::from_str(ACCESS_CLASS)), class);
        if bouncer {
            self.next_bouncerlicense_id = next + 1;
        } else {
            self.next_vipmembership_id = next + 1;
        }
        assert(self@ =~= mint_class_step(old(self)@, caller, recipient, bouncer).unwrap().0);
        Ok(())
    }

    /// Mints the next Bouncer license NFT to `recipient`; only the owner may.
    pub fn mint_bouncerlicense(&mut self, caller: AccountId, recipient: AccountId) -> (r: Result<
        (),
        PSP34Error,
    >)
        requires
            old(self).wf(),
            mint_class_step(old(self)@, caller, recipient, true) is Some,
        ensures
            final(self).wf(),
            mint_class_step(old(self)@, caller, recipient, true) == Some(
                (final(self)@, psp34_result(r)),
            ),
    {
        self.mint_class(caller, recipient, true)
    }

    /// Mints the next VIP membership NFT to `recipient`; only the owner may.
    pub fn mint_vipmembership(&mut self, caller: AccountId, recipient: AccountId) -> (r: Result<
        (),
        PSP34Error,
    >)
        requires
            old(self).wf(),
            mint_class_step(old(self)@, caller, recipient, false) is Some,
        ensures
            final(self).wf(),
            mint_class_step(old(self)@, caller, recipient, false) == Some(
                (final(self)@, psp34_result(r)),
            ),
    {
        self.mint_class(caller, recipient, false)
    }

    /// Marks `holder`'s token `id` as authenticated; only the owner may.
    pub fn set_authenticated(&mut self, caller: AccountId, holder: AccountId, id: u32) -> (r: Result<
        (),
        PSP34Error,
    >)
        requires
            old(self).wf(),
        ensures
            final(self).wf(),
            authenticate_step(old(self)@, caller, holder, id, true) == (final(self)@, psp34_result(r)),
    {
        self.only_owner(caller)?;
        self.authenticated.insert((holder, id), true);
        assert(self@ =~= authenticate_step(old(self)@, caller, holder, id, true).0);
        Ok(())
    }

    /// Marks `holder`'s token `id` as not authenticated; only the owner may.
    pub fn set_not_authenticated(&mut self, caller: AccountId, holder: AccountId, id: u32) -> (r: Result<
        (),
        PSP34Error,
    >)
        requires
            old(self).wf(),
        ensures
            final(self).wf(),
            authenticate_step(old(self)@, caller, holder, id, false) == (final(self)@, psp34_result(r)),
    {
        self.only_owner(caller)?;
        self.authenticated.insert((holder, id), false);
        assert(self@ =~= authenticate_step(old(self)@, caller, holder, id, false).0);
        Ok(())
    }

    /// The authenticated flag of `holder`'s token `id`, which must have been set.
    pub fn authentication_status(&self, holder: AccountId, id: u32) -> (r: Result<bool, PSP34Error>)
        requires
            self.wf(),
            self@.authenticated.contains_key((holder, id)),
        ensures
            r == Ok::<bool, PSP34Error>(self@.authenticated[(holder, id)]),
    {
        Ok(*self.authenticated.get(&(holder, id)).unwrap())
    }

    /// Checks that `caller` may replace the contract's code with `code_hash`;
    /// the replacement itself is done by the environment when this succeeds.
    pub fn upgrade_contract(&self, caller: AccountId, code_hash: [u8; 32]) -> (r: Result<(), PSP34Error>)
        ensures
            (r is Ok) <==> caller == self@.owner,
            r matches Err(e) ==> e@ == access_not_owner(),
    {
        self.only_owner(caller)
    }

    /// The owner of the contract.
    pub fn owner(&self) -> (r: AccountId)
        ensures
            r == self@.owner,
    {
        self.owner
    }

    /// The owner of token `id`, if it exists.
    pub fn owner_of(&self, id: Id) -> (r: Option<AccountId>)
        requires
            self.wf(),
        ensures
            r == (if self@.owners.contains_key(id@) {
                Some(self@.owners[id@])
            } else {
                None
            }),
    {
        self.psp34.owner_of(&id)
    }

    /// The number of tokens `owner` owns.
    pub fn balance_of(&self, owner: AccountId) -> (r: u32)
        requires
            self.wf(),
        ensures
            r == count_in(self@.counts, owner),
    {
        self.psp34.balance_of(owner)
    }

    /// The number of tokens in existence.
    pub fn total_supply(&self) -> (r: u128)
        ensures
            r == self@.supply,
    {
        self.psp34.total_supply()
    }

    /// The attribute `key` of token `id`, if it is set.
    pub fn get_attribute(&self, id: Id, key: String) -> (r: Option<String>)
        requires
            self.wf(),
        ensures
            r is Some <==> self@.attributes.contains_key((id@, key@)),
            r matches Some(s) ==> s@ == self@.attributes[(id@, key@)],
    {
        match self.attributes.get(&(id, key)) {
            Some(s) => Some(s.clone()),
            None => None,
        }
    }
}

impl ILOCKaccess1 {
    /// Whether `mint` is defined on these arguments.
    pub fn mint_defined(&self, caller: AccountId, recipient: AccountId, id: &Id) -> (r: bool)
        requires
            self.wf(),
        ensures
            r == (mint_step(self@, caller, recipient, id@) is Some),
    {
        if !caller.same(&self.owner) || self.psp34.owner_of(id).is_some() {
            return true;
        }
        self.psp34.balance_of(recipient) < u32::MAX && self.psp34.total_supply() < u128::MAX
    }

    /// Whether `mint_bouncerlicense` (`bouncer`) or `mint_vipmembership` is
    /// defined on these arguments.
    pub fn mint_class_defined(&self, caller: AccountId, recipient: AccountId, bouncer: bool) -> (r: bool)
        requires
            self.wf(),
        ensures
            r == (mint_class_step(self@, caller, recipient, bouncer) is Some),
    {
        let next = if bouncer {
            self.next_bouncerlicense_id
        } else {
            self.next_vipmembership_id
        };
        let id = Id::U32(next);
        if !self.mint_defined(caller, recipient, &id) {
            return false;
        }
        if !caller.same(&self.owner) || self.psp34.owner_of(&id).is_some() {
            return true;
        }
        next < u32::MAX
    }
}

impl ILOCKaccess1 {
    /// Grants or revokes `to`'s approval for token `id` (for all tokens
    /// where `id` is `None`) on behalf of `caller`.
    pub fn approve(&mut self, caller: AccountId, to: AccountId, id: Option<Id>, approved: bool) -> (r: Result<
        (),
        PSP34Error,
    >)
        requires
            old(self).wf(),
        ensures
            final(self).wf(),
            approve_step(old(self)@, caller, to, opt_id(id), approved) == (final(self)@, psp34_result(r)),
    {
        let r = self.psp34.approve_for(caller, to, id, approved);
        assert(self@ =~= approve_step(old(self)@, caller, to, opt_id(id), approved).0);
        r
    }

    /// Moves token `id` to `to` on behalf of `caller`.
    pub fn transfer(&mut self, caller: AccountId, to: AccountId, id: Id, data: Vec<u8>) -> (r: Result<
        (),
        PSP34Error,
    >)
        requires
            old(self).wf(),
            transfer_step(old(self)@, caller, to, id@) is Some,
        ensures
            final(self).wf(),
            transfer_step(old(self)@, caller, to, id@) == Some((final(self)@, psp34_result(r))),
    {
        let ghost idv = id@;
        let r = self.psp34.transfer_token(caller, to, id);
        assert(self@ =~= transfer_step(old(self)@, caller, to, idv).unwrap().0);
        r
    }

    /// Whether `operator` may transfer `owner`'s token `id` (any of its
    /// tokens where `id` is `None`).
    pub fn allowance(&self, owner: AccountId, operator: AccountId, id: Option<Id>) -> (r: bool)
        requires
            self.wf(),
        ensures
            r == allowed(self@.approvals, owner, operator, opt_id(id)),
    {
        self.psp34.allowance(owner, operator, id)
    }

    /// Whether `transfer` is defined on these arguments.
    pub fn transfer_defined(&self, caller: AccountId, to: AccountId, id: &Id) -> (r: bool)
        requires
            self.wf(),
        ensures
            r == (transfer_step(self@, caller, to, id@) is Some),
    {
        let owner = match self.psp34.owner_of(id) {
            Some(o) => o,
            None => {
                return true;
            },
        };
        if !owner.same(&caller) && !self.psp34.allowance(owner, caller, Some(id.clone_id())) {
            return true;
        }
        let from_count = self.psp34.balance_of(owner);
        if from_count == 0 {
            return false;
        }
        let to_count = if to.same(&owner) {
            from_count - 1
        } else {
            self.psp34.balance_of(to)
        };
        to_count < u32::MAX
    }
}

/// The authenticated flag reads back as it was last set.
pub proof fn lemma_authentication_read_back(v: AccessView, caller: AccountId, holder: AccountId, id: u32, flag: bool)
    requires
        caller == v.owner,
    ensures
        authenticate_step(v, caller, holder, id, flag).0.authenticated[(holder, id)] == flag,
        authenticate_step(v, caller, holder, id, flag).1 is Ok,
{
}

/// Minting adds exactly one token, owned by the recipient; transfers move a
/// token without changing how many exist; an identifier is never minted twice.
pub proof fn lemma_token_supply(v: AccessView, caller: AccountId, to: AccountId, id: IdView)
    ensures
        mint_step(v, caller, to, id) matches Some((w, Ok(()))) ==> w.supply == v.supply + 1
            && w.owners[id] == to && !v.owners.contains_key(id),
        v.owners.contains_key(id) ==> (mint_step(v, caller, to, id) matches Some((w, Err(_))) && w
            == v),
        transfer_step(v, caller, to, id) matches Some((w, Ok(()))) ==> w.supply == v.supply
            && w.owners[id] == to && w.owners.dom() == v.owners.dom(),
{
    if let Some((w, Ok(()))) = transfer_step(v, caller, to, id) {
        assert(w.owners.dom() =~= v.owners.dom());
    }
}

/// A transfer by `caller` uses up only `caller`'s approval for that one token:
/// every other approval, the owner's approval of `caller` for all its tokens
/// among them, stays as it was, and the token goes to `to`.
pub proof fn lemma_transfer_keeps_other_approvals(
    v: AccessView,
    caller: AccountId,
    to: AccountId,
    id: IdView,
    a: (AccountId, AccountId, Option<IdView>),
)
    requires
        transfer_step(v, caller, to, id) matches Some((_, Ok(()))),
    ensures
        ({
            let w = transfer_step(v, caller, to, id).unwrap().0;
            let owner = v.owners[id];
            &&& w.owners[id] == to
            &&& !w.approvals.contains((owner, caller, Some(id)))
            &&& a != (owner, caller, Some(id)) ==> (w.approvals.contains(a) <==> v.approvals.contains(a))
            &&& v.approvals.contains((owner, caller, None)) ==> w.approvals.contains((owner, caller, None))
        }),
{
}

/// An operator approved for all of an owner's tokens may approve another
/// account for one of them, as the owner may: the approval is granted and
/// recorded for the token's owner.
pub proof fn lemma_operator_may_approve_one_token(
    v: AccessView,
    caller: AccountId,
    to: AccountId,
    id: IdView,
)
    requires
        v.owners.contains_key(id),
        v.owners[id] != to,
        caller == v.owners[id] || v.approvals.contains((v.owners[id], caller, None)),
    ensures
        approval_owner(v.owners, v.approvals, caller, to, Some(id), true) == Ok::<
            AccountId,
            Psp34ErrorView,
        >(v.owners[id]),
        approve_step(v, caller, to, Some(id), true) == (
            AccessView { approvals: v.approvals.insert((v.owners[id], to, Some(id))), ..v },
            Ok::<(), Psp34ErrorView>(()),
        ),
{
}

} // verus!
