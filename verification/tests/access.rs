use interlock::access::{ILOCKaccess1, ACCESS_CLASS, BOUNCER_LICENSE, VIP_MEMBERSHIP};
use interlock::account::AccountId;
use interlock::psp34::{Id, PSP34Error};

fn alice() -> AccountId {
    AccountId([0x01; 32])
}
fn bob() -> AccountId {
    AccountId([0x02; 32])
}
fn contract_address() -> AccountId {
    AccountId([0x09; 32])
}

fn not_owner() -> PSP34Error {
    PSP34Error::Custom("O::CallerIsNotOwner".to_string())
}

#[test]
fn new_sets_owner_ids_and_collection_attributes() {
    let c = ILOCKaccess1::new(alice(), contract_address());
    assert_eq!(c.owner(), alice());
    assert_eq!(c.next_bouncerlicense_id, 0);
    assert_eq!(c.next_vipmembership_id, 10_000);
    let collection = ILOCKaccess1::collection_id(contract_address());
    assert_eq!(collection, Id::Bytes(vec![0x09; 32]));
    assert_eq!(
        c.get_attribute(collection.clone(), "name".to_string()),
        Some("Interlock Access NFTs".to_string())
    );
    assert_eq!(c.get_attribute(collection, "symbol".to_string()), Some("ILOCKACCESS".to_string()));
    assert_eq!(c.total_supply(), 0);
}

#[test]
fn mint_bouncer_and_vip() {
    let mut c = ILOCKaccess1::new(alice(), contract_address());
    assert_eq!(c.mint_bouncerlicense(bob(), bob()), Err(not_owner()));
    assert_eq!(c.mint_bouncerlicense(alice(), bob()), Ok(()));
    assert_eq!(c.mint_bouncerlicense(alice(), bob()), Ok(()));
    assert_eq!(c.mint_vipmembership(alice(), alice()), Ok(()));
    assert_eq!(c.next_bouncerlicense_id, 2);
    assert_eq!(c.next_vipmembership_id, 10_001);
    assert_eq!(c.owner_of(Id::U32(0)), Some(bob()));
    assert_eq!(c.owner_of(Id::U32(1)), Some(bob()));
    assert_eq!(c.owner_of(Id::U32(10_000)), Some(alice()));
    assert_eq!(c.owner_of(Id::U32(2)), None);
    assert_eq!(c.balance_of(bob()), 2);
    assert_eq!(c.balance_of(alice()), 1);
    assert_eq!(c.total_supply(), 3);
    assert_eq!(
        c.get_attribute(Id::U32(1), ACCESS_CLASS.to_string()),
        Some(BOUNCER_LICENSE.to_string())
    );
    assert_eq!(
        c.get_attribute(Id::U32(10_000), ACCESS_CLASS.to_string()),
        Some(VIP_MEMBERSHIP.to_string())
    );
}

#[test]
fn mint_existing_token_fails() {
    let mut c = ILOCKaccess1::new(alice(), contract_address());
    assert_eq!(c.mint(alice(), bob(), Id::U8(1)), Ok(()));
    assert_eq!(c.mint(alice(), bob(), Id::U8(1)), Err(PSP34Error::TokenExists));
    assert_eq!(c.mint(alice(), bob(), Id::U16(1)), Ok(()));
    assert_eq!(c.mint(bob(), bob(), Id::U16(2)), Err(not_owner()));
    // a bouncer license whose identifier is already taken
    assert_eq!(c.mint(alice(), alice(), Id::U32(0)), Ok(()));
    assert_eq!(c.mint_bouncerlicense(alice(), bob()), Err(PSP34Error::TokenExists));
    assert_eq!(c.next_bouncerlicense_id, 0);
    assert_eq!(c.balance_of(bob()), 2);
}

#[test]
fn authentication_flags() {
    let mut c = ILOCKaccess1::new(alice(), contract_address());
    assert_eq!(c.set_authenticated(bob(), bob(), 3), Err(not_owner()));
    assert_eq!(c.set_authenticated(alice(), bob(), 3), Ok(()));
    assert_eq!(c.authentication_status(bob(), 3), Ok(true));
    assert_eq!(c.set_not_authenticated(alice(), bob(), 3), Ok(()));
    assert_eq!(c.authentication_status(bob(), 3), Ok(false));
    assert_eq!(c.upgrade_contract(alice(), [0; 32]), Ok(()));
    assert_eq!(c.upgrade_contract(bob(), [0; 32]), Err(not_owner()));
}

fn charlie() -> AccountId {
    AccountId([0x03; 32])
}

#[test]
fn transfer_and_approvals() {
    let mut c = ILOCKaccess1::new(alice(), contract_address());
    c.mint_bouncerlicense(alice(), bob()).unwrap();
    assert!(c.transfer_defined(bob(), alice(), &Id::U32(0)));
    assert_eq!(c.transfer(charlie(), alice(), Id::U32(0), vec![]), Err(PSP34Error::NotApproved));
    assert_eq!(c.transfer(bob(), alice(), Id::U32(7), vec![]), Err(PSP34Error::TokenNotExists));
    assert_eq!(c.transfer(bob(), alice(), Id::U32(0), vec![]), Ok(()));
    assert_eq!(c.owner_of(Id::U32(0)), Some(alice()));
    assert_eq!(c.balance_of(bob()), 0);
    assert_eq!(c.balance_of(alice()), 1);
    assert_eq!(c.approve(alice(), alice(), Some(Id::U32(0)), true), Err(PSP34Error::SelfApprove));
    assert_eq!(c.approve(alice(), charlie(), Some(Id::U32(5)), true), Err(PSP34Error::TokenNotExists));
    assert_eq!(c.approve(bob(), charlie(), Some(Id::U32(0)), true), Err(PSP34Error::NotApproved));
    assert_eq!(c.approve(alice(), charlie(), Some(Id::U32(0)), true), Ok(()));
    assert!(c.allowance(alice(), charlie(), Some(Id::U32(0))));
    assert!(!c.allowance(alice(), charlie(), None));
    assert_eq!(c.transfer(charlie(), bob(), Id::U32(0), vec![]), Ok(()));
    assert_eq!(c.owner_of(Id::U32(0)), Some(bob()));
    // the single-token approval was used up
    assert!(!c.allowance(alice(), charlie(), Some(Id::U32(0))));
    // an approval for all tokens
    assert_eq!(c.approve(bob(), charlie(), None, true), Ok(()));
    assert!(c.allowance(bob(), charlie(), Some(Id::U32(0))));
    assert_eq!(c.transfer(charlie(), charlie(), Id::U32(0), vec![]), Ok(()));
    assert_eq!(c.owner_of(Id::U32(0)), Some(charlie()));
    assert_eq!(c.approve(bob(), charlie(), None, false), Ok(()));
    assert!(!c.allowance(bob(), charlie(), None));
    assert_eq!(c.total_supply(), 1);
}

#[test]
fn mint_guards() {
    let c = ILOCKaccess1::new(alice(), contract_address());
    assert!(c.mint_defined(alice(), bob(), &Id::U8(1)));
    assert!(c.mint_class_defined(alice(), bob(), true));
    assert!(c.mint_class_defined(bob(), bob(), false));
}
