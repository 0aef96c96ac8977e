use stylus_nft::serc721::{Event, SERC721Error, SERC721, ZERO_ADDRESS};
use stylus_nft::CustomNFTDetails;

const ALICE: u128 = 0xa11ce;
const BOB: u128 = 0xb0b;
const CAROL: u128 = 0xca401;
const DAVE: u128 = 0xdade;

fn fresh() -> SERC721<CustomNFTDetails> {
    SERC721::new()
}

#[test]
fn name_and_symbol_are_fixed() {
    let r = fresh();
    assert_eq!(r.name().unwrap(), "StylusNFT");
    assert_eq!(r.symbol().unwrap(), "SNFT");
}

#[test]
fn owner_of_unminted_fails_nonexistent_token() {
    let r = fresh();
    assert_eq!(r.owner_of(42), Err(SERC721Error::NonexistentToken(42)));
}

#[test]
fn balance_of_unseen_account_is_zero() {
    let r = fresh();
    assert_eq!(r.balance_of(ALICE), Ok(0));
    assert_eq!(r.balance_of(ZERO_ADDRESS), Ok(0));
}

#[test]
fn get_approved_does_not_require_minted() {
    let r = fresh();
    assert_eq!(r.get_approved(7), Ok(ZERO_ADDRESS));
}

#[test]
fn is_approved_for_all_defaults_to_false() {
    let r = fresh();
    assert_eq!(r.is_approved_for_all(ALICE, BOB), Ok(false));
}

#[test]
fn mint_assigns_owner_and_balance() {
    let mut r = fresh();
    let ev = r._mint(ALICE, 1).unwrap();
    assert_eq!(ev, Event::Transfer { from: ZERO_ADDRESS, to: ALICE, id: 1 });
    assert_eq!(r.owner_of(1), Ok(ALICE));
    assert_eq!(r.balance_of(ALICE), Ok(1));
}

#[test]
fn second_mint_of_same_id_fails_invalid_recipient() {
    let mut r = fresh();
    r._mint(ALICE, 1).unwrap();
    assert_eq!(r._mint(BOB, 1), Err(SERC721Error::InvalidRecipient));
    assert_eq!(r._mint(ALICE, 1), Err(SERC721Error::InvalidRecipient));
    assert_eq!(r.owner_of(1), Ok(ALICE));
    assert_eq!(r.balance_of(ALICE), Ok(1));
    assert_eq!(r.balance_of(BOB), Ok(0));
}

#[test]
fn mint_to_zero_address_fails_invalid_recipient() {
    let mut r = fresh();
    assert_eq!(r._mint(ZERO_ADDRESS, 1), Err(SERC721Error::InvalidRecipient));
    assert_eq!(r.owner_of(1), Err(SERC721Error::NonexistentToken(1)));
}

#[test]
fn approved_spender_can_transfer_and_approval_clears() {
    let mut r = fresh();
    r._mint(ALICE, 1).unwrap();
    assert_eq!(r.balance_of(ALICE), Ok(1));
    assert_eq!(r.owner_of(1), Ok(ALICE));
    let ev = r.approve(ALICE, BOB, 1).unwrap();
    assert_eq!(ev, Event::Approval { owner: ALICE, spender: BOB, id: 1 });
    assert_eq!(r.get_approved(1), Ok(BOB));
    let ev = r.transfer_from(BOB, ALICE, CAROL, 1).unwrap();
    assert_eq!(ev, Event::Transfer { from: ALICE, to: CAROL, id: 1 });
    assert_eq!(r.balance_of(ALICE), Ok(0));
    assert_eq!(r.balance_of(CAROL), Ok(1));
    assert_eq!(r.owner_of(1), Ok(CAROL));
    assert_eq!(r.get_approved(1), Ok(ZERO_ADDRESS));
}

#[test]
fn transfer_clears_approval_even_when_owner_moves_it() {
    let mut r = fresh();
    r._mint(ALICE, 9).unwrap();
    r.approve(ALICE, BOB, 9).unwrap();
    assert_eq!(r.get_approved(9), Ok(BOB));
    r.transfer_from(ALICE, ALICE, CAROL, 9).unwrap();
    assert_eq!(r.get_approved(9), Ok(ZERO_ADDRESS));
}

#[test]
fn operator_transfers_without_per_token_approval() {
    let mut r = fresh();
    r._mint(ALICE, 1).unwrap();
    r._mint(ALICE, 2).unwrap();
    let ev = r.set_approval_for_all(ALICE, BOB, true).unwrap();
    assert_eq!(
        ev,
        Event::ApprovalForAll { owner: ALICE, operator: BOB, approved: true }
    );
    assert_eq!(r.is_approved_for_all(ALICE, BOB), Ok(true));
    assert_eq!(r.transfer_from(BOB, ALICE, CAROL, 1), Ok(Event::Transfer { from: ALICE, to: CAROL, id: 1 }));
    assert_eq!(r.transfer_from(BOB, ALICE, DAVE, 2), Ok(Event::Transfer { from: ALICE, to: DAVE, id: 2 }));
    assert_eq!(r.balance_of(ALICE), Ok(0));
    assert_eq!(r.balance_of(CAROL), Ok(1));
    assert_eq!(r.balance_of(DAVE), Ok(1));
}

#[test]
fn revoked_operator_may_no_longer_transfer() {
    let mut r = fresh();
    r._mint(ALICE, 1).unwrap();
    r.set_approval_for_all(ALICE, BOB, true).unwrap();
    let ev = r.set_approval_for_all(ALICE, BOB, false).unwrap();
    assert_eq!(
        ev,
        Event::ApprovalForAll { owner: ALICE, operator: BOB, approved: false }
    );
    assert_eq!(r.is_approved_for_all(ALICE, BOB), Ok(false));
    assert_eq!(
        r.transfer_from(BOB, ALICE, CAROL, 1),
        Err(SERC721Error::NotAuthorized)
    );
    assert_eq!(r.owner_of(1), Ok(ALICE));
}

#[test]
fn set_approval_for_all_is_idempotent_but_always_notifies() {
    let mut r = fresh();
    let first = r.set_approval_for_all(ALICE, BOB, true).unwrap();
    let second = r.set_approval_for_all(ALICE, BOB, true).unwrap();
    assert_eq!(first, second);
    assert_eq!(r.is_approved_for_all(ALICE, BOB), Ok(true));
    let off = r.set_approval_for_all(ALICE, CAROL, false).unwrap();
    assert_eq!(
        off,
        Event::ApprovalForAll { owner: ALICE, operator: CAROL, approved: false }
    );
    assert_eq!(r.is_approved_for_all(ALICE, CAROL), Ok(false));
    assert_eq!(r.is_approved_for_all(ALICE, BOB), Ok(true));
}

#[test]
fn approval_grants_are_scoped_to_their_owner() {
    let mut r = fresh();
    r.set_approval_for_all(ALICE, BOB, true).unwrap();
    assert_eq!(r.is_approved_for_all(CAROL, BOB), Ok(false));
    assert_eq!(r.is_approved_for_all(BOB, ALICE), Ok(false));
}

#[test]
fn approve_by_non_owner_fails_not_owner() {
    let mut r = fresh();
    r._mint(ALICE, 1).unwrap();
    assert_eq!(r.approve(BOB, CAROL, 1), Err(SERC721Error::NotOwner));
    assert_eq!(r.get_approved(1), Ok(ZERO_ADDRESS));
}

#[test]
fn approve_of_existing_operator_fails_not_owner() {
    let mut r = fresh();
    r._mint(ALICE, 1).unwrap();
    r.set_approval_for_all(ALICE, BOB, true).unwrap();
    assert_eq!(r.approve(ALICE, BOB, 1), Err(SERC721Error::NotOwner));
    assert_eq!(r.get_approved(1), Ok(ZERO_ADDRESS));
}

#[test]
fn approve_zero_address_revokes() {
    let mut r = fresh();
    r._mint(ALICE, 1).unwrap();
    r.approve(ALICE, BOB, 1).unwrap();
    assert_eq!(r.get_approved(1), Ok(BOB));
    let ev = r.approve(ALICE, ZERO_ADDRESS, 1).unwrap();
    assert_eq!(
        ev,
        Event::Approval { owner: ALICE, spender: ZERO_ADDRESS, id: 1 }
    );
    assert_eq!(r.get_approved(1), Ok(ZERO_ADDRESS));
}

#[test]
fn unrelated_caller_cannot_transfer() {
    let mut r = fresh();
    r._mint(ALICE, 1).unwrap();
    assert_eq!(
        r.transfer_from(DAVE, ALICE, CAROL, 1),
        Err(SERC721Error::NotAuthorized)
    );
    assert_eq!(r.owner_of(1), Ok(ALICE));
    assert_eq!(r.balance_of(ALICE), Ok(1));
    assert_eq!(r.balance_of(CAROL), Ok(0));
    assert_eq!(r.get_approved(1), Ok(ZERO_ADDRESS));
}

#[test]
fn transfer_checks_run_in_order() {
    let mut r = fresh();
    r._mint(ALICE, 1).unwrap();
    // Ownership is checked first, even for an unminted id.
    assert_eq!(
        r.transfer_from(ALICE, BOB, CAROL, 1),
        Err(SERC721Error::NotOwner)
    );
    assert_eq!(
        r.transfer_from(ALICE, ALICE, CAROL, 2),
        Err(SERC721Error::NotOwner)
    );
    // Then the recipient, before authorization.
    assert_eq!(
        r.transfer_from(DAVE, ALICE, ZERO_ADDRESS, 1),
        Err(SERC721Error::InvalidRecipient)
    );
    // Authorization last.
    assert_eq!(
        r.transfer_from(DAVE, ALICE, CAROL, 1),
        Err(SERC721Error::NotAuthorized)
    );
    assert_eq!(r.owner_of(1), Ok(ALICE));
}

#[test]
fn self_transfer_keeps_balance_and_clears_approval() {
    let mut r = fresh();
    r._mint(ALICE, 1).unwrap();
    r.approve(ALICE, BOB, 1).unwrap();
    let ev = r.transfer_from(ALICE, ALICE, ALICE, 1).unwrap();
    assert_eq!(ev, Event::Transfer { from: ALICE, to: ALICE, id: 1 });
    assert_eq!(r.owner_of(1), Ok(ALICE));
    assert_eq!(r.balance_of(ALICE), Ok(1));
    assert_eq!(r.get_approved(1), Ok(ZERO_ADDRESS));
}

#[test]
fn balances_count_owned_tokens_across_a_sequence() {
    let mut r = fresh();
    let ids: [u128; 5] = [10, 11, 12, 13, 14];
    for id in ids {
        r._mint(ALICE, id).unwrap();
    }
    assert_eq!(r.balance_of(ALICE), Ok(5));
    r.transfer_from(ALICE, ALICE, BOB, 10).unwrap();
    r.transfer_from(ALICE, ALICE, BOB, 11).unwrap();
    r.transfer_from(BOB, BOB, CAROL, 10).unwrap();
    // Recount ownership by querying every id.
    let mut alice: u128 = 0;
    let mut bob: u128 = 0;
    let mut carol: u128 = 0;
    for id in ids {
        match r.owner_of(id) {
            Ok(a) if a == ALICE => alice += 1,
            Ok(a) if a == BOB => bob += 1,
            Ok(a) if a == CAROL => carol += 1,
            _ => panic!("token lost its owner"),
        }
    }
    assert_eq!(r.balance_of(ALICE), Ok(alice));
    assert_eq!(r.balance_of(BOB), Ok(bob));
    assert_eq!(r.balance_of(CAROL), Ok(carol));
    assert_eq!((alice, bob, carol), (3, 1, 1));
}
