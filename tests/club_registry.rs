use std::collections::BTreeSet;

use club_member::{DispatchError, Error, Event, Origin, Pallet};

fn rust_club() -> Vec<u8> {
    "rust".as_bytes().to_vec()
}

#[test]
fn it_should_add_a_club() {
    let mut club_member = Pallet::new();
    assert_eq!(club_member.add_club(Origin::root(), "rust".as_bytes().to_vec()), Ok(()));
    assert_eq!(club_member.clubstore(&"rust".as_bytes().to_vec()), BTreeSet::new());
}

#[test]
fn it_should_fail_when_adding_a_club_more_than_once() {
    let mut club_member = Pallet::new();
    let club = "rust".as_bytes().to_vec();
    assert_eq!(club_member.add_club(Origin::root(), club.clone()), Ok(()));
    assert!(club_member.add_club(Origin::root(), club).is_err());
}

#[test]
fn it_should_remove_a_club() {
    let mut club_member = Pallet::new();
    let club = "rust".as_bytes().to_vec();
    let member = 256u64;
    assert_eq!(club_member.add_club(Origin::root(), club.clone()), Ok(()));
    assert_eq!(club_member.add_member(Origin::root(), club.clone(), member), Ok(()));
    assert_eq!(club_member.remove_club(Origin::root(), club.clone()), Ok(()));
    assert_eq!(club_member.clubstore(&club), BTreeSet::new());
}

#[test]
fn it_should_fail_when_removing_invalid_club() {
    let mut club_member = Pallet::new();
    let club = "rust".as_bytes().to_vec();
    assert!(club_member.remove_club(Origin::root(), club.clone()).is_err());
}

#[test]
fn it_should_fail_when_adding_a_member_to_invalid_club() {
    let mut club_member = Pallet::new();
    let club = "rust".as_bytes().to_vec();
    let member = 256u64;
    assert!(club_member.add_member(Origin::root(), club.clone(), member).is_err());
}

#[test]
fn it_should_add_a_member_to_an_existing_club() {
    let mut club_member = Pallet::new();
    let club = "rust".as_bytes().to_vec();
    let member = 256u64;
    assert_eq!(club_member.add_club(Origin::root(), club.clone()), Ok(()));
    assert_eq!(club_member.add_member(Origin::root(), club.clone(), member), Ok(()));
    let mut members = BTreeSet::new();
    members.insert(member);
    assert_eq!(club_member.clubstore(&club), members);
}

#[test]
fn it_should_remove_an_existing_member_from_a_club() {
    let mut club_member = Pallet::new();
    let club = "rust".as_bytes().to_vec();
    let member = 256u64;
    assert_eq!(club_member.add_club(Origin::root(), club.clone()), Ok(()));
    assert_eq!(club_member.add_member(Origin::root(), club.clone(), member), Ok(()));
    assert_eq!(club_member.remove_member(Origin::root(), club.clone(), member), Ok(()));
    let members = BTreeSet::new();
    assert_eq!(club_member.clubstore(&club), members);
}

#[test]
fn fresh_club_is_created_empty() {
    let mut p = Pallet::new();
    p.add_club(Origin::root(), "chess".as_bytes().to_vec()).unwrap();
    assert!(p.contains_club(&"chess".as_bytes().to_vec()));
    assert_eq!(p.clubstore(&"chess".as_bytes().to_vec()), BTreeSet::new());
    // An empty name is a name like any other.
    assert_eq!(p.add_club(Origin::root(), Vec::new()), Ok(()));
    assert!(p.contains_club(&Vec::new()));
}

#[test]
fn second_create_fails_and_keeps_state() {
    let mut p = Pallet::new();
    p.add_club(Origin::root(), rust_club()).unwrap();
    p.add_member(Origin::root(), rust_club(), 9).unwrap();
    p.take_events();
    assert_eq!(
        p.add_club(Origin::root(), rust_club()),
        Err(DispatchError::Module(Error::ClubAlreadyExists))
    );
    assert_eq!(p.clubstore(&rust_club()), BTreeSet::from([9u64]));
    assert!(p.take_events().is_empty());
}

#[test]
fn deleting_missing_club_keeps_state() {
    let mut p = Pallet::new();
    p.add_club(Origin::root(), "go".as_bytes().to_vec()).unwrap();
    p.take_events();
    assert_eq!(
        p.remove_club(Origin::root(), rust_club()),
        Err(DispatchError::Module(Error::InvalidClub))
    );
    assert!(p.contains_club(&"go".as_bytes().to_vec()));
    assert!(!p.contains_club(&rust_club()));
    assert!(p.take_events().is_empty());
}

#[test]
fn create_then_delete_leaves_no_entry() {
    let mut p = Pallet::new();
    p.add_club(Origin::root(), rust_club()).unwrap();
    p.remove_club(Origin::root(), rust_club()).unwrap();
    assert!(!p.contains_club(&rust_club()));
    // The name is free again.
    assert_eq!(p.add_club(Origin::root(), rust_club()), Ok(()));
}

#[test]
fn add_member_to_missing_club_is_invalid() {
    let mut p = Pallet::new();
    assert_eq!(
        p.add_member(Origin::root(), rust_club(), 256),
        Err(DispatchError::Module(Error::InvalidClub))
    );
    assert!(!p.contains_club(&rust_club()));
    assert!(p.take_events().is_empty());
}

#[test]
fn remove_member_from_missing_club_is_invalid() {
    let mut p = Pallet::new();
    assert_eq!(
        p.remove_member(Origin::root(), rust_club(), 256),
        Err(DispatchError::Module(Error::InvalidClub))
    );
    assert!(p.take_events().is_empty());
}

#[test]
fn adding_a_member_twice_is_idempotent() {
    let mut p = Pallet::new();
    p.add_club(Origin::root(), rust_club()).unwrap();
    assert_eq!(p.add_member(Origin::root(), rust_club(), 256), Ok(()));
    assert_eq!(p.add_member(Origin::root(), rust_club(), 256), Ok(()));
    assert_eq!(p.clubstore(&rust_club()), BTreeSet::from([256u64]));
    assert_eq!(
        p.take_events(),
        vec![
            Event::ClubAdded(rust_club()),
            Event::MemberAdded(rust_club(), 256),
            Event::MemberAdded(rust_club(), 256),
        ]
    );
}

#[test]
fn removing_an_absent_member_reports_nothing() {
    let mut p = Pallet::new();
    p.add_club(Origin::root(), rust_club()).unwrap();
    p.add_member(Origin::root(), rust_club(), 256).unwrap();
    assert_eq!(p.remove_member(Origin::root(), rust_club(), 256), Ok(()));
    assert_eq!(p.clubstore(&rust_club()), BTreeSet::new());
    assert_eq!(p.remove_member(Origin::root(), rust_club(), 256), Ok(()));
    assert_eq!(p.clubstore(&rust_club()), BTreeSet::new());
    assert_eq!(
        p.take_events(),
        vec![
            Event::ClubAdded(rust_club()),
            Event::MemberAdded(rust_club(), 256),
            Event::MemberRemoved(rust_club(), 256),
        ]
    );
}

#[test]
fn rust_club_lifecycle() {
    let mut p = Pallet::new();
    let before = p.clubstore(&rust_club());
    p.add_club(Origin::root(), rust_club()).unwrap();
    assert_eq!(p.clubstore(&rust_club()), BTreeSet::new());
    p.add_member(Origin::root(), rust_club(), 256).unwrap();
    assert_eq!(p.clubstore(&rust_club()), BTreeSet::from([256u64]));
    p.remove_member(Origin::root(), rust_club(), 256).unwrap();
    assert_eq!(p.clubstore(&rust_club()), BTreeSet::new());
    p.remove_club(Origin::root(), rust_club()).unwrap();
    assert_eq!(p.clubstore(&rust_club()), BTreeSet::new());
    assert_eq!(p.clubstore(&rust_club()), before);
}

#[test]
fn deleting_a_club_discards_its_members() {
    let mut p = Pallet::new();
    p.add_club(Origin::root(), rust_club()).unwrap();
    p.add_member(Origin::root(), rust_club(), 1).unwrap();
    p.add_member(Origin::root(), rust_club(), 2).unwrap();
    p.remove_club(Origin::root(), rust_club()).unwrap();
    p.add_club(Origin::root(), rust_club()).unwrap();
    assert_eq!(p.clubstore(&rust_club()), BTreeSet::new());
}

#[test]
fn clubs_keep_separate_members() {
    let mut p = Pallet::new();
    let go = "go".as_bytes().to_vec();
    p.add_club(Origin::root(), rust_club()).unwrap();
    p.add_club(Origin::root(), go.clone()).unwrap();
    p.add_member(Origin::root(), rust_club(), 1).unwrap();
    p.add_member(Origin::root(), go.clone(), 2).unwrap();
    p.add_member(Origin::root(), go.clone(), u64::MAX).unwrap();
    p.remove_member(Origin::root(), go.clone(), 2).unwrap();
    assert_eq!(p.clubstore(&rust_club()), BTreeSet::from([1u64]));
    assert_eq!(p.clubstore(&go), BTreeSet::from([u64::MAX]));
}
