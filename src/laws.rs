use vstd::prelude::*;

use crate::model::{
    add_club_step, add_member_step, members_of, remove_club_step, remove_member_step,
    RegistryState,
};
use crate::types::{DispatchError, Error, Origin};

verus! {

/// Creating a club whose name is free succeeds, and the new club has no members.
pub proof fn lemma_create_fresh_club(s: RegistryState, club: Seq<u8>)
    requires
        !s.clubs.contains_key(club),
    ensures
        add_club_step(s, Origin::Root, club).1 == Ok::<(), DispatchError>(()),
        members_of(add_club_step(s, Origin::Root, club).0.clubs, club) == Set::<u64>::empty(),
{
}

/// Creating the same club twice in a row: the second call fails with
/// `ClubAlreadyExists` and changes nothing.
pub proof fn lemma_create_club_twice(s: RegistryState, club: Seq<u8>)
    ensures
        ({
            let s1 = add_club_step(s, Origin::Root, club).0;
            add_club_step(s1, Origin::Root, club) == (
                s1,
                Err::<(), DispatchError>(DispatchError::Module(Error::ClubAlreadyExists)),
            )
        }),
{
}

/// Deleting a club that does not exist fails with `InvalidClub` and changes nothing.
pub proof fn lemma_delete_missing_club(s: RegistryState, club: Seq<u8>)
    requires
        !s.clubs.contains_key(club),
    ensures
        remove_club_step(s, Origin::Root, club) == (
            s,
            Err::<(), DispatchError>(DispatchError::Module(Error::InvalidClub)),
        ),
{
}

/// Creating a club and then deleting it leaves no club of that name; where
/// the name was free before, the clubs are as they were.
pub proof fn lemma_create_then_delete(s: RegistryState, club: Seq<u8>)
    ensures
        ({
            let s2 = remove_club_step(add_club_step(s, Origin::Root, club).0, Origin::Root, club).0;
            &&& !s2.clubs.contains_key(club)
            &&& !s.clubs.contains_key(club) ==> s2.clubs == s.clubs
        }),
{
    if !s.clubs.contains_key(club) {
        assert(s.clubs.insert(club, Set::empty()).remove(club) =~= s.clubs);
    }
}

/// Adding a member to a club that does not exist fails with `InvalidClub`
/// and changes nothing.
pub proof fn lemma_add_member_to_missing_club(s: RegistryState, club: Seq<u8>, member: u64)
    requires
        !s.clubs.contains_key(club),
    ensures
        add_member_step(s, Origin::Root, club, member) == (
            s,
            Err::<(), DispatchError>(DispatchError::Module(Error::InvalidClub)),
        ),
{
}

/// In a new club, adding a member makes it the only member; adding it again
/// succeeds and leaves the members as they were.
pub proof fn lemma_add_member_idempotent(s: RegistryState, club: Seq<u8>, member: u64)
    requires
        !s.clubs.contains_key(club),
    ensures
        ({
            let s1 = add_club_step(s, Origin::Root, club).0;
            let (s2, r2) = add_member_step(s1, Origin::Root, club, member);
            let (s3, r3) = add_member_step(s2, Origin::Root, club, member);
            &&& r2 == Ok::<(), DispatchError>(())
            &&& members_of(s2.clubs, club) == set![member]
            &&& r3 == Ok::<(), DispatchError>(())
            &&& members_of(s3.clubs, club) == set![member]
        }),
{
    assert(Set::<u64>::empty().insert(member) =~= set![member]);
    assert(set![member].insert(member) =~= set![member]);
}

/// In a new club, adding a member and removing it leaves the club empty;
/// removing it again succeeds, reports nothing, and leaves the club empty.
pub proof fn lemma_remove_member_twice(s: RegistryState, club: Seq<u8>, member: u64)
    requires
        !s.clubs.contains_key(club),
    ensures
        ({
            let s1 = add_club_step(s, Origin::Root, club).0;
            let s2 = add_member_step(s1, Origin::Root, club, member).0;
            let (s3, r3) = remove_member_step(s2, Origin::Root, club, member);
            let (s4, r4) = remove_member_step(s3, Origin::Root, club, member);
            &&& r3 == Ok::<(), DispatchError>(())
            &&& members_of(s3.clubs, club) == Set::<u64>::empty()
            &&& r4 == Ok::<(), DispatchError>(())
            &&& s4.events == s3.events
            &&& members_of(s4.clubs, club) == Set::<u64>::empty()
        }),
{
    assert(Set::<u64>::empty().insert(member).remove(member) =~= Set::<u64>::empty());
    assert(Set::<u64>::empty().remove(member) =~= Set::<u64>::empty());
}

} // verus!
