use vstd::prelude::*;

use crate::types::{DispatchError, Error, EventModel, Origin};

verus! {

/// The registry as mathematics: each club's name maps to its set of
/// members, and `events` lists every change reported so far, oldest first.
pub ghost struct RegistryState {
    pub clubs: Map<Seq<u8>, Set<u64>>,
    pub events: Seq<EventModel>,
}

/// What a read of `club` returns: its members, or nobody if it does not exist.
pub open spec fn members_of(clubs: Map<Seq<u8>, Set<u64>>, club: Seq<u8>) -> Set<u64> {
    if clubs.contains_key(club) {
        clubs[club]
    } else {
        Set::empty()
    }
}

/// The state after a privileged call that failed: nothing changes.
pub open spec fn refused(s: RegistryState, e: Error) -> (RegistryState, Result<(), DispatchError>) {
    (s, Err(DispatchError::Module(e)))
}

/// The state after a call; a caller other than root changes nothing.
pub open spec fn dispatched(
    s: RegistryState,
    origin: Origin,
    privileged: (RegistryState, Result<(), DispatchError>),
) -> (RegistryState, Result<(), DispatchError>) {
    if origin is Root {
        privileged
    } else {
        (s, Err(DispatchError::BadOrigin))
    }
}

/// Creating `club`: refused if it exists, else it starts with no members.
pub open spec fn add_club_step(s: RegistryState, origin: Origin, club: Seq<u8>) -> (
    RegistryState,
    Result<(), DispatchError>,
) {
    dispatched(
        s,
        origin,
        if s.clubs.contains_key(club) {
            refused(s, Error::ClubAlreadyExists)
        } else {
            (
                RegistryState {
                    clubs: s.clubs.insert(club, Set::empty()),
                    events: s.events.push(EventModel::ClubAdded(club)),
                },
                Ok(()),
            )
        },
    )
}

/// Deleting `club`: refused if it does not exist, else it goes with its members.
pub open spec fn remove_club_step(s: RegistryState, origin: Origin, club: Seq<u8>) -> (
    RegistryState,
    Result<(), DispatchError>,
) {
    dispatched(
        s,
        origin,
        if !s.clubs.contains_key(club) {
            refused(s, Error::InvalidClub)
        } else {
            (
                RegistryState {
                    clubs: s.clubs.remove(club),
                    events: s.events.push(EventModel::ClubRemoved(club)),
                },
                Ok(()),
            )
        },
    )
}

/// Adding `member` to `club`: refused if the club does not exist; else the
/// member is in the set afterwards, and the addition is always reported.
pub open spec fn add_member_step(
    s: RegistryState,
    origin: Origin,
    club: Seq<u8>,
    member: u64,
) -> (RegistryState, Result<(), DispatchError>) {
    dispatched(
        s,
        origin,
        if !s.clubs.contains_key(club) {
            refused(s, Error::InvalidClub)
        } else {
            (
                RegistryState {
                    clubs: s.clubs.insert(club, s.clubs[club].insert(member)),
                    events: s.events.push(EventModel::MemberAdded(club, member)),
                },
                Ok(()),
            )
        },
    )
}

/// Removing `member` from `club`: refused if the club does not exist; else
/// the member is out of the set afterwards, and the removal is reported only
/// when the member was in it.
pub open spec fn remove_member_step(
    s: RegistryState,
    origin: Origin,
    club: Seq<u8>,
    member: u64,
) -> (RegistryState, Result<(), DispatchError>) {
    dispatched(
        s,
        origin,
        if !s.clubs.contains_key(club) {
            refused(s, Error::InvalidClub)
        } else {
            (
                RegistryState {
                    clubs: s.clubs.insert(club, s.clubs[club].remove(member)),
                    events: if s.clubs[club].contains(member) {
                        s.events.push(EventModel::MemberRemoved(club, member))
                    } else {
                        s.events
                    },
                },
                Ok(()),
            )
        },
    )
}

} // verus!
