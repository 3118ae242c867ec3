use vstd::prelude::*;

verus! {

/// Who dispatched a call: the privileged root authority, a signed account,
/// or nobody.
#[derive(Clone, Copy, Debug, PartialEq, Eq, Structural)]
pub enum Origin {
    Root,
    Signed(u64),
    Unsigned,
}

impl Origin {
    /// The privileged authority.
    pub fn root() -> (r: Origin)
        ensures
            r == Origin::Root,
    {
        Origin::Root
    }

    /// A call signed by account `who`.
    pub fn signed(who: u64) -> (r: Origin)
        ensures
            r == Origin::Signed(who),
    {
        Origin::Signed(who)
    }

    /// A call that nobody signed.
    pub fn unsigned() -> (r: Origin)
        ensures
            r == Origin::Unsigned,
    {
        Origin::Unsigned
    }
}

/// The registry's own failures.
#[derive(Clone, Copy, Debug, PartialEq, Eq, Structural)]
pub enum Error {
    /// There is no such club.
    InvalidClub,
    /// A club of that name is already registered.
    ClubAlreadyExists,
}

/// Why a dispatched call failed.
#[derive(Clone, Copy, Debug, PartialEq, Eq, Structural)]
pub enum DispatchError {
    /// The caller is not the privileged authority.
    BadOrigin,
    /// The registry refused the call.
    Module(Error),
}

/// Succeeds exactly when the call comes from the privileged authority.
pub fn ensure_root(origin: Origin) -> (r: Result<(), DispatchError>)
    ensures
        r == (if origin is Root {
            Ok(())
        } else {
            Err(DispatchError::BadOrigin)
        }),
{
    match origin {
        Origin::Root => Ok(()),
        _ => Err(DispatchError::BadOrigin),
    }
}

/// A change made to the registry, reported to the host.
#[derive(Debug, PartialEq, Eq)]
pub enum Event {
    /// A member was added to the club.
    MemberAdded(Vec<u8>, u64),
    /// A member was removed from the club.
    MemberRemoved(Vec<u8>, u64),
    /// A club was created.
    ClubAdded(Vec<u8>),
    /// A club was deleted.
    ClubRemoved(Vec<u8>),
}

/// The mathematical value of an [`Event`]: club names as byte sequences.
pub ghost enum EventModel {
    MemberAdded(Seq<u8>, u64),
    MemberRemoved(Seq<u8>, u64),
    ClubAdded(Seq<u8>),
    ClubRemoved(Seq<u8>),
}

impl View for Event {
    type V = EventModel;

    open spec fn view(&self) -> EventModel {
        match self {
            Event::MemberAdded(c, m) => EventModel::MemberAdded(c@, *m),
            Event::MemberRemoved(c, m) => EventModel::MemberRemoved(c@, *m),
            Event::ClubAdded(c) => EventModel::ClubAdded(c@),
            Event::ClubRemoved(c) => EventModel::ClubRemoved(c@),
        }
    }
}

} // verus!
