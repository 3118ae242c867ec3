use vstd::prelude::*;

use std::collections::BTreeSet;

use crate::model::{
    add_club_step, add_member_step, members_of, remove_club_step, remove_member_step,
    RegistryState,
};
use crate::types::{ensure_root, DispatchError, Error, Event, EventModel, Origin};

verus! {

broadcast use vstd::std_specs::btree::group_btree_axioms, vstd::laws_cmp::group_laws_cmp;

/// One registered club.
struct Club {
    name: Vec<u8>,
    members: BTreeSet<u64>,
}

/// The club registry: clubs by name, each with its set of members, and the
/// queue of events that the host has not drained yet.
pub struct Pallet {
    clubs: Vec<Club>,
    events: Vec<Event>,
    store: Ghost<Map<Seq<u8>, Set<u64>>>,
}

/// Whether two byte strings are equal.
fn same_bytes(a: &Vec<u8>, b: &Vec<u8>) -> (r: bool)
    ensures
        r == (a@ == b@),
{
    if a.len() != b.len() {
        return false;
    }
    let mut i: usize = 0;
    while i < a.len()
        invariant
            a@.len() == b@.len(),
            i <= a@.len(),
            forall|j: int| 0 <= j < i ==> a@[j] == b@[j],
        decreases a@.len() - i,
    {
        if a[i] != b[i] {
            return false;
        }
        i = i + 1;
    }
    assert(a@ =~= b@);
    true
}

impl View for Pallet {
    type V = RegistryState;

    closed spec fn view(&self) -> RegistryState {
        RegistryState { clubs: self.store@, events: self.events@.map_values(|e: Event| e@) }
    }
}

/// The name of the `i`-th club of the list.
spec fn name_at(clubs: Seq<Club>, i: int) -> Seq<u8> {
    clubs[i].name@
}

impl Pallet {

    /// Club names are unique, and `store` holds exactly the clubs of the list.
    pub closed spec fn wf(&self) -> bool {
        &&& forall|i: int, j: int|
            0 <= i < j < self.clubs@.len() ==> #[trigger] name_at(self.clubs@, i) != #[trigger] name_at(self.clubs@, 
                j,
            )
        &&& forall|i: int|
            0 <= i < self.clubs@.len() ==> {
                &&& self.store@.contains_key(#[trigger] name_at(self.clubs@, i))
                &&& self.store@[name_at(self.clubs@, i)] == self.clubs@[i].members@
            }
        &&& forall|k: Seq<u8>| #[trigger]
            self.store@.contains_key(k) ==> exists|i: int|
                0 <= i < self.clubs@.len() && #[trigger] name_at(self.clubs@, i) == k
    }

    /// Where the club named `club` stands in the list, if it is registered.
    fn position(&self, club: &Vec<u8>) -> (r: Option<usize>)
        requires
            self.wf(),
        ensures
            r is None <==> !self.store@.contains_key(club@),
            r matches Some(i) ==> i < self.clubs@.len() && name_at(self.clubs@, i as int) == club@,
    {
        let mut i: usize = 0;
        while i < self.clubs.len()
            invariant
                self.wf(),
                i <= self.clubs@.len(),
                forall|j: int| 0 <= j < i ==> #[trigger] name_at(self.clubs@, j) != club@,
            decreases self.clubs@.len() - i,
        {
            if same_bytes(&self.clubs[i].name, club) {
                assert(self.store@.contains_key(name_at(self.clubs@, i as int)));
                return Some(i);
            }
            i = i + 1;
        }
        None
    }

    /// An empty registry with no pending events.
    pub fn new() -> (r: Pallet)
        ensures
            r.wf(),
            r@.clubs == Map::<Seq<u8>, Set<u64>>::empty(),
            r@.events == Seq::<EventModel>::empty(),
    {
        let r = Pallet { clubs: Vec::new(), events: Vec::new(), store: Ghost(Map::empty()) };
        assert(r@.events =~= Seq::<EventModel>::empty());
        r
    }

    /// The members of `club`; nobody if the club does not exist.
    pub fn clubstore(&self, club: &Vec<u8>) -> (r: BTreeSet<u64>)
        requires
            self.wf(),
        ensures
            r@ == members_of(self@.clubs, club@),
    {
        match self.position(club) {
            Some(i) => self.clubs[i].members.clone(),
            None => BTreeSet::new(),
        }
    }

    /// Whether a club named `club` is registered.
    pub fn contains_club(&self, club: &Vec<u8>) -> (r: bool)
        requires
            self.wf(),
        ensures
            r == self@.clubs.contains_key(club@),
    {
        self.position(club).is_some()
    }

    /// Hands the pending events to the host, oldest first, and empties the queue.
    pub fn take_events(&mut self) -> (r: Vec<Event>)
        requires
            old(self).wf(),
        ensures
            final(self).wf(),
            final(self)@.clubs == old(self)@.clubs,
            final(self)@.events == Seq::<EventModel>::empty(),
            r@.map_values(|e: Event| e@) == old(self)@.events,
    {
        let mut r: Vec<Event> = Vec::new();
        core::mem::swap(&mut r, &mut self.events);
        assert(self.clubs == old(self).clubs && self.store == old(self).store);
        assert(self@.events =~= Seq::<EventModel>::empty());
        r
    }

    /// Records `e` at the end of the event queue.
    fn deposit_event(&mut self, e: Event)
        ensures
            final(self).clubs == old(self).clubs,
            final(self).store == old(self).store,
            final(self)@.events == old(self)@.events.push(e@),
    {
        self.events.push(e);
        assert(self@.events =~= old(self)@.events.push(e@));
    }

    /// Registers `club` with no members, without reporting it.
    pub(crate) fn insert_new_club(&mut self, club: &Vec<u8>)
        requires
            old(self).wf(),
            !old(self)@.clubs.contains_key(club@),
        ensures
            final(self).wf(),
            final(self)@.clubs == old(self)@.clubs.insert(club@, Set::empty()),
            final(self)@.events == old(self)@.events,
    {
        let name = club.clone();
        assert(name@ =~= club@);
        let ghost pre = self.store@;
        self.clubs.push(Club { name, members: BTreeSet::new() });
        self.store = Ghost(pre.insert(club@, Set::empty()));
        proof {
            let n = old(self).clubs@.len() as int;
            assert forall|i: int| 0 <= i < n implies #[trigger] name_at(self.clubs@, i) == name_at(
                old(self).clubs@,
                i,
            ) && self.clubs@[i] == old(self).clubs@[i] && name_at(self.clubs@, i) != club@ by {
                assert(old(self).store@.contains_key(name_at(old(self).clubs@, i)));
            }
            assert(name_at(self.clubs@, n) == club@);
            assert forall|k: Seq<u8>| #[trigger]
                self.store@.contains_key(k) implies exists|i: int|
                    0 <= i < self.clubs@.len() && #[trigger] name_at(self.clubs@, i) == k by {
                if k != club@ {
                    let i = choose|i: int|
                        0 <= i < old(self).clubs@.len() && name_at(old(self).clubs@, i) == k;
                    assert(name_at(self.clubs@, i) == k);
                }
            }
        }
        assert(self@.events == old(self)@.events);
    }

    /// Creates the club `club` with no members.
    ///
    /// Only root may call it. Fails with `ClubAlreadyExists` if the club is
    /// registered already; otherwise reports `ClubAdded`.
    pub fn add_club(&mut self, origin: Origin, club: Vec<u8>) -> (r: Result<(), DispatchError>)
        requires
            old(self).wf(),
        ensures
            final(self).wf(),
            (final(self)@, r) == add_club_step(old(self)@, origin, club@),
    {
        if let Err(e) = ensure_root(origin) {
            return Err(e);
        }
        if self.position(&club).is_some() {
            return Err(DispatchError::Module(Error::ClubAlreadyExists));
        }
        self.insert_new_club(&club);
        self.deposit_event(Event::ClubAdded(club));
        Ok(())
    }

    /// Deletes the club `club` together with its members.
    ///
    /// Only root may call it. Fails with `InvalidClub` if the club is not
    /// registered; otherwise reports `ClubRemoved`.
    pub fn remove_club(&mut self, origin: Origin, club: Vec<u8>) -> (r: Result<(), DispatchError>)
        requires
            old(self).wf(),
        ensures
            final(self).wf(),
            (final(self)@, r) == remove_club_step(old(self)@, origin, club@),
    {
        if let Err(e) = ensure_root(origin) {
            return Err(e);
        }
        let i = match self.position(&club) {
            Some(i) => i,
            None => {
                return Err(DispatchError::Module(Error::InvalidClub));
            },
        };
        let ghost pre = self.store@;
        self.clubs.remove(i);
        self.store = Ghost(pre.remove(club@));
        proof {
            let old_clubs = old(self).clubs@;
            let n = old_clubs.len() as int;
            // Clubs before `i` keep their place; those after it move down by one.
            assert forall|j: int| 0 <= j < i implies self.clubs@[j] == old_clubs[j] && #[trigger] name_at(
                self.clubs@,
                j,
            ) == name_at(old_clubs, j) && name_at(self.clubs@, j) != club@ by {
                assert(name_at(old_clubs, j) != name_at(old_clubs, i as int));
            }
            assert forall|j: int| i <= j < n - 1 implies self.clubs@[j] == old_clubs[j + 1]
                && #[trigger] name_at(self.clubs@, j) == name_at(old_clubs, j + 1) && name_at(
                self.clubs@,
                j,
            ) != club@ by {
                assert(name_at(old_clubs, i as int) != name_at(old_clubs, j + 1));
            }
            assert forall|k: Seq<u8>| #[trigger]
                self.store@.contains_key(k) implies exists|j: int|
                    0 <= j < self.clubs@.len() && #[trigger] name_at(self.clubs@, j) == k by {
                let m = choose|m: int| 0 <= m < n && name_at(old_clubs, m) == k;
                if m < i {
                    assert(name_at(self.clubs@, m) == k);
                } else {
                    assert(name_at(self.clubs@, m - 1) == k);
                }
            }
        }
        self.deposit_event(Event::ClubRemoved(club));
        Ok(())
    }

    /// Adds `member` to the club `club`; adding a present member changes nothing.
    ///
    /// Only root may call it. Fails with `InvalidClub` if the club is not
    /// registered; otherwise reports `MemberAdded`, whether or not the member
    /// was present.
    pub fn add_member(&mut self, origin: Origin, club: Vec<u8>, member: u64) -> (r: Result<
        (),
        DispatchError,
    >)
        requires
            old(self).wf(),
        ensures
            final(self).wf(),
            (final(self)@, r) == add_member_step(old(self)@, origin, club@, member),
    {
        if let Err(e) = ensure_root(origin) {
            return Err(e);
        }
        let i = match self.position(&club) {
            Some(i) => i,
            None => {
                return Err(DispatchError::Module(Error::InvalidClub));
            },
        };
        let ghost pre = self.store@;
        self.clubs[i].members.insert(member);
        self.store = Ghost(pre.insert(club@, pre[club@].insert(member)));
        proof {
            self.lemma_member_update_wf(*old(self), i as int);
        }
        self.deposit_event(Event::MemberAdded(club, member));
        Ok(())
    }

    /// Removes `member` from the club `club`, if present.
    ///
    /// Only root may call it. Fails with `InvalidClub` if the club is not
    /// registered; otherwise reports `MemberRemoved` only when the member was
    /// in the club.
    pub fn remove_member(&mut self, origin: Origin, club: Vec<u8>, member: u64) -> (r: Result<
        (),
        DispatchError,
    >)
        requires
            old(self).wf(),
        ensures
            final(self).wf(),
            (final(self)@, r) == remove_member_step(old(self)@, origin, club@, member),
    {
        if let Err(e) = ensure_root(origin) {
            return Err(e);
        }
        let i = match self.position(&club) {
            Some(i) => i,
            None => {
                return Err(DispatchError::Module(Error::InvalidClub));
            },
        };
        let ghost pre = self.store@;
        let removed = self.clubs[i].members.remove(&member);
        self.store = Ghost(pre.insert(club@, pre[club@].remove(member)));
        proof {
            self.lemma_member_update_wf(*old(self), i as int);
        }
        if removed {
            self.deposit_event(Event::MemberRemoved(club, member));
        } else {
            assert(self@.events == old(self)@.events);
        }
        Ok(())
    }

    /// After the members of the `i`-th club alone changed, and `store` was
    /// set to match, the registry is well formed again.
    proof fn lemma_member_update_wf(&self, pre: Pallet, i: int)
        requires
            pre.wf(),
            0 <= i < pre.clubs@.len(),
            self.clubs@.len() == pre.clubs@.len(),
            name_at(self.clubs@, i) == name_at(pre.clubs@, i),
            forall|j: int| 0 <= j < pre.clubs@.len() && j != i ==> self.clubs@[j] == pre.clubs@[j],
            self.store@ == pre.store@.insert(name_at(pre.clubs@, i), self.clubs@[i].members@),
        ensures
            self.wf(),
    {
        assert forall|j: int| 0 <= j < self.clubs@.len() implies #[trigger] name_at(self.clubs@, j)
            == name_at(pre.clubs@, j) by {
            if j != i {
                assert(self.clubs@[j] == pre.clubs@[j]);
            }
        }
        assert forall|j: int| 0 <= j < self.clubs@.len() && j != i implies self.store@[name_at(
            self.clubs@,
            j,
        )] == #[trigger] self.clubs@[j].members@ by {
            assert(name_at(pre.clubs@, j) != name_at(pre.clubs@, i) || i == j) by {
                if j < i {
                    assert(name_at(pre.clubs@, j) != name_at(pre.clubs@, i));
                } else if i < j {
                    assert(name_at(pre.clubs@, i) != name_at(pre.clubs@, j));
                }
            }
        }
        assert forall|k: Seq<u8>| #[trigger]
            self.store@.contains_key(k) implies exists|j: int|
                0 <= j < self.clubs@.len() && #[trigger] name_at(self.clubs@, j) == k by {
            if k != name_at(pre.clubs@, i) {
                let m = choose|m: int| 0 <= m < pre.clubs@.len() && name_at(pre.clubs@, m) == k;
                assert(name_at(self.clubs@, m) == k);
            } else {
                assert(name_at(self.clubs@, i) == k);
            }
        }
    }
}

} // verus!
