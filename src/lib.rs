//! A registry of named clubs and their member accounts.
//!
//! Four privileged operations change the registry (create a club, delete a
//! club, add a member, remove a member); each successful change is recorded
//! as an event in a queue that the host drains. Reading a club's members
//! needs no privilege.

mod genesis;
mod laws;
mod model;
mod pallet;
mod types;
mod weight;

pub use genesis::{genesis_state, GenesisConfig};
pub use laws::{
    lemma_add_member_idempotent, lemma_add_member_to_missing_club, lemma_create_club_twice,
    lemma_create_fresh_club, lemma_create_then_delete, lemma_delete_missing_club,
    lemma_remove_member_twice,
};
pub use model::{
    add_club_step, add_member_step, members_of, remove_club_step, remove_member_step,
    RegistryState,
};
pub use pallet::Pallet;
pub use types::{ensure_root, DispatchError, Error, Event, EventModel, Origin};
pub use weight::{call_weight, BASE_CALL_WEIGHT, WRITES_PER_CALL};
