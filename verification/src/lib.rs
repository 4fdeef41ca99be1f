//! A personal game-backlog ledger: a local catalog of games and per-user
//! play-state records, reconciled against a remote game-library service.
//!
//! The crate holds the sync engine itself: identity resolution for games
//! (external id first, exact name as fallback), play-state derivation from
//! observed playtime, idempotent upserts, and the per-pass failure policy.
//! Network and persistence live outside; the engine works on plain values.
use vstd::prelude::*;

pub mod catalog;
pub(crate) mod clock;
pub mod ledger;
pub mod errors;
pub mod laws;
pub mod log;
pub mod model;
pub mod sync;

verus! {

/// A tracked user. Only users with a non-empty external id are synced.
#[derive(Clone, Debug, PartialEq)]
pub struct User {
    pub id: i64,
    pub external_id: Option<String>,
}

impl User {
    /// A user is eligible for a sync pass when it carries a non-empty
    /// external id.
    pub open spec fn spec_eligible(&self) -> bool {
        match self.external_id {
            Some(s) => s@.len() > 0,
            None => false,
        }
    }

    pub fn eligible(&self) -> (r: bool)
        ensures
            r == self.spec_eligible(),
    {
        match &self.external_id {
            Some(s) => !s.as_str().is_empty(),
            None => false,
        }
    }
}

} // verus!
