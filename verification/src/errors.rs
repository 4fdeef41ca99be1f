//! The closed error taxonomy of the sync engine, with structured context:
//! which stage failed, for which user, and the underlying cause.
use vstd::prelude::*;

verus! {

/// What went wrong.
#[derive(Clone, Copy, Debug, PartialEq, Eq, Structural)]
pub enum ErrorKind {
    /// The credential for the remote service is unavailable; fatal to a pass.
    Config,
    /// Network, connect or timeout failure reaching the remote service.
    Transport,
    /// The remote response is not valid or not of the expected shape.
    Parse,
    /// A write to the persistent store failed.
    Storage,
}

/// Which stage of processing a user failed.
#[derive(Clone, Copy, Debug, PartialEq, Eq, Structural)]
pub enum Stage {
    Fetch,
    Resolve,
    Upsert,
}

/// A failure reported by the remote fetch, before the engine adds context.
#[derive(Clone, Debug, PartialEq)]
pub struct FetchError {
    pub kind: ErrorKind,
    pub detail: String,
}

/// Mathematical image of a [`FetchError`].
pub ghost struct FetchErrorV {
    pub kind: ErrorKind,
    pub detail: Seq<char>,
}

impl View for FetchError {
    type V = FetchErrorV;

    open spec fn view(&self) -> FetchErrorV {
        FetchErrorV { kind: self.kind, detail: self.detail@ }
    }
}

/// An error of the sync engine, carrying its stage and the affected user.
#[derive(Clone, Debug, PartialEq)]
pub struct SyncError {
    pub kind: ErrorKind,
    pub stage: Stage,
    pub user_id: Option<i64>,
    pub detail: String,
}

/// Mathematical image of a [`SyncError`].
pub ghost struct SyncErrorV {
    pub kind: ErrorKind,
    pub stage: Stage,
    pub user_id: Option<i64>,
    pub detail: Seq<char>,
}

impl View for SyncError {
    type V = SyncErrorV;

    open spec fn view(&self) -> SyncErrorV {
        SyncErrorV {
            kind: self.kind,
            stage: self.stage,
            user_id: self.user_id,
            detail: self.detail@,
        }
    }
}

/// The image of a fetch failure once the engine has attached the stage and
/// the user it happened for.
pub open spec fn spec_wrap_fetch_error(e: FetchErrorV, user_id: i64) -> SyncErrorV {
    SyncErrorV { kind: e.kind, stage: Stage::Fetch, user_id: Some(user_id), detail: e.detail }
}

impl SyncError {
    /// Attach fetch-stage context to a failure reported for one user.
    pub fn from_fetch(e: FetchError, user_id: i64) -> (r: SyncError)
        ensures
            r@ == spec_wrap_fetch_error(e@, user_id),
    {
        SyncError { kind: e.kind, stage: Stage::Fetch, user_id: Some(user_id), detail: e.detail }
    }
}

} // verus!
