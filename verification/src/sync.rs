//! The sync orchestrator: one pass over all tracked users.
//!
//! For each user with a non-empty external id, the pass consumes the
//! outcome of that user's remote fetch and reconciles every returned game
//! into the catalog and the ledger. Users without an external id are
//! skipped: their fetch outcome is never consulted and nothing is written
//! for them. A failed fetch either aborts the pass at once or is isolated
//! into a per-user report, as configured.
//!
//! The fetch itself is outside work: callers perform it and hand the
//! outcomes in, one per user, in user order. Every decision the pass
//! takes is made here, on plain values.
use vstd::prelude::*;

use crate::clock;
use crate::catalog::{spec_resolve_catalog, spec_resolve_id, GameCatalog};
use crate::errors::{spec_wrap_fetch_error, FetchError, SyncError, SyncErrorV};
use crate::ledger::{spec_upsert, UserGameLedger};
use crate::model::{GameEntry, GameEntryV, GameKey, GameKeyV, GameV, UserGameRecordV};
use crate::User;

verus! {

/// The tag naming the source service, stamped into every record written.
pub open spec fn spec_platform_tag() -> Seq<char> {
    "win"@
}

/// The platform tag as a value.
pub fn platform_tag() -> (r: String)
    ensures
        r@ == spec_platform_tag(),
{
    "win".to_owned()
}

/// How a pass behaves: whether the first per-user failure aborts the whole
/// pass, and whether the engine re-stamps `acquisition_date` and
/// `start_date` on every pass or preserves them once set.
#[derive(Clone, Copy, Debug, PartialEq)]
pub struct SyncConfig {
    /// Abort the pass on the first failed user instead of isolating the
    /// failure into the report.
    pub abort_on_first_failure: bool,
    /// Rewrite the engine-owned dates from the current pass on every
    /// upsert, instead of preserving them once set.
    pub restamp_dates: bool,
}

impl Default for SyncConfig {
    /// The compatible default: abort on the first failure and re-stamp
    /// the engine-owned dates on every pass.
    fn default() -> (c: SyncConfig)
        ensures
            c.abort_on_first_failure,
            c.restamp_dates,
    {
        SyncConfig { abort_on_first_failure: true, restamp_dates: true }
    }
}

/// What one eligible user's sync came to: success, or the failure that
/// was isolated for it.
#[derive(Clone, Debug, PartialEq)]
pub struct UserOutcome {
    pub user_id: i64,
    pub error: Option<SyncError>,
}

/// Mathematical image of a [`UserOutcome`].
pub ghost struct UserOutcomeV {
    pub user_id: i64,
    pub error: Option<SyncErrorV>,
}

impl View for UserOutcome {
    type V = UserOutcomeV;

    open spec fn view(&self) -> UserOutcomeV {
        UserOutcomeV {
            user_id: self.user_id,
            error: match self.error {
                Some(e) => Some(e@),
                None => None,
            },
        }
    }
}

/// The aggregated result of a pass: one outcome per eligible user that
/// was attempted, in user order. Skipped users do not appear.
#[derive(Clone, Debug, PartialEq)]
pub struct SyncReport {
    pub outcomes: Vec<UserOutcome>,
}

/// The images of a sequence of outcomes.
pub open spec fn outcome_views(s: Seq<UserOutcome>) -> Seq<UserOutcomeV> {
    s.map_values(|o: UserOutcome| o@)
}

impl View for SyncReport {
    type V = Seq<UserOutcomeV>;

    open spec fn view(&self) -> Seq<UserOutcomeV> {
        outcome_views(self.outcomes@)
    }
}

/// The images of a sequence of fetched entries.
pub open spec fn entry_views(s: Seq<GameEntry>) -> Seq<GameEntryV> {
    s.map_values(|e: GameEntry| e@)
}

/// Catalog and ledger after one fetched entry is reconciled: the game is
/// resolved or created by its external id, then the user's record for it
/// is upserted from the observed playtime.
pub open spec fn spec_reconcile_entry(
    c: Seq<GameV>,
    l: Seq<UserGameRecordV>,
    user_id: i64,
    e: GameEntryV,
    now: i64,
    restamp: bool,
) -> (Seq<GameV>, Seq<UserGameRecordV>) {
    let key = GameKeyV::ByExternalId(e.external_id);
    (
        spec_resolve_catalog(c, key, e.name),
        spec_upsert(
            l,
            user_id,
            spec_resolve_id(c, key, e.name),
            e.playtime_minutes,
            spec_platform_tag(),
            now,
            restamp,
        ),
    )
}

/// Catalog and ledger after a user's fetched entries are reconciled in
/// order.
pub open spec fn spec_reconcile_entries(
    c: Seq<GameV>,
    l: Seq<UserGameRecordV>,
    user_id: i64,
    entries: Seq<GameEntryV>,
    now: i64,
    restamp: bool,
) -> (Seq<GameV>, Seq<UserGameRecordV>)
    decreases entries.len(),
{
    if entries.len() == 0 {
        (c, l)
    } else {
        let step = spec_reconcile_entry(c, l, user_id, entries[0], now, restamp);
        spec_reconcile_entries(step.0, step.1, user_id, entries.drop_first(), now, restamp)
    }
}

/// Reconcile one user's fetched library into the catalog and the ledger.
///
/// Every returned game is resolved against the catalog by its external id
/// (created on first observation) and the user's play-state record for it
/// is upserted from the observed playtime.
pub fn sync_user(
    catalog: &mut GameCatalog,
    ledger: &mut UserGameLedger,
    user_id: i64,
    entries: &Vec<GameEntry>,
    now: i64,
    restamp: bool,
)
    requires
        old(catalog).wf(),
        old(ledger).wf(),
        old(catalog)@.len() + entries@.len() <= i64::MAX,
    ensures
        final(catalog).wf(),
        final(ledger).wf(),
        final(catalog)@.len() <= old(catalog)@.len() + entries@.len(),
        (final(catalog)@, final(ledger)@) == spec_reconcile_entries(
            old(catalog)@,
            old(ledger)@,
            user_id,
            entry_views(entries@),
            now,
            restamp,
        ),
{
    let ghost full = spec_reconcile_entries(
        old(catalog)@,
        old(ledger)@,
        user_id,
        entry_views(entries@),
        now,
        restamp,
    );
    proof {
        assert(entry_views(entries@).skip(0) =~= entry_views(entries@));
    }
    let n = entries.len();
    let mut k: usize = 0;
    while k < n
        invariant
            k <= n,
            n == entries@.len(),
            catalog.wf(),
            ledger.wf(),
            catalog@.len() <= old(catalog)@.len() + k,
            catalog@.len() + (n - k) <= i64::MAX,
            full == spec_reconcile_entries(
                catalog@,
                ledger@,
                user_id,
                entry_views(entries@).skip(k as int),
                now,
                restamp,
            ),
        decreases n - k,
    {
        let ghost pre_c = catalog@;
        let ghost pre_l = ledger@;
        let e = &entries[k];
        let gid = catalog.resolve_or_create(
            GameKey::ByExternalId(e.external_id),
            e.name.clone(),
        );
        ledger.upsert_play_state(
            user_id,
            gid,
            e.playtime_minutes,
            platform_tag(),
            now,
            restamp,
        );
        proof {
            let evs = entry_views(entries@);
            assert(evs.skip(k as int)[0] == e@);
            assert((catalog@, ledger@) == spec_reconcile_entry(
                pre_c,
                pre_l,
                user_id,
                evs.skip(k as int)[0],
                now,
                restamp,
            ));
            assert(evs.skip(k as int).drop_first() =~= evs.skip(k as int + 1));
        }
        k = k + 1;
    }
    proof {
        assert(entry_views(entries@).skip(n as int) =~= Seq::<GameEntryV>::empty());
    }
}

/// Everything a finished pass is: the reconciled stores, one outcome per
/// attempted eligible user, and, in abort mode, the failure that ended
/// the pass early.
pub ghost struct PassV {
    pub catalog: Seq<GameV>,
    pub ledger: Seq<UserGameRecordV>,
    pub outcomes: Seq<UserOutcomeV>,
    pub failure: Option<SyncErrorV>,
}

/// How many entries the fetch outcomes carry in all.
pub open spec fn total_entries(resps: Seq<Result<Vec<GameEntry>, FetchError>>) -> int
    decreases resps.len(),
{
    if resps.len() == 0 {
        0
    } else {
        (match resps[0] {
            Ok(v) => v@.len() as int,
            Err(_) => 0,
        }) + total_entries(resps.drop_first())
    }
}

/// The total is never negative.
pub proof fn lemma_total_entries_nonneg(resps: Seq<Result<Vec<GameEntry>, FetchError>>)
    ensures
        total_entries(resps) >= 0,
    decreases resps.len(),
{
    if resps.len() > 0 {
        lemma_total_entries_nonneg(resps.drop_first());
    }
}

/// One whole pass, as a value: users are taken in order; a user without a
/// non-empty external id is skipped (its fetch outcome is never consulted
/// and nothing is written for it); a fetched library is reconciled and the
/// user succeeds; a failed fetch is wrapped with its stage and user and
/// either ends the pass at once (abort mode) or is recorded and the pass
/// goes on (isolate mode).
pub open spec fn spec_sync_pass(
    users: Seq<User>,
    resps: Seq<Result<Vec<GameEntry>, FetchError>>,
    c: Seq<GameV>,
    l: Seq<UserGameRecordV>,
    now: i64,
    abort: bool,
    restamp: bool,
) -> PassV
    decreases users.len(),
{
    if users.len() == 0 {
        PassV { catalog: c, ledger: l, outcomes: Seq::empty(), failure: None }
    } else if !users[0].spec_eligible() {
        spec_sync_pass(users.drop_first(), resps.drop_first(), c, l, now, abort, restamp)
    } else {
        match resps[0] {
            Ok(entries) => {
                let step = spec_reconcile_entries(
                    c,
                    l,
                    users[0].id,
                    entry_views(entries@),
                    now,
                    restamp,
                );
                let rest = spec_sync_pass(
                    users.drop_first(),
                    resps.drop_first(),
                    step.0,
                    step.1,
                    now,
                    abort,
                    restamp,
                );
                PassV {
                    catalog: rest.catalog,
                    ledger: rest.ledger,
                    outcomes: seq![
                        UserOutcomeV { user_id: users[0].id, error: None },
                    ] + rest.outcomes,
                    failure: rest.failure,
                }
            },
            Err(fe) => {
                let err = spec_wrap_fetch_error(fe@, users[0].id);
                if abort {
                    PassV {
                        catalog: c,
                        ledger: l,
                        outcomes: seq![UserOutcomeV { user_id: users[0].id, error: Some(err) }],
                        failure: Some(err),
                    }
                } else {
                    let rest = spec_sync_pass(
                        users.drop_first(),
                        resps.drop_first(),
                        c,
                        l,
                        now,
                        abort,
                        restamp,
                    );
                    PassV {
                        catalog: rest.catalog,
                        ledger: rest.ledger,
                        outcomes: seq![
                            UserOutcomeV { user_id: users[0].id, error: Some(err) },
                        ] + rest.outcomes,
                        failure: rest.failure,
                    }
                }
            },
        }
    }
}

/// What a finished pass guarantees, relating the stores and the returned
/// value to the pass as a value at timestamp `now`.
pub open spec fn sync_post(
    users: Seq<User>,
    resps: Seq<Result<Vec<GameEntry>, FetchError>>,
    c0: Seq<GameV>,
    l0: Seq<UserGameRecordV>,
    abort: bool,
    restamp: bool,
    now: i64,
    c1: Seq<GameV>,
    l1: Seq<UserGameRecordV>,
    result: Result<SyncReport, SyncError>,
) -> bool {
    let m = spec_sync_pass(users, resps, c0, l0, now, abort, restamp);
    &&& c1 == m.catalog
    &&& l1 == m.ledger
    &&& match result {
        Ok(rep) => m.failure is None && rep@ == m.outcomes,
        Err(e) => m.failure == Some(e@),
    }
}

/// Run one pass at a given timestamp: for each user in order, skip it if
/// it has no non-empty external id, else consume its fetch outcome and
/// reconcile or record the failure, per the configured policy.
///
/// Returns the report in isolate mode always, and in abort mode exactly
/// when every attempted user succeeded; returns the first wrapped failure
/// otherwise, with the writes of earlier users kept.
pub fn sync_at(
    catalog: &mut GameCatalog,
    ledger: &mut UserGameLedger,
    users: &Vec<User>,
    responses: &Vec<Result<Vec<GameEntry>, FetchError>>,
    config: &SyncConfig,
    now: i64,
) -> (result: Result<SyncReport, SyncError>)
    requires
        old(catalog).wf(),
        old(ledger).wf(),
        responses@.len() == users@.len(),
        old(catalog)@.len() + total_entries(responses@) <= i64::MAX,
    ensures
        final(catalog).wf(),
        final(ledger).wf(),
        sync_post(
            users@,
            responses@,
            old(catalog)@,
            old(ledger)@,
            config.abort_on_first_failure,
            config.restamp_dates,
            now,
            final(catalog)@,
            final(ledger)@,
            result,
        ),
{
    let ghost full = spec_sync_pass(
        users@,
        responses@,
        old(catalog)@,
        old(ledger)@,
        now,
        config.abort_on_first_failure,
        config.restamp_dates,
    );
    proof {
        assert(users@.skip(0) =~= users@);
        assert(responses@.skip(0) =~= responses@);
        assert(outcome_views(Seq::<UserOutcome>::empty()) =~= Seq::<UserOutcomeV>::empty());
    }
    let mut outcomes: Vec<UserOutcome> = Vec::new();
    let mut failure: Option<SyncError> = None;
    let n = users.len();
    let mut i: usize = 0;
    while i < n && failure.is_none()
        invariant
            i <= n,
            n == users@.len(),
            n == responses@.len(),
            catalog.wf(),
            ledger.wf(),
            catalog@.len() + total_entries(responses@.skip(i as int)) <= i64::MAX,
            match failure {
                None => ({
                    let rest = spec_sync_pass(
                        users@.skip(i as int),
                        responses@.skip(i as int),
                        catalog@,
                        ledger@,
                        now,
                        config.abort_on_first_failure,
                        config.restamp_dates,
                    );
                    &&& full.catalog == rest.catalog
                    &&& full.ledger == rest.ledger
                    &&& full.outcomes == outcome_views(outcomes@) + rest.outcomes
                    &&& full.failure == rest.failure
                }),
                Some(e) => {
                    &&& full.catalog == catalog@
                    &&& full.ledger == ledger@
                    &&& full.failure == Some(e@)
                },
            },
        decreases n - i,
    {
        proof {
            assert(users@.skip(i as int)[0] == users@[i as int]);
            assert(responses@.skip(i as int)[0] == responses@[i as int]);
            assert(users@.skip(i as int).drop_first() =~= users@.skip(i as int + 1));
            assert(responses@.skip(i as int).drop_first() =~= responses@.skip(i as int + 1));
            assert(responses@.skip(i as int).len() > 0);
            assert(total_entries(responses@.skip(i as int)) == (match responses@.skip(
                i as int,
            )[0] {
                Ok(v) => v@.len() as int,
                Err(_) => 0,
            }) + total_entries(responses@.skip(i as int + 1)));
            lemma_total_entries_nonneg(responses@.skip(i as int + 1));
        }
        let user = &users[i];
        if user.eligible() {
            match &responses[i] {
                Ok(entries) => {
                    sync_user(catalog, ledger, user.id, entries, now, config.restamp_dates);
                    let ghost pre_out = outcomes@;
                    outcomes.push(UserOutcome { user_id: user.id, error: None });
                    proof {
                        assert(outcome_views(outcomes@) =~= outcome_views(pre_out) + seq![
                            UserOutcomeV { user_id: user.id, error: None },
                        ]);
                    }
                },
                Err(fe) => {
                    let err = SyncError::from_fetch(
                        FetchError { kind: fe.kind, detail: fe.detail.clone() },
                        user.id,
                    );
                    if config.abort_on_first_failure {
                        failure = Some(err);
                    } else {
                        let ghost wrapped = err@;
                        let ghost pre_out = outcomes@;
                        outcomes.push(UserOutcome { user_id: user.id, error: Some(err) });
                        proof {
                            assert(outcome_views(outcomes@) =~= outcome_views(pre_out) + seq![
                                UserOutcomeV { user_id: user.id, error: Some(wrapped) },
                            ]);
                        }
                    }
                },
            }
        }
        i = i + 1;
    }
    match failure {
        Some(e) => Err(e),
        None => {
            proof {
                assert(users@.skip(n as int) =~= Seq::<User>::empty());
                assert(full.outcomes =~= outcome_views(outcomes@));
            }
            Ok(SyncReport { outcomes })
        },
    }
}

/// Run one pass at the current wall-clock time. The single timestamp `t`
/// the pass ran at is what every date it wrote is stamped from.
pub fn sync(
    catalog: &mut GameCatalog,
    ledger: &mut UserGameLedger,
    users: &Vec<User>,
    responses: &Vec<Result<Vec<GameEntry>, FetchError>>,
    config: &SyncConfig,
) -> (result: Result<SyncReport, SyncError>)
    requires
        old(catalog).wf(),
        old(ledger).wf(),
        responses@.len() == users@.len(),
        old(catalog)@.len() + total_entries(responses@) <= i64::MAX,
    ensures
        final(catalog).wf(),
        final(ledger).wf(),
        exists|t: i64|
            sync_post(
                users@,
                responses@,
                old(catalog)@,
                old(ledger)@,
                config.abort_on_first_failure,
                config.restamp_dates,
                t,
                final(catalog)@,
                final(ledger)@,
                result,
            ),
{
    let now = clock::now_epoch_seconds();
    let result = sync_at(catalog, ledger, users, responses, config, now);
    proof {
        assert(sync_post(
            users@,
            responses@,
            old(catalog)@,
            old(ledger)@,
            config.abort_on_first_failure,
            config.restamp_dates,
            now,
            catalog@,
            ledger@,
            result,
        ));
    }
    result
}

} // verus!
