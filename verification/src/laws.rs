//! The engine's laws: what holds of resolution, upserts and whole passes,
//! proved once and for all over the models the contracts are stated in.
use vstd::prelude::*;

use crate::catalog::{
    catalog_wf, created_game, key_matches, lemma_lookup_none, lemma_lookup_some, lookup_from,
    spec_lookup, spec_resolve_catalog, spec_resolve_id,
};
use crate::ledger::{
    find_from, fresh_record, ledger_wf, lemma_find_none, lemma_find_some, spec_find, spec_upsert,
    upserted_record,
};
use crate::model::{GameEntry, GameEntryV, GameKeyV, GameV, UserGameRecordV};
use crate::errors::FetchError;
use crate::sync::{
    entry_views, lemma_total_entries_nonneg, spec_platform_tag, spec_reconcile_entries,
    spec_reconcile_entry, spec_sync_pass, total_entries,
};
use crate::User;

verus! {

/// A lookup returns the first matching game: if nothing matches before
/// position `p` and the game at `p` matches, the lookup from `i` finds it.
pub proof fn lemma_lookup_first(s: Seq<GameV>, key: GameKeyV, i: int, p: int)
    requires
        0 <= i <= p < s.len(),
        key_matches(s[p], key),
        forall|j: int| i <= j < p ==> !key_matches(#[trigger] s[j], key),
    ensures
        lookup_from(s, key, i) == Some(s[p].id),
    decreases p - i,
{
    if i < p {
        lemma_lookup_first(s, key, i + 1, p);
    }
}

/// Resolution preserves the catalog's invariant: ids stay dense and no
/// two games ever share a non-null external id.
pub proof fn lemma_resolve_preserves_wf(c: Seq<GameV>, key: GameKeyV, name: Seq<char>)
    requires
        catalog_wf(c),
        c.len() < i64::MAX,
    ensures
        catalog_wf(spec_resolve_catalog(c, key, name)),
{
    if spec_lookup(c, key) is None {
        lemma_lookup_none(c, key, 0);
    }
}

/// Identity never drifts, and repeated observations deduplicate: once a
/// key has been resolved, the catalog holds a game for it, and resolving
/// the same key again, under any observed name, returns the same id and
/// leaves the catalog unchanged. In particular two fetch results with the
/// same external id and different names share one game, whose stored name
/// stays as first observed.
pub proof fn lemma_resolve_stable(c: Seq<GameV>, key: GameKeyV, n1: Seq<char>, n2: Seq<char>)
    requires
        catalog_wf(c),
        c.len() < i64::MAX,
    ensures
        ({
            let c1 = spec_resolve_catalog(c, key, n1);
            let id1 = spec_resolve_id(c, key, n1);
            &&& spec_lookup(c1, key) == Some(id1)
            &&& spec_resolve_catalog(c1, key, n2) == c1
            &&& spec_resolve_id(c1, key, n2) == id1
        }),
{
    let c1 = spec_resolve_catalog(c, key, n1);
    let id1 = spec_resolve_id(c, key, n1);
    match spec_lookup(c, key) {
        Some(id) => {
            assert(c1 == c);
        },
        None => {
            lemma_lookup_none(c, key, 0);
            let g = created_game(c.len() as int, key, n1);
            assert(key_matches(g, key));
            assert(c1 == c.push(g));
            assert(c1[c.len() as int] == g);
            assert(forall|j: int| 0 <= j < c.len() ==> c1[j] == c[j]);
            lemma_lookup_first(c1, key, 0, c.len() as int);
            assert(spec_lookup(c1, key) == Some(g.id));
        },
    }
}

/// Name-fallback identity is exact: games without an external id are told
/// apart by their names, character for character. Resolving two different
/// name keys never yields the same game, however slight the difference in
/// case or whitespace.
pub proof fn lemma_name_identity_exact(c: Seq<GameV>, n1: Seq<char>, n2: Seq<char>)
    requires
        catalog_wf(c),
        c.len() < i64::MAX,
        n1 != n2,
    ensures
        ({
            let c1 = spec_resolve_catalog(c, GameKeyV::ByName(n1), n1);
            spec_resolve_id(c, GameKeyV::ByName(n1), n1) != spec_resolve_id(
                c1,
                GameKeyV::ByName(n2),
                n2,
            )
        }),
{
    let key1 = GameKeyV::ByName(n1);
    let key2 = GameKeyV::ByName(n2);
    let c1 = spec_resolve_catalog(c, key1, n1);
    let id1 = spec_resolve_id(c, key1, n1);
    let id2 = spec_resolve_id(c1, key2, n2);
    lemma_resolve_preserves_wf(c, key1, n1);
    match spec_lookup(c, key1) {
        Some(id) => {
            lemma_lookup_some(c, key1, 0, id);
            assert(c1[id1 as int].name == n1);
            assert(0 <= id1 < c1.len());
        },
        None => {
            assert(c1[id1 as int] == created_game(c.len() as int, key1, n1));
            assert(0 <= id1 < c1.len());
        },
    }
    match spec_lookup(c1, key2) {
        Some(id) => {
            lemma_lookup_some(c1, key2, 0, id);
            assert(c1[id2 as int].name == n2);
        },
        None => {
            assert(id2 == c1.len());
        },
    }
}

/// A search returns the first record of the pair: if no record before
/// position `p` belongs to it and the one at `p` does, the search from `i`
/// finds `p`.
pub proof fn lemma_find_first(s: Seq<UserGameRecordV>, user_id: i64, game_id: i64, i: int, p: int)
    requires
        0 <= i <= p < s.len(),
        s[p].user_id == user_id && s[p].game_id == game_id,
        forall|j: int|
            i <= j < p ==> !((#[trigger] s[j]).user_id == user_id && s[j].game_id == game_id),
    ensures
        find_from(s, user_id, game_id, i) == Some(p),
    decreases p - i,
{
    if i < p {
        lemma_find_first(s, user_id, game_id, i + 1, p);
    }
}

/// An upsert preserves the ledger's invariant: still at most one record
/// per (user, game) pair.
pub proof fn lemma_upsert_preserves_wf(
    s: Seq<UserGameRecordV>,
    user_id: i64,
    game_id: i64,
    playtime_minutes: u64,
    platform: Seq<char>,
    now: i64,
    restamp: bool,
)
    requires
        ledger_wf(s),
    ensures
        ledger_wf(spec_upsert(s, user_id, game_id, playtime_minutes, platform, now, restamp)),
{
    match spec_find(s, user_id, game_id) {
        Some(k) => {
            lemma_find_some(s, user_id, game_id, 0, k);
        },
        None => {
            lemma_find_none(s, user_id, game_id, 0);
        },
    }
}

/// Where an upsert lands: afterwards the pair has exactly the expected
/// record — the old one updated in place, or a fresh one at the end — and
/// a search finds it there.
pub proof fn lemma_upsert_finds_updated(
    s: Seq<UserGameRecordV>,
    user_id: i64,
    game_id: i64,
    playtime_minutes: u64,
    platform: Seq<char>,
    now: i64,
    restamp: bool,
)
    requires
        ledger_wf(s),
    ensures
        ({
            let s1 = spec_upsert(s, user_id, game_id, playtime_minutes, platform, now, restamp);
            let k = match spec_find(s, user_id, game_id) {
                Some(k) => k,
                None => s.len() as int,
            };
            &&& 0 <= k < s1.len()
            &&& spec_find(s1, user_id, game_id) == Some(k)
            &&& s1[k] == (match spec_find(s, user_id, game_id) {
                Some(j) => upserted_record(s[j], playtime_minutes, platform, now, restamp),
                None => fresh_record(user_id, game_id, playtime_minutes, platform, now),
            })
            &&& s1.len() == (match spec_find(s, user_id, game_id) {
                Some(_) => s.len() as int,
                None => s.len() as int + 1,
            })
        }),
{
    let s1 = spec_upsert(s, user_id, game_id, playtime_minutes, platform, now, restamp);
    match spec_find(s, user_id, game_id) {
        Some(k) => {
            lemma_find_some(s, user_id, game_id, 0, k);
            assert(s1[k].user_id == user_id && s1[k].game_id == game_id);
            lemma_find_first(s1, user_id, game_id, 0, k);
        },
        None => {
            lemma_find_none(s, user_id, game_id, 0);
            let k = s.len() as int;
            assert(s1[k].user_id == user_id && s1[k].game_id == game_id);
            lemma_find_first(s1, user_id, game_id, 0, k);
        },
    }
}

/// Upserts are idempotent: re-observing the same playtime for the same
/// pair changes nothing. Under the preserving date policy this holds at
/// any later pass time; under the re-stamping policy it holds for a
/// second upsert at the same pass time.
pub proof fn lemma_upsert_idempotent(
    s: Seq<UserGameRecordV>,
    user_id: i64,
    game_id: i64,
    playtime_minutes: u64,
    platform: Seq<char>,
    now: i64,
    now2: i64,
    restamp: bool,
)
    requires
        ledger_wf(s),
        restamp ==> now2 == now,
    ensures
        ({
            let s1 = spec_upsert(s, user_id, game_id, playtime_minutes, platform, now, restamp);
            spec_upsert(s1, user_id, game_id, playtime_minutes, platform, now2, restamp) == s1
        }),
{
    let s1 = spec_upsert(s, user_id, game_id, playtime_minutes, platform, now, restamp);
    lemma_upsert_finds_updated(s, user_id, game_id, playtime_minutes, platform, now, restamp);
    let k = match spec_find(s, user_id, game_id) {
        Some(k) => k,
        None => s.len() as int,
    };
    assert(upserted_record(s1[k], playtime_minutes, platform, now2, restamp) == s1[k]);
    assert(s1.update(k, s1[k]) =~= s1);
}

/// No upsert moves, re-keys or beats a record: every pre-existing row
/// keeps its position, its (user, game) pair and its `beat_date`, whatever
/// the observed playtime. The engine never clears a beat date.
pub proof fn lemma_upsert_preserves_rows(
    s: Seq<UserGameRecordV>,
    user_id: i64,
    game_id: i64,
    playtime_minutes: u64,
    platform: Seq<char>,
    now: i64,
    restamp: bool,
)
    ensures
        ({
            let s1 = spec_upsert(s, user_id, game_id, playtime_minutes, platform, now, restamp);
            &&& s1.len() >= s.len()
            &&& forall|j: int|
                0 <= j < s.len() ==> (#[trigger] s1[j]).user_id == s[j].user_id && s1[j].game_id
                    == s[j].game_id && s1[j].beat_date == s[j].beat_date
        }),
{
    match spec_find(s, user_id, game_id) {
        Some(k) => {
            lemma_find_some(s, user_id, game_id, 0, k);
        },
        None => {
        },
    }
}

/// Rows survive: `s1` extends `s` without moving, re-keying or beating
/// any pre-existing record.
pub open spec fn rows_preserved(s: Seq<UserGameRecordV>, s1: Seq<UserGameRecordV>) -> bool {
    &&& s1.len() >= s.len()
    &&& forall|j: int|
        0 <= j < s.len() ==> (#[trigger] s1[j]).user_id == s[j].user_id && s1[j].game_id
            == s[j].game_id && s1[j].beat_date == s[j].beat_date
}

/// Reconciling a fetched library preserves every pre-existing row's
/// position, pair and `beat_date`.
pub proof fn lemma_reconcile_preserves_rows(
    c: Seq<GameV>,
    l: Seq<UserGameRecordV>,
    user_id: i64,
    entries: Seq<crate::model::GameEntryV>,
    now: i64,
    restamp: bool,
)
    ensures
        rows_preserved(l, spec_reconcile_entries(c, l, user_id, entries, now, restamp).1),
    decreases entries.len(),
{
    if entries.len() > 0 {
        let step = spec_reconcile_entry(c, l, user_id, entries[0], now, restamp);
        let key = GameKeyV::ByExternalId(entries[0].external_id);
        lemma_upsert_preserves_rows(
            l,
            user_id,
            spec_resolve_id(c, key, entries[0].name),
            entries[0].playtime_minutes,
            spec_platform_tag(),
            now,
            restamp,
        );
        lemma_reconcile_preserves_rows(
            step.0,
            step.1,
            user_id,
            entries.drop_first(),
            now,
            restamp,
        );
    }
}

/// A whole pass preserves every pre-existing row's position, pair and
/// `beat_date`: whatever the new playtime values, a beat date set by the
/// outside collaborator survives the pass, in either failure mode and
/// under either date policy.
pub proof fn lemma_sync_pass_preserves_rows(
    users: Seq<User>,
    resps: Seq<Result<Vec<GameEntry>, FetchError>>,
    c: Seq<GameV>,
    l: Seq<UserGameRecordV>,
    now: i64,
    abort: bool,
    restamp: bool,
)
    ensures
        rows_preserved(l, spec_sync_pass(users, resps, c, l, now, abort, restamp).ledger),
    decreases users.len(),
{
    if users.len() > 0 {
        if !users[0].spec_eligible() {
            lemma_sync_pass_preserves_rows(
                users.drop_first(),
                resps.drop_first(),
                c,
                l,
                now,
                abort,
                restamp,
            );
        } else {
            match resps[0] {
                Ok(entries) => {
                    let step = spec_reconcile_entries(
                        c,
                        l,
                        users[0].id,
                        entry_views(entries@),
                        now,
                        restamp,
                    );
                    lemma_reconcile_preserves_rows(
                        c,
                        l,
                        users[0].id,
                        entry_views(entries@),
                        now,
                        restamp,
                    );
                    lemma_sync_pass_preserves_rows(
                        users.drop_first(),
                        resps.drop_first(),
                        step.0,
                        step.1,
                        now,
                        abort,
                        restamp,
                    );
                },
                Err(_) => {
                    if !abort {
                        lemma_sync_pass_preserves_rows(
                            users.drop_first(),
                            resps.drop_first(),
                            c,
                            l,
                            now,
                            abort,
                            restamp,
                        );
                    }
                },
            }
        }
    }
}

/// The skip rule: a user without a non-empty external id contributes
/// nothing to a pass. The pass is one and the same whatever such users'
/// fetch outcomes would have been, so no fetch for them is ever needed
/// and nothing is written for them.
pub proof fn lemma_sync_pass_skips_ineligible(
    users: Seq<User>,
    resps1: Seq<Result<Vec<GameEntry>, FetchError>>,
    resps2: Seq<Result<Vec<GameEntry>, FetchError>>,
    c: Seq<GameV>,
    l: Seq<UserGameRecordV>,
    now: i64,
    abort: bool,
    restamp: bool,
)
    requires
        resps1.len() == users.len(),
        resps2.len() == users.len(),
        forall|j: int|
            0 <= j < users.len() && (#[trigger] users[j]).spec_eligible() ==> resps1[j]
                == resps2[j],
    ensures
        spec_sync_pass(users, resps1, c, l, now, abort, restamp) == spec_sync_pass(
            users,
            resps2,
            c,
            l,
            now,
            abort,
            restamp,
        ),
    decreases users.len(),
{
    if users.len() > 0 {
        let users1 = users.drop_first();
        let r1 = resps1.drop_first();
        let r2 = resps2.drop_first();
        assert forall|j: int|
            0 <= j < users1.len() && (#[trigger] users1[j]).spec_eligible() implies r1[j]
            == r2[j] by {
            assert(users1[j] == users[j + 1]);
            assert(r1[j] == resps1[j + 1]);
            assert(r2[j] == resps2[j + 1]);
        }
        if !users[0].spec_eligible() {
            lemma_sync_pass_skips_ineligible(users1, r1, r2, c, l, now, abort, restamp);
        } else {
            assert(resps1[0] == resps2[0]);
            match resps1[0] {
                Ok(entries) => {
                    let step = spec_reconcile_entries(
                        c,
                        l,
                        users[0].id,
                        entry_views(entries@),
                        now,
                        restamp,
                    );
                    lemma_sync_pass_skips_ineligible(
                        users1,
                        r1,
                        r2,
                        step.0,
                        step.1,
                        now,
                        abort,
                        restamp,
                    );
                },
                Err(_) => {
                    if !abort {
                        lemma_sync_pass_skips_ineligible(users1, r1, r2, c, l, now, abort, restamp);
                    }
                },
            }
        }
    }
}

/// A resolved game and another user's record — or the same user's record
/// for a game none of the entries names — are left alone: reconciling the
/// entries keeps the catalog's answer for `e0` and keeps the record at
/// `k0` byte for byte.
pub proof fn lemma_reconcile_preserves_resolved(
    c: Seq<GameV>,
    l: Seq<UserGameRecordV>,
    entries_user: i64,
    entries: Seq<GameEntryV>,
    now: i64,
    restamp: bool,
    rec_user: i64,
    e0: u64,
    gid0: i64,
    k0: int,
)
    requires
        catalog_wf(c),
        ledger_wf(l),
        c.len() + entries.len() <= i64::MAX,
        spec_lookup(c, GameKeyV::ByExternalId(e0)) == Some(gid0),
        spec_find(l, rec_user, gid0) == Some(k0),
        entries_user == rec_user ==> forall|m: int|
            0 <= m < entries.len() ==> (#[trigger] entries[m]).external_id != e0,
    ensures
        ({
            let out = spec_reconcile_entries(c, l, entries_user, entries, now, restamp);
            &&& spec_lookup(out.0, GameKeyV::ByExternalId(e0)) == Some(gid0)
            &&& spec_find(out.1, rec_user, gid0) == Some(k0)
            &&& out.1[k0] == l[k0]
        }),
    decreases entries.len(),
{
    let key0 = GameKeyV::ByExternalId(e0);
    lemma_lookup_some(c, key0, 0, gid0);
    lemma_find_some(l, rec_user, gid0, 0, k0);
    if entries.len() > 0 {
        let e = entries[0];
        let key = GameKeyV::ByExternalId(e.external_id);
        let c2 = spec_resolve_catalog(c, key, e.name);
        let gid = spec_resolve_id(c, key, e.name);
        let l2 = spec_upsert(
            l,
            entries_user,
            gid,
            e.playtime_minutes,
            spec_platform_tag(),
            now,
            restamp,
        );
        // The catalog still answers `e0` with `gid0`: a hit changes
        // nothing, and a miss can only append a game for another external
        // id, which the `e0` lookup passes over.
        match spec_lookup(c, key) {
            Some(idh) => {
                lemma_lookup_some(c, key, 0, idh);
                assert(c2 == c);
            },
            None => {
                let g = created_game(c.len() as int, key, e.name);
                assert(e.external_id != e0);
                assert(!key_matches(g, key0));
                assert(forall|j: int| 0 <= j < c.len() ==> c2[j] == c[j]);
                lemma_lookup_first(c2, key0, 0, gid0 as int);
            },
        }
        // The upserted pair is not the record's pair: the users differ,
        // or the users agree and then the external ids, hence the games,
        // differ.
        if entries_user == rec_user {
            match spec_lookup(c, key) {
                Some(idh) => {
                    lemma_lookup_some(c, key, 0, idh);
                },
                None => {},
            }
            assert(gid != gid0);
        }
        // The record at `k0` is untouched.
        match spec_find(l, entries_user, gid) {
            Some(j) => {
                lemma_find_some(l, entries_user, gid, 0, j);
                assert(j != k0);
                assert(l2[k0] == l[k0]);
                lemma_find_first(l2, rec_user, gid0, 0, k0);
            },
            None => {
                lemma_find_none(l, entries_user, gid, 0);
                assert(l2[k0] == l[k0]);
                lemma_find_first(l2, rec_user, gid0, 0, k0);
            },
        }
        lemma_resolve_preserves_wf(c, key, e.name);
        lemma_upsert_preserves_wf(
            l,
            entries_user,
            gid,
            e.playtime_minutes,
            spec_platform_tag(),
            now,
            restamp,
        );
        let tail = entries.drop_first();
        if entries_user == rec_user {
            assert forall|m: int| 0 <= m < tail.len() implies (#[trigger] tail[m]).external_id
                != e0 by {
                assert(tail[m] == entries[m + 1]);
            }
        }
        lemma_reconcile_preserves_resolved(
            c2,
            l2,
            entries_user,
            tail,
            now,
            restamp,
            rec_user,
            e0,
            gid0,
            k0,
        );
    }
}

/// Idempotence: reconciling the same fetched library a second time is a
/// no-op, provided the response lists each game once (the remote service
/// keys its entries by external id). Under the preserving date policy the
/// second run may happen at any later time; under the re-stamping policy
/// this is stated for a second run at the same pass time, since that
/// policy deliberately rewrites the engine-owned dates on every pass.
pub proof fn lemma_reconcile_idempotent(
    c: Seq<GameV>,
    l: Seq<UserGameRecordV>,
    user_id: i64,
    entries: Seq<GameEntryV>,
    now: i64,
    now2: i64,
    restamp: bool,
)
    requires
        catalog_wf(c),
        ledger_wf(l),
        c.len() + entries.len() <= i64::MAX,
        restamp ==> now2 == now,
        forall|m1: int, m2: int|
            0 <= m1 < m2 < entries.len() ==> (#[trigger] entries[m1]).external_id != (
            #[trigger] entries[m2]).external_id,
    ensures
        ({
            let out = spec_reconcile_entries(c, l, user_id, entries, now, restamp);
            spec_reconcile_entries(out.0, out.1, user_id, entries, now2, restamp) == out
        }),
    decreases entries.len(),
{
    if entries.len() > 0 {
        let e = entries[0];
        let key = GameKeyV::ByExternalId(e.external_id);
        let pl = spec_platform_tag();
        let c1 = spec_resolve_catalog(c, key, e.name);
        let gid = spec_resolve_id(c, key, e.name);
        let l1 = spec_upsert(l, user_id, gid, e.playtime_minutes, pl, now, restamp);
        lemma_resolve_stable(c, key, e.name, e.name);
        lemma_upsert_finds_updated(l, user_id, gid, e.playtime_minutes, pl, now, restamp);
        let k0 = match spec_find(l, user_id, gid) {
            Some(k) => k,
            None => l.len() as int,
        };
        lemma_resolve_preserves_wf(c, key, e.name);
        lemma_upsert_preserves_wf(l, user_id, gid, e.playtime_minutes, pl, now, restamp);
        let tail = entries.drop_first();
        assert forall|m: int| 0 <= m < tail.len() implies (#[trigger] tail[m]).external_id
            != e.external_id by {
            assert(tail[m] == entries[m + 1]);
        }
        assert forall|m1: int, m2: int| 0 <= m1 < m2 < tail.len() implies (
        #[trigger] tail[m1]).external_id != (#[trigger] tail[m2]).external_id by {
            assert(tail[m1] == entries[m1 + 1]);
            assert(tail[m2] == entries[m2 + 1]);
        }
        let out = spec_reconcile_entries(c1, l1, user_id, tail, now, restamp);
        let cf = out.0;
        let lf = out.1;
        lemma_reconcile_preserves_resolved(
            c1,
            l1,
            user_id,
            tail,
            now,
            restamp,
            user_id,
            e.external_id,
            gid,
            k0,
        );
        lemma_find_some(lf, user_id, gid, 0, k0);
        // Re-running the head entry changes nothing: the catalog answers
        // with the same id, and the record is already at its fixed point.
        assert(spec_resolve_catalog(cf, key, e.name) == cf);
        assert(spec_resolve_id(cf, key, e.name) == gid);
        assert(upserted_record(lf[k0], e.playtime_minutes, pl, now2, restamp) == lf[k0]);
        assert(spec_upsert(lf, user_id, gid, e.playtime_minutes, pl, now2, restamp) == lf.update(
            k0,
            upserted_record(lf[k0], e.playtime_minutes, pl, now2, restamp),
        ));
        assert(lf.update(k0, lf[k0]) =~= lf);
        lemma_reconcile_idempotent(c1, l1, user_id, tail, now, now2, restamp);
    }
}

/// An entry is absorbed in a state: the catalog already answers its
/// external id, and the user's record for that game is a fixed point of
/// re-upserting the entry's playtime at time `now2`.
pub open spec fn entry_absorbed(
    c: Seq<GameV>,
    l: Seq<UserGameRecordV>,
    user_id: i64,
    e: GameEntryV,
    now2: i64,
    restamp: bool,
) -> bool {
    match spec_lookup(c, GameKeyV::ByExternalId(e.external_id)) {
        Some(gid) => match spec_find(l, user_id, gid) {
            Some(k) => l[k] == upserted_record(
                l[k],
                e.playtime_minutes,
                spec_platform_tag(),
                now2,
                restamp,
            ),
            None => false,
        },
        None => false,
    }
}

/// Reconciliation keeps both stores well formed, and grows the catalog by
/// at most one game per entry.
pub proof fn lemma_reconcile_preserves_wf(
    c: Seq<GameV>,
    l: Seq<UserGameRecordV>,
    user_id: i64,
    entries: Seq<GameEntryV>,
    now: i64,
    restamp: bool,
)
    requires
        catalog_wf(c),
        ledger_wf(l),
        c.len() + entries.len() <= i64::MAX,
    ensures
        ({
            let out = spec_reconcile_entries(c, l, user_id, entries, now, restamp);
            &&& catalog_wf(out.0)
            &&& ledger_wf(out.1)
            &&& out.0.len() <= c.len() + entries.len()
        }),
    decreases entries.len(),
{
    if entries.len() > 0 {
        let e = entries[0];
        let key = GameKeyV::ByExternalId(e.external_id);
        let c2 = spec_resolve_catalog(c, key, e.name);
        let gid = spec_resolve_id(c, key, e.name);
        lemma_resolve_preserves_wf(c, key, e.name);
        lemma_upsert_preserves_wf(
            l,
            user_id,
            gid,
            e.playtime_minutes,
            spec_platform_tag(),
            now,
            restamp,
        );
        let l2 = spec_upsert(l, user_id, gid, e.playtime_minutes, spec_platform_tag(), now, restamp);
        lemma_reconcile_preserves_wf(c2, l2, user_id, entries.drop_first(), now, restamp);
    }
}

/// Reconciling entries that are all absorbed is a no-op.
pub proof fn lemma_reconcile_absorbed(
    c: Seq<GameV>,
    l: Seq<UserGameRecordV>,
    user_id: i64,
    entries: Seq<GameEntryV>,
    now2: i64,
    restamp: bool,
)
    requires
        ledger_wf(l),
        forall|j: int|
            0 <= j < entries.len() ==> entry_absorbed(c, l, user_id, #[trigger] entries[j], now2, restamp),
    ensures
        spec_reconcile_entries(c, l, user_id, entries, now2, restamp) == (c, l),
    decreases entries.len(),
{
    if entries.len() > 0 {
        let e = entries[0];
        let key = GameKeyV::ByExternalId(e.external_id);
        assert(entry_absorbed(c, l, user_id, e, now2, restamp));
        match spec_lookup(c, key) {
            Some(gid) => {
                assert(spec_resolve_catalog(c, key, e.name) == c);
                assert(spec_resolve_id(c, key, e.name) == gid);
                match spec_find(l, user_id, gid) {
                    Some(k) => {
                        lemma_find_some(l, user_id, gid, 0, k);
                        assert(spec_upsert(
                            l,
                            user_id,
                            gid,
                            e.playtime_minutes,
                            spec_platform_tag(),
                            now2,
                            restamp,
                        ) == l.update(
                            k,
                            upserted_record(
                                l[k],
                                e.playtime_minutes,
                                spec_platform_tag(),
                                now2,
                                restamp,
                            ),
                        ));
                        assert(l.update(k, l[k]) =~= l);
                    },
                    None => {
                        assert(false);
                    },
                }
            },
            None => {
                assert(false);
            },
        }
        let tail = entries.drop_first();
        assert forall|j: int|
            0 <= j < tail.len() implies entry_absorbed(c, l, user_id, #[trigger] tail[j], now2, restamp) by {
            assert(tail[j] == entries[j + 1]);
        }
        lemma_reconcile_absorbed(c, l, user_id, tail, now2, restamp);
    }
}

/// After a reconcile, each of its entries is absorbed in the result,
/// provided the response lists each game once. Under the preserving policy
/// the absorption holds at any later time `now2`; under the re-stamping
/// policy at the same pass time.
pub proof fn lemma_reconcile_absorbs_self(
    c: Seq<GameV>,
    l: Seq<UserGameRecordV>,
    user_id: i64,
    entries: Seq<GameEntryV>,
    now: i64,
    now2: i64,
    restamp: bool,
)
    requires
        catalog_wf(c),
        ledger_wf(l),
        c.len() + entries.len() <= i64::MAX,
        restamp ==> now2 == now,
        forall|m1: int, m2: int|
            0 <= m1 < m2 < entries.len() ==> (#[trigger] entries[m1]).external_id != (
            #[trigger] entries[m2]).external_id,
    ensures
        ({
            let out = spec_reconcile_entries(c, l, user_id, entries, now, restamp);
            forall|j: int|
                0 <= j < entries.len() ==> entry_absorbed(
                    out.0,
                    out.1,
                    user_id,
                    #[trigger] entries[j],
                    now2,
                    restamp,
                )
        }),
    decreases entries.len(),
{
    if entries.len() > 0 {
        let e = entries[0];
        let key = GameKeyV::ByExternalId(e.external_id);
        let pl = spec_platform_tag();
        let c1 = spec_resolve_catalog(c, key, e.name);
        let gid = spec_resolve_id(c, key, e.name);
        let l1 = spec_upsert(l, user_id, gid, e.playtime_minutes, pl, now, restamp);
        let out = spec_reconcile_entries(c, l, user_id, entries, now, restamp);
        lemma_resolve_stable(c, key, e.name, e.name);
        lemma_upsert_finds_updated(l, user_id, gid, e.playtime_minutes, pl, now, restamp);
        let k0 = match spec_find(l, user_id, gid) {
            Some(k) => k,
            None => l.len() as int,
        };
        lemma_resolve_preserves_wf(c, key, e.name);
        lemma_upsert_preserves_wf(l, user_id, gid, e.playtime_minutes, pl, now, restamp);
        let tail = entries.drop_first();
        assert forall|m: int| 0 <= m < tail.len() implies (#[trigger] tail[m]).external_id
            != e.external_id by {
            assert(tail[m] == entries[m + 1]);
        }
        assert forall|m1: int, m2: int| 0 <= m1 < m2 < tail.len() implies (
        #[trigger] tail[m1]).external_id != (#[trigger] tail[m2]).external_id by {
            assert(tail[m1] == entries[m1 + 1]);
            assert(tail[m2] == entries[m2 + 1]);
        }
        // The head entry stays absorbed through the tail.
        lemma_reconcile_preserves_resolved(
            c1,
            l1,
            user_id,
            tail,
            now,
            restamp,
            user_id,
            e.external_id,
            gid,
            k0,
        );
        lemma_find_some(l1, user_id, gid, 0, k0);
        assert(upserted_record(l1[k0], e.playtime_minutes, pl, now2, restamp) == l1[k0]);
        assert(entry_absorbed(out.0, out.1, user_id, e, now2, restamp));
        // The tail entries are absorbed by induction.
        lemma_reconcile_absorbs_self(c1, l1, user_id, tail, now, now2, restamp);
        assert forall|j: int|
            0 <= j < entries.len() implies entry_absorbed(
            out.0,
            out.1,
            user_id,
            #[trigger] entries[j],
            now2,
            restamp,
        ) by {
            if j > 0 {
                assert(entries[j] == tail[j - 1]);
            }
        }
    }
}

/// Whether a fetch outcome's entries list each game once. An error has no
/// entries.
pub open spec fn ok_entries_distinct(r: Result<Vec<GameEntry>, FetchError>) -> bool {
    match r {
        Ok(v) => forall|m1: int, m2: int|
            0 <= m1 < m2 < entry_views(v@).len() ==> (#[trigger] entry_views(v@)[m1]).external_id
                != (#[trigger] entry_views(v@)[m2]).external_id,
        Err(_) => true,
    }
}

/// A pass keeps both stores well formed.
pub proof fn lemma_sync_pass_preserves_wf(
    users: Seq<User>,
    resps: Seq<Result<Vec<GameEntry>, FetchError>>,
    c: Seq<GameV>,
    l: Seq<UserGameRecordV>,
    now: i64,
    abort: bool,
    restamp: bool,
)
    requires
        catalog_wf(c),
        ledger_wf(l),
        resps.len() == users.len(),
        c.len() + total_entries(resps) <= i64::MAX,
    ensures
        ({
            let m = spec_sync_pass(users, resps, c, l, now, abort, restamp);
            &&& catalog_wf(m.catalog)
            &&& ledger_wf(m.ledger)
        }),
    decreases users.len(),
{
    lemma_total_entries_nonneg(resps);
    if users.len() == 0 {
    } else if !users[0].spec_eligible() {
        lemma_total_entries_nonneg(resps.drop_first());
        lemma_sync_pass_preserves_wf(users.drop_first(), resps.drop_first(), c, l, now, abort, restamp);
    } else {
        match resps[0] {
            Ok(entries) => {
                let evs = entry_views(entries@);
                lemma_total_entries_nonneg(resps.drop_first());
                assert(total_entries(resps) == entries@.len()
                    + total_entries(resps.drop_first()));
                lemma_reconcile_preserves_wf(c, l, users[0].id, evs, now, restamp);
                let step = spec_reconcile_entries(c, l, users[0].id, evs, now, restamp);
                lemma_sync_pass_preserves_wf(
                    users.drop_first(),
                    resps.drop_first(),
                    step.0,
                    step.1,
                    now,
                    abort,
                    restamp,
                );
            },
            Err(_) => {
                lemma_total_entries_nonneg(resps.drop_first());
                assert(total_entries(resps) == 0
                    + total_entries(resps.drop_first()));
                if !abort {
                    lemma_sync_pass_preserves_wf(
                        users.drop_first(),
                        resps.drop_first(),
                        c,
                        l,
                        now,
                        abort,
                        restamp,
                    );
                }
            },
        }
    }
}

/// Other users' syncs never disturb an absorbed entry: the catalog keeps
/// its answer and the user's record stays a fixed point.
pub proof fn lemma_sync_pass_preserves_absorbed(
    users: Seq<User>,
    resps: Seq<Result<Vec<GameEntry>, FetchError>>,
    c: Seq<GameV>,
    l: Seq<UserGameRecordV>,
    now: i64,
    abort: bool,
    restamp: bool,
    user_id: i64,
    e: GameEntryV,
    now2: i64,
)
    requires
        catalog_wf(c),
        ledger_wf(l),
        resps.len() == users.len(),
        c.len() + total_entries(resps) <= i64::MAX,
        entry_absorbed(c, l, user_id, e, now2, restamp),
        forall|j: int| 0 <= j < users.len() ==> (#[trigger] users[j]).id != user_id,
    ensures
        ({
            let m = spec_sync_pass(users, resps, c, l, now, abort, restamp);
            entry_absorbed(m.catalog, m.ledger, user_id, e, now2, restamp)
        }),
    decreases users.len(),
{
    lemma_total_entries_nonneg(resps);
    if users.len() == 0 {
    } else if !users[0].spec_eligible() {
        lemma_total_entries_nonneg(resps.drop_first());
        lemma_sync_pass_preserves_absorbed(
            users.drop_first(),
            resps.drop_first(),
            c,
            l,
            now,
            abort,
            restamp,
            user_id,
            e,
            now2,
        );
    } else {
        match resps[0] {
            Ok(entries) => {
                let evs = entry_views(entries@);
                lemma_total_entries_nonneg(resps.drop_first());
                assert(total_entries(resps) == entries@.len()
                    + total_entries(resps.drop_first()));
                let step = spec_reconcile_entries(c, l, users[0].id, evs, now, restamp);
                match spec_lookup(c, GameKeyV::ByExternalId(e.external_id)) {
                    Some(gid) => {
                        match spec_find(l, user_id, gid) {
                            Some(k) => {
                                lemma_reconcile_preserves_resolved(
                                    c,
                                    l,
                                    users[0].id,
                                    evs,
                                    now,
                                    restamp,
                                    user_id,
                                    e.external_id,
                                    gid,
                                    k,
                                );
                            },
                            None => {
                                assert(false);
                            },
                        }
                    },
                    None => {
                        assert(false);
                    },
                }
                lemma_reconcile_preserves_wf(c, l, users[0].id, evs, now, restamp);
                lemma_sync_pass_preserves_absorbed(
                    users.drop_first(),
                    resps.drop_first(),
                    step.0,
                    step.1,
                    now,
                    abort,
                    restamp,
                    user_id,
                    e,
                    now2,
                );
            },
            Err(_) => {
                lemma_total_entries_nonneg(resps.drop_first());
                assert(total_entries(resps) == 0
                    + total_entries(resps.drop_first()));
                if !abort {
                    lemma_sync_pass_preserves_absorbed(
                        users.drop_first(),
                        resps.drop_first(),
                        c,
                        l,
                        now,
                        abort,
                        restamp,
                        user_id,
                        e,
                        now2,
                    );
                }
            },
        }
    }
}

/// Idempotence of a whole pass: running it again on byte-identical fetch
/// outcomes changes neither store, and returns the same outcomes and the
/// same failure. Users are assumed pairwise distinct (they come from a
/// table keyed by id) and each response lists each game once. Under the
/// preserving date policy the second pass may run at any later time;
/// under the re-stamping policy this is stated for a re-run at the same
/// pass time, since that policy deliberately rewrites dates each pass.
pub proof fn lemma_sync_pass_idempotent(
    users: Seq<User>,
    resps: Seq<Result<Vec<GameEntry>, FetchError>>,
    c: Seq<GameV>,
    l: Seq<UserGameRecordV>,
    now: i64,
    now2: i64,
    abort: bool,
    restamp: bool,
)
    requires
        catalog_wf(c),
        ledger_wf(l),
        resps.len() == users.len(),
        c.len() + total_entries(resps) <= i64::MAX,
        restamp ==> now2 == now,
        forall|j: int| 0 <= j < resps.len() ==> #[trigger] ok_entries_distinct(resps[j]),
        forall|j1: int, j2: int|
            0 <= j1 < j2 < users.len() ==> (#[trigger] users[j1]).id != (#[trigger] users[j2]).id,
    ensures
        ({
            let m1 = spec_sync_pass(users, resps, c, l, now, abort, restamp);
            let m2 = spec_sync_pass(users, resps, m1.catalog, m1.ledger, now2, abort, restamp);
            &&& m2.catalog == m1.catalog
            &&& m2.ledger == m1.ledger
            &&& m2.outcomes == m1.outcomes
            &&& m2.failure == m1.failure
        }),
    decreases users.len(),
{
    lemma_total_entries_nonneg(resps);
    lemma_total_entries_nonneg(resps.drop_first());
    if users.len() == 0 {
        return;
    }
    let tail = users.drop_first();
    let rtail = resps.drop_first();
    assert forall|j: int| 0 <= j < rtail.len() implies #[trigger] ok_entries_distinct(
        rtail[j],
    ) by {
        assert(rtail[j] == resps[j + 1]);
    }
    assert forall|j1: int, j2: int| 0 <= j1 < j2 < tail.len() implies (#[trigger] tail[j1]).id
        != (#[trigger] tail[j2]).id by {
        assert(tail[j1] == users[j1 + 1]);
        assert(tail[j2] == users[j2 + 1]);
    }
    lemma_total_entries_nonneg(rtail);
    assert(total_entries(resps) == (match resps[0] {
        Ok(v) => v@.len() as int,
        Err(_) => 0,
    }) + total_entries(rtail));
    let m1 = spec_sync_pass(users, resps, c, l, now, abort, restamp);
    if !users[0].spec_eligible() {
        lemma_sync_pass_idempotent(tail, rtail, c, l, now, now2, abort, restamp);
    } else {
        match resps[0] {
            Ok(entries) => {
                let u0 = users[0];
                let evs = entry_views(entries@);
                let step = spec_reconcile_entries(c, l, u0.id, evs, now, restamp);
                lemma_reconcile_preserves_wf(c, l, u0.id, evs, now, restamp);
                let m1rest = spec_sync_pass(tail, rtail, step.0, step.1, now, abort, restamp);
                // Every entry of this user ends the first pass absorbed.
                assert(ok_entries_distinct(resps[0]));
                lemma_reconcile_absorbs_self(c, l, u0.id, evs, now, now2, restamp);
                lemma_sync_pass_preserves_wf(tail, rtail, step.0, step.1, now, abort, restamp);
                assert forall|j: int| 0 <= j < tail.len() implies (#[trigger] tail[j]).id
                    != u0.id by {
                    assert(tail[j] == users[j + 1]);
                }
                assert forall|j: int|
                    0 <= j < evs.len() implies entry_absorbed(
                    m1.catalog,
                    m1.ledger,
                    u0.id,
                    #[trigger] evs[j],
                    now2,
                    restamp,
                ) by {
                    lemma_sync_pass_preserves_absorbed(
                        tail,
                        rtail,
                        step.0,
                        step.1,
                        now,
                        abort,
                        restamp,
                        u0.id,
                        evs[j],
                        now2,
                    );
                }
                // So the second pass's head reconcile is a no-op...
                lemma_reconcile_absorbed(m1.catalog, m1.ledger, u0.id, evs, now2, restamp);
                // ...and the rest of the second pass is handled by induction.
                lemma_sync_pass_idempotent(tail, rtail, step.0, step.1, now, now2, abort, restamp);
            },
            Err(_) => {
                if !abort {
                    lemma_sync_pass_idempotent(tail, rtail, c, l, now, now2, abort, restamp);
                }
            },
        }
    }
}

} // verus!
