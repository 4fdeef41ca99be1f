//! The per-(user, game) play-state table and its idempotent upsert.
//!
//! Play state is derived from observed playtime: zero minutes means
//! `Unplayed`, anything more means `Unfinished`; the engine never derives
//! `Beaten`. `beat_date` is owned by a collaborator outside the engine and
//! survives every upsert unchanged. The dates the engine does own follow
//! one of two policies: re-stamp them on every pass, or preserve values
//! once set and stamp `start_date` only on the unplayed-to-unfinished
//! transition.
use vstd::prelude::*;

use crate::model::{PlayState, UserGameRecord, UserGameRecordV};

verus! {

/// The play state observed playtime justifies. Never `Beaten`.
pub open spec fn derived_state(playtime_minutes: u64) -> PlayState {
    if playtime_minutes == 0 {
        PlayState::Unplayed
    } else {
        PlayState::Unfinished
    }
}

/// The position of the first record from `i` on that belongs to the pair.
pub open spec fn find_from(s: Seq<UserGameRecordV>, user_id: i64, game_id: i64, i: int) -> Option<
    int,
>
    decreases s.len() - i,
{
    if i < 0 || i >= s.len() {
        None
    } else if s[i].user_id == user_id && s[i].game_id == game_id {
        Some(i)
    } else {
        find_from(s, user_id, game_id, i + 1)
    }
}

/// The position of the pair's record, if one exists.
pub open spec fn spec_find(s: Seq<UserGameRecordV>, user_id: i64, game_id: i64) -> Option<int> {
    find_from(s, user_id, game_id, 0)
}

/// The record an insert creates: derived state, the given platform tag,
/// acquisition stamped now, start stamped now only when playtime is
/// positive, and no beat date.
pub open spec fn fresh_record(
    user_id: i64,
    game_id: i64,
    playtime_minutes: u64,
    platform: Seq<char>,
    now: i64,
) -> UserGameRecordV {
    UserGameRecordV {
        user_id: user_id,
        game_id: game_id,
        play_state: derived_state(playtime_minutes),
        platform: platform,
        acquisition_date: now,
        start_date: if playtime_minutes > 0 {
            Some(now)
        } else {
            None
        },
        beat_date: None,
    }
}

/// An existing record after an update. With `restamp` the engine rewrites
/// `acquisition_date` and `start_date` from this pass alone; without it
/// both are preserved once set, and `start_date` is stamped only on the
/// transition out of `Unplayed`. `beat_date` is preserved either way.
pub open spec fn upserted_record(
    r: UserGameRecordV,
    playtime_minutes: u64,
    platform: Seq<char>,
    now: i64,
    restamp: bool,
) -> UserGameRecordV {
    UserGameRecordV {
        user_id: r.user_id,
        game_id: r.game_id,
        play_state: derived_state(playtime_minutes),
        platform: platform,
        acquisition_date: if restamp {
            now
        } else {
            r.acquisition_date
        },
        start_date: if restamp {
            if playtime_minutes > 0 {
                Some(now)
            } else {
                None
            }
        } else {
            if playtime_minutes > 0 && r.start_date is None {
                Some(now)
            } else {
                r.start_date
            }
        },
        beat_date: r.beat_date,
    }
}

/// The ledger after an upsert: the pair's record updated in place if it
/// exists, else a fresh record appended.
pub open spec fn spec_upsert(
    s: Seq<UserGameRecordV>,
    user_id: i64,
    game_id: i64,
    playtime_minutes: u64,
    platform: Seq<char>,
    now: i64,
    restamp: bool,
) -> Seq<UserGameRecordV> {
    match spec_find(s, user_id, game_id) {
        Some(i) => s.update(i, upserted_record(s[i], playtime_minutes, platform, now, restamp)),
        None => s.push(fresh_record(user_id, game_id, playtime_minutes, platform, now)),
    }
}

/// Well-formedness: at most one record per (user, game) pair.
pub open spec fn ledger_wf(s: Seq<UserGameRecordV>) -> bool {
    forall|i: int, j: int|
        0 <= i < s.len() && 0 <= j < s.len() && i != j ==> !((#[trigger] s[i]).user_id == (
        #[trigger] s[j]).user_id && s[i].game_id == s[j].game_id)
}

/// Everything a failed search tells us: no record from `i` on has the pair.
pub proof fn lemma_find_none(s: Seq<UserGameRecordV>, user_id: i64, game_id: i64, i: int)
    requires
        0 <= i,
        find_from(s, user_id, game_id, i) is None,
    ensures
        forall|j: int|
            i <= j < s.len() ==> !((#[trigger] s[j]).user_id == user_id && s[j].game_id
                == game_id),
    decreases s.len() - i,
{
    if i < s.len() {
        lemma_find_none(s, user_id, game_id, i + 1);
    }
}

/// Everything a successful search tells us: the position is in range, the
/// record there belongs to the pair, and no earlier one does.
pub proof fn lemma_find_some(s: Seq<UserGameRecordV>, user_id: i64, game_id: i64, i: int, k: int)
    requires
        0 <= i,
        find_from(s, user_id, game_id, i) == Some(k),
    ensures
        i <= k < s.len(),
        s[k].user_id == user_id && s[k].game_id == game_id,
        forall|j: int|
            i <= j < k ==> !((#[trigger] s[j]).user_id == user_id && s[j].game_id == game_id),
    decreases s.len() - i,
{
    if i < s.len() && !(s[i].user_id == user_id && s[i].game_id == game_id) {
        lemma_find_some(s, user_id, game_id, i + 1, k);
    }
}

/// The images of a sequence of records.
pub open spec fn record_views(s: Seq<UserGameRecord>) -> Seq<UserGameRecordV> {
    s.map_values(|r: UserGameRecord| r@)
}

/// The local per-(user, game) play-state table. Its view is the sequence
/// of stored records.
pub struct UserGameLedger {
    records: Vec<UserGameRecord>,
}

impl View for UserGameLedger {
    type V = Seq<UserGameRecordV>;

    closed spec fn view(&self) -> Seq<UserGameRecordV> {
        self.records@.map_values(|r: UserGameRecord| r@)
    }
}

impl UserGameLedger {
    /// The ledger's invariant, over its view.
    pub open spec fn wf(&self) -> bool {
        ledger_wf(self@)
    }

    /// An empty ledger.
    pub fn new() -> (l: UserGameLedger)
        ensures
            l@ == Seq::<UserGameRecordV>::empty(),
            l.wf(),
    {
        let l = UserGameLedger { records: Vec::new() };
        proof {
            assert(l@ =~= Seq::<UserGameRecordV>::empty());
        }
        l
    }

    /// How many records the ledger holds.
    pub fn len(&self) -> (n: usize)
        ensures
            n == self@.len(),
    {
        self.records.len()
    }

    /// The record at position `i`.
    pub fn get(&self, i: usize) -> (r: &UserGameRecord)
        requires
            i < self@.len(),
        ensures
            r@ == self@[i as int],
    {
        &self.records[i]
    }

    /// The position of the record for `(user_id, game_id)`, if one exists.
    pub fn find(&self, user_id: i64, game_id: i64) -> (r: Option<usize>)
        ensures
            match r {
                Some(i) => spec_find(self@, user_id, game_id) == Some(i as int),
                None => spec_find(self@, user_id, game_id) is None,
            },
    {
        let n = self.records.len();
        let mut i: usize = 0;
        while i < n
            invariant
                0 <= i <= n,
                n == self@.len(),
                n == self.records@.len(),
                find_from(self@, user_id, game_id, 0) == find_from(
                    self@,
                    user_id,
                    game_id,
                    i as int,
                ),
            decreases n - i,
        {
            let r = &self.records[i];
            if r.user_id == user_id && r.game_id == game_id {
                return Some(i);
            }
            i = i + 1;
        }
        None
    }

    /// Insert or update the pair's record from one observation: state is
    /// derived from playtime, the platform tag is written, the owned dates
    /// follow the chosen policy, and `beat_date` is never touched.
    pub fn upsert_play_state(
        &mut self,
        user_id: i64,
        game_id: i64,
        playtime_minutes: u64,
        platform: String,
        now: i64,
        restamp: bool,
    )
        requires
            old(self).wf(),
        ensures
            final(self).wf(),
            final(self)@ == spec_upsert(
                old(self)@,
                user_id,
                game_id,
                playtime_minutes,
                platform@,
                now,
                restamp,
            ),
    {
        let played = playtime_minutes > 0;
        let state = if played {
            PlayState::Unfinished
        } else {
            PlayState::Unplayed
        };
        match self.find(user_id, game_id) {
            Some(i) => {
                proof {
                    lemma_find_some(self@, user_id, game_id, 0, i as int);
                }
                let old_acquisition = self.records[i].acquisition_date;
                let old_start = self.records[i].start_date;
                let acquisition = if restamp {
                    now
                } else {
                    old_acquisition
                };
                let start = if restamp {
                    if played {
                        Some(now)
                    } else {
                        None
                    }
                } else {
                    if played && old_start.is_none() {
                        Some(now)
                    } else {
                        old_start
                    }
                };
                let r = &mut self.records[i];
                r.play_state = state;
                r.platform = platform;
                r.acquisition_date = acquisition;
                r.start_date = start;
                proof {
                    assert(self@ =~= spec_upsert(
                        old(self)@,
                        user_id,
                        game_id,
                        playtime_minutes,
                        platform@,
                        now,
                        restamp,
                    ));
                }
            },
            None => {
                let r = UserGameRecord {
                    user_id,
                    game_id,
                    play_state: state,
                    platform,
                    acquisition_date: now,
                    start_date: if played {
                        Some(now)
                    } else {
                        None
                    },
                    beat_date: None,
                };
                proof {
                    lemma_find_none(old(self)@, user_id, game_id, 0);
                }
                self.records.push(r);
                proof {
                    assert(self@ =~= spec_upsert(
                        old(self)@,
                        user_id,
                        game_id,
                        playtime_minutes,
                        platform@,
                        now,
                        restamp,
                    ));
                }
            },
        }
    }


    /// Adopt a stored table of records, after checking the ledger's
    /// invariant: at most one record per (user, game) pair. Returns the
    /// ledger exactly when the table is well formed.
    pub fn from_records(records: Vec<UserGameRecord>) -> (r: Option<UserGameLedger>)
        ensures
            match r {
                Some(l) => l@ == record_views(records@) && l.wf(),
                None => !ledger_wf(record_views(records@)),
            },
    {
        let ghost s = record_views(records@);
        let n = records.len();
        let mut a: usize = 0;
        while a < n
            invariant
                a <= n,
                n == records@.len(),
                s == record_views(records@),
                forall|x: int, y: int|
                    0 <= x < a && x < y < n ==> !((#[trigger] s[x]).user_id == (
                    #[trigger] s[y]).user_id && s[x].game_id == s[y].game_id),
            decreases n - a,
        {
            let mut b: usize = a + 1;
            while b < n
                invariant
                    a < b <= n,
                    a < n,
                    n == records@.len(),
                    s == record_views(records@),
                    forall|y: int|
                        a < y < b ==> !((#[trigger] s[y]).user_id == s[a as int].user_id
                            && s[y].game_id == s[a as int].game_id),
                decreases n - b,
            {
                if records[a].user_id == records[b].user_id && records[a].game_id
                    == records[b].game_id {
                    proof {
                        assert(s[a as int].user_id == s[b as int].user_id && s[a as int].game_id
                            == s[b as int].game_id);
                        assert(!ledger_wf(s));
                    }
                    return None;
                }
                b = b + 1;
            }
            a = a + 1;
        }
        proof {
            assert forall|x: int, y: int|
                0 <= x < s.len() && 0 <= y < s.len() && x != y implies !((#[trigger] s[x]).user_id
                == (#[trigger] s[y]).user_id && s[x].game_id == s[y].game_id) by {
                if x < y {
                } else {
                }
            }
            assert(ledger_wf(s));
        }
        let l = UserGameLedger { records };
        proof {
            assert(l@ == s);
        }
        Some(l)
    }

    /// The write path of the outside collaborator that owns `beat_date`:
    /// set or clear it on the pair's record, touching nothing else.
    /// Returns whether the pair had a record.
    pub fn set_beat_date(&mut self, user_id: i64, game_id: i64, beat_date: Option<i64>) -> (r:
        bool)
        requires
            old(self).wf(),
        ensures
            final(self).wf(),
            match spec_find(old(self)@, user_id, game_id) {
                Some(k) => r && final(self)@ == old(self)@.update(
                    k,
                    UserGameRecordV { beat_date: beat_date, ..old(self)@[k] },
                ),
                None => !r && final(self)@ == old(self)@,
            },
    {
        match self.find(user_id, game_id) {
            Some(i) => {
                proof {
                    lemma_find_some(self@, user_id, game_id, 0, i as int);
                }
                let rec = &mut self.records[i];
                rec.beat_date = beat_date;
                proof {
                    assert(self@ =~= old(self)@.update(
                        i as int,
                        UserGameRecordV { beat_date: beat_date, ..old(self)@[i as int] },
                    ));
                }
                true
            },
            None => {
                proof {
                    assert(self@ =~= old(self)@);
                }
                false
            },
        }
    }
}

} // verus!
