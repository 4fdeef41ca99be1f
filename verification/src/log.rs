//! The read side the log page needs: the names of the games a user has
//! records for, joined from the ledger and the catalog.
use vstd::prelude::*;

use crate::catalog::GameCatalog;
use crate::ledger::UserGameLedger;
use crate::model::{GameV, UserGameRecordV};

verus! {

/// The images of a sequence of strings.
pub open spec fn string_views(s: Seq<String>) -> Seq<Seq<char>> {
    s.map_values(|x: String| x@)
}

/// The names of the user's games, in ledger order: one name per record of
/// the user whose game id points into the catalog.
pub open spec fn spec_user_game_names(
    c: Seq<GameV>,
    l: Seq<UserGameRecordV>,
    user_id: i64,
) -> Seq<Seq<char>>
    decreases l.len(),
{
    if l.len() == 0 {
        Seq::empty()
    } else {
        let rest = spec_user_game_names(c, l.drop_first(), user_id);
        if l[0].user_id == user_id && 0 <= l[0].game_id < c.len() {
            seq![c[l[0].game_id as int].name] + rest
        } else {
            rest
        }
    }
}

/// The names of the games the user has records for, in ledger order.
pub fn user_game_names(catalog: &GameCatalog, ledger: &UserGameLedger, user_id: i64) -> (r: Vec<
    String,
>)
    ensures
        string_views(r@) == spec_user_game_names(catalog@, ledger@, user_id),
{
    let ghost full = spec_user_game_names(catalog@, ledger@, user_id);
    proof {
        assert(ledger@.skip(0) =~= ledger@);
    }
    let mut names: Vec<String> = Vec::new();
    let n = ledger.len();
    let mut i: usize = 0;
    while i < n
        invariant
            i <= n,
            n == ledger@.len(),
            full == string_views(names@) + spec_user_game_names(
                catalog@,
                ledger@.skip(i as int),
                user_id,
            ),
        decreases n - i,
    {
        let ghost pre_names = names@;
        let r = ledger.get(i);
        let in_catalog = r.game_id >= 0 && (r.game_id as u64) < (catalog.len() as u64);
        if r.user_id == user_id && in_catalog {
            let g = catalog.get(r.game_id as usize);
            names.push(g.name.clone());
            proof {
                assert(string_views(names@) =~= string_views(pre_names) + seq![
                    catalog@[ledger@[i as int].game_id as int].name,
                ]);
            }
        }
        proof {
            assert(ledger@.skip(i as int)[0] == ledger@[i as int]);
            assert(ledger@.skip(i as int).drop_first() =~= ledger@.skip(i as int + 1));
        }
        i = i + 1;
    }
    proof {
        assert(ledger@.skip(n as int) =~= Seq::<UserGameRecordV>::empty());
        assert(full =~= string_views(names@));
    }
    names
}

} // verus!
