//! The refresh scheduler's decisions: which identifiers of a fresh catalog
//! are new and need background enrichment, and in which order the initial
//! full sweep visits the records. The periodic fetching itself is outside
//! work; these functions decide what it dispatches.
use crate::game::{Game, GameView};
use crate::store::{game_views, sort_games_by_added_desc};
use vstd::hash_set::HashSetWithView;
use vstd::prelude::*;

verus! {

/// Where the fresh catalog is fetched from.
pub const DB_URL: &'static str =
    "https://raw.githubusercontent.com/playonbsd/OpenBSD-Games-Database/main/openbsd-games.db";

/// Seconds between two refresh cycles.
pub const UPDATE_PERIOD: u64 = 500;

/// Milliseconds between two background enrichment jobs of one batch.
pub const FETCH_DELAY_MS: u64 = 350;

/// The identifiers of the initial enrichment sweep: every record of the
/// catalog exactly once, most recently added first.
pub fn get_game_ids(games: Vec<Game>) -> (r: Vec<u32>)
    ensures
        exists|s: Seq<GameView>|
            {
                &&& #[trigger] s.to_multiset() == game_views(games@).to_multiset()
                &&& forall|i: int, j: int| 0 <= i < j < s.len() ==> s[j].added <= s[i].added
                &&& r@ == s.map_values(|g: GameView| g.uid)
            },
{
    let sorted = sort_games_by_added_desc(games);
    let mut ids: Vec<u32> = Vec::new();
    let mut i: usize = 0;
    while i < sorted.len()
        invariant
            0 <= i <= sorted@.len(),
            ids@ =~= game_views(sorted@).subrange(0, i as int).map_values(|g: GameView| g.uid),
        decreases sorted@.len() - i,
    {
        ids.push(sorted[i].uid);
        proof {
            assert(game_views(sorted@).subrange(0, i + 1).map_values(|g: GameView| g.uid)
                =~= game_views(sorted@).subrange(0, i as int).map_values(
                |g: GameView| g.uid,
            ).push(sorted@[i as int]@.uid));
        }
        i = i + 1;
    }
    proof {
        let s = game_views(sorted@);
        assert(s.subrange(0, s.len() as int) =~= s);
        assert(s.to_multiset() == game_views(games@).to_multiset());
        assert(ids@ == s.map_values(|g: GameView| g.uid));
    }
    ids
}

/// The identifiers of `current` that `previous` does not hold, each once,
/// in order of first appearance in `current`.
pub open spec fn spec_new_ids(previous: Seq<u32>, current: Seq<u32>) -> Seq<u32>
    decreases current.len(),
{
    if current.len() == 0 {
        Seq::empty()
    } else {
        spec_new_ids(previous, current.drop_last()) + (if !previous.contains(current.last())
            && !current.drop_last().contains(current.last()) {
            seq![current.last()]
        } else {
            Seq::<u32>::empty()
        })
    }
}

/// Build a membership set of identifiers.
fn ids_to_set(ids: &Vec<u32>) -> (r: HashSetWithView<u32>)
    ensures
        r@ == ids@.to_set(),
{
    let mut set: HashSetWithView<u32> = HashSetWithView::new();
    let mut i: usize = 0;
    proof {
        assert(ids@.subrange(0, 0).to_set() =~= Set::<u32>::empty());
    }
    while i < ids.len()
        invariant
            0 <= i <= ids@.len(),
            set@ == ids@.subrange(0, i as int).to_set(),
        decreases ids@.len() - i,
    {
        let id = ids[i];
        set.insert(id);
        proof {
            let prefix = ids@.subrange(0, i as int);
            let prefix1 = ids@.subrange(0, i + 1);
            assert(prefix1 =~= prefix.push(id));
            assert forall|x: u32| prefix1.to_set().contains(x) implies prefix.to_set().insert(
                id,
            ).contains(x) by {
                let j = choose|j: int| 0 <= j < prefix1.len() && prefix1[j] == x;
                if j < i {
                    assert(prefix[j] == x);
                }
            }
            assert forall|x: u32| prefix.to_set().insert(id).contains(x) implies prefix1
                .to_set().contains(x) by {
                if x == id {
                    assert(prefix1[i as int] == x);
                } else {
                    let j = choose|j: int| 0 <= j < prefix.len() && prefix[j] == x;
                    assert(prefix1[j] == x);
                }
            }
            assert(prefix1.to_set() =~= prefix.to_set().insert(id));
        }
        i = i + 1;
    }
    proof {
        assert(ids@.subrange(0, ids@.len() as int) =~= ids@);
    }
    set
}

/// The identifier-set difference of one refresh cycle: exactly the
/// identifiers that appear in the fresh catalog and not in the previously
/// known set, each once, in the fresh catalog's order. These are the
/// records the cycle dispatches background enrichment for.
pub fn refresh_diff(previous: &Vec<u32>, current: &Vec<u32>) -> (r: Vec<u32>)
    ensures
        r@ == spec_new_ids(previous@, current@),
{
    let prev_set = ids_to_set(previous);
    let mut seen: HashSetWithView<u32> = HashSetWithView::new();
    let mut out: Vec<u32> = Vec::new();
    let mut i: usize = 0;
    proof {
        assert(current@.subrange(0, 0).to_set() =~= Set::<u32>::empty());
    }
    while i < current.len()
        invariant
            0 <= i <= current@.len(),
            prev_set@ == previous@.to_set(),
            seen@ == current@.subrange(0, i as int).to_set(),
            out@ == spec_new_ids(previous@, current@.subrange(0, i as int)),
        decreases current@.len() - i,
    {
        let id = current[i];
        let ghost prefix = current@.subrange(0, i as int);
        let ghost prefix1 = current@.subrange(0, i + 1);
        proof {
            assert(prefix1.drop_last() =~= prefix);
            assert(prefix1.last() == id);
        }
        if !prev_set.contains(&id) && !seen.contains(&id) {
            out.push(id);
            proof {
                assert(!previous@.to_set().contains(id));
                assert(!previous@.contains(id));
                assert(!prefix.to_set().contains(id));
                assert(!prefix.contains(id));
                assert(out@ =~= spec_new_ids(previous@, prefix1));
            }
        } else {
            proof {
                if previous@.to_set().contains(id) {
                    assert(previous@.contains(id));
                } else {
                    assert(prefix.to_set().contains(id));
                    assert(prefix.contains(id));
                }
                assert(out@ =~= spec_new_ids(previous@, prefix1));
            }
        }
        seen.insert(id);
        proof {
            assert forall|x: u32| prefix1.to_set().contains(x) implies prefix.to_set().insert(
                id,
            ).contains(x) by {
                let j = choose|j: int| 0 <= j < prefix1.len() && prefix1[j] == x;
                if j < i {
                    assert(prefix[j] == x);
                }
            }
            assert forall|x: u32| prefix.to_set().insert(id).contains(x) implies prefix1
                .to_set().contains(x) by {
                if x == id {
                    assert(prefix1[i as int] == x);
                } else {
                    let j = choose|j: int| 0 <= j < prefix.len() && prefix[j] == x;
                    assert(prefix1[j] == x);
                }
            }
            assert(prefix1.to_set() =~= prefix.to_set().insert(id));
        }
        i = i + 1;
    }
    proof {
        assert(current@.subrange(0, current@.len() as int) =~= current@);
    }
    out
}

/// Law: a record already known before the refresh is never dispatched
/// again, an unknown record of the fresh catalog is dispatched exactly
/// once, and nothing else is dispatched.
pub proof fn lemma_refresh_diff_exact(previous: Seq<u32>, current: Seq<u32>)
    ensures
        forall|id: u32|
            #[trigger] spec_new_ids(previous, current).contains(id) <==> (current.contains(id)
                && !previous.contains(id)),
        forall|id: u32| #[trigger] spec_new_ids(previous, current).to_multiset().count(id) <= 1,
    decreases current.len(),
{
    broadcast use vstd::seq_lib::group_to_multiset_ensures;
    broadcast use vstd::multiset::group_multiset_axioms;

    let whole = spec_new_ids(previous, current);
    if current.len() == 0 {
        whole.to_multiset_ensures();
        assert(forall|id: u32| !(#[trigger] whole.contains(id)));
        assert(whole.to_multiset().len() == 0);
    } else {
        lemma_refresh_diff_exact(previous, current.drop_last());
        let prev_part = spec_new_ids(previous, current.drop_last());
        let last = current.last();
        if !previous.contains(last) && !current.drop_last().contains(last) {
            assert(whole =~= prev_part.push(last));
            prev_part.to_multiset_ensures();
            assert(whole.to_multiset() =~= prev_part.to_multiset().insert(last));
            assert(!prev_part.contains(last));
            assert(prev_part.to_multiset().count(last) == 0);
        } else {
            assert(whole =~= prev_part);
        }
        assert forall|x: u32| #[trigger] whole.contains(x) implies current.contains(x)
            && !previous.contains(x) by {
            if prev_part.contains(x) {
                assert(current.drop_last().contains(x));
                let j = choose|j: int|
                    0 <= j < current.drop_last().len() && current.drop_last()[j] == x;
                assert(current[j] == x);
            } else {
                assert(x == last);
                assert(current[current.len() - 1] == x);
            }
        }
        assert forall|x: u32|
            current.contains(x) && !previous.contains(x) implies #[trigger] whole.contains(x) by {
            if x == last && !current.drop_last().contains(last) {
                assert(whole[whole.len() - 1] == last);
            } else {
                assert(current.drop_last().contains(x)) by {
                    let j = choose|j: int| 0 <= j < current.len() && current[j] == x;
                    if j < current.len() - 1 {
                        assert(current.drop_last()[j] == x);
                    }
                }
                assert(prev_part.contains(x));
                let k = choose|k: int| 0 <= k < prev_part.len() && prev_part[k] == x;
                assert(whole[k] == x);
            }
        }
    }
}

} // verus!
