use crate::text_map::{keys_increasing, lemma_keys_distinct, lemma_map_of, map_of, text_less, TextMap};
use crate::types::ShotResult;
use vstd::prelude::*;

verus! {

/// How many shots of a run hold a value under a key, and how many of those values are
/// 0 and 1.
#[derive(Debug, Clone, Copy, PartialEq, Eq, Structural)]
pub struct KeyCounts {
    pub total: usize,
    pub zeros: usize,
    pub ones: usize,
}

impl View for KeyCounts {
    type V = KeyCounts;

    open spec fn view(&self) -> KeyCounts {
        *self
    }
}

/// The measurement maps of a run of shots.
pub open spec fn shot_maps(results: Seq<ShotResult>) -> Seq<Map<Seq<char>, u32>> {
    results.map_values(|r: ShotResult| r.measurements.map_view())
}

/// The number of shots that hold a value under `k`.
pub open spec fn shots_with(shots: Seq<Map<Seq<char>, u32>>, k: Seq<char>) -> nat
    decreases shots.len(),
{
    if shots.len() == 0 {
        0
    } else {
        shots_with(shots.drop_last(), k) + if shots.last().dom().contains(k) {
            1nat
        } else {
            0nat
        }
    }
}

/// The number of shots that hold the value `v` under `k`.
pub open spec fn shots_with_value(shots: Seq<Map<Seq<char>, u32>>, k: Seq<char>, v: u32) -> nat
    decreases shots.len(),
{
    if shots.len() == 0 {
        0
    } else {
        shots_with_value(shots.drop_last(), k, v) + if shots.last().dom().contains(k)
            && shots.last()[k] == v {
            1nat
        } else {
            0nat
        }
    }
}

/// One where `part` holds a value under `k`.
spec fn bump(part: Map<Seq<char>, u32>, k: Seq<char>) -> nat {
    if part.dom().contains(k) {
        1
    } else {
        0
    }
}

/// One where `part` holds the value `v` under `k`.
spec fn bump_value(part: Map<Seq<char>, u32>, k: Seq<char>, v: u32) -> nat {
    if part.dom().contains(k) && part[k] == v {
        1
    } else {
        0
    }
}

/// `m` holds the counts of the shots `done` and of the part `part` of the next shot.
spec fn tallied(
    m: Map<Seq<char>, KeyCounts>,
    done: Seq<Map<Seq<char>, u32>>,
    part: Map<Seq<char>, u32>,
) -> bool {
    &&& forall|k: Seq<char>|
        #[trigger] m.dom().contains(k) <==> (shots_with(done, k) > 0 || part.dom().contains(k))
    &&& forall|k: Seq<char>|
        #[trigger] m.dom().contains(k) ==> {
            &&& m[k].total == shots_with(done, k) + bump(part, k)
            &&& m[k].zeros == shots_with_value(done, k, 0) + bump_value(part, k, 0)
            &&& m[k].ones == shots_with_value(done, k, 1) + bump_value(part, k, 1)
        }
}

/// A key is counted at most once per shot, and a value under it at most as often as the
/// key.
proof fn lemma_counts_bounded(shots: Seq<Map<Seq<char>, u32>>, k: Seq<char>)
    ensures
        shots_with(shots, k) <= shots.len(),
        shots_with_value(shots, k, 0) <= shots_with(shots, k),
        shots_with_value(shots, k, 1) <= shots_with(shots, k),
    decreases shots.len(),
{
    if shots.len() > 0 {
        lemma_counts_bounded(shots.drop_last(), k);
    }
}

/// Counts, for every key measured in some shot, how many shots measured it and how many
/// of them read 0 and 1. The map lists the keys in order.
pub fn measurement_counts(results: &[ShotResult]) -> (r: TextMap<KeyCounts>)
    ensures
        forall|k: Seq<char>|
            #[trigger] r.map_view().dom().contains(k) <==> shots_with(shot_maps(results@), k)
                > 0,
        forall|k: Seq<char>|
            #[trigger] r.map_view().dom().contains(k) ==> {
                &&& r.map_view()[k].total == shots_with(shot_maps(results@), k)
                &&& r.map_view()[k].zeros == shots_with_value(shot_maps(results@), k, 0)
                &&& r.map_view()[k].ones == shots_with_value(shot_maps(results@), k, 1)
            },
{
    let ghost s = shot_maps(results@);
    let mut m: TextMap<KeyCounts> = TextMap::new();
    let mut i: usize = 0;
    proof {
        assert(s.take(0) =~= Seq::<Map<Seq<char>, u32>>::empty());
    }
    while i < results.len()
        invariant
            i <= results@.len(),
            s == shot_maps(results@),
            tallied(m.map_view(), s.take(i as int), Map::empty()),
        decreases results@.len() - i,
    {
        let entries = results[i].measurements.entries();
        let ghost ev = results@[i as int].measurements.entry_views();
        let ghost t = s.take(i as int);
        proof {
            assert(s[i as int] == map_of(ev));
            assert(ev.take(0) =~= Seq::<(Seq<char>, u32)>::empty());
        }
        let mut j: usize = 0;
        while j < entries.len()
            invariant
                i < results@.len(),
                i < usize::MAX,
                j <= entries@.len() == ev.len(),
                ev == entries@.map_values(|x: (String, u32)| (x.0@, x.1@)),
                keys_increasing(ev),
                t == s.take(i as int),
                t.len() == i,
                tallied(m.map_view(), t, map_of(ev.take(j as int))),
            decreases entries@.len() - j,
        {
            let ghost pm = map_of(ev.take(j as int));
            let ghost kj = ev[j as int].0;
            let ghost vj = ev[j as int].1;
            proof {
                assert(ev.take(j + 1).drop_last() =~= ev.take(j as int));
                assert(ev.take(j + 1).last() == ev[j as int]);
                let tj = ev.take(j as int);
                assert(keys_increasing(tj)) by {
                    assert forall|a: int, b: int| 0 <= a < b < tj.len() implies text_less(
                        #[trigger] tj[a].0,
                        #[trigger] tj[b].0,
                    ) by {
                        assert(tj[a] == ev[a] && tj[b] == ev[b]);
                    }
                }
                lemma_map_of(tj);
                if pm.dom().contains(kj) {
                    let p = choose|p: int| 0 <= p < tj.len() && tj[p].0 == kj;
                    assert(tj[p] == ev[p]);
                    lemma_keys_distinct(ev, p, j as int);
                }
                assert(!pm.dom().contains(kj));
                lemma_counts_bounded(t, kj);
                assert(ev[j as int] == (entries@[j as int].0@, entries@[j as int].1@));
            }
            let key = &entries[j].0;
            let value = entries[j].1;
            let cur = match m.get(key.as_str()) {
                Some(c) => *c,
                None => KeyCounts { total: 0, zeros: 0, ones: 0 },
            };
            assert(cur.total <= i && cur.zeros <= i && cur.ones <= i);
            let next = KeyCounts {
                total: cur.total + 1,
                zeros: if value == 0 {
                    cur.zeros + 1
                } else {
                    cur.zeros
                },
                ones: if value == 1 {
                    cur.ones + 1
                } else {
                    cur.ones
                },
            };
            m.insert(key.clone(), next);
            proof {
                let pm2 = map_of(ev.take(j + 1));
                assert(pm2 == pm.insert(kj, vj));
                assert forall|k: Seq<char>| #[trigger]
                    m.map_view().dom().contains(k) implies m.map_view()[k].total == shots_with(t, k)
                    + bump(pm2, k) && m.map_view()[k].zeros == shots_with_value(t, k, 0)
                    + bump_value(pm2, k, 0) && m.map_view()[k].ones == shots_with_value(t, k, 1)
                    + bump_value(pm2, k, 1) by {
                    if k != kj {
                        assert(bump(pm2, k) == bump(pm, k));
                        assert(bump_value(pm2, k, 0) == bump_value(pm, k, 0));
                        assert(bump_value(pm2, k, 1) == bump_value(pm, k, 1));
                    }
                }
            }
            j = j + 1;
        }
        proof {
            assert(ev.take(ev.len() as int) =~= ev);
            let t1 = s.take(i + 1);
            assert(t1.drop_last() =~= t);
            assert(t1.last() == s[i as int]);
            assert forall|k: Seq<char>| #[trigger]
                m.map_view().dom().contains(k) implies m.map_view()[k].total == shots_with(t1, k)
                + bump(Map::empty(), k) && m.map_view()[k].zeros == shots_with_value(t1, k, 0)
                + bump_value(Map::empty(), k, 0) && m.map_view()[k].ones == shots_with_value(
                t1,
                k,
                1,
            ) + bump_value(Map::empty(), k, 1) by {}
        }
        i = i + 1;
    }
    proof {
        assert(s.take(results@.len() as int) =~= s);
    }
    m
}

} // verus!
