use vstd::prelude::*;

use crate::race::{best_time_for, lemma_best_time_bound, BestTime, Race, GRID};
use crate::text::{chars_lt, chars_lt_irreflexive, chars_lt_total, chars_lt_transitive, text_lt};

verus! {

/// A best time filed for circuit `seed` and `laps` laps.
pub open spec fn on_circuit(b: BestTime, seed: u64, laps: usize) -> bool {
    b.seed == seed && b.laps == laps
}

/// Records are ranked by time, then by name.
pub open spec fn key_lt(a: (u64, Seq<char>), b: (u64, Seq<char>)) -> bool {
    a.0 < b.0 || (a.0 == b.0 && chars_lt(a.1, b.1))
}

/// A best time's ranking key.
pub open spec fn entry_key(b: BestTime) -> (u64, Seq<char>) {
    (b.time, b.name@)
}

/// A listed record's ranking key.
pub open spec fn line_key(line: (u64, String)) -> (u64, Seq<char>) {
    (line.0, line.1@)
}

/// The record with key `k` is listed.
pub open spec fn listed(out: Seq<(u64, String)>, k: (u64, Seq<char>)) -> bool {
    exists|i: int| 0 <= i < out.len() && #[trigger] line_key(out[i]) == k
}

/// A listed record is one of the circuit's best times.
pub open spec fn from_circuit(best: Seq<BestTime>, seed: u64, laps: usize, line: (u64, String)) -> bool {
    exists|k: int|
        0 <= k < best.len() && on_circuit(best[k], seed, laps) && #[trigger] entry_key(best[k]) == line_key(line)
}

/// `out` lists the records of circuit `seed` for `laps` laps as the score
/// board does: fastest first, ties by name, each record once, at most
/// `GRID` of them, and none left out that beats one listed.
pub open spec fn records_of(best: Seq<BestTime>, seed: u64, laps: usize, out: Seq<(u64, String)>) -> bool {
    &&& out.len() <= GRID
    &&& forall|i: int, j: int| 0 <= i < j < out.len() ==> key_lt(line_key(out[i]), line_key(out[j]))
    &&& forall|i: int| 0 <= i < out.len() ==> from_circuit(best, seed, laps, #[trigger] out[i])
    &&& forall|k: int|
        0 <= k < best.len() && on_circuit(best[k], seed, laps) && !listed(out, entry_key(best[k]))
            ==> out.len() == GRID && key_lt(line_key(out[out.len() - 1]), entry_key(best[k]))
}

proof fn lemma_key_order(a: (u64, Seq<char>), b: (u64, Seq<char>), c: (u64, Seq<char>))
    ensures
        !key_lt(a, a),
        key_lt(a, b) && key_lt(b, c) ==> key_lt(a, c),
        a != b ==> key_lt(a, b) || key_lt(b, a),
{
    chars_lt_irreflexive(a.1);
    if key_lt(a, b) && key_lt(b, c) && a.0 == b.0 && b.0 == c.0 {
        chars_lt_transitive(a.1, b.1, c.1);
    }
    if a != b && a.0 == b.0 {
        if a.1 == b.1 {
            assert(a == b);
        }
        chars_lt_total(a.1, b.1);
    }
}

fn key_less(t1: u64, n1: &String, t2: u64, n2: &String) -> (lt: bool)
    ensures
        lt == key_lt((t1, n1@), (t2, n2@)),
{
    t1 < t2 || (t1 == t2 && text_lt(n1.as_str(), n2.as_str()))
}

impl Race {
    /// The record board of circuit `seed` for `laps` laps: its best times,
    /// fastest first and ties by name, at most `GRID` of them.
    pub fn circuit_records(&self, seed: u64, laps: usize) -> (out: Vec<(u64, String)>)
        ensures
            records_of(self.best@, seed, laps, out@),
    {
        let best = &self.best;
        let mut out: Vec<(u64, String)> = Vec::new();
        let mut done = false;
        while !done && out.len() < GRID
            invariant
                out@.len() <= GRID,
                forall|i: int, j: int|
                    0 <= i < j < out@.len() ==> key_lt(line_key(out@[i]), line_key(out@[j])),
                forall|i: int| 0 <= i < out@.len() ==> from_circuit(best@, seed, laps, #[trigger] out@[i]),
                out@.len() > 0 ==> forall|k: int|
                    0 <= k < best@.len() && on_circuit(best@[k], seed, laps) && !key_lt(
                        line_key(out@[out@.len() - 1]),
                        entry_key(best@[k]),
                    ) ==> listed(out@, entry_key(best@[k])),
                done ==> forall|k: int|
                    0 <= k < best@.len() && on_circuit(best@[k], seed, laps) ==> listed(
                        out@,
                        entry_key(best@[k]),
                    ),
            decreases GRID - out@.len() + (if done { 0int } else { 1int }),
        {
            let ghost before = out@;
            let mut pick: Option<usize> = None;
            let mut j: usize = 0;
            while j < best.len()
                invariant
                    j <= best@.len(),
                    out@ == before,
                    match pick {
                        Some(p) => p < j && on_circuit(best@[p as int], seed, laps) && (before.len() == 0
                            || key_lt(line_key(before[before.len() - 1]), entry_key(best@[p as int])))
                            && forall|q: int|
                            0 <= q < j && on_circuit(best@[q], seed, laps) && (before.len() == 0
                                || key_lt(line_key(before[before.len() - 1]), entry_key(best@[q])))
                                ==> !key_lt(entry_key(best@[q]), entry_key(best@[p as int])),
                        None => forall|q: int|
                            0 <= q < j && on_circuit(best@[q], seed, laps) ==> !(before.len() == 0
                                || key_lt(line_key(before[before.len() - 1]), entry_key(best@[q]))),
                    },
                decreases best@.len() - j,
            {
                let entry = &best[j];
                if entry.seed == seed && entry.laps == laps {
                    let after_last = if out.len() == 0 {
                        true
                    } else {
                        let last = &out[out.len() - 1];
                        key_less(last.0, &last.1, entry.time, &entry.name)
                    };
                    if after_last {
                        let better = match pick {
                            None => true,
                            Some(p) => key_less(entry.time, &entry.name, best[p].time, &best[p].name),
                        };
                        if better {
                            proof {
                                if let Some(p) = pick {
                                    assert forall|q: int|
                                        0 <= q < j + 1 && on_circuit(best@[q], seed, laps) && (before.len()
                                            == 0 || key_lt(
                                            line_key(before[before.len() - 1]),
                                            entry_key(best@[q]),
                                        )) implies !key_lt(entry_key(best@[q]), entry_key(best@[j as int])) by {
                                        lemma_key_order(entry_key(best@[q]), entry_key(best@[j as int]), entry_key(best@[p as int]));
                                        lemma_key_order(entry_key(best@[j as int]), entry_key(best@[j as int]), entry_key(best@[j as int]));
                                    }
                                } else {
                                    assert forall|q: int|
                                        0 <= q < j + 1 && on_circuit(best@[q], seed, laps) && (before.len()
                                            == 0 || key_lt(
                                            line_key(before[before.len() - 1]),
                                            entry_key(best@[q]),
                                        )) implies !key_lt(entry_key(best@[q]), entry_key(best@[j as int])) by {
                                        lemma_key_order(entry_key(best@[j as int]), entry_key(best@[j as int]), entry_key(best@[j as int]));
                                    }
                                }
                            }
                            pick = Some(j);
                        }
                    }
                }
                j += 1;
            }
            match pick {
                None => {
                    proof {
                        assert forall|k: int|
                            0 <= k < best@.len() && on_circuit(best@[k], seed, laps) implies listed(
                            out@,
                            entry_key(best@[k]),
                        ) by {
                            assert(before.len() > 0);
                        }
                    }
                    done = true;
                },
                Some(p) => {
                    let chosen = &best[p];
                    out.push((chosen.time, chosen.name.clone()));
                    proof {
                        let c = entry_key(best@[p as int]);
                        let n = out@.len();
                        assert(line_key(out@[n - 1]) == c);
                        assert forall|i: int, i2: int|
                            0 <= i < i2 < n implies key_lt(line_key(out@[i]), line_key(out@[i2])) by {
                            if i2 == n - 1 && i < n - 2 {
                                lemma_key_order(line_key(out@[i]), line_key(out@[n - 2]), c);
                            }
                        }
                        assert forall|i: int| 0 <= i < n implies from_circuit(best@, seed, laps, #[trigger] out@[i]) by {
                            if i < n - 1 {
                                assert(out@[i] == before[i]);
                            } else {
                                assert(entry_key(best@[p as int]) == line_key(out@[i]));
                            }
                        }
                        assert forall|k: int|
                            0 <= k < best@.len() && on_circuit(best@[k], seed, laps) && !key_lt(
                                c,
                                entry_key(best@[k]),
                            ) implies listed(out@, entry_key(best@[k])) by {
                            let e = entry_key(best@[k]);
                            if before.len() > 0 && !key_lt(line_key(before[before.len() - 1]), e) {
                                let i = choose|i: int| 0 <= i < before.len() && #[trigger] line_key(before[i]) == e;
                                assert(out@[i] == before[i]);
                            } else {
                                lemma_key_order(e, c, e);
                                assert(line_key(out@[n - 1]) == e);
                            }
                        }
                    }
                },
            }
        }
        proof {
            assert forall|k: int|
                0 <= k < best@.len() && on_circuit(best@[k], seed, laps) && !listed(out@, entry_key(best@[k]))
                    implies out@.len() == GRID && key_lt(line_key(out@[out@.len() - 1]), entry_key(best@[k])) by {
                if out@.len() > 0 {
                    lemma_key_order(line_key(out@[out@.len() - 1]), entry_key(best@[k]), entry_key(best@[k]));
                }
            }
        }
        out
    }
}

proof fn lemma_best_time_attained(best: Seq<BestTime>, seed: u64, laps: usize)
    ensures
        best_time_for(best, seed, laps) matches Some(t) ==> exists|k: int|
            0 <= k < best.len() && on_circuit(best[k], seed, laps) && #[trigger] best[k].time == t,
        best_time_for(best, seed, laps) is None ==> forall|k: int|
            0 <= k < best.len() ==> !on_circuit(#[trigger] best[k], seed, laps),
    decreases best.len(),
{
    if best.len() > 0 {
        let rest = best.drop_last();
        lemma_best_time_attained(rest, seed, laps);
        assert forall|k: int| 0 <= k < rest.len() implies rest[k] == best[k] by {}
        if best_time_for(best, seed, laps) is None {
            assert forall|k: int| 0 <= k < best.len() implies !on_circuit(#[trigger] best[k], seed, laps) by {
                if k < rest.len() {
                    assert(rest[k] == best[k]);
                }
            }
        } else {
            let t = best_time_for(best, seed, laps)->0;
            let last = best.len() - 1;
            if on_circuit(best[last], seed, laps) && best[last].time == t {
                assert(best[last].time == t);
            } else {
                let k = choose|k: int| 0 <= k < rest.len() && on_circuit(rest[k], seed, laps) && #[trigger] rest[k].time == t;
                assert(best[k] == rest[k]);
                assert(best[k].time == t);
            }
        }
    }
}

/// The score board of a circuit opens with the record that a round on it
/// begins with: it is empty exactly when no one has finished the circuit
/// for that lap count, and its first time is the fastest best time.
pub proof fn the_board_opens_with_the_record(best: Seq<BestTime>, seed: u64, laps: usize, out: Seq<(u64, String)>)
    requires
        records_of(best, seed, laps, out),
    ensures
        (out.len() == 0) == (best_time_for(best, seed, laps) is None),
        out.len() > 0 ==> best_time_for(best, seed, laps) == Some(out[0].0),
{
    lemma_best_time_attained(best, seed, laps);
    if out.len() > 0 {
        assert(from_circuit(best, seed, laps, out[0]));
        let k0 = choose|k: int|
            0 <= k < best.len() && on_circuit(best[k], seed, laps) && #[trigger] entry_key(best[k]) == line_key(out[0]);
        lemma_best_time_bound(best, seed, laps, k0);
        let t = best_time_for(best, seed, laps)->0;
        let k = choose|k: int| 0 <= k < best.len() && on_circuit(best[k], seed, laps) && #[trigger] best[k].time == t;
        let e = entry_key(best[k]);
        if listed(out, e) {
            let i = choose|i: int| 0 <= i < out.len() && #[trigger] line_key(out[i]) == e;
            if i > 0 {
                assert(key_lt(line_key(out[0]), line_key(out[i])));
            }
        } else {
            let last = out.len() - 1;
            assert(key_lt(line_key(out[last]), e));
            if last > 0 {
                assert(key_lt(line_key(out[0]), line_key(out[last])));
            }
        }
    } else {
        if best_time_for(best, seed, laps) is Some {
            let t = best_time_for(best, seed, laps)->0;
            let k = choose|k: int| 0 <= k < best.len() && on_circuit(best[k], seed, laps) && #[trigger] best[k].time == t;
            assert(!listed(out, entry_key(best[k])));
        }
    }
}

} // verus!
