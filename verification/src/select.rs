//! Top-k selection of rows by a sort key.
//!
//! The ordered, capped reads (nearby reports, verification queues, result
//! lists, leaderboards) all reduce to one primitive: given candidate rows
//! tagged with a key, hand back the `cap` greatest, strictly ordered. Keys
//! are made total by the row id, so the answer is unique and the contract
//! pins it completely.

use vstd::prelude::*;
use vstd::seq_lib::group_seq_properties;
use vstd::set_lib::lemma_len_subset;

verus! {

/// One candidate row: its primary sort key, the id that breaks ties, and
/// the row's index in the table it came from.
#[derive(Debug, Clone, Copy, PartialEq, Eq, Structural)]
pub(crate) struct Cand {
    pub key: i64,
    pub id: u64,
    pub idx: usize,
}

/// Strict order on candidates: by key, then by id. Total on any set of
/// candidates with pairwise distinct ids.
pub(crate) open spec fn cand_lt(a: Cand, b: Cand) -> bool {
    a.key < b.key || (a.key == b.key && a.id < b.id)
}

/// Pairwise distinct ids make `cand_lt` a strict total order.
pub(crate) open spec fn cand_ids_distinct(s: Seq<Cand>) -> bool {
    forall|i: int, j: int| 0 <= i < j < s.len() ==> s[i].id != s[j].id
}

/// Whether `c` may still be taken: anything goes while `out` is empty, and
/// afterwards only candidates strictly below the last one taken.
pub(crate) open spec fn eligible(out: Seq<Cand>, c: Cand) -> bool {
    out.len() == 0 || cand_lt(c, out.last())
}

/// The `cap` greatest candidates, strictly descending by `(key, id)`.
///
/// The result holds only candidates; every candidate is either in the
/// result or - when the result is full - strictly below its last entry; and
/// a cap at or above the number of candidates returns them all.
pub(crate) fn top_desc(cands: &Vec<Cand>, cap: usize) -> (out: Vec<Cand>)
    requires
        cap >= 1,
        cand_ids_distinct(cands@),
    ensures
        out@.len() <= cap,
        forall|a: int, b: int| 0 <= a < b < out@.len() ==> cand_lt(out@[b], out@[a]),
        forall|k: int| 0 <= k < out@.len() ==> cands@.contains(#[trigger] out@[k]),
        forall|c: Cand|
            cands@.contains(c) ==> out@.contains(c) || (out@.len() == cap && cand_lt(
                c,
                out@.last(),
            )),
        cands@.len() <= cap ==> (forall|c: Cand| cands@.contains(c) ==> out@.contains(c)),
{
    let mut out: Vec<Cand> = Vec::new();
    loop
        invariant
            cap >= 1,
            cand_ids_distinct(cands@),
            out@.len() <= cap,
            forall|a: int, b: int| 0 <= a < b < out@.len() ==> cand_lt(out@[b], out@[a]),
            forall|k: int| 0 <= k < out@.len() ==> cands@.contains(#[trigger] out@[k]),
            forall|c: Cand|
                cands@.contains(c) ==> out@.contains(c) || out@.len() == 0 || cand_lt(
                    c,
                    out@.last(),
                ),
        ensures
            out@.len() <= cap,
            forall|a: int, b: int| 0 <= a < b < out@.len() ==> cand_lt(out@[b], out@[a]),
            forall|k: int| 0 <= k < out@.len() ==> cands@.contains(#[trigger] out@[k]),
            out@.len() == cap || (forall|c: Cand| cands@.contains(c) ==> out@.contains(c)),
            forall|c: Cand|
                cands@.contains(c) ==> out@.contains(c) || out@.len() == 0 || cand_lt(
                    c,
                    out@.last(),
                ),
        decreases cap - out.len(),
    {
        if out.len() >= cap {
            break;
        }
        let n = cands.len();
        let mut best: Option<Cand> = None;
        let mut i: usize = 0;
        while i < n
            invariant
                n == cands@.len(),
                i <= n,
                cand_ids_distinct(cands@),
                match best {
                    Some(b) => cands@.contains(b) && eligible(out@, b) && forall|k: int|
                        0 <= k < i && eligible(out@, #[trigger] cands@[k]) ==> (cands@[k] == b
                            || cand_lt(cands@[k], b)),
                    None => forall|k: int| 0 <= k < i ==> !eligible(out@, #[trigger] cands@[k]),
                },
            decreases n - i,
        {
            let c = cands[i];
            let ok = if out.len() == 0 {
                true
            } else {
                let last = out[out.len() - 1];
                c.key < last.key || (c.key == last.key && c.id < last.id)
            };
            proof {
                assert(ok == eligible(out@, c));
            }
            if ok {
                let replace = match best {
                    None => true,
                    Some(b) => c.key > b.key || (c.key == b.key && c.id > b.id),
                };
                if replace {
                    proof {
                        assert(cands@.contains(cands@[i as int]));
                        if best is Some {
                            assert(cand_lt(best->0, c));
                        }
                    }
                    best = Some(c);
                } else {
                    proof {
                        let b = best->0;
                        let k = choose|k: int| 0 <= k < cands@.len() && cands@[k] == b;
                        if k < i {
                            assert(cands@[k].id != cands@[i as int].id);
                            assert(cand_lt(c, b));
                        } else if k > i {
                            assert(cands@[i as int].id != cands@[k].id);
                            assert(cand_lt(c, b));
                        } else {
                            assert(c == b);
                        }
                    }
                }
            }
            i += 1;
        }
        match best {
            None => {
                proof {
                    assert forall|c: Cand| cands@.contains(c) implies out@.contains(c) by {
                        let k = choose|k: int| 0 <= k < cands@.len() && cands@[k] == c;
                        assert(!eligible(out@, cands@[k]));
                    }
                }
                break;
            },
            Some(b) => {
                let ghost old_out = out@;
                out.push(b);
                proof {
                    assert(out@.last() == b);
                    assert(out@.drop_last() =~= old_out);
                    assert forall|c: Cand| cands@.contains(c) implies out@.contains(c)
                        || out@.len() == 0 || cand_lt(c, out@.last()) by {
                        let k = choose|k: int| 0 <= k < cands@.len() && cands@[k] == c;
                        if old_out.contains(c) {
                            let m = choose|m: int| 0 <= m < old_out.len() && old_out[m] == c;
                            assert(out@[m] == c);
                        } else if eligible(old_out, c) {
                            assert(c == b || cand_lt(c, b));
                            if c == b {
                                assert(out@[out@.len() - 1] == c);
                            }
                        }
                    }
                    assert forall|a: int, bb: int|
                        0 <= a < bb < out@.len() implies cand_lt(out@[bb], out@[a]) by {
                        if bb == out@.len() - 1 {
                            assert(eligible(old_out, b));
                            if a < out@.len() - 1 {
                                assert(cand_lt(b, old_out.last()) || old_out.len() == 0);
                                if a < old_out.len() - 1 {
                                    assert(cand_lt(old_out.last(), old_out[a]));
                                }
                            }
                        }
                    }
                }
            },
        }
    }
    proof {
        if cands@.len() <= cap && out@.len() == cap {
            assert forall|c: Cand| cands@.contains(c) implies out@.contains(c) by {
                if !out@.contains(c) {
                    broadcast use group_seq_properties;
                    assert(out@.no_duplicates()) by {
                        assert forall|a: int, b: int|
                            0 <= a < out@.len() && 0 <= b < out@.len() && a != b implies out@[a]
                            != out@[b] by {
                            if a < b {
                                assert(cand_lt(out@[b], out@[a]));
                            } else {
                                assert(cand_lt(out@[a], out@[b]));
                            }
                        }
                    }
                    out@.unique_seq_to_set();
                    cands@.lemma_cardinality_of_set();
                    let small = out@.to_set();
                    let big = cands@.to_set().remove(c);
                    assert(small.subset_of(big)) by {
                        assert forall|x: Cand| small.contains(x) implies big.contains(x) by {
                            assert(out@.contains(x));
                            assert(cands@.contains(x));
                            assert(x != c);
                        }
                    }
                    assert(cands@.to_set().contains(c));
                    lemma_len_subset(small, big);
                    assert(big.len() == cands@.to_set().len() - 1);
                    assert(false);
                }
            }
        }
    }
    out
}

} // verus!
