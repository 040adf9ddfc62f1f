//! Ranking of a cycle's candidates and truncation to the per-cycle ceiling.

use crate::model::{HostMeta, Problem};
use vstd::prelude::*;

verus! {

/// A fetched incident together with its host metadata, if resolved.
#[derive(Clone, Debug)]
pub struct Candidate {
    pub problem: Problem,
    pub host: Option<HostMeta>,
}

impl HostMeta {
    /// A field-by-field copy.
    pub fn duplicate(&self) -> (r: HostMeta)
        ensures
            r == *self,
    {
        let host = match &self.host {
            Some(h) => Some(h.clone()),
            None => None,
        };
        HostMeta { host, display_name: self.display_name.clone(), status: self.status }
    }
}

impl Candidate {
    /// A field-by-field copy.
    pub fn duplicate(&self) -> (r: Candidate)
        ensures
            r == *self,
    {
        let host = match &self.host {
            Some(h) => Some(h.duplicate()),
            None => None,
        };
        Candidate { problem: self.problem.duplicate(), host }
    }
}

/// Whether `a` is notified before `b` on its own merits: unacknowledged
/// first, then more severe first, then more recently detected first.
pub open spec fn outranks(a: Problem, b: Problem) -> bool {
    if a.acknowledged != b.acknowledged {
        !a.acknowledged
    } else if a.severity != b.severity {
        a.severity.spec_level() > b.severity.spec_level()
    } else {
        a.clock > b.clock
    }
}

/// Whether the candidate at `i` comes before the one at `j` in the ranking;
/// candidates that neither outranks keep their fetch order.
pub open spec fn precedes(s: Seq<Candidate>, i: int, j: int) -> bool {
    outranks(s[i].problem, s[j].problem) || (!outranks(s[j].problem, s[i].problem) && i < j)
}

/// `ord` lists the positions of `s` in ranking order.
pub open spec fn is_rank_order(s: Seq<Candidate>, ord: Seq<usize>) -> bool {
    &&& ord.len() == s.len()
    &&& forall|k: int| 0 <= k < ord.len() ==> #[trigger] ord[k] < s.len()
    &&& forall|a: int, b: int| 0 <= a < b < ord.len() ==> precedes(s, #[trigger] ord[a] as int, #[trigger] ord[b] as int)
}

/// `r` is `s` rearranged in ranking order.
pub open spec fn is_ranked(s: Seq<Candidate>, r: Seq<Candidate>) -> bool {
    exists|ord: Seq<usize>| is_rank_order(s, ord) && r == ord.map_values(|i: usize| s[i as int])
}

proof fn lemma_outranks_order(a: Problem, b: Problem, c: Problem)
    ensures
        !outranks(a, a),
        outranks(a, b) ==> !outranks(b, a),
        outranks(a, b) && outranks(b, c) ==> outranks(a, c),
        !outranks(a, b) && !outranks(b, a) ==> (outranks(a, c) == outranks(b, c) && outranks(c, a) == outranks(c, b)),
{
}

proof fn lemma_precedes_order(s: Seq<Candidate>, i: int, j: int, k: int)
    requires
        0 <= i < s.len(),
        0 <= j < s.len(),
        0 <= k < s.len(),
    ensures
        !precedes(s, i, i),
        i != j ==> (precedes(s, i, j) || precedes(s, j, i)),
        precedes(s, i, j) ==> !precedes(s, j, i),
        precedes(s, i, j) && precedes(s, j, k) ==> precedes(s, i, k),
{
    lemma_outranks_order(s[i].problem, s[j].problem, s[k].problem);
    lemma_outranks_order(s[j].problem, s[k].problem, s[i].problem);
    lemma_outranks_order(s[k].problem, s[i].problem, s[j].problem);
    lemma_outranks_order(s[i].problem, s[k].problem, s[j].problem);
}

/// Whether `a` outranks `b`.
pub fn outranks_exec(a: &Problem, b: &Problem) -> (r: bool)
    ensures
        r == outranks(*a, *b),
{
    if a.acknowledged != b.acknowledged {
        !a.acknowledged
    } else if a.severity != b.severity {
        a.severity.is_above(b.severity)
    } else {
        a.clock > b.clock
    }
}

/// The positions of `cands` in ranking order: unacknowledged first, then by
/// severity descending, then by detection time descending; ties keep their
/// fetch order.
pub fn rank_order(cands: &Vec<Candidate>) -> (r: Vec<usize>)
    ensures
        is_rank_order(cands@, r@),
{
    let ghost s = cands@;
    let mut order: Vec<usize> = Vec::new();
    let mut i: usize = 0;
    while i < cands.len()
        invariant
            s == cands@,
            i <= s.len(),
            order@.len() == i,
            forall|k: int| 0 <= k < order@.len() ==> #[trigger] order@[k] < i,
            forall|a: int, b: int| 0 <= a < b < order@.len() ==> precedes(s, #[trigger] order@[a] as int, #[trigger] order@[b] as int),
        decreases s.len() - i,
    {
        let mut p: usize = 0;
        while p < order.len() && !outranks_exec(&cands[i].problem, &cands[order[p]].problem)
            invariant
                s == cands@,
                i < s.len(),
                p <= order@.len(),
                order@.len() == i,
                forall|k: int| 0 <= k < order@.len() ==> #[trigger] order@[k] < i,
                forall|k: int| 0 <= k < p ==> precedes(s, #[trigger] order@[k] as int, i as int),
            decreases order@.len() - p,
        {
            proof {
                lemma_precedes_order(s, order@[p as int] as int, i as int, i as int);
            }
            p += 1;
        }
        let ghost before = order@;
        proof {
            assert forall|k: int| p <= k < before.len() implies precedes(s, i as int, #[trigger] before[k] as int) by {
                lemma_precedes_order(s, i as int, before[p as int] as int, before[k] as int);
                if k > p {
                    assert(precedes(s, before[p as int] as int, before[k] as int));
                }
            }
        }
        order.insert(p, i);
        proof {
            assert(order@ == before.insert(p as int, i));
            assert forall|k: int| 0 <= k < order@.len() implies #[trigger] order@[k] < i + 1 by {
                if k < p {
                    assert(order@[k] == before[k]);
                } else if k > p {
                    assert(order@[k] == before[k - 1]);
                }
            }
            assert forall|a: int, b: int| 0 <= a < b < order@.len() implies precedes(s, #[trigger] order@[a] as int, #[trigger] order@[b] as int) by {
                if b < p {
                    assert(order@[a] == before[a] && order@[b] == before[b]);
                } else if b == p {
                    assert(order@[a] == before[a]);
                } else if a < p {
                    assert(order@[a] == before[a] && order@[b] == before[b - 1]);
                } else if a == p {
                    assert(order@[b] == before[b - 1]);
                } else {
                    assert(order@[a] == before[a - 1] && order@[b] == before[b - 1]);
                }
            }
        }
        i += 1;
    }
    order
}

/// `cands` rearranged in ranking order (see `rank_order`).
pub fn rank(cands: &Vec<Candidate>) -> (r: Vec<Candidate>)
    ensures
        is_ranked(cands@, r@),
{
    let order = rank_order(cands);
    let mut out: Vec<Candidate> = Vec::new();
    let mut k: usize = 0;
    while k < order.len()
        invariant
            is_rank_order(cands@, order@),
            k <= order@.len(),
            out@ == order@.subrange(0, k as int).map_values(|i: usize| cands@[i as int]),
        decreases order@.len() - k,
    {
        let c = cands[order[k]].duplicate();
        out.push(c);
        proof {
            assert(order@.subrange(0, k + 1).map_values(|i: usize| cands@[i as int]) =~= order@.subrange(0, k as int).map_values(|i: usize| cands@[i as int]).push(cands@[order@[k as int] as int]));
        }
        k += 1;
    }
    proof {
        assert(order@.subrange(0, order@.len() as int) =~= order@);
    }
    out
}

/// `r` is the first `max` candidates of `s` in ranking order.
pub open spec fn is_ranked_prefix(s: Seq<Candidate>, r: Seq<Candidate>, max: nat) -> bool {
    exists|ord: Seq<usize>|
        is_rank_order(s, ord) && r == ord.map_values(|i: usize| s[i as int]).take(
            if s.len() < max { s.len() as int } else { max as int },
        )
}

/// Ranks the candidates and keeps at most `max_notif` of them.
pub fn select_candidates(cands: &Vec<Candidate>, max_notif: usize) -> (r: Vec<Candidate>)
    ensures
        r@.len() <= max_notif,
        r@.len() == (if cands@.len() < max_notif { cands@.len() } else { max_notif as nat }),
        is_ranked_prefix(cands@, r@, max_notif as nat),
{
    let mut ranked = rank(cands);
    let ghost full = ranked@;
    if ranked.len() > max_notif {
        ranked.truncate(max_notif);
    }
    proof {
        let ord = choose|ord: Seq<usize>| is_rank_order(cands@, ord) && full == ord.map_values(|i: usize| cands@[i as int]);
        let n: int = if cands@.len() < max_notif { cands@.len() as int } else { max_notif as int };
        assert(ranked@ =~= ord.map_values(|i: usize| cands@[i as int]).take(n));
    }
    ranked
}

/// Among queued items of a ranked selection, a later one never outranks an
/// earlier one: unacknowledged before acknowledged, then severity
/// descending, then detection time descending.
pub proof fn lemma_queued_in_rank_order(s: Seq<Candidate>, selected: Seq<Candidate>, max: nat, queued: Seq<usize>)
    requires
        is_ranked_prefix(s, selected, max),
        forall|k: int| 0 <= k < queued.len() ==> #[trigger] queued[k] < selected.len(),
        forall|a: int, b: int| 0 <= a < b < queued.len() ==> queued[a] < queued[b],
    ensures
        forall|a: int, b: int| 0 <= a < b < queued.len() ==>
            !outranks(selected[#[trigger] queued[b] as int].problem, selected[#[trigger] queued[a] as int].problem),
{
    let ord = choose|ord: Seq<usize>|
        is_rank_order(s, ord) && selected == ord.map_values(|i: usize| s[i as int]).take(
            if s.len() < max { s.len() as int } else { max as int },
        );
    assert forall|a: int, b: int| 0 <= a < b < queued.len() implies
        !outranks(selected[#[trigger] queued[b] as int].problem, selected[#[trigger] queued[a] as int].problem) by {
        let x = queued[a] as int;
        let y = queued[b] as int;
        assert(x < y);
        assert(selected[x] == s[ord[x] as int]);
        assert(selected[y] == s[ord[y] as int]);
        assert(precedes(s, ord[x] as int, ord[y] as int));
        lemma_outranks_order(s[ord[x] as int].problem, s[ord[y] as int].problem, s[ord[y] as int].problem);
    }
}

} // verus!
