//! Ranking of findings: the most confident first, and among equally
//! confident findings the one that was found first.

use crate::model::{views, Optimization, OptimizationView};
use vstd::prelude::*;

verus! {

/// The findings stand in the order of their confidence, the most confident
/// first.
pub open spec fn is_ranked(s: Seq<OptimizationView>) -> bool {
    forall|i: int, j: int| 0 <= i < j < s.len() ==> s[i].confidence >= s[j].confidence
}

/// The number of findings at the head of `s` that are at least as confident
/// as `confidence`: the place where a new finding of that confidence goes.
pub open spec fn rank_position(s: Seq<OptimizationView>, confidence: u32) -> int
    decreases s.len(),
{
    if s.len() > 0 && s.first().confidence >= confidence {
        1 + rank_position(s.drop_first(), confidence)
    } else {
        0
    }
}

/// `s` ordered by confidence, the most confident first; findings of equal
/// confidence keep the order they have in `s`.
pub open spec fn ranked(s: Seq<OptimizationView>) -> Seq<OptimizationView>
    decreases s.len(),
{
    if s.len() == 0 {
        s
    } else {
        let head = ranked(s.drop_last());
        head.insert(rank_position(head, s.last().confidence), s.last())
    }
}

/// The test that picks the findings of one confidence.
pub open spec fn has_confidence(confidence: u32) -> spec_fn(OptimizationView) -> bool {
    |o: OptimizationView| o.confidence == confidence
}

/// The place where a finding goes lies within the list. Before it stand only
/// findings at least as confident; in a ranked list, behind it stand only
/// less confident ones.
pub proof fn lemma_rank_position(s: Seq<OptimizationView>, confidence: u32)
    ensures
        0 <= rank_position(s, confidence) <= s.len(),
        forall|i: int|
            0 <= i < rank_position(s, confidence) ==> s[i].confidence >= confidence,
        is_ranked(s) ==> forall|i: int|
            rank_position(s, confidence) <= i < s.len() ==> s[i].confidence < confidence,
    decreases s.len(),
{
    if s.len() > 0 && s.first().confidence >= confidence {
        let rest = s.drop_first();
        lemma_rank_position(rest, confidence);
        assert forall|i: int| 0 <= i < rank_position(s, confidence) implies s[i].confidence
            >= confidence by {
            if i > 0 {
                assert(s[i] == rest[i - 1]);
            }
        }
        if is_ranked(s) {
            assert forall|i: int, j: int| 0 <= i < j < rest.len() implies rest[i].confidence
                >= rest[j].confidence by {
                assert(rest[i] == s[i + 1] && rest[j] == s[j + 1]);
            }
            assert forall|i: int| rank_position(s, confidence) <= i < s.len() implies s[i].confidence
                < confidence by {
                assert(s[i] == rest[i - 1]);
            }
        }
    }
}

/// Ranking orders the findings by confidence, the most confident first.
pub proof fn lemma_ranked_is_ranked(s: Seq<OptimizationView>)
    ensures
        is_ranked(ranked(s)),
    decreases s.len(),
{
    if s.len() > 0 {
        let head = ranked(s.drop_last());
        let x = s.last();
        let k = rank_position(head, x.confidence);
        lemma_ranked_is_ranked(s.drop_last());
        lemma_rank_position(head, x.confidence);
        let out = head.insert(k, x);
        assert forall|i: int, j: int| 0 <= i < j < out.len() implies out[i].confidence
            >= out[j].confidence by {
            if j < k {
                assert(out[i] == head[i] && out[j] == head[j]);
            } else if j == k {
                assert(out[i] == head[i]);
            } else if i < k {
                assert(out[i] == head[i] && out[j] == head[j - 1]);
            } else if i == k {
                assert(out[j] == head[j - 1]);
            } else {
                assert(out[i] == head[i - 1] && out[j] == head[j - 1]);
            }
        }
    }
}

/// Ranking neither drops a finding nor adds one: the ranked list holds the
/// same findings, each as often as before.
pub proof fn lemma_ranked_is_permutation(s: Seq<OptimizationView>)
    ensures
        ranked(s).to_multiset() == s.to_multiset(),
        ranked(s).len() == s.len(),
    decreases s.len(),
{
    if s.len() > 0 {
        let head = ranked(s.drop_last());
        let x = s.last();
        lemma_ranked_is_permutation(s.drop_last());
        lemma_rank_position(head, x.confidence);
        vstd::seq_lib::to_multiset_insert(head, rank_position(head, x.confidence), x);
        vstd::seq_lib::to_multiset_build(s.drop_last(), x);
        assert(s.drop_last().push(x) =~= s);
    }
}

/// Ranking is stable: the findings of any one confidence stand in the ranked
/// list in the order in which they were found.
pub proof fn law_ranking_is_stable(s: Seq<OptimizationView>, confidence: u32)
    ensures
        ranked(s).filter(has_confidence(confidence)) == s.filter(has_confidence(confidence)),
    decreases s.len(),
{
    let same = has_confidence(confidence);
    if s.len() > 0 {
        let head = ranked(s.drop_last());
        let x = s.last();
        let k = rank_position(head, x.confidence);
        law_ranking_is_stable(s.drop_last(), confidence);
        lemma_ranked_is_ranked(s.drop_last());
        lemma_rank_position(head, x.confidence);
        let front = head.take(k);
        let back = head.skip(k);
        assert(head =~= front + back);
        assert(head.insert(k, x) =~= front.push(x) + back);
        Seq::filter_distributes_over_add(front, back, same);
        Seq::filter_distributes_over_add(front.push(x), back, same);
        front.lemma_filter_push(x, same);
        s.drop_last().lemma_filter_push(x, same);
        assert(s.drop_last().push(x) =~= s);
        if x.confidence == confidence {
            assert forall|i: int| 0 <= i < back.len() implies !same(#[trigger] back[i]) by {
                assert(back[i] == head[k + i]);
            }
            back.lemma_all_neg_filter_empty(same);
            assert(front.filter(same).push(x) + back.filter(same) =~= front.filter(same)
                + back.filter(same).push(x));
            assert(back.filter(same) =~= Seq::<OptimizationView>::empty());
            assert(front.filter(same).push(x) + back.filter(same) =~= (front.filter(same)
                + back.filter(same)).push(x));
        }
    }
}

/// Orders `found` by confidence, the most confident first. Findings of equal
/// confidence keep their order.
pub fn rank_by_confidence(found: Vec<Optimization>) -> (result: Vec<Optimization>)
    ensures
        views(result@) == ranked(views(found@)),
        is_ranked(views(result@)),
        views(result@).to_multiset() == views(found@).to_multiset(),
        result.len() == found.len(),
{
    let ghost all = views(found@);
    let mut result: Vec<Optimization> = Vec::new();
    for item in it: found
        invariant
            it.seq() == found@,
            views(result@) == ranked(views(found@.take(it.index()))),
    {
        let ghost head = views(result@);
        let ghost done = found@.take(it.index());
        let mut k: usize = 0;
        assert(head.skip(0) =~= head);
        while k < result.len() && result[k].confidence >= item.confidence
            invariant
                k <= result.len(),
                head == views(result@),
                rank_position(head, item.confidence) == k + rank_position(
                    head.skip(k as int),
                    item.confidence,
                ),
            decreases result.len() - k,
        {
            assert(head.skip(k as int).drop_first() =~= head.skip(k + 1));
            k += 1;
        }
        result.insert(k, item);
        proof {
            let next = found@.take(it.index() + 1);
            assert(views(next).drop_last() =~= views(done));
            assert(views(next).last() == item@);
            assert(views(result@) =~= head.insert(k as int, item@));
        }
    }
    proof {
        assert(found@.take(found@.len() as int) =~= found@);
        lemma_ranked_is_ranked(all);
        lemma_ranked_is_permutation(all);
    }
    result
}

} // verus!
