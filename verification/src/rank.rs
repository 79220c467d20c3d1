//! Ranking: shuffle the scored batch to randomize the order of tied
//! candidates, then sort it by descending match score with a stable
//! insertion sort that keeps the shuffle's order among equals.

use vstd::prelude::*;
use crate::model::CandidatePerson;
use crate::score::{score_le, score_lt, lemma_score_le_lt_trans};
use rand::seq::SliceRandom;

verus! {

broadcast use vstd::seq_lib::group_to_multiset_ensures, vstd::multiset::group_multiset_axioms;

/// Match scores descend along the sequence.
pub open spec fn sorted_desc(s: Seq<CandidatePerson>) -> bool {
    forall|i: int, j: int|
        0 <= i <= j < s.len() ==> score_le(
            (#[trigger] s[j]).match_score,
            (#[trigger] s[i]).match_score,
        )
}

/// Every score in the batch has a positive denominator, so comparisons
/// behave like rationals.
pub open spec fn dens_ok(s: Seq<CandidatePerson>) -> bool {
    forall|i: int| 0 <= i < s.len() ==> 1 <= (#[trigger] s[i]).match_score.den
}

/// Relies on rand's `SliceRandom::shuffle` with the thread-local
/// generator: a Fisher-Yates pass permutes the slice in place, so its
/// contents as a multiset, and its length, are unchanged. Of the resulting
/// order nothing is stated: it depends on the generator.
#[verifier::external_body]
pub(crate) fn shuffle_candidates(v: &mut Vec<CandidatePerson>)
    ensures
        final(v)@.to_multiset() == old(v)@.to_multiset(),
        final(v)@.len() == old(v)@.len(),
{
    let mut rng = rand::rng();
    v.shuffle(&mut rng);
}

/// Positive denominators carry over to any multiset-equal batch.
pub proof fn lemma_dens_ok_multiset(a: Seq<CandidatePerson>, b: Seq<CandidatePerson>)
    requires
        a.to_multiset() == b.to_multiset(),
        dens_ok(a),
    ensures
        dens_ok(b),
{
    assert forall|i: int| 0 <= i < b.len() implies 1 <= (#[trigger] b[i]).match_score.den by {
        assert(b.contains(b[i]));
        assert(b.to_multiset().count(b[i]) > 0);
        assert(a.contains(b[i]));
        let j = choose|j: int| 0 <= j < a.len() && a[j] == b[i];
        assert(1 <= a[j].match_score.den);
    }
}

/// The first position of `out` whose score is strictly below `c`'s;
/// inserting `c` there puts it after every at-least-equal score, so tied
/// candidates keep their existing order.
fn insert_pos(out: &Vec<CandidatePerson>, c: &CandidatePerson) -> (k: usize)
    ensures
        k <= out@.len(),
        forall|i: int|
            0 <= i < k ==> !score_lt((#[trigger] out@[i]).match_score, c.match_score),
        k < out@.len() ==> score_lt(out@[k as int].match_score, c.match_score),
{
    let mut k: usize = 0;
    while k < out.len()
        invariant
            k <= out@.len(),
            forall|i: int|
                0 <= i < k ==> !score_lt((#[trigger] out@[i]).match_score, c.match_score),
        decreases out@.len() - k,
    {
        if out[k].match_score.is_below(&c.match_score) {
            return k;
        }
        k = k + 1;
    }
    k
}

/// Stable descending sort by match score: the result is a permutation of
/// the input whose scores descend; candidates with equal scores keep the
/// order the input gave them.
#[verifier::loop_isolation(false)]
pub fn sort_by_score(v: Vec<CandidatePerson>) -> (r: Vec<CandidatePerson>)
    requires
        dens_ok(v@),
    ensures
        r@.to_multiset() == v@.to_multiset(),
        r@.len() == v@.len(),
        sorted_desc(r@),
{
    let mut rest = v;
    let ghost orig = rest@;
    let mut out: Vec<CandidatePerson> = Vec::new();
    while rest.len() > 0
        invariant
            out@.len() + rest@.len() == orig.len(),
            out@.to_multiset().add(rest@.to_multiset()) == orig.to_multiset(),
            sorted_desc(out@),
            dens_ok(out@),
            dens_ok(rest@),
        decreases rest@.len(),
    {
        let ghost out_pre = out@;
        let ghost rest_pre = rest@;
        let c = rest.remove(0);
        let k = insert_pos(&out, &c);
        out.insert(k, c);
        proof {
            assert(out@ == out_pre.insert(k as int, c));
            assert(rest@ == rest_pre.remove(0));
            assert(out@.to_multiset() == out_pre.to_multiset().insert(c));
            assert(rest@.to_multiset() == rest_pre.to_multiset().remove(c));
            assert(rest_pre.contains(rest_pre[0]));
            assert(rest_pre.to_multiset().count(c) > 0);
            assert(out@.to_multiset().add(rest@.to_multiset()) =~= orig.to_multiset()) by {
                assert(forall|e: CandidatePerson|
                    #![trigger out@.to_multiset().count(e)]
                    out@.to_multiset().count(e) + rest@.to_multiset().count(e)
                        == out_pre.to_multiset().count(e) + rest_pre.to_multiset().count(e));
            }
            assert forall|i: int| 0 <= i < out@.len() implies 1 <= (
            #[trigger] out@[i]).match_score.den by {
                if i < k {
                    assert(out@[i] == out_pre[i]);
                } else if i == k {
                    assert(out@[i] == c);
                } else {
                    assert(out@[i] == out_pre[i - 1]);
                }
            }
            assert forall|x: int, y: int| 0 <= x <= y < out@.len() implies score_le(
                (#[trigger] out@[y]).match_score,
                (#[trigger] out@[x]).match_score,
            ) by {
                let ghost ki = k as int;
                if y < ki {
                    assert(out@[x] == out_pre[x] && out@[y] == out_pre[y]);
                } else if x > ki {
                    assert(out@[x] == out_pre[x - 1] && out@[y] == out_pre[y - 1]);
                } else if x < ki && y == ki {
                    // everything before k is not strictly below c
                    assert(!score_lt(out_pre[x].match_score, c.match_score));
                } else if x == ki && y == ki {
                } else if x == ki && y > ki {
                    // out_pre[k] is strictly below c, and descends afterwards
                    assert(score_lt(out_pre[ki].match_score, c.match_score));
                    assert(score_le(out_pre[y - 1].match_score, out_pre[ki].match_score));
                    lemma_score_le_lt_trans(
                        out_pre[y - 1].match_score,
                        out_pre[ki].match_score,
                        c.match_score,
                    );
                } else {
                    // x < k < y: both are old elements in their old order
                    assert(out@[x] == out_pre[x] && out@[y] == out_pre[y - 1]);
                }
            }
        }
    }
    proof {
        assert(out@.to_multiset() =~= orig.to_multiset()) by {
            assert(forall|e: CandidatePerson|
                #![trigger rest@.to_multiset().count(e)]
                rest@.to_multiset().count(e) > 0 ==> rest@.contains(e));
        }
    }
    out
}

} // verus!
