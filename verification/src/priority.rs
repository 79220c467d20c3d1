//! The weighted priority-list matcher: an ordered list of acceptable values
//! for one attribute, index 0 most preferred, with a weighted scoring
//! function shared by every scored attribute.

use vstd::prelude::*;
use crate::score::Score;

verus! {

/// The longest priority list the engine accepts; keeps every score
/// computation inside `u64` arithmetic.
pub const MAX_LIST_LEN: usize = 10000;

/// A value a priority list can hold: it carries its own notion of equality,
/// stated as a spec function and decided by a verified method.
pub trait MatchEq: Sized {
    /// What it means for two values to match.
    spec fn sp_eq(&self, other: &Self) -> bool;

    /// Matching is reflexive.
    proof fn lemma_sp_eq_refl(&self)
        ensures
            self.sp_eq(self),
    ;

    /// Decide whether two values match.
    fn eqv(&self, other: &Self) -> (r: bool)
        ensures
            r == self.sp_eq(other),
    ;
}

impl MatchEq for i64 {
    open spec fn sp_eq(&self, other: &Self) -> bool {
        self == other
    }

    proof fn lemma_sp_eq_refl(&self) {
    }

    fn eqv(&self, other: &Self) -> (r: bool) {
        *self == *other
    }
}

impl MatchEq for String {
    open spec fn sp_eq(&self, other: &Self) -> bool {
        self@ == other@
    }

    proof fn lemma_sp_eq_refl(&self) {
    }

    fn eqv(&self, other: &Self) -> (r: bool) {
        <String as PartialEq>::eq(self, other)
    }
}

/// The largest index of `list` whose element matches `v`, or -1 if none
/// does. The exhaustive scan of the scoring formula makes the last matching
/// position the one that counts.
pub open spec fn last_hit<T: MatchEq>(list: Seq<T>, v: T) -> int
    decreases list.len(),
{
    if list.len() == 0 {
        -1
    } else if list.last().sp_eq(&v) {
        list.len() - 1
    } else {
        last_hit(list.drop_last(), v)
    }
}

/// The numerator of the weight `v` earns against `list`: with `N` the list
/// length and `i` the last matching position, the weight is
/// `100 * (N - i) / N`, so position 0 is worth exactly 100 and the last
/// position `100 / N`; a value that matches nowhere is worth 0.
pub open spec fn score_num<T: MatchEq>(list: Seq<T>, v: T) -> int {
    if last_hit(list, v) == -1 {
        0
    } else {
        100 * (list.len() - last_hit(list, v))
    }
}

/// The denominator of the weight: the list length, or 1 for an empty list.
pub open spec fn score_den<T>(list: Seq<T>) -> int {
    if list.len() == 0 {
        1
    } else {
        list.len() as int
    }
}

/// Whether `v` is sought at all: some position of `list` matches it.
pub open spec fn list_seeks<T: MatchEq>(list: Seq<T>, v: T) -> bool {
    last_hit(list, v) >= 0
}

/// `last_hit` stays within the list, lands on a matching element, and no
/// later element matches.
pub proof fn lemma_last_hit_bounds<T: MatchEq>(list: Seq<T>, v: T)
    ensures
        -1 <= last_hit(list, v) < list.len(),
        last_hit(list, v) >= 0 ==> list[last_hit(list, v)].sp_eq(&v),
        forall|j: int| last_hit(list, v) < j < list.len() ==> !(#[trigger] list[j]).sp_eq(&v),
    decreases list.len(),
{
    if list.len() > 0 && !list.last().sp_eq(&v) {
        lemma_last_hit_bounds(list.drop_last(), v);
        assert(forall|j: int| 0 <= j < list.len() - 1 ==> list[j] == list.drop_last()[j]);
    }
}

/// Extending a list by one element either moves the last hit to that element
/// or leaves it unchanged.
pub proof fn lemma_last_hit_push<T: MatchEq>(list: Seq<T>, v: T, x: T)
    ensures
        last_hit(list.push(x), v) == if x.sp_eq(&v) {
            list.len() as int
        } else {
            last_hit(list, v)
        },
{
    assert(list.push(x).drop_last() =~= list);
}

/// An ordered list of acceptable values for one attribute, most preferred
/// first, scored by the weighted-scan formula.
pub struct MatcherFilter<T> {
    pub priority_list: Vec<T>,
}

impl<T: MatchEq> MatcherFilter<T> {
    /// A matcher is well formed when its list is short enough for exact
    /// arithmetic.
    pub open spec fn wf(&self) -> bool {
        self.priority_list@.len() <= MAX_LIST_LEN
    }

    /// Build a matcher over the given ordered values.
    pub fn new(seeks: Vec<T>) -> (r: Option<MatcherFilter<T>>)
        requires
            seeks@.len() <= MAX_LIST_LEN,
        ensures
            r is Some,
            r->Some_0.priority_list@ == seeks@,
            r->Some_0.wf(),
    {
        Some(MatcherFilter { priority_list: seeks })
    }

    /// The ordered values this matcher seeks.
    pub fn getList(&self) -> (r: &Vec<T>)
        ensures
            r == &self.priority_list,
    {
        &self.priority_list
    }

    /// The weighted score of `value` against this list, as an exact
    /// rational: `100 * (N - i) / N` for the last matching position `i`,
    /// 0 if nothing matches or the list is empty.
    pub fn calculate(&self, value: &T) -> (r: Score)
        requires
            self.wf(),
        ensures
            r.num as int == score_num(self.priority_list@, *value),
            r.den as int == score_den(self.priority_list@),
            r.wf(),
    {
        let list = &self.priority_list;
        let count = list.len();
        if count == 0 {
            return Score { num: 0, den: 1 };
        }
        let mut num: u64 = 0;
        let mut i: usize = 0;
        while i < count
            invariant
                0 < count == list@.len() <= MAX_LIST_LEN,
                i <= count,
                num as int == if last_hit(list@.take(i as int), *value) == -1 {
                    0int
                } else {
                    100 * (count - last_hit(list@.take(i as int), *value))
                },
                num <= 100 * count,
            decreases count - i,
        {
            proof {
                lemma_last_hit_push(list@.take(i as int), *value, list@[i as int]);
                assert(list@.take(i as int).push(list@[i as int]) =~= list@.take(i + 1));
                lemma_last_hit_bounds(list@.take(i + 1), *value);
            }
            if list[i].eqv(value) {
                num = 100 * ((count - i) as u64);
            }
            i = i + 1;
        }
        proof {
            assert(list@.take(count as int) =~= list@);
            lemma_last_hit_bounds(list@, *value);
        }
        Score { num, den: count as u64 }
    }

    /// Whether this matcher seeks `value` at all: true exactly when the
    /// score of `value` is positive.
    pub fn seeks(&self, value: &T) -> (r: bool)
        requires
            self.wf(),
        ensures
            r == list_seeks(self.priority_list@, *value),
    {
        proof {
            lemma_last_hit_bounds(self.priority_list@, *value);
        }
        let s = self.calculate(value);
        s.num > 0
    }
}

/// The score of the value at position 0 of a duplicate-free list is exactly
/// 100, and the score of the value at the last position `N - 1` is exactly
/// `100 / N`.
pub proof fn lemma_score_extremes<T: MatchEq>(list: Seq<T>)
    requires
        list.len() > 0,
        forall|i: int, j: int|
            #![trigger list[i].sp_eq(&list[j])]
            0 <= i < list.len() && 0 <= j < list.len() && i != j ==> !list[i].sp_eq(&list[j]),
    ensures
        score_num(list, list[0]) == 100 * list.len(),
        score_num(list, list[0]) == 100 * score_den(list),
        score_den(list) == list.len(),
        score_num(list, list[list.len() - 1]) == 100,
{
    let first = list[0];
    let last = list[list.len() - 1];
    first.lemma_sp_eq_refl();
    last.lemma_sp_eq_refl();
    lemma_last_hit_bounds(list, first);
    lemma_last_hit_bounds(list, last);
    lemma_eq_sym_hit(list, first, 0);
    lemma_eq_sym_hit(list, last, list.len() - 1);
}

/// In a duplicate-free list, the only position matching `list[k]` is `k`
/// itself, so `last_hit` is exactly `k`.
proof fn lemma_eq_sym_hit<T: MatchEq>(list: Seq<T>, v: T, k: int)
    requires
        0 <= k < list.len(),
        list[k].sp_eq(&v),
        v == list[k],
        forall|i: int, j: int|
            #![trigger list[i].sp_eq(&list[j])]
            0 <= i < list.len() && 0 <= j < list.len() && i != j ==> !list[i].sp_eq(&list[j]),
    ensures
        last_hit(list, v) == k,
    decreases list.len(),
{
    lemma_last_hit_bounds(list, v);
    if last_hit(list, v) != k {
        let h = last_hit(list, v);
        if h > k {
            assert(list[h].sp_eq(&v));
            assert(!list[k].sp_eq(&list[h]));
        } else {
            assert(h < list.len());
        }
    }
}

/// A value that matches no element of the list scores exactly 0.
pub proof fn lemma_absent_scores_zero<T: MatchEq>(list: Seq<T>, v: T)
    requires
        forall|i: int| 0 <= i < list.len() ==> !(#[trigger] list[i]).sp_eq(&v),
    ensures
        score_num(list, v) == 0,
        !list_seeks(list, v),
{
    lemma_last_hit_bounds(list, v);
}

/// An empty priority list scores 0 for every input and seeks nothing.
pub proof fn lemma_empty_list_scores_zero<T: MatchEq>(list: Seq<T>, v: T)
    requires
        list.len() == 0,
    ensures
        score_num(list, v) == 0,
        score_den(list) == 1,
        !list_seeks(list, v),
{
}

/// A positive score and being sought coincide.
pub proof fn lemma_seeks_iff_positive<T: MatchEq>(list: Seq<T>, v: T)
    ensures
        list_seeks(list, v) <==> score_num(list, v) > 0,
{
    lemma_last_hit_bounds(list, v);
}

} // verus!
