use vstd::prelude::*;
use crate::types::{Leaderboard, Match, Weapon};

verus! {

/// A record ranked by one of its numbers.
pub trait Ranked: Sized {
    spec fn weight_of(&self) -> u64;

    fn weight(&self) -> (r: u64)
        ensures
            r == self.weight_of(),
    ;
}

/// Weapons rank by damage.
impl Ranked for Weapon {
    open spec fn weight_of(&self) -> u64 {
        self.damage
    }

    fn weight(&self) -> (r: u64) {
        self.damage
    }
}

/// Leaderboard entries rank by score.
impl Ranked for Leaderboard {
    open spec fn weight_of(&self) -> u64 {
        self.score
    }

    fn weight(&self) -> (r: u64) {
        self.score
    }
}

/// The records of `s` of weight `w`, in the order of `s`.
pub open spec fn with_weight<T: Ranked>(s: Seq<T>, w: u64) -> Seq<T> {
    s.filter(weighs(w))
}

/// Holds of the records of weight `w`.
pub open spec fn weighs<T: Ranked>(w: u64) -> spec_fn(T) -> bool {
    |x: T| x.weight_of() == w
}

/// Weights never rise along `s`.
pub open spec fn descending<T: Ranked>(s: Seq<T>) -> bool {
    forall|i: int, j: int| 0 <= i < j < s.len() ==> #[trigger] s[i].weight_of() >= #[trigger] s[j].weight_of()
}

/// `r` is `s` sorted by weight, heaviest first, with records of equal weight
/// kept in the order of `s`.
pub open spec fn ranked<T: Ranked>(r: Seq<T>, s: Seq<T>) -> bool {
    &&& descending(r)
    &&& forall|w: u64| #[trigger] with_weight(r, w) == with_weight(s, w)
}

proof fn lemma_with_weight_push<T: Ranked>(s: Seq<T>, x: T, w: u64)
    ensures
        with_weight(s.push(x), w) == if x.weight_of() == w {
            with_weight(s, w).push(x)
        } else {
            with_weight(s, w)
        },
{
    reveal(Seq::filter);
    assert(s.push(x).drop_last() =~= s);
}

proof fn lemma_with_weight_none<T: Ranked>(s: Seq<T>, w: u64)
    requires
        forall|i: int| 0 <= i < s.len() ==> #[trigger] s[i].weight_of() != w,
    ensures
        with_weight(s, w) == Seq::<T>::empty(),
    decreases s.len(),
{
    reveal(Seq::filter);
    if s.len() > 0 {
        lemma_with_weight_none(s.drop_last(), w);
    }
    assert(with_weight(s, w) =~= Seq::<T>::empty());
}

/// `v` sorted by weight, heaviest first; records of equal weight keep their
/// order.
pub fn rank_by_weight<T: Ranked>(v: Vec<T>) -> (r: Vec<T>)
    ensures
        ranked(r@, v@),
        r@.len() == v@.len(),
{
    let mut src = v;
    let ghost s = src@;
    let mut out: Vec<T> = Vec::new();
    let mut taken: usize = 0;
    let n = src.len();
    while taken < n
        invariant
            n == s.len(),
            taken <= n,
            src@ == s.skip(taken as int),
            descending(out@),
            out@.len() == taken,
            forall|w: u64| #[trigger] with_weight(out@, w) == with_weight(s.take(taken as int), w),
        decreases n - taken,
    {
        proof {
            assert(src@.len() == n - taken);
        }
        let x = src.remove(0);
        proof {
            assert(x == s[taken as int]);
            assert(src@ =~= s.skip(taken + 1));
        }
        let xw = x.weight();
        let mut k: usize = 0;
        while k < out.len() && out[k].weight() >= xw
            invariant
                k <= out@.len(),
                forall|j: int| 0 <= j < k ==> #[trigger] out@[j].weight_of() >= xw,
            decreases out@.len() - k,
        {
            k = k + 1;
        }
        let ghost before = out@;
        out.insert(k, x);
        proof {
            let a = before.take(k as int);
            let b = before.skip(k as int);
            assert(before =~= a + b);
            assert(out@ =~= a.push(x) + b);
            assert forall|j: int| 0 <= j < b.len() implies #[trigger] b[j].weight_of() < xw by {
                assert(before[k as int].weight_of() < xw);
                if j > 0 {
                    assert(before[k as int].weight_of() >= before[k + j].weight_of());
                }
            }
            assert forall|i: int, j: int| 0 <= i < j < out@.len() implies #[trigger] out@[i].weight_of()
                >= #[trigger] out@[j].weight_of() by {
                if j < k {
                } else if j == k {
                } else if i < k {
                    assert(out@[j] == before[j - 1]);
                    assert(out@[i] == before[i]);
                } else if i == k {
                    assert(out@[j] == b[j - k - 1]);
                } else {
                    assert(out@[j] == before[j - 1]);
                    assert(out@[i] == before[i - 1]);
                }
            }
            assert(s.take(taken + 1) =~= s.take(taken as int).push(x));
            assert forall|w: u64| #[trigger] with_weight(out@, w) == with_weight(s.take(taken + 1), w) by {
                Seq::filter_distributes_over_add(a.push(x), b, weighs(w));
                Seq::filter_distributes_over_add(a, b, weighs(w));
                lemma_with_weight_push(a, x, w);
                lemma_with_weight_push(s.take(taken as int), x, w);
                assert(with_weight(before, w) == with_weight(s.take(taken as int), w));
                assert(with_weight(out@, w) == with_weight(a.push(x), w) + with_weight(b, w));
                assert(with_weight(before, w) == with_weight(a, w) + with_weight(b, w));
                if xw == w {
                    lemma_with_weight_none(b, w);
                    assert(with_weight(a, w) + with_weight(b, w) =~= with_weight(a, w));
                    assert(with_weight(a, w).push(x) + with_weight(b, w) =~= with_weight(a, w).push(x));
                }
            }
        }
        taken = taken + 1;
    }
    proof {
        assert(s.take(n as int) =~= s);
    }
    out
}

/// The sum of the scores of `s`.
pub open spec fn total_score(s: Seq<Match>) -> int
    decreases s.len(),
{
    if s.len() == 0 {
        0
    } else {
        total_score(s.drop_last()) + s.last().score
    }
}

/// The mean score of `s`, truncated.
pub open spec fn mean_score(s: Seq<Match>) -> int
    recommends
        s.len() > 0,
{
    total_score(s) / s.len() as int
}

proof fn lemma_total_score_bound(s: Seq<Match>)
    ensures
        0 <= total_score(s) <= s.len() * u64::MAX,
    decreases s.len(),
{
    if s.len() > 0 {
        lemma_total_score_bound(s.drop_last());
    }
}

/// The mean score of a non-empty list of matches, truncated.
pub fn average_score(v: &Vec<Match>) -> (r: u64)
    requires
        v@.len() > 0,
    ensures
        r == mean_score(v@),
{
    let mut sum: u128 = 0;
    let mut i: usize = 0;
    while i < v.len()
        invariant
            i <= v@.len(),
            sum == total_score(v@.take(i as int)),
        decreases v@.len() - i,
    {
        proof {
            assert(v@.take(i + 1).drop_last() =~= v@.take(i as int));
            lemma_total_score_bound(v@.take(i as int));
            assert(i * u64::MAX + u64::MAX <= usize::MAX as int * u64::MAX + u64::MAX) by (nonlinear_arith)
                requires i <= usize::MAX;
        }
        sum = sum + v[i].score as u128;
        i = i + 1;
    }
    proof {
        assert(v@.take(v@.len() as int) =~= v@);
        lemma_total_score_bound(v@);
        let n = v@.len() as int;
        assert(sum as int / n <= u64::MAX) by (nonlinear_arith)
            requires n > 0, sum as int <= n * u64::MAX;
    }
    (sum / (v.len() as u128)) as u64
}

} // verus!
