//! The order in which setup candidates are preferred, and the
//! recommendation it makes.
use vstd::prelude::*;

use crate::benchmark::{SetupBenchmarkReport, SetupCandidate};
use std::cmp::Ordering;

verus! {

/// The order of two `u128` values.
pub open spec fn order_of_u128(a: u128, b: u128) -> Ordering {
    if a < b {
        Ordering::Less
    } else if a == b {
        Ordering::Equal
    } else {
        Ordering::Greater
    }
}

/// The order of two `u64` values.
pub open spec fn order_of_u64(a: u64, b: u64) -> Ordering {
    if a < b {
        Ordering::Less
    } else if a == b {
        Ordering::Equal
    } else {
        Ordering::Greater
    }
}

/// The order of two `u8` values.
pub open spec fn order_of_u8(a: u8, b: u8) -> Ordering {
    if a < b {
        Ordering::Less
    } else if a == b {
        Ordering::Equal
    } else {
        Ordering::Greater
    }
}

/// `first`, unless it is `Equal`, in which case `second`.
pub open spec fn then_order(first: Ordering, second: Ordering) -> Ordering {
    match first {
        Ordering::Equal => second,
        _ => first,
    }
}

/// How two candidates compare: a candidate without measurements is lower;
/// otherwise by tier, then by less 95th-percentile, 99th-percentile and
/// worst render time, then by less queue age, then by score.
pub open spec fn candidate_order(left: SetupCandidate, right: SetupCandidate) -> Ordering {
    match left.result {
        None => Ordering::Less,
        Some(l) => match right.result {
            None => Ordering::Greater,
            Some(r) => then_order(
                order_of_u8(left.tier, right.tier),
                then_order(
                    order_of_u128(r.render_p95_nanos, l.render_p95_nanos),
                    then_order(
                        order_of_u128(r.render_p99_nanos, l.render_p99_nanos),
                        then_order(
                            order_of_u128(r.render_max_nanos, l.render_max_nanos),
                            then_order(
                                order_of_u64(r.max_queue_age_nanos, l.max_queue_age_nanos),
                                order_of_u64(left.score, right.score),
                            ),
                        ),
                    ),
                ),
            ),
        },
    }
}

fn order_u128(a: u128, b: u128) -> (o: Ordering)
    ensures
        o == order_of_u128(a, b),
{
    if a < b {
        Ordering::Less
    } else if a == b {
        Ordering::Equal
    } else {
        Ordering::Greater
    }
}

fn order_u64(a: u64, b: u64) -> (o: Ordering)
    ensures
        o == order_of_u64(a, b),
{
    if a < b {
        Ordering::Less
    } else if a == b {
        Ordering::Equal
    } else {
        Ordering::Greater
    }
}

fn order_u8(a: u8, b: u8) -> (o: Ordering)
    ensures
        o == order_of_u8(a, b),
{
    if a < b {
        Ordering::Less
    } else if a == b {
        Ordering::Equal
    } else {
        Ordering::Greater
    }
}

fn then_with(first: Ordering, second: Ordering) -> (o: Ordering)
    ensures
        o == then_order(first, second),
{
    match first {
        Ordering::Equal => second,
        Ordering::Less => Ordering::Less,
        Ordering::Greater => Ordering::Greater,
    }
}

/// Orders setup candidates by stability and headroom before resolution
/// throughput.
pub fn compare_setup_candidates(left: &SetupCandidate, right: &SetupCandidate) -> (o: Ordering)
    ensures
        o == candidate_order(*left, *right),
{
    let l = match left.result {
        None => {
            return Ordering::Less;
        },
        Some(l) => l,
    };
    let r = match right.result {
        None => {
            return Ordering::Greater;
        },
        Some(r) => r,
    };
    then_with(
        order_u8(left.tier, right.tier),
        then_with(
            order_u128(r.render_p95_nanos, l.render_p95_nanos),
            then_with(
                order_u128(r.render_p99_nanos, l.render_p99_nanos),
                then_with(
                    order_u128(r.render_max_nanos, l.render_max_nanos),
                    then_with(
                        order_u64(r.max_queue_age_nanos, l.max_queue_age_nanos),
                        order_u64(left.score, right.score),
                    ),
                ),
            ),
        ),
    )
}

/// Whether a candidate may be recommended: stable and measured.
pub open spec fn eligible(candidate: SetupCandidate) -> bool {
    candidate.tier > 0 && candidate.result is Some
}

/// The recommendation among the first `n` candidates: the greatest
/// eligible candidate, the later one of two that compare equal.
pub open spec fn recommendation(candidates: Seq<SetupCandidate>, n: int) -> Option<int>
    decreases n,
{
    if n <= 0 {
        None
    } else {
        let earlier = recommendation(candidates, n - 1);
        if eligible(candidates[n - 1]) {
            match earlier {
                None => Some(n - 1),
                Some(best) => match candidate_order(candidates[best], candidates[n - 1]) {
                    Ordering::Greater => Some(best),
                    _ => Some(n - 1),
                },
            }
        } else {
            earlier
        }
    }
}


/// Between measured candidates, the order is antisymmetric: `left` is
/// greater than `right` exactly when `right` is less than `left`.
proof fn lemma_order_flips(left: SetupCandidate, right: SetupCandidate)
    requires
        left.result is Some,
        right.result is Some,
    ensures
        (candidate_order(left, right) == Ordering::Greater) == (candidate_order(right, left)
            == Ordering::Less),
        candidate_order(left, left) == Ordering::Equal,
{
}

/// Between measured candidates, "not greater than" is transitive.
proof fn lemma_order_transitive(a: SetupCandidate, b: SetupCandidate, c: SetupCandidate)
    requires
        a.result is Some,
        b.result is Some,
        c.result is Some,
        candidate_order(a, b) != Ordering::Greater,
        candidate_order(b, c) != Ordering::Greater,
    ensures
        candidate_order(a, c) != Ordering::Greater,
{
}

/// The recommended candidate is eligible, and no eligible candidate
/// compares greater than it; there is no recommendation only when no
/// candidate is eligible.
pub proof fn lemma_recommendation_is_greatest(candidates: Seq<SetupCandidate>, n: int)
    requires
        0 <= n <= candidates.len(),
    ensures
        recommendation(candidates, n) matches Some(best) ==> {
            &&& 0 <= best < n
            &&& eligible(candidates[best])
            &&& forall|j: int|
                0 <= j < n && eligible(#[trigger] candidates[j]) ==> candidate_order(
                    candidates[j],
                    candidates[best],
                ) != Ordering::Greater
        },
        recommendation(candidates, n) is None ==> forall|j: int|
            0 <= j < n ==> !eligible(#[trigger] candidates[j]),
    decreases n,
{
    if n > 0 {
        lemma_recommendation_is_greatest(candidates, n - 1);
        let x = candidates[n - 1];
        if eligible(x) {
            lemma_order_flips(x, x);
            match recommendation(candidates, n - 1) {
                None => {
                    assert(recommendation(candidates, n) == Some(n - 1));
                    assert forall|j: int|
                        0 <= j < n && eligible(#[trigger] candidates[j]) implies candidate_order(
                        candidates[j],
                        x,
                    ) != Ordering::Greater by {
                        if j < n - 1 {
                            assert(!eligible(candidates[j]));
                        }
                    }
                },
                Some(best) => {
                    lemma_order_flips(candidates[best], x);
                    if candidate_order(candidates[best], x) == Ordering::Greater {
                        assert(recommendation(candidates, n) == Some(best));
                        assert forall|j: int|
                            0 <= j < n && eligible(#[trigger] candidates[j]) implies candidate_order(
                            candidates[j],
                            candidates[best],
                        ) != Ordering::Greater by {
                            if j == n - 1 {
                                assert(candidate_order(x, candidates[best]) == Ordering::Less);
                            }
                        }
                    } else {
                        assert(recommendation(candidates, n) == Some(n - 1));
                        assert forall|j: int|
                            0 <= j < n && eligible(#[trigger] candidates[j]) implies candidate_order(
                            candidates[j],
                            x,
                        ) != Ordering::Greater by {
                            if j < n - 1 {
                                lemma_order_transitive(candidates[j], candidates[best], x);
                            }
                        }
                    }
                },
            }
        }
    }
}


/// How candidates are preferred: a measured candidate over an unmeasured
/// one; then a higher tier; within a tier, more headroom first: a smaller
/// 95th-percentile render time, then a smaller 99th percentile, then a
/// smaller worst render, then a younger queue; and only then a higher
/// throughput score.
pub proof fn lemma_preference_order(left: SetupCandidate, right: SetupCandidate)
    ensures
        left.result is None ==> candidate_order(left, right) == Ordering::Less,
        left.result is Some && right.result is None ==> candidate_order(left, right)
            == Ordering::Greater,
        left.result is Some && right.result is Some ==> {
            let l = left.result->Some_0;
            let r = right.result->Some_0;
            &&& left.tier > right.tier ==> candidate_order(left, right) == Ordering::Greater
            &&& left.tier < right.tier ==> candidate_order(left, right) == Ordering::Less
            &&& left.tier == right.tier && l.render_p95_nanos < r.render_p95_nanos
                ==> candidate_order(left, right) == Ordering::Greater
            &&& left.tier == right.tier && l.render_p95_nanos > r.render_p95_nanos
                ==> candidate_order(left, right) == Ordering::Less
            &&& left.tier == right.tier && l.render_p95_nanos == r.render_p95_nanos
                && l.render_p99_nanos < r.render_p99_nanos ==> candidate_order(left, right)
                == Ordering::Greater
            &&& left.tier == right.tier && l.render_p95_nanos == r.render_p95_nanos
                && l.render_p99_nanos == r.render_p99_nanos && l.render_max_nanos
                < r.render_max_nanos ==> candidate_order(left, right) == Ordering::Greater
            &&& left.tier == right.tier && l.render_p95_nanos == r.render_p95_nanos
                && l.render_p99_nanos == r.render_p99_nanos && l.render_max_nanos
                == r.render_max_nanos && l.max_queue_age_nanos < r.max_queue_age_nanos
                ==> candidate_order(left, right) == Ordering::Greater
            &&& left.tier == right.tier && l.render_p95_nanos == r.render_p95_nanos
                && l.render_p99_nanos == r.render_p99_nanos && l.render_max_nanos
                == r.render_max_nanos && l.max_queue_age_nanos == r.max_queue_age_nanos
                ==> (candidate_order(left, right) == Ordering::Greater <==> left.score
                > right.score)
        },
{
}

/// The recommended candidate has the highest tier among the eligible
/// candidates, and no eligible candidate of its tier renders with a smaller
/// 95th percentile.
pub proof fn lemma_recommendation_has_most_headroom(candidates: Seq<SetupCandidate>, n: int)
    requires
        n == candidates.len(),
    ensures
        recommendation(candidates, n) matches Some(best) ==> forall|j: int|
            0 <= j < candidates.len() && eligible(#[trigger] candidates[j]) ==> {
                &&& candidates[j].tier <= candidates[best].tier
                &&& candidates[j].tier == candidates[best].tier ==> candidates[j].result->Some_0.render_p95_nanos
                    >= candidates[best].result->Some_0.render_p95_nanos
            },
{
    lemma_recommendation_is_greatest(candidates, n);
    if recommendation(candidates, n) is Some {
        let best = recommendation(candidates, n)->Some_0;
        assert forall|j: int| 0 <= j < candidates.len() && eligible(#[trigger] candidates[j]) implies {
            &&& candidates[j].tier <= candidates[best].tier
            &&& candidates[j].tier == candidates[best].tier ==> candidates[j].result->Some_0.render_p95_nanos
                >= candidates[best].result->Some_0.render_p95_nanos
        } by {
            lemma_preference_order(candidates[j], candidates[best]);
        }
    }
}

/// Chooses the recommended candidate: the greatest eligible one, the later
/// of two that compare equal, or `None` when none is eligible.
pub fn recommend(candidates: &Vec<SetupCandidate>) -> (best: Option<usize>)
    ensures
        match recommendation(candidates@, candidates@.len() + 0int) {
            Some(i) => best matches Some(b) && b == i,
            None => best is None,
        },
        best matches Some(i) ==> i < candidates@.len() && eligible(candidates@[i + 0]),
        best is None ==> forall|i: int| 0 <= i < candidates@.len() ==> !eligible(
            #[trigger] candidates@[i],
        ),
{
    let mut best: Option<usize> = None;
    let mut i: usize = 0;
    while i < candidates.len()
        invariant
            i <= candidates@.len(),
            match recommendation(candidates@, i + 0) {
                Some(b) => best matches Some(c) && c == b && b < i,
                None => best is None,
            },
            best matches Some(b) ==> b < i && eligible(candidates@[b + 0]),
            best is None ==> forall|j: int| 0 <= j < i ==> !eligible(#[trigger] candidates@[j]),
        decreases candidates@.len() - i,
    {
        let candidate = &candidates[i];
        if candidate.tier > 0 && candidate.result.is_some() {
            best = match best {
                None => Some(i),
                Some(b) => match compare_setup_candidates(&candidates[b], candidate) {
                    Ordering::Greater => Some(b),
                    _ => Some(i),
                },
            };
        }
        i = i + 1;
    }
    best
}

/// Completes the setup report from the measured candidates: the
/// recommendation is [`recommend`]'s choice, and a run in which no
/// candidate is eligible is refused with a message.
pub fn setup_report(candidates: Vec<SetupCandidate>, elapsed_millis: u128) -> (result: Result<
    SetupBenchmarkReport,
    String,
>)
    ensures
        match recommendation(candidates@, candidates@.len() + 0int) {
            Some(i) => result matches Ok(report) && {
                &&& report.candidates@ == candidates@
                &&& report.recommended matches Some(b) && b == i
                &&& report.elapsed_millis == elapsed_millis
            },
            None => result matches Err(message) && message@
                == "the local benchmark found no stable candidate"@,
        },
{
    let recommended = recommend(&candidates);
    match recommended {
        Some(_) => Ok(SetupBenchmarkReport { candidates, recommended, elapsed_millis }),
        None => {
            let message = "the local benchmark found no stable candidate";
            proof {
                reveal_strlit("the local benchmark found no stable candidate");
            }
            Err(message.to_owned())
        },
    }
}

} // verus!
