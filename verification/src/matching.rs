//! Selecting, among the faces of a family, the one closest to a requested
//! style.

use crate::font::Properties;
use vstd::prelude::*;

verus! {

/// The weight of a slant mismatch in the style distance: more than any
/// difference of weights and stretches together.
pub const SLANT_STEP: u128 = 0x1_0000_0000_0000_0000;

/// The weight of one unit of weight difference in the style distance: more
/// than any difference of stretches.
pub const WEIGHT_STEP: u128 = 0x1_0000_0000;

/// The distance between two numbers.
pub open spec fn distance(a: int, b: int) -> int {
    if a >= b {
        a - b
    } else {
        b - a
    }
}

/// The style distance of a candidate from what is asked for. A candidate of
/// another slant is farther than any of the right slant; among candidates
/// that agree in that, one whose weight differs more is farther; among those
/// that agree in that too, the stretch decides.
pub open spec fn style_distance(candidate: Properties, query: Properties) -> int {
    (if candidate.style == query.style {
        0int
    } else {
        SLANT_STEP as int
    }) + distance(candidate.weight.0 as int, query.weight.0 as int) * (WEIGHT_STEP as int)
        + distance(candidate.stretch.0 as int, query.stretch.0 as int)
}

/// Whether candidate `ix` is the best match: none is closer, and it is the
/// first of those that are as close.
pub open spec fn is_best_match(candidates: Seq<Properties>, query: Properties, ix: int) -> bool {
    &&& 0 <= ix < candidates.len()
    &&& forall|j: int|
        0 <= j < ix ==> style_distance(#[trigger] candidates[j], query) > style_distance(
            candidates[ix],
            query,
        )
    &&& forall|j: int|
        ix < j < candidates.len() ==> style_distance(#[trigger] candidates[j], query)
            >= style_distance(candidates[ix], query)
}

/// The position of the best match, where there is a candidate.
pub open spec fn best_match(candidates: Seq<Properties>, query: Properties) -> Option<usize> {
    if candidates.len() == 0 {
        None
    } else {
        Some((choose|ix: int| is_best_match(candidates, query, ix)) as usize)
    }
}

/// There is at most one best match.
pub proof fn lemma_best_match_is_unique(
    candidates: Seq<Properties>,
    query: Properties,
    first: int,
    second: int,
)
    requires
        is_best_match(candidates, query, first),
        is_best_match(candidates, query, second),
    ensures
        first == second,
{
    if first < second {
        assert(style_distance(candidates[first], query) > style_distance(
            candidates[second],
            query,
        ));
    } else if second < first {
        assert(style_distance(candidates[second], query) > style_distance(
            candidates[first],
            query,
        ));
    }
}

/// Among the first `n` candidates, `n` at least one, there is a best match.
proof fn lemma_best_match_among_first(candidates: Seq<Properties>, query: Properties, n: int) -> (ix:
    int)
    requires
        0 < n <= candidates.len(),
    ensures
        is_best_match(candidates.take(n), query, ix),
    decreases n,
{
    if n == 1 {
        0
    } else {
        let before = lemma_best_match_among_first(candidates, query, n - 1);
        let shorter = candidates.take(n - 1);
        let longer = candidates.take(n);
        assert forall|j: int| 0 <= j < n - 1 implies #[trigger] longer[j] == shorter[j] by {}
        if style_distance(candidates[n - 1], query) < style_distance(candidates[before], query) {
            assert forall|j: int| 0 <= j < n - 1 implies style_distance(
                #[trigger] longer[j],
                query,
            ) > style_distance(longer[n - 1], query) by {
                assert(longer[j] == shorter[j]);
            }
            n - 1
        } else {
            assert forall|j: int| before < j < n implies style_distance(
                #[trigger] longer[j],
                query,
            ) >= style_distance(longer[before], query) by {
                if j < n - 1 {
                    assert(longer[j] == shorter[j]);
                }
            }
            assert forall|j: int| 0 <= j < before implies style_distance(
                #[trigger] longer[j],
                query,
            ) > style_distance(longer[before], query) by {
                assert(longer[j] == shorter[j]);
            }
            before
        }
    }
}

/// Where there is a candidate there is a best match, and `best_match` names
/// it: no candidate is closer, and none before it is as close.
pub proof fn lemma_best_match_exists(candidates: Seq<Properties>, query: Properties)
    requires
        0 < candidates.len() <= usize::MAX,
    ensures
        best_match(candidates, query).is_some(),
        is_best_match(candidates, query, best_match(candidates, query).unwrap() as int),
{
    let found = lemma_best_match_among_first(candidates, query, candidates.len() as int);
    assert(candidates.take(candidates.len() as int) =~= candidates);
    let chosen = choose|ix: int| is_best_match(candidates, query, ix);
    lemma_best_match_is_unique(candidates, query, found, chosen);
}

/// Computes the style distance.
pub fn style_distance_of(candidate: &Properties, query: &Properties) -> (d: u128)
    ensures
        d as int == style_distance(*candidate, *query),
{
    let slant: u128 = if candidate.style == query.style {
        0
    } else {
        SLANT_STEP
    };
    let weight: u32 = if candidate.weight.0 >= query.weight.0 {
        candidate.weight.0 - query.weight.0
    } else {
        query.weight.0 - candidate.weight.0
    };
    let stretch: u32 = if candidate.stretch.0 >= query.stretch.0 {
        candidate.stretch.0 - query.stretch.0
    } else {
        query.stretch.0 - candidate.stretch.0
    };
    slant + (weight as u128) * WEIGHT_STEP + (stretch as u128)
}

/// Finds the candidate closest to the requested style: the first of those
/// with the least style distance. There is none only among no candidates.
pub fn find_best_match(candidates: &Vec<Properties>, query: &Properties) -> (found: Option<usize>)
    ensures
        found == best_match(candidates@, *query),
        found.is_some() == (candidates@.len() > 0),
        found matches Some(ix) ==> is_best_match(candidates@, *query, ix as int),
{
    if candidates.len() == 0 {
        return None;
    }
    let mut best: usize = 0;
    let mut least: u128 = style_distance_of(&candidates[0], query);
    let mut j: usize = 1;
    while j < candidates.len()
        invariant
            1 <= j <= candidates@.len(),
            best < j,
            least as int == style_distance(candidates@[best as int], *query),
            forall|k: int|
                0 <= k < best ==> style_distance(#[trigger] candidates@[k], *query) > least,
            forall|k: int|
                best < k < j ==> style_distance(#[trigger] candidates@[k], *query) >= least,
        decreases candidates@.len() - j,
    {
        let d = style_distance_of(&candidates[j], query);
        if d < least {
            best = j;
            least = d;
        }
        j = j + 1;
    }
    proof {
        assert(is_best_match(candidates@, *query, best as int));
        let chosen = choose|ix: int| is_best_match(candidates@, *query, ix);
        lemma_best_match_is_unique(candidates@, *query, best as int, chosen);
    }
    Some(best)
}

} // verus!
