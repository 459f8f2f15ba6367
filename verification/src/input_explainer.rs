//! Sequence matcher and move resolver: decides, for one frame, whether the
//! recent direction history contains a valid occurrence of a move pattern,
//! how many frames that occurrence spans, and which dictionary move (if any)
//! is recognized.

use vstd::prelude::*;

use crate::static_types::{Moves, NumericalNotation};

verus! {

/// Maximum number of frames allowed between two consecutively matched
/// pattern elements for the match to still count as one gesture.
pub const GAP_THRESHOLD: usize = 7;

/// Index of the most recent occurrence of `x` in `h` strictly before
/// position `below`, or `None` when there is none.
pub open spec fn last_occurrence_before(
    h: Seq<NumericalNotation>,
    x: NumericalNotation,
    below: int,
) -> Option<int>
    recommends
        below <= h.len(),
    decreases below,
{
    if below <= 0 {
        None
    } else if h[below - 1] == x {
        Some(below - 1)
    } else {
        last_occurrence_before(h, x, below - 1)
    }
}

/// The chronological list of history indices picked by the backward greedy
/// scan over `h` restricted to positions before `below`: the pattern's last
/// element is matched at its most recent occurrence, and every earlier
/// pattern element at its most recent occurrence strictly before the match
/// of its successor. `None` when some pattern element cannot be placed.
pub open spec fn greedy_chain(
    h: Seq<NumericalNotation>,
    p: Seq<NumericalNotation>,
    below: int,
) -> Option<Seq<int>>
    decreases p.len(),
{
    if p.len() == 0 {
        Some(Seq::empty())
    } else {
        match last_occurrence_before(h, p.last(), below) {
            None => None,
            Some(i) => match greedy_chain(h, p.drop_last(), i) {
                None => None,
                Some(c) => Some(c.push(i)),
            },
        }
    }
}

/// Every pair of chronologically consecutive matched indices lies at most
/// `GAP_THRESHOLD` frames apart.
pub open spec fn gaps_ok(c: Seq<int>) -> bool {
    forall|q: int| 1 <= q < c.len() ==> #[trigger] c[q] - c[q - 1] <= GAP_THRESHOLD as int
}

/// A pattern matches a history when it is empty, or when the backward greedy
/// scan places every pattern element and the resulting chronological chain
/// has no oversized gap.
pub open spec fn valid_match(h: Seq<NumericalNotation>, p: Seq<NumericalNotation>) -> bool {
    if p.len() == 0 {
        true
    } else {
        match greedy_chain(h, p, h.len() as int) {
            None => false,
            Some(c) => gaps_ok(c),
        }
    }
}

/// Frames spanned between the most recent occurrence of the pattern's first
/// element and the most recent occurrence of its last element, both located
/// by independent backward scans of the whole history: 0 when either input
/// is empty, when either element is absent, or when the two occurrences are
/// out of chronological order; otherwise the inclusive index count.
pub open spec fn distance_spec(h: Seq<NumericalNotation>, p: Seq<NumericalNotation>) -> int {
    if p.len() == 0 || h.len() == 0 {
        0
    } else {
        let first_at = last_occurrence_before(h, p.first(), h.len() as int);
        let last_at = last_occurrence_before(h, p.last(), h.len() as int);
        match (first_at, last_at) {
            (Some(fi), Some(li)) => if li >= fi {
                li - fi + 1
            } else {
                0
            },
            _ => 0,
        }
    }
}

/// The resolver only tries a pattern whose most recent element agrees with
/// the most recent history entry; two empty sequences also agree.
pub open spec fn last_matches(h: Seq<NumericalNotation>, p: Seq<NumericalNotation>) -> bool {
    if p.len() == 0 {
        h.len() == 0
    } else {
        h.len() > 0 && p.last() == h.last()
    }
}

/// Result of resolving a history against an ordered dictionary: the first
/// entry (in dictionary order) whose pattern agrees on the last element and
/// matches yields its identifier and its span; otherwise no move and 0.
pub open spec fn resolve_spec(
    h: Seq<NumericalNotation>,
    d: Seq<(Moves, Vec<NumericalNotation>)>,
) -> (Option<Moves>, int)
    decreases d.len(),
{
    if d.len() == 0 {
        (None, 0)
    } else if last_matches(h, d[0].1@) && valid_match(h, d[0].1@) {
        (Some(d[0].0), distance_spec(h, d[0].1@))
    } else {
        resolve_spec(h, d.drop_first())
    }
}

/// `c` with `s` appended when `c` holds a chain, `None` otherwise.
spec fn extend_chain(c: Option<Seq<int>>, s: Seq<int>) -> Option<Seq<int>> {
    match c {
        None => None,
        Some(front) => Some(front + s),
    }
}

proof fn lemma_extend_chain_push(c: Option<Seq<int>>, d: Option<Seq<int>>, i: int, s: Seq<int>)
    requires
        d == (match c {
            None => None::<Seq<int>>,
            Some(front) => Some(front.push(i)),
        }),
    ensures
        extend_chain(d, s) == extend_chain(c, seq![i] + s),
{
    match c {
        None => {},
        Some(front) => {
            assert(front.push(i) + s =~= front + (seq![i] + s));
        },
    }
}

/// Most recent index in `h` strictly before `below` holding `x`, or `None`.
fn find_last_before(
    h: &[NumericalNotation],
    x: NumericalNotation,
    below: usize,
) -> (r: Option<usize>)
    requires
        below <= h@.len(),
    ensures
        match r {
            Some(i) => i < below && last_occurrence_before(h@, x, below as int) == Some(i as int),
            None => last_occurrence_before(h@, x, below as int) is None,
        },
{
    let mut k: usize = below;
    while k > 0
        invariant
            k <= below <= h@.len(),
            last_occurrence_before(h@, x, below as int) == last_occurrence_before(
                h@,
                x,
                k as int,
            ),
        decreases k,
    {
        k = k - 1;
        if h[k] == x {
            return Some(k);
        }
    }
    None
}

/// Decides whether `move_sequence` occurs in the tail of `position_history`:
/// a single backward scan places each pattern element at its most recent
/// usable position, and the match is accepted only when every pair of
/// chronologically consecutive matched frames lies at most `GAP_THRESHOLD`
/// apart. An empty pattern is vacuously valid; an empty history never
/// contains a non-empty pattern.
#[verifier::loop_isolation(false)]
pub fn is_valid_sequence(
    position_history: &[NumericalNotation],
    move_sequence: &[NumericalNotation],
) -> (r: bool)
    ensures
        r == valid_match(position_history@, move_sequence@),
{
    if move_sequence.len() == 0 {
        return true;
    }

    if position_history.len() == 0 {
        proof {
            assert(last_occurrence_before(position_history@, move_sequence@.last(), 0) is None);
            assert(greedy_chain(position_history@, move_sequence@, 0) is None);
        }
        return false;
    }

    let ghost h = position_history@;
    let ghost p = move_sequence@;

    // Backward scan: place pattern elements from last to first, remembering
    // the matched history indices, most recent first.
    let mut below: usize = position_history.len();
    let mut j: usize = move_sequence.len();
    let mut reverse_occurrences: Vec<usize> = Vec::new();
    let ghost mut tail: Seq<int> = Seq::empty();

    proof {
        assert(p.take(j as int) =~= p);
        match greedy_chain(h, p, below as int) {
            None => {},
            Some(c) => {
                assert(c + Seq::<int>::empty() =~= c);
            },
        }
    }

    while j > 0
        invariant
            j <= p.len(),
            below <= h.len(),
            greedy_chain(h, p, h.len() as int) == extend_chain(
                greedy_chain(h, p.take(j as int), below as int),
                tail,
            ),
            tail.len() == p.len() - j,
            reverse_occurrences@.len() == tail.len(),
            forall|m: int| 0 <= m < tail.len() ==> tail[m] == reverse_occurrences@[
                tail.len() - 1 - m
            ] as int,
            forall|m: int| 0 <= m < tail.len() ==> 0 <= #[trigger] tail[m] < h.len(),
            forall|m: int| 1 <= m < tail.len() ==> tail[m - 1] < #[trigger] tail[m],
            tail.len() > 0 ==> tail[0] == below as int,
        decreases j,
    {
        proof {
            assert(p.take(j as int).len() == j);
            assert(p.take(j as int).last() == p[j - 1]);
            assert(p.take(j as int).drop_last() =~= p.take(j as int - 1));
        }
        match find_last_before(position_history, move_sequence[j - 1], below) {
            None => {
                return false;
            },
            Some(i) => {
                proof {
                    lemma_extend_chain_push(
                        greedy_chain(h, p.take(j as int - 1), i as int),
                        greedy_chain(h, p.take(j as int), below as int),
                        i as int,
                        tail,
                    );
                    tail = seq![i as int] + tail;
                }
                reverse_occurrences.push(i);
                below = i;
                j = j - 1;
            },
        }
    }

    proof {
        assert(p.take(0) =~= Seq::<NumericalNotation>::empty());
        assert(greedy_chain(h, p.take(0), below as int) == Some(Seq::<int>::empty()));
        assert(Seq::<int>::empty() + tail =~= tail);
        assert(greedy_chain(h, p, h.len() as int) == Some(tail));
    }

    // Restore chronological order before checking the gaps.
    let total: usize = reverse_occurrences.len();
    let mut occurrences: Vec<usize> = Vec::new();
    let mut k: usize = 0;
    while k < total
        invariant
            k <= total,
            occurrences@.len() == k,
            forall|m: int| 0 <= m < k ==> occurrences@[m] as int == tail[m],
        decreases total - k,
    {
        occurrences.push(reverse_occurrences[total - 1 - k]);
        k = k + 1;
    }

    // The gap constraint is global over the whole chain: every consecutive
    // pair is checked after the full match has been located.
    let mut q: usize = 1;
    while q < total
        invariant
            1 <= q <= total,
            forall|t: int| 1 <= t < q ==> #[trigger] tail[t] - tail[t - 1] <= GAP_THRESHOLD as int,
        decreases total - q,
    {
        proof {
            assert(occurrences@[q as int] as int == tail[q as int]);
            assert(occurrences@[q as int - 1] as int == tail[q as int - 1]);
            assert(tail[q as int - 1] < tail[q as int]);
        }
        if occurrences[q] - occurrences[q - 1] > GAP_THRESHOLD {
            proof {
                assert(tail[q as int] - tail[q as int - 1] > GAP_THRESHOLD as int);
                assert(!gaps_ok(tail));
            }
            return false;
        }
        q = q + 1;
    }

    proof {
        assert(gaps_ok(tail));
    }
    true
}

/// Computes the span, in frames, of the pattern within the history: the most
/// recent occurrence of the pattern's last element and the most recent
/// occurrence of its first element are located independently, each by its
/// own backward scan, and the inclusive count between them is returned
/// (0 for empty inputs, absent elements, or an inverted pair).
pub fn count_distance(
    position_history: &[NumericalNotation],
    move_sequence: &[NumericalNotation],
) -> (r: usize)
    ensures
        r as int == distance_spec(position_history@, move_sequence@),
{
    if move_sequence.len() == 0 || position_history.len() == 0 {
        return 0;
    }

    let first_input = move_sequence[0];
    let last_input = move_sequence[move_sequence.len() - 1];

    let last_input_index = find_last_before(position_history, last_input, position_history.len());
    let first_input_index = find_last_before(position_history, first_input, position_history.len());

    match (first_input_index, last_input_index) {
        (Some(first_idx), Some(last_idx)) => {
            if last_idx >= first_idx {
                last_idx - first_idx + 1
            } else {
                0
            }
        },
        _ => 0,
    }
}

/// Resolves the history against the dictionary: tries entries in order,
/// skipping any whose pattern does not agree with the history on the most
/// recent element, and returns the first entry whose pattern matches
/// together with its span; `(None, 0)` when no entry matches.
#[verifier::loop_isolation(false)]
pub fn check_move_sequence(
    position_history: &[NumericalNotation],
    move_map: &Vec<(Moves, Vec<NumericalNotation>)>,
) -> (r: (Option<Moves>, usize))
    ensures
        r.0 == resolve_spec(position_history@, move_map@).0,
        r.1 as int == resolve_spec(position_history@, move_map@).1,
{
    let ghost h = position_history@;
    let ghost d = move_map@;

    proof {
        assert(d.skip(0) =~= d);
    }

    let mut k: usize = 0;
    while k < move_map.len()
        invariant
            k <= d.len(),
            resolve_spec(h, d) == resolve_spec(h, d.skip(k as int)),
        decreases d.len() - k,
    {
        let entry = &move_map[k];
        let pattern = &entry.1;
        proof {
            assert(d.skip(k as int)[0] == d[k as int]);
        }

        let applies: bool = if pattern.len() == 0 {
            position_history.len() == 0
        } else {
            position_history.len() > 0 && pattern[pattern.len() - 1] == position_history[
                position_history.len() - 1
            ]
        };
        proof {
            assert(applies == last_matches(h, d[k as int].1@));
        }

        if applies && is_valid_sequence(position_history, pattern.as_slice()) {
            let span = count_distance(position_history, pattern.as_slice());
            return (Some(entry.0), span);
        }

        proof {
            assert(d.skip(k as int).drop_first() =~= d.skip(k as int + 1));
        }
        k = k + 1;
    }

    proof {
        assert(d.skip(d.len() as int) =~= Seq::<(Moves, Vec<NumericalNotation>)>::empty());
    }
    (None, 0)
}

/// An empty pattern is vacuously present in any history.
pub proof fn lemma_empty_pattern_always_valid(h: Seq<NumericalNotation>)
    ensures
        valid_match(h, Seq::empty()),
{
}

/// A non-empty pattern is never present in an empty history.
pub proof fn lemma_empty_history_never_valid(p: Seq<NumericalNotation>)
    requires
        p.len() > 0,
    ensures
        !valid_match(Seq::empty(), p),
{
    assert(last_occurrence_before(Seq::<NumericalNotation>::empty(), p.last(), 0) is None);
    assert(greedy_chain(Seq::<NumericalNotation>::empty(), p, 0) is None);
}

/// When no dictionary pattern agrees with the history on the most recent
/// element, resolution recognizes no move and reports distance 0.
pub proof fn lemma_resolve_none_without_last_match(
    h: Seq<NumericalNotation>,
    d: Seq<(Moves, Vec<NumericalNotation>)>,
)
    requires
        forall|k: int| 0 <= k < d.len() ==> !last_matches(h, #[trigger] d[k].1@),
    ensures
        resolve_spec(h, d) == (None::<Moves>, 0int),
    decreases d.len(),
{
    if d.len() > 0 {
        assert(!last_matches(h, d[0].1@));
        assert forall|k: int| 0 <= k < d.drop_first().len() implies !last_matches(
            h,
            #[trigger] d.drop_first()[k].1@,
        ) by {
            assert(d.drop_first()[k] == d[k + 1]);
        }
        lemma_resolve_none_without_last_match(h, d.drop_first());
    }
}

/// Validity is a function of the two sequences alone: any two results that
/// meet `is_valid_sequence`'s contract on the same inputs are equal.
pub proof fn lemma_is_valid_sequence_deterministic(
    h: Seq<NumericalNotation>,
    p: Seq<NumericalNotation>,
    r1: bool,
    r2: bool,
)
    requires
        r1 == valid_match(h, p),
        r2 == valid_match(h, p),
    ensures
        r1 == r2,
{
}

/// The span is a function of the two sequences alone: any two results that
/// meet `count_distance`'s contract on the same inputs are equal.
pub proof fn lemma_count_distance_deterministic(
    h: Seq<NumericalNotation>,
    p: Seq<NumericalNotation>,
    r1: int,
    r2: int,
)
    requires
        r1 == distance_spec(h, p),
        r2 == distance_spec(h, p),
    ensures
        r1 == r2,
{
}

/// Resolution is a function of the history and the dictionary alone: any two
/// results that meet `check_move_sequence`'s contract on the same inputs are
/// equal.
pub proof fn lemma_check_move_sequence_deterministic(
    h: Seq<NumericalNotation>,
    d: Seq<(Moves, Vec<NumericalNotation>)>,
    r1: (Option<Moves>, int),
    r2: (Option<Moves>, int),
)
    requires
        r1 == resolve_spec(h, d),
        r2 == resolve_spec(h, d),
    ensures
        r1 == r2,
{
}

} // verus!
