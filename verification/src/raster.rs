//! Nearest-wins shading of one pixel.
//!
//! The view is orthographic. Every pixel sends one ray along the projection
//! axis; of the spheres that the ray meets, the one with the smallest depth
//! key gives the pixel its grey level, and the earliest of them where keys are
//! equal. A ray that meets nothing leaves the pixel at the background.

use vstd::prelude::*;

verus! {

/// Where a ray meets a sphere: the depth key of the meeting point (smaller is
/// nearer to the viewer) and the grey level of the sphere.
#[derive(Clone, Copy, Debug, PartialEq, Eq, Structural)]
pub struct Hit {
    pub depth: i64,
    pub intensity: u8,
}

/// The grey level of a pixel whose ray meets nothing.
pub const BACKGROUND: u8 = 0;

/// `k` is the winner among `hits`: it is a hit, no hit is nearer, and every
/// hit before it is strictly farther.
pub open spec fn is_nearest(hits: Seq<Option<Hit>>, k: int) -> bool {
    &&& 0 <= k < hits.len()
    &&& hits[k] is Some
    &&& forall|j: int|
        0 <= j < hits.len() && hits[j] is Some ==> hits[k].unwrap().depth <= (
        #[trigger] hits[j]).unwrap().depth
    &&& forall|j: int|
        0 <= j < k && hits[j] is Some ==> hits[k].unwrap().depth < (
        #[trigger] hits[j]).unwrap().depth
}

/// No ray of `hits` met anything.
pub open spec fn all_miss(hits: Seq<Option<Hit>>) -> bool {
    forall|j: int| 0 <= j < hits.len() ==> (#[trigger] hits[j]) is None
}

/// The index of the winner among `hits`, if there is one.
pub open spec fn winner(hits: Seq<Option<Hit>>) -> Option<int> {
    if exists|k: int| is_nearest(hits, k) {
        Some(choose|k: int| is_nearest(hits, k))
    } else {
        None
    }
}

/// The grey level of a pixel whose ray gave `hits`: that of the winner, or
/// the background where every sphere was missed.
pub open spec fn shade_of(hits: Seq<Option<Hit>>) -> u8 {
    match winner(hits) {
        Some(k) => hits[k].unwrap().intensity,
        None => BACKGROUND,
    }
}

/// At most one index wins.
pub proof fn lemma_nearest_unique(hits: Seq<Option<Hit>>, a: int, b: int)
    requires
        is_nearest(hits, a),
        is_nearest(hits, b),
    ensures
        a == b,
{
    if a < b {
        assert(hits[b].unwrap().depth < hits[a].unwrap().depth);
    } else if b < a {
        assert(hits[a].unwrap().depth < hits[b].unwrap().depth);
    }
}

/// Once `k` is known to win, it is the winner, and its grey level is the
/// shade.
pub proof fn lemma_winner_is(hits: Seq<Option<Hit>>, k: int)
    requires
        is_nearest(hits, k),
    ensures
        winner(hits) == Some(k),
        shade_of(hits) == hits[k].unwrap().intensity,
{
    let c = choose|c: int| is_nearest(hits, c);
    lemma_nearest_unique(hits, c, k);
}

/// Where every sphere is missed nobody wins, and the shade is the background.
pub proof fn lemma_all_miss_is_background(hits: Seq<Option<Hit>>)
    requires
        all_miss(hits),
    ensures
        winner(hits) is None,
        shade_of(hits) == BACKGROUND,
{
    assert forall|k: int| !is_nearest(hits, k) by {
        if 0 <= k < hits.len() {
            assert(hits[k] is None);
        }
    }
}

/// Unless every sphere is missed, some hit wins.
pub proof fn lemma_some_hit_wins(hits: Seq<Option<Hit>>) -> (k: int)
    requires
        !all_miss(hits),
    ensures
        is_nearest(hits, k),
    decreases hits.len(),
{
    let last = hits.len() - 1;
    let before = hits.drop_last();
    assert(forall|j: int| 0 <= j < last ==> before[j] == hits[j]);
    if all_miss(before) {
        assert(hits[last] is Some);
        last
    } else {
        let k = lemma_some_hit_wins(before);
        match hits[last] {
            Some(next) => if next.depth < hits[k].unwrap().depth {
                last
            } else {
                k
            },
            None => k,
        }
    }
}

/// No two hits among `hits` have the same depth key.
pub open spec fn no_ties(hits: Seq<Option<Hit>>) -> bool {
    forall|i: int, j: int|
        0 <= i < j < hits.len() && (#[trigger] hits[i]) is Some && (#[trigger] hits[j]) is Some
            ==> hits[i].unwrap().depth != hits[j].unwrap().depth
}

/// `other` holds the entries of `one` in another order: entry `i` of `one`
/// stands at `to[i]` in `other`, and entry `j` of `other` stood at `from[j]`
/// in `one`.
pub open spec fn rearranged(
    one: Seq<Option<Hit>>,
    other: Seq<Option<Hit>>,
    to: Seq<int>,
    from: Seq<int>,
) -> bool {
    &&& other.len() == one.len()
    &&& to.len() == one.len()
    &&& from.len() == one.len()
    &&& forall|i: int|
        0 <= i < one.len() ==> 0 <= #[trigger] to[i] < one.len() && other[to[i]] == one[i]
            && from[to[i]] == i
    &&& forall|j: int|
        0 <= j < one.len() ==> 0 <= #[trigger] from[j] < one.len() && one[from[j]] == other[j]
            && to[from[j]] == j
}

/// The order of the spheres does not show: where no two hits tie, the same
/// ray results in any other order shade the pixel alike.
pub proof fn lemma_shade_ignores_order(
    one: Seq<Option<Hit>>,
    other: Seq<Option<Hit>>,
    to: Seq<int>,
    from: Seq<int>,
)
    requires
        rearranged(one, other, to, from),
        no_ties(one),
    ensures
        shade_of(one) == shade_of(other),
{
    if all_miss(one) {
        assert forall|j: int| 0 <= j < other.len() implies (#[trigger] other[j]) is None by {
            assert(one[from[j]] is None);
        }
        lemma_all_miss_is_background(one);
        lemma_all_miss_is_background(other);
    } else {
        let k = lemma_some_hit_wins(one);
        let m = to[k];
        assert forall|j: int|
            0 <= j < other.len() && other[j] is Some && j != m implies other[m].unwrap().depth < (
        #[trigger] other[j]).unwrap().depth by {
            let i = from[j];
            assert(one[i] is Some);
            assert(i != k);
            assert(one[k].unwrap().depth <= one[i].unwrap().depth);
            if i < k {
                assert(one[i].unwrap().depth != one[k].unwrap().depth);
            } else {
                assert(one[k].unwrap().depth != one[i].unwrap().depth);
            }
        }
        assert(is_nearest(other, m));
        lemma_winner_is(one, k);
        lemma_winner_is(other, m);
    }
}

/// The order of a union does not show: where no two hits tie, the rays
/// through the members of one group and then another shade the pixel as
/// the rays through the other and then the one.
pub proof fn lemma_shade_ignores_union_order(first: Seq<Option<Hit>>, second: Seq<Option<Hit>>)
    requires
        no_ties(first + second),
    ensures
        shade_of(first + second) == shade_of(second + first),
{
    let to = Seq::new(
        first.len() + second.len(),
        |i: int|
            if i < first.len() {
                second.len() + i
            } else {
                i - first.len()
            },
    );
    let from = Seq::new(
        first.len() + second.len(),
        |j: int|
            if j < second.len() {
                first.len() + j
            } else {
                j - second.len()
            },
    );
    assert(rearranged(first + second, second + first, to, from));
    lemma_shade_ignores_order(first + second, second + first, to, from);
}

/// The nearer of the best hit so far and the next one; the best one stays
/// where the next is not strictly nearer.
pub fn closer(best: Option<Hit>, next: Option<Hit>) -> (kept: Option<Hit>)
    ensures
        kept == match (best, next) {
            (Some(b), Some(n)) => if n.depth < b.depth {
                next
            } else {
                best
            },
            (None, _) => next,
            (_, None) => best,
        },
{
    match next {
        None => best,
        Some(n) => match best {
            None => next,
            Some(b) => if n.depth < b.depth {
                next
            } else {
                best
            },
        },
    }
}

/// Adding one more ray result to `seen` keeps the running best in step:
/// `closer` of the old best and the new result is the best of the longer
/// sequence.
pub(crate) proof fn lemma_closer_step(seen: Seq<Option<Hit>>, best: Option<Hit>, next: Option<Hit>)
    requires
        best is None <==> all_miss(seen),
        best is Some ==> exists|k: int| is_nearest(seen, k) && seen[k] == best,
    ensures
        ({
            let kept = match (best, next) {
                (Some(b), Some(n)) => if n.depth < b.depth {
                    next
                } else {
                    best
                },
                (None, _) => next,
                (_, None) => best,
            };
            let longer = seen.push(next);
            &&& kept is None <==> all_miss(longer)
            &&& kept is Some ==> exists|k: int| is_nearest(longer, k) && longer[k] == kept
        }),
{
    let longer = seen.push(next);
    assert(forall|j: int| 0 <= j < seen.len() ==> longer[j] == seen[j]);
    assert(longer[seen.len() as int] == next);
    match best {
        None => {
            if next is Some {
                assert(is_nearest(longer, seen.len() as int));
            }
        },
        Some(b) => {
            let k = choose|k: int| is_nearest(seen, k) && seen[k] == best;
            assert(longer[k] is Some);
            match next {
                None => {
                    assert(is_nearest(longer, k));
                },
                Some(n) => {
                    if n.depth < b.depth {
                        assert(is_nearest(longer, seen.len() as int));
                    } else {
                        assert(is_nearest(longer, k));
                    }
                },
            }
        },
    }
}

/// The index of the winner among `hits`, if any ray met a sphere.
pub fn nearest_hit(hits: &Vec<Option<Hit>>) -> (found: Option<usize>)
    ensures
        found is None <==> all_miss(hits@),
        found matches Some(k) ==> is_nearest(hits@, k as int),
        found == match winner(hits@) {
            Some(k) => Some(k as usize),
            None => None,
        },
{
    let mut best: Option<usize> = None;
    let mut i: usize = 0;
    while i < hits.len()
        invariant
            i <= hits.len(),
            best is None <==> all_miss(hits@.take(i as int)),
            best matches Some(k) ==> is_nearest(hits@.take(i as int), k as int),
        decreases hits.len() - i,
    {
        let ghost before = hits@.take(i as int);
        let ghost after = hits@.take(i + 1);
        assert(forall|j: int| 0 <= j < i ==> before[j] == after[j]);
        assert(after[i as int] == hits@[i as int]);
        match hits[i] {
            None => {},
            Some(next) => {
                match best {
                    None => {
                        best = Some(i);
                    },
                    Some(k) => {
                        let current = hits[k].unwrap();
                        if next.depth < current.depth {
                            best = Some(i);
                        }
                    },
                }
            },
        }
        i += 1;
    }
    assert(hits@.take(i as int) == hits@);
    proof {
        match best {
            Some(k) => lemma_winner_is(hits@, k as int),
            None => lemma_all_miss_is_background(hits@),
        }
    }
    best
}

/// The grey level of a pixel whose ray gave `hits`.
pub fn shade(hits: &Vec<Option<Hit>>) -> (grey: u8)
    ensures
        grey == shade_of(hits@),
{
    match nearest_hit(hits) {
        Some(k) => {
            proof {
                lemma_winner_is(hits@, k as int);
            }
            hits[k].unwrap().intensity
        },
        None => {
            proof {
                lemma_all_miss_is_background(hits@);
            }
            BACKGROUND
        },
    }
}

} // verus!
