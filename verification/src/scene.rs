//! The scene aggregate: of the hits that its members report, the nearest wins.
//!
//! The members are asked in insertion order. The first hit inside the search
//! interval is kept, and a later one replaces it only where it is strictly
//! closer; so among equally near hits the one found first stays.

use vstd::prelude::*;
use crate::scalar::Scalar;
use crate::scalar::rank;
use crate::sphere::chosen_root;
use crate::sphere::root_value;

verus! {

/// The search for the nearest hit, as far as it has gone.
#[derive(Clone, Copy, Debug)]
pub struct Nearest {
    t_min: Scalar,
    t_max: Scalar,
    best: Option<(usize, Scalar)>,
}

/// Whether member `i` reports a hit inside the search interval.
pub open spec fn counts(hits: Seq<Option<Scalar>>, t_min: Scalar, t_max: Scalar, i: int) -> bool {
    &&& 0 <= i < hits.len()
    &&& hits[i] is Some
    &&& hits[i].unwrap().within_spec(t_min, t_max)
}

/// Whether `winner` is the member whose hit is returned: its hit counts, no
/// hit that counts is closer, and every earlier one is strictly farther.
pub open spec fn is_nearest(
    hits: Seq<Option<Scalar>>,
    t_min: Scalar,
    t_max: Scalar,
    winner: Option<usize>,
) -> bool {
    match winner {
        None => forall|i: int| !counts(hits, t_min, t_max, i),
        Some(w) => {
            &&& counts(hits, t_min, t_max, w as int)
            &&& forall|i: int| #[trigger]
                counts(hits, t_min, t_max, i) ==> rank(hits[w as int].unwrap()@) <= rank(
                    hits[i].unwrap()@,
                )
            &&& forall|i: int|
                i < w && #[trigger] counts(hits, t_min, t_max, i) ==> rank(
                    hits[w as int].unwrap()@,
                ) < rank(hits[i].unwrap()@)
        },
    }
}

impl Nearest {
    /// The lower end of the search interval.
    pub closed spec fn spec_t_min(self) -> Scalar {
        self.t_min
    }

    /// The upper end of the search interval.
    pub closed spec fn spec_t_max(self) -> Scalar {
        self.t_max
    }

    /// The member that holds the nearest hit so far, and its parameter.
    pub closed spec fn spec_best(self) -> Option<(usize, Scalar)> {
        self.best
    }

    /// The best hit, if there is one, lies inside the search interval.
    pub open spec fn wf(self) -> bool {
        self.spec_best() is Some ==> self.spec_best().unwrap().1.within_spec(
            self.spec_t_min(),
            self.spec_t_max(),
        )
    }

    /// Whether a hit at `t` would be taken: it lies inside the search
    /// interval and is strictly closer than the best so far.
    pub open spec fn takes(self, t: Scalar) -> bool {
        &&& t.within_spec(self.spec_t_min(), self.spec_t_max())
        &&& self.spec_best() is Some ==> t.lt_spec(self.spec_best().unwrap().1)
    }

    /// The upper bound that the next member need search to: the nearest hit
    /// so far, or the end of the interval.
    pub open spec fn spec_bound(self) -> Scalar {
        match self.spec_best() {
            Some(b) => b.1,
            None => self.spec_t_max(),
        }
    }

    /// A search of `[t_min, t_max]` that has found nothing yet.
    pub fn new(t_min: Scalar, t_max: Scalar) -> (n: Nearest)
        ensures
            n.wf(),
            n.spec_t_min() == t_min,
            n.spec_t_max() == t_max,
            n.spec_best() is None,
    {
        Nearest { t_min, t_max, best: None }
    }

    /// The lower end of the search interval.
    pub fn t_min(&self) -> (t: Scalar)
        ensures
            t == self.spec_t_min(),
    {
        self.t_min
    }

    /// The upper bound that the next member need search to.
    pub fn bound(&self) -> (t: Scalar)
        ensures
            t == self.spec_bound(),
    {
        match self.best {
            Some(b) => b.1,
            None => self.t_max,
        }
    }

    /// Reports the hit of member `index` at parameter `t`. Returns whether it
    /// is now the nearest.
    pub fn offer(&mut self, index: usize, t: Scalar) -> (taken: bool)
        requires
            old(self).wf(),
        ensures
            final(self).wf(),
            taken == old(self).takes(t),
            final(self).spec_t_min() == old(self).spec_t_min(),
            final(self).spec_t_max() == old(self).spec_t_max(),
            final(self).spec_best() == if taken {
                Some((index, t))
            } else {
                old(self).spec_best()
            },
    {
        let closer: bool = match self.best {
            Some(b) => t.lt(b.1),
            None => true,
        };
        if closer && t.within(self.t_min, self.t_max) {
            self.best = Some((index, t));
            true
        } else {
            false
        }
    }

    /// The member that holds the nearest hit, if any member was hit.
    pub fn winner(&self) -> (w: Option<usize>)
        ensures
            w == match self.spec_best() {
                Some(b) => Some(b.0),
                None => None,
            },
    {
        match self.best {
            Some(b) => Some(b.0),
            None => None,
        }
    }
}

/// The member whose hit the scene returns, given what each member reports
/// for the whole interval (`None` where the ray misses it).
pub fn nearest_hit(hits: &Vec<Option<Scalar>>, t_min: Scalar, t_max: Scalar) -> (winner: Option<
    usize,
>)
    ensures
        is_nearest(hits@, t_min, t_max, winner),
{
    let mut search = Nearest::new(t_min, t_max);
    let mut i: usize = 0;
    while i < hits.len()
        invariant
            0 <= i <= hits.len(),
            search.wf(),
            search.spec_t_min() == t_min,
            search.spec_t_max() == t_max,
            match search.spec_best() {
                None => forall|j: int| j < i ==> !counts(hits@, t_min, t_max, j),
                Some(b) => {
                    &&& b.0 < i
                    &&& b.1 == hits@[b.0 as int].unwrap()
                    &&& counts(hits@, t_min, t_max, b.0 as int)
                    &&& forall|j: int|
                        j < i && #[trigger] counts(hits@, t_min, t_max, j) ==> rank(b.1@) <= rank(
                            hits@[j].unwrap()@,
                        )
                    &&& forall|j: int|
                        j < b.0 && #[trigger] counts(hits@, t_min, t_max, j) ==> rank(b.1@) < rank(
                            hits@[j].unwrap()@,
                        )
                },
            },
        decreases hits.len() - i,
    {
        match hits[i] {
            Some(t) => {
                search.offer(i, t);
            },
            None => {},
        }
        i += 1;
    }
    search.winner()
}

/// The hit that the scene returns is determined by what the members report:
/// no two members both qualify as the winner.
pub proof fn lemma_nearest_is_unique(
    hits: Seq<Option<Scalar>>,
    t_min: Scalar,
    t_max: Scalar,
    a: Option<usize>,
    b: Option<usize>,
)
    requires
        is_nearest(hits, t_min, t_max, a),
        is_nearest(hits, t_min, t_max, b),
    ensures
        a == b,
{
    match (a, b) {
        (Some(x), Some(y)) => {
            assert(counts(hits, t_min, t_max, x as int));
            assert(counts(hits, t_min, t_max, y as int));
        },
        (Some(x), None) => {
            assert(counts(hits, t_min, t_max, x as int));
        },
        (None, Some(y)) => {
            assert(counts(hits, t_min, t_max, y as int));
        },
        (None, None) => {},
    }
}

/// The order of insertion does not change how near the returned hit is:
/// asked in any other order, the members yield a hit exactly when they did
/// before, and one at the same distance. Only among equally near hits does
/// the order decide, for the one found first.
pub proof fn lemma_order_does_not_matter(
    hits: Seq<Option<Scalar>>,
    other: Seq<Option<Scalar>>,
    t_min: Scalar,
    t_max: Scalar,
    winner: Option<usize>,
    other_winner: Option<usize>,
)
    requires
        hits.to_multiset() == other.to_multiset(),
        is_nearest(hits, t_min, t_max, winner),
        is_nearest(other, t_min, t_max, other_winner),
    ensures
        winner is Some <==> other_winner is Some,
        winner is Some ==> rank(hits[winner.unwrap() as int].unwrap()@) == rank(
            other[other_winner.unwrap() as int].unwrap()@,
        ),
{
    if winner is Some {
        let w = winner.unwrap() as int;
        assert(counts(hits, t_min, t_max, w));
        let j = lemma_counts_in_permutation(hits, other, t_min, t_max, w);
        assert(counts(other, t_min, t_max, j));
    }
    if other_winner is Some {
        let w = other_winner.unwrap() as int;
        assert(counts(other, t_min, t_max, w));
        let j = lemma_counts_in_permutation(other, hits, t_min, t_max, w);
        assert(counts(hits, t_min, t_max, j));
    }
}

/// A hit that counts among `hits` is found again, with the same parameter,
/// in every rearrangement of them.
proof fn lemma_counts_in_permutation(
    hits: Seq<Option<Scalar>>,
    other: Seq<Option<Scalar>>,
    t_min: Scalar,
    t_max: Scalar,
    i: int,
) -> (j: int)
    requires
        hits.to_multiset() == other.to_multiset(),
        counts(hits, t_min, t_max, i),
    ensures
        counts(other, t_min, t_max, j),
        other[j] == hits[i],
{
    assert(hits.contains(hits[i]));
    vstd::seq_lib::to_multiset_contains(hits, hits[i]);
    vstd::seq_lib::to_multiset_contains(other, hits[i]);
    other.lemma_contains_to_index(hits[i])
}

/// Searching a member only up to the nearest hit so far loses nothing: the
/// root it then reports is taken exactly where the root it would report for
/// the whole interval is, and it is the same root.
pub proof fn lemma_shrunk_bound_loses_nothing(search: Nearest, near: Scalar, far: Scalar)
    requires
        search.wf(),
        !far.lt_spec(near),
    ensures
        ({
            let whole = chosen_root(near, far, search.spec_t_min(), search.spec_t_max());
            let shrunk = chosen_root(near, far, search.spec_t_min(), search.spec_bound());
            let whole_taken = whole is Some && search.takes(root_value(near, far, whole.unwrap()));
            let shrunk_taken = shrunk is Some && search.takes(
                root_value(near, far, shrunk.unwrap()),
            );
            &&& whole_taken == shrunk_taken
            &&& whole_taken ==> whole == shrunk
        }),
{
}

} // verus!
