//! The resumable hill-climbing state machine and the per-cell classifier.
//!
//! `Algo` holds the current best-known candidate, the neighbours still to be
//! evaluated this round (consumed last-in-first-out), the neighbours already
//! evaluated this round, and a terminal `done` flag.  One call of [`Algo::next`]
//! performs exactly one unit of work: it either evaluates one pending
//! neighbour, or resolves a completed round by moving to the best strictly
//! improving neighbour (ties broken towards the earliest evaluated one) or,
//! when none improves, by stopping at the local optimum.

use vstd::prelude::*;

use crate::field::valid_pos;
use crate::field::ConfigurationError;
use crate::field::Position;
use crate::field::Problem;
use crate::neighbourhood::lemma_neighbourhood_nonempty;
use crate::neighbourhood::lemma_neighbourhood_properties;
use crate::neighbourhood::neighbourhood_seq;
use crate::neighbourhood::neighbours;

verus! {

/// The display-relevant role of a grid cell in the current search state.
#[derive(Clone, Copy, Debug, PartialEq, Eq)]
pub enum CellStatus {
    /// The current best-known candidate.
    CurrentSolution,
    /// The pending neighbour that the next step would evaluate.
    Evaluating,
    /// A neighbour already evaluated this round.
    Evaluated,
    /// A pending neighbour other than the next one to be evaluated.
    Neighbour,
    /// A cell that plays no role in the current round.
    Inactive,
}

/// The hill-climbing search state.
pub struct Algo {
    /// The current best-known candidate position.
    pub current_position: Position,
    /// Neighbours of `current_position` not yet evaluated this round;
    /// consumed from the end of the vector.
    pub neighbours: Vec<Position>,
    /// Neighbours already evaluated in the current round, in evaluation
    /// order; reset at the start of each round.
    pub evaluated: Vec<Position>,
    /// Radius of the square neighbourhood (Chebyshev distance bound).
    pub width: usize,
    /// Side length of the field.
    pub size: usize,
    /// True once a local optimum is reached; terminal.
    pub done: bool,
}

/// `i` is the index of the first minimum-cost position of `s`: no position
/// of `s` costs less, and every earlier one costs strictly more.
pub open spec fn is_first_min(s: Seq<Position>, f: Problem, i: int) -> bool {
    &&& 0 <= i < s.len()
    &&& forall|k: int| 0 <= k < s.len() ==> f.value_at(s[i]) <= f.value_at(#[trigger] s[k])
    &&& forall|k: int| 0 <= k < i ==> f.value_at(#[trigger] s[k]) > f.value_at(s[i])
}

/// The outcome of resolving a completed round, given that `i` is the index
/// of the first minimum-cost evaluated neighbour.
pub open spec fn round_decision(pre: Algo, post: Algo, f: Problem, i: int) -> bool {
    let m = pre.evaluated@[i];
    if f.value_at(m) < f.value_at(pre.current_position) {
        // A strictly better neighbour exists: move there and start a new round.
        &&& !post.done
        &&& post.current_position == m
        &&& post.neighbours@ == neighbourhood_seq(m, pre.width, pre.size)
        &&& post.evaluated@ == Seq::<Position>::empty()
    } else {
        // No neighbour improves: the current position is a local optimum.
        &&& post.done
        &&& post.current_position == pre.current_position
        &&& post.neighbours@ == Seq::<Position>::empty()
        &&& post.evaluated@ == Seq::<Position>::empty()
    }
}

/// The full effect of one step on the state: a no-op once done, otherwise
/// one evaluation, otherwise the resolution of a completed round.
pub open spec fn step_rel(pre: Algo, post: Algo, f: Problem) -> bool {
    &&& post.width == pre.width
    &&& post.size == pre.size
    &&& if pre.done {
        &&& post.done
        &&& post.current_position == pre.current_position
        &&& post.neighbours@ == pre.neighbours@
        &&& post.evaluated@ == pre.evaluated@
    } else if pre.neighbours@.len() > 0 {
        &&& !post.done
        &&& post.current_position == pre.current_position
        &&& post.neighbours@ == pre.neighbours@.drop_last()
        &&& post.evaluated@ == pre.evaluated@.push(pre.neighbours@.last())
    } else {
        exists|i: int|
            #[trigger] is_first_min(pre.evaluated@, f, i) && round_decision(pre, post, f, i)
    }
}

impl Algo {
    /// Structural validity of a search state: positive size and radius,
    /// every recorded position on the grid, and a frozen empty bookkeeping
    /// state once done.
    pub open spec fn wf(self) -> bool {
        &&& self.size >= 1
        &&& self.width >= 1
        &&& valid_pos(self.current_position, self.size)
        &&& forall|k: int|
            0 <= k < self.neighbours@.len() ==> valid_pos(
                #[trigger] self.neighbours@[k],
                self.size,
            )
        &&& forall|k: int|
            0 <= k < self.evaluated@.len() ==> valid_pos(#[trigger] self.evaluated@[k], self.size)
        &&& self.done ==> self.neighbours@.len() == 0 && self.evaluated@.len() == 0
    }

    /// A round can still make progress: until the search is done, there is
    /// a pending neighbour or an evaluated one to decide on.
    pub open spec fn progressive(self) -> bool {
        !self.done ==> self.neighbours@.len() + self.evaluated@.len() > 0
    }

    /// Computes the row-major neighbourhood of `c` with radius `w` on a
    /// `s x s` grid, clipped at the grid edges and excluding `c` itself.
    pub fn neighbours(c: Position, w: usize, s: usize) -> (r: Vec<Position>)
        requires
            valid_pos(c, s),
        ensures
            r@ == neighbourhood_seq(c, w, s),
    {
        neighbours(c, w, s)
    }

    /// Constructs a search around the initial candidate `p` with radius `w`
    /// on a `s x s` field, or reports exactly why the configuration is
    /// rejected.  On a field with at least two cells per side the new state
    /// starts with a non-empty round.
    pub fn new(p: Position, w: usize, s: usize) -> (r: Result<Algo, ConfigurationError>)
        ensures
            r is Ok <==> (s >= 1 && w >= 1 && valid_pos(p, s)),
            (r matches Ok(a) ==> {
                &&& a.current_position == p
                &&& a.width == w
                &&& a.size == s
                &&& !a.done
                &&& a.neighbours@ == neighbourhood_seq(p, w, s)
                &&& a.evaluated@ == Seq::<Position>::empty()
                &&& a.wf()
                &&& (s >= 2 ==> a.progressive())
            }),
            (r matches Err(e) ==> {
                &&& (e == ConfigurationError::ZeroSize <==> s == 0)
                &&& (e == ConfigurationError::ZeroRadius <==> s >= 1 && w == 0)
                &&& (e == ConfigurationError::PositionOutOfBounds <==> s >= 1 && w >= 1
                    && !valid_pos(p, s))
            }),
    {
        if s == 0 {
            return Err(ConfigurationError::ZeroSize);
        }
        if w == 0 {
            return Err(ConfigurationError::ZeroRadius);
        }
        if p.0 >= s || p.1 >= s {
            return Err(ConfigurationError::PositionOutOfBounds);
        }
        let neighbours = Algo::neighbours(p, w, s);
        proof {
            lemma_neighbourhood_properties(p, w, s);
            if s >= 2 {
                lemma_neighbourhood_nonempty(p, w, s);
            }
            assert forall|k: int| 0 <= k < neighbours@.len() implies valid_pos(
                #[trigger] neighbours@[k],
                s,
            ) by {
                assert(neighbourhood_seq(p, w, s).contains(neighbours@[k]));
            }
        }
        Ok(
            Algo {
                current_position: p,
                neighbours,
                evaluated: Vec::new(),
                width: w,
                size: s,
                done: false,
            },
        )
    }

    /// Performs one step of the search: a no-op once done; otherwise pops
    /// one pending neighbour and records it as evaluated; otherwise, with
    /// the round complete, moves to the first evaluated neighbour of
    /// minimum cost if it strictly improves on the current position, and
    /// stops at the local optimum if none does.
    pub fn next(&mut self, problem: &Problem)
        requires
            old(self).wf(),
            old(self).progressive(),
            problem.wf(),
            problem.size == old(self).size,
        ensures
            final(self).wf(),
            final(self).size >= 2 ==> final(self).progressive(),
            step_rel(*old(self), *final(self), *problem),
    {
        if self.done {
            return ;
        }
        match self.neighbours.pop() {
            Some(p) => {
                self.evaluated.push(p);
                proof {
                    assert forall|k: int| 0 <= k < self.evaluated@.len() implies valid_pos(
                        #[trigger] self.evaluated@[k],
                        self.size,
                    ) by {
                        if k < old(self).evaluated@.len() {
                            assert(self.evaluated@[k] == old(self).evaluated@[k]);
                        } else {
                            assert(self.evaluated@[k] == p);
                            assert(p == old(self).neighbours@[old(self).neighbours@.len() - 1]);
                        }
                    }
                }
            },
            None => {
                let n = self.evaluated.len();
                let mut best: usize = 0;
                let mut k: usize = 1;
                while k < n
                    invariant
                        1 <= k <= n,
                        best < k,
                        n == self.evaluated@.len(),
                        self.wf(),
                        problem.wf(),
                        problem.size == self.size,
                        forall|j: int|
                            0 <= j < k ==> problem.value_at(self.evaluated@[best as int])
                                <= problem.value_at(#[trigger] self.evaluated@[j]),
                        forall|j: int|
                            0 <= j < best ==> problem.value_at(#[trigger] self.evaluated@[j])
                                > problem.value_at(self.evaluated@[best as int]),
                    decreases n - k,
                {
                    let pk = self.evaluated[k];
                    let pb = self.evaluated[best];
                    if problem.value(pk) < problem.value(pb) {
                        best = k;
                    }
                    k += 1;
                }
                let ghost pre = *self;
                proof {
                    assert(is_first_min(pre.evaluated@, *problem, best as int));
                }
                let m = self.evaluated[best];
                let cur = self.current_position;
                if problem.value(m) < problem.value(cur) {
                    // A better solution is found.
                    self.current_position = m;
                    self.neighbours = Algo::neighbours(m, self.width, self.size);
                    self.evaluated = Vec::new();
                    proof {
                        assert(valid_pos(m, pre.size));
                        lemma_neighbourhood_properties(m, pre.width, pre.size);
                        if pre.size >= 2 {
                            lemma_neighbourhood_nonempty(m, pre.width, pre.size);
                        }
                        assert forall|k: int| 0 <= k < self.neighbours@.len() implies valid_pos(
                            #[trigger] self.neighbours@[k],
                            self.size,
                        ) by {
                            assert(neighbourhood_seq(m, pre.width, pre.size).contains(
                                self.neighbours@[k],
                            ));
                        }
                        assert(round_decision(pre, *self, *problem, best as int));
                    }
                } else {
                    // The current position is a local optimum.
                    self.done = true;
                    self.evaluated = Vec::new();
                    proof {
                        assert(self.neighbours@ =~= Seq::<Position>::empty());
                        assert(round_decision(pre, *self, *problem, best as int));
                    }
                }
            },
        }
    }

    /// The role of a grid cell in this state, checked in priority order:
    /// the current candidate, then the cells evaluated this round, then the
    /// pending neighbour about to be examined, then the other pending
    /// neighbours, then everything else.
    pub open spec fn classify(self, p: Position) -> CellStatus {
        if p == self.current_position {
            CellStatus::CurrentSolution
        } else if self.evaluated@.contains(p) {
            CellStatus::Evaluated
        } else if self.neighbours@.len() > 0 && p == self.neighbours@.last() {
            CellStatus::Evaluating
        } else if self.neighbours@.contains(p) {
            CellStatus::Neighbour
        } else {
            CellStatus::Inactive
        }
    }

    /// Classifies one grid cell for display.  A pure query; exactly one
    /// status is returned for every position.
    pub fn status(&self, p: Position) -> (r: CellStatus)
        ensures
            r == self.classify(p),
    {
        if p.0 == self.current_position.0 && p.1 == self.current_position.1 {
            return CellStatus::CurrentSolution;
        }
        if contains_position(&self.evaluated, p) {
            return CellStatus::Evaluated;
        }
        if self.neighbours.len() > 0 {
            let top = self.neighbours[self.neighbours.len() - 1];
            if p.0 == top.0 && p.1 == top.1 {
                return CellStatus::Evaluating;
            }
        }
        if contains_position(&self.neighbours, p) {
            return CellStatus::Neighbour;
        }
        CellStatus::Inactive
    }
}

/// Whether `v` holds the position `p`.
fn contains_position(v: &Vec<Position>, p: Position) -> (r: bool)
    ensures
        r == v@.contains(p),
{
    let n = v.len();
    let mut k: usize = 0;
    while k < n
        invariant
            0 <= k <= n,
            n == v@.len(),
            forall|j: int| 0 <= j < k ==> #[trigger] v@[j] != p,
        decreases n - k,
    {
        let q = v[k];
        if q.0 == p.0 && q.1 == p.1 {
            assert(v@[k as int] == p);
            return true;
        }
        k += 1;
    }
    assert(!v@.contains(p));
    false
}

} // verus!
