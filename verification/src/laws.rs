//! Global properties of the search, each proved once and for all states:
//! the step relation is deterministic, the cost of the incumbent never
//! rises, a non-negative measure shrinks at every step until the search is
//! done, the done state is absorbing, and the classifier singles out
//! exactly the current candidate.

use vstd::prelude::*;

use crate::field::valid_pos;
use crate::field::Position;
use crate::field::Problem;
use crate::neighbourhood::lemma_neighbourhood_properties;
use crate::search::is_first_min;
use crate::search::round_decision;
use crate::search::step_rel;
use crate::search::Algo;
use crate::search::CellStatus;

verus! {

/// Two positions of a sequence cannot both be its first minimum.
proof fn lemma_first_min_unique(s: Seq<Position>, f: Problem, i: int, j: int)
    requires
        is_first_min(s, f, i),
        is_first_min(s, f, j),
    ensures
        i == j,
{
    if i < j {
        assert(f.value_at(s[i]) > f.value_at(s[j]));
        assert(f.value_at(s[j]) <= f.value_at(s[i]));
    }
    if j < i {
        assert(f.value_at(s[j]) > f.value_at(s[i]));
        assert(f.value_at(s[i]) <= f.value_at(s[j]));
    }
}

/// Determinism: a step from a given state over a given field can lead to
/// only one state.  Two full runs from the same configuration therefore
/// pass through the same sequence of states.
pub proof fn lemma_step_deterministic(pre: Algo, post1: Algo, post2: Algo, f: Problem)
    requires
        step_rel(pre, post1, f),
        step_rel(pre, post2, f),
    ensures
        post1.current_position == post2.current_position,
        post1.done == post2.done,
        post1.width == post2.width,
        post1.size == post2.size,
        post1.neighbours@ == post2.neighbours@,
        post1.evaluated@ == post2.evaluated@,
{
    if !pre.done && pre.neighbours@.len() == 0 {
        let i1 = choose|i: int|
            #[trigger] is_first_min(pre.evaluated@, f, i) && round_decision(pre, post1, f, i);
        let i2 = choose|i: int|
            #[trigger] is_first_min(pre.evaluated@, f, i) && round_decision(pre, post2, f, i);
        lemma_first_min_unique(pre.evaluated@, f, i1, i2);
    }
}

/// Monotonic improvement: the field value at the current position never
/// rises with a step, and falls strictly at every completed round that
/// does not end the search.
pub proof fn lemma_monotonic_improvement(pre: Algo, post: Algo, f: Problem)
    requires
        step_rel(pre, post, f),
    ensures
        f.value_at(post.current_position) <= f.value_at(pre.current_position),
        !pre.done && pre.neighbours@.len() == 0 && !post.done ==> f.value_at(
            post.current_position,
        ) < f.value_at(pre.current_position),
{
    if !pre.done && pre.neighbours@.len() == 0 {
        let i = choose|i: int|
            #[trigger] is_first_min(pre.evaluated@, f, i) && round_decision(pre, post, f, i);
        assert(round_decision(pre, post, f, i));
    }
}

/// Idempotence after termination: once done, a step leaves every part of
/// the state unchanged.
pub proof fn lemma_done_is_absorbing(pre: Algo, post: Algo, f: Problem)
    requires
        pre.done,
        step_rel(pre, post, f),
    ensures
        post.done,
        post.current_position == pre.current_position,
        post.neighbours@ == pre.neighbours@,
        post.evaluated@ == pre.evaluated@,
        post.width == pre.width,
        post.size == pre.size,
{
}

/// The largest possible number of neighbours for radius `w`.
pub open spec fn max_neighbourhood(w: usize) -> int {
    (2 * w + 1) * (2 * w + 1) - 1
}

/// A bound on the work left in a search: zero once done, and otherwise
/// dominated by the cost still to be burned down and the pending
/// neighbours of the present round.
pub open spec fn measure(st: Algo, f: Problem) -> int {
    if st.done {
        0
    } else {
        (f.value_at(st.current_position) + 1) * (max_neighbourhood(st.width) + 2)
            + st.neighbours@.len() + 1
    }
}

/// Termination: the measure is non-negative and strictly decreases with
/// every step taken before the search is done, so any run reaches the done
/// state within `measure` steps of where it starts.
pub proof fn lemma_termination_measure(pre: Algo, post: Algo, f: Problem)
    requires
        pre.wf(),
        f.wf(),
        f.size == pre.size,
        step_rel(pre, post, f),
    ensures
        measure(pre, f) >= 0,
        measure(post, f) >= 0,
        !pre.done ==> measure(post, f) < measure(pre, f),
{
    let bound = max_neighbourhood(pre.width);
    assert(bound >= 8) by (nonlinear_arith)
        requires
            bound == (2 * pre.width + 1) * (2 * pre.width + 1) - 1,
            pre.width >= 1,
    ;
    lemma_measure_nonneg(pre, f);
    if pre.done {
        lemma_measure_nonneg(post, f);
    } else if pre.neighbours@.len() > 0 {
        lemma_measure_nonneg(post, f);
        assert(measure(post, f) == measure(pre, f) - 1);
    } else {
        let i = choose|i: int|
            #[trigger] is_first_min(pre.evaluated@, f, i) && round_decision(pre, post, f, i);
        assert(round_decision(pre, post, f, i));
        lemma_measure_nonneg(post, f);
        let m = pre.evaluated@[i];
        if f.value_at(m) < f.value_at(pre.current_position) {
            assert(valid_pos(pre.evaluated@[i], pre.size));
            lemma_neighbourhood_properties(m, pre.width, pre.size);
            let v_new = f.value_at(m) as int;
            let v_old = f.value_at(pre.current_position) as int;
            assert(post.neighbours@.len() <= bound);
            assert((v_new + 1) * (bound + 2) + bound + 1 < (v_old + 1) * (bound + 2))
                by (nonlinear_arith)
                requires
                    v_new < v_old,
                    bound >= 8,
            ;
        }
    }
}

/// The measure of any state is non-negative.
proof fn lemma_measure_nonneg(st: Algo, f: Problem)
    ensures
        measure(st, f) >= 0,
{
    if !st.done {
        let v = f.value_at(st.current_position) as int;
        let k = max_neighbourhood(st.width) + 2;
        assert((v + 1) * k >= 0) by (nonlinear_arith)
            requires
                v >= 0,
                k == (2 * st.width + 1) * (2 * st.width + 1) + 1,
        ;
    }
}

/// Classifier exclusivity: the classifier is a total function of the state
/// and the position, so exactly one status is returned for every cell, and
/// the `CurrentSolution` status marks the current position and no other.
pub proof fn lemma_classifier_current_solution(st: Algo, p: Position)
    ensures
        st.classify(p) == CellStatus::CurrentSolution <==> p == st.current_position,
{
}

} // verus!
