use hill_climb::{Algo, Problem};

fn problem(values: Vec<Vec<u32>>) -> Problem {
    let size = values.len();
    Problem { size, values }
}

fn uniform_with_pit() -> Problem {
    problem(vec![
        vec![5, 5, 5],
        vec![5, 1, 5],
        vec![5, 5, 5],
    ])
}

#[test]
fn scenario_moves_to_pit_then_stops() {
    let p = uniform_with_pit();
    let mut a = Algo::new((0, 0), 1, 3).unwrap();
    assert_eq!(a.current_position, (0, 0));
    assert_eq!(a.neighbours, vec![(0, 1), (1, 0), (1, 1)]);

    // Evaluate the three clipped neighbours of the corner, one per step.
    for _ in 0..3 {
        a.next(&p);
        assert!(!a.done);
        assert_eq!(a.current_position, (0, 0));
    }
    assert!(a.neighbours.is_empty());
    assert_eq!(a.evaluated, vec![(1, 1), (1, 0), (0, 1)]);

    // The round completes: (1, 1) has value 1 < 5 and becomes the incumbent.
    a.next(&p);
    assert!(!a.done);
    assert_eq!(a.current_position, (1, 1));
    assert!(a.evaluated.is_empty());
    // The new round sees all eight remaining cells.
    assert_eq!(a.neighbours.len(), 8);

    // Evaluate all eight; none improves on value 1, so the search stops.
    for _ in 0..8 {
        a.next(&p);
        assert!(!a.done);
    }
    a.next(&p);
    assert!(a.done);
    assert_eq!(a.current_position, (1, 1));
    assert!(a.neighbours.is_empty());
    assert!(a.evaluated.is_empty());
}

#[test]
fn scenario_initial_minimum_stops_after_one_round() {
    let p = uniform_with_pit();
    let mut a = Algo::new((1, 1), 1, 3).unwrap();
    let neighbour_count = a.neighbours.len();
    assert_eq!(neighbour_count, 8);

    // One step per neighbour, then one round-completion step.
    for _ in 0..neighbour_count {
        a.next(&p);
        assert!(!a.done);
    }
    a.next(&p);
    assert!(a.done);
    assert_eq!(a.current_position, (1, 1));
}

#[test]
fn step_after_done_changes_nothing() {
    let p = uniform_with_pit();
    let mut a = Algo::new((1, 1), 1, 3).unwrap();
    while !a.done {
        a.next(&p);
    }
    let current = a.current_position;
    let neighbours = a.neighbours.clone();
    let evaluated = a.evaluated.clone();
    for _ in 0..3 {
        a.next(&p);
        assert!(a.done);
        assert_eq!(a.current_position, current);
        assert_eq!(a.neighbours, neighbours);
        assert_eq!(a.evaluated, evaluated);
    }
}

#[test]
fn one_step_moves_top_pending_neighbour_to_evaluated() {
    let p = uniform_with_pit();
    let mut a = Algo::new((0, 0), 1, 3).unwrap();
    let top = *a.neighbours.last().unwrap();
    let pending_before = a.neighbours.len();
    a.next(&p);
    assert_eq!(a.neighbours.len(), pending_before - 1);
    assert_eq!(a.evaluated, vec![top]);
    assert_eq!(a.current_position, (0, 0));
}

#[test]
fn incumbent_value_never_rises_and_falls_each_moving_round() {
    let p = problem(vec![
        vec![9, 8, 9, 9],
        vec![9, 9, 7, 9],
        vec![9, 9, 9, 3],
        vec![9, 9, 9, 9],
    ]);
    let mut a = Algo::new((0, 0), 1, 4).unwrap();
    let mut last_value = p.values[0][0];
    let mut rounds_moved = 0;
    while !a.done {
        let round_completes = a.neighbours.is_empty();
        a.next(&p);
        let v = p.values[a.current_position.0][a.current_position.1];
        assert!(v <= last_value);
        if round_completes && !a.done {
            assert!(v < last_value);
            rounds_moved += 1;
        }
        last_value = v;
    }
    // The descending staircase 9 > 8 > 7 > 3 forces three moves.
    assert_eq!(rounds_moved, 3);
    assert_eq!(a.current_position, (2, 3));
}

#[test]
fn repeated_runs_produce_identical_transitions() {
    let p = problem(vec![
        vec![6, 2, 6, 6],
        vec![6, 6, 6, 6],
        vec![6, 6, 1, 6],
        vec![6, 6, 6, 0],
    ]);
    let mut trace_a = Vec::new();
    let mut trace_b = Vec::new();
    for trace in [&mut trace_a, &mut trace_b] {
        let mut a = Algo::new((1, 1), 1, 4).unwrap();
        let mut steps = 0;
        while !a.done {
            a.next(&p);
            trace.push((a.current_position, a.evaluated.clone(), a.neighbours.clone(), a.done));
            steps += 1;
            assert!(steps < 10_000);
        }
    }
    assert_eq!(trace_a, trace_b);
}

#[test]
fn ties_break_towards_the_first_evaluated_neighbour() {
    // Both (0, 1) and (1, 0) improve equally on the corner; evaluation
    // order is (1, 1), (1, 0), (0, 1), so (1, 1) is evaluated first but
    // loses on value, and (1, 0) beats the equal-valued (0, 1).
    let p = problem(vec![
        vec![9, 4, 9],
        vec![4, 8, 9],
        vec![9, 9, 9],
    ]);
    let mut a = Algo::new((0, 0), 1, 3).unwrap();
    for _ in 0..3 {
        a.next(&p);
    }
    assert_eq!(a.evaluated, vec![(1, 1), (1, 0), (0, 1)]);
    a.next(&p);
    assert_eq!(a.current_position, (1, 0));
}
