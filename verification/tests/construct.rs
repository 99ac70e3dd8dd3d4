use hill_climb::model::{color, MAX_VALUE};
use hill_climb::{Algo, ConfigurationError, Model, Msg, Problem};

fn problem(values: Vec<Vec<u32>>) -> Problem {
    let size = values.len();
    Problem { size, values }
}

#[test]
fn zero_size_is_rejected() {
    assert_eq!(
        Algo::new((0, 0), 1, 0).err(),
        Some(ConfigurationError::ZeroSize)
    );
}

#[test]
fn zero_radius_is_rejected() {
    assert_eq!(
        Algo::new((1, 1), 0, 3).err(),
        Some(ConfigurationError::ZeroRadius)
    );
}

#[test]
fn out_of_bounds_start_is_rejected() {
    assert_eq!(
        Algo::new((3, 0), 1, 3).err(),
        Some(ConfigurationError::PositionOutOfBounds)
    );
    assert_eq!(
        Algo::new((0, 7), 2, 3).err(),
        Some(ConfigurationError::PositionOutOfBounds)
    );
}

#[test]
fn construction_computes_the_first_round() {
    let a = Algo::new((1, 1), 2, 4).unwrap();
    assert_eq!(a.current_position, (1, 1));
    assert_eq!(a.width, 2);
    assert_eq!(a.size, 4);
    assert!(!a.done);
    assert!(a.evaluated.is_empty());
    assert_eq!(a.neighbours.len(), 15);
    assert!(!a.neighbours.contains(&(1, 1)));
}

#[test]
fn color_maps_cost_to_hue() {
    assert_eq!(color(0), 240);
    assert_eq!(color(MAX_VALUE), 0);
    assert_eq!(color(5000), 120);
    assert_eq!(color(9999), 0);
    assert_eq!(color(2500), 180);
}

#[test]
fn model_update_advances_the_search() {
    let p = problem(vec![
        vec![5, 5, 5],
        vec![5, 1, 5],
        vec![5, 5, 5],
    ]);
    let algo = Algo::new((0, 0), 1, 3).unwrap();
    let mut model = Model { problem: p, algo };
    let top = *model.algo.neighbours.last().unwrap();
    let render = model.update(Msg::Next);
    assert!(render);
    assert_eq!(model.algo.evaluated, vec![top]);
    let mut guard = 0;
    while !model.algo.done {
        assert!(model.update(Msg::Next));
        guard += 1;
        assert!(guard < 1000);
    }
    assert_eq!(model.algo.current_position, (1, 1));
}
