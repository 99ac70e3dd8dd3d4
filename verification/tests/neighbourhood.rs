use hill_climb::Algo;

#[test]
fn neighbours_interior_is_full_square_in_row_major_order() {
    let n = Algo::neighbours((2, 2), 1, 5);
    assert_eq!(
        n,
        vec![
            (1, 1),
            (1, 2),
            (1, 3),
            (2, 1),
            (2, 3),
            (3, 1),
            (3, 2),
            (3, 3)
        ]
    );
}

#[test]
fn neighbours_corner_is_clipped() {
    let n = Algo::neighbours((0, 0), 1, 3);
    assert_eq!(n, vec![(0, 1), (1, 0), (1, 1)]);
}

#[test]
fn neighbours_edge_is_clipped() {
    let n = Algo::neighbours((0, 1), 1, 3);
    assert_eq!(n, vec![(0, 0), (0, 2), (1, 0), (1, 1), (1, 2)]);
}

#[test]
fn neighbours_radius_covers_whole_grid() {
    let n = Algo::neighbours((1, 1), 5, 3);
    assert_eq!(n.len(), 8);
    for i in 0..3 {
        for j in 0..3 {
            assert_eq!(n.contains(&(i, j)), (i, j) != (1, 1));
        }
    }
}

#[test]
fn neighbours_excludes_center_and_respects_chebyshev_bound() {
    let c = (3usize, 4usize);
    let w = 2usize;
    let s = 9usize;
    let n = Algo::neighbours(c, w, s);
    assert_eq!(n.len(), (2 * w + 1) * (2 * w + 1) - 1);
    for &(i, j) in &n {
        assert!((i, j) != c);
        assert!(i < s && j < s);
        let dx = i.abs_diff(c.0);
        let dy = j.abs_diff(c.1);
        assert!(dx.max(dy) <= w);
    }
}

#[test]
fn neighbours_same_input_same_output() {
    let a = Algo::neighbours((4, 2), 2, 7);
    let b = Algo::neighbours((4, 2), 2, 7);
    assert_eq!(a, b);
}
