use uninutsh::automaton::{Cell, Nutshell};
use uninutsh::geometry::Vector2;

fn cell(c: u64, s: u64, b: u64) -> Cell {
    Cell { color: c, saturation: s, brightness: b }
}

fn grid(w: u32, h: u32) -> Nutshell {
    Nutshell::new(Vector2::new(w, h), 4, 12)
}

#[test]
fn new_seeds_one_cell_of_layer_one() {
    let n = grid(5, 4);
    assert_eq!(n.cells.len(), 4);
    for l in 0..4 {
        assert_eq!(n.cells[l].len(), 20);
        for i in 0..20 {
            let want = if l == 1 && i == 0 { cell(1, 1, 1) } else { cell(0, 0, 0) };
            assert_eq!(n.cells[l][i], want);
        }
    }
}

#[test]
fn step_copies_layer_one_into_layer_zero() {
    let mut n = Nutshell::new(Vector2::new(60, 60), 4, 12);
    let before = n.cells[1].clone();
    n.step();
    assert_eq!(n.cells[0], before);
    assert_eq!(n.cells[0][0], cell(1, 1, 1));
}

#[test]
fn step_sums_the_ring_around_each_cell() {
    let mut n = grid(6, 5);
    n.step();
    // The seed sits at (0, 0): its ring reaches (5, 4) .. (1, 1) round the edges.
    for (x, y) in [(0u32, 0u32), (1, 0), (5, 0), (0, 1), (0, 4), (1, 1), (5, 4), (1, 4), (5, 1)] {
        let i = n.index_at(x, y);
        assert_eq!(n.cells[1][i], cell(1, 1, 1));
    }
    let far = n.index_at(3, 2);
    assert_eq!(n.cells[1][far], cell(0, 0, 0));
}

#[test]
fn step_flips_where_the_layer_below_is_zero() {
    let mut n = grid(6, 5);
    n.step();
    let seed = n.index_at(0, 0);
    let far = n.index_at(3, 2);
    assert_eq!(n.cells[2][seed], cell(0, 0, 0));
    assert_eq!(n.cells[2][far], cell(1, 1, 1));
    n.step();
    assert_eq!(n.cells[2][far], cell(2, 2, 2));
}

#[test]
fn step_follows_the_fashion_of_the_wide_square() {
    let mut n = grid(12, 12);
    n.step();
    // Layer 2 is 1 on all but nine cells, so every 9 by 9 square votes 1.
    for i in 0..144 {
        assert_eq!(n.cells[3][i], cell(1, 1, 1));
    }
}

#[test]
fn single_cell_grid_sees_itself_everywhere() {
    let mut n = grid(1, 1);
    n.step();
    // On a single cell every square holds one value only.
    assert_eq!(n.cells[1][0], cell(9 % 12, 9 % 12, 9 % 12));
    assert_eq!(n.cells[2][0], cell(0, 0, 0));
    assert_eq!(n.cells[3][0], cell(0, 0, 0));
}

#[test]
fn steps_replay_identically() {
    let mut a = grid(10, 7);
    let mut b = grid(10, 7);
    a.step_times(6);
    for _ in 0..6 {
        b.step();
    }
    assert_eq!(a.cells, b.cells);
    let mut c = grid(10, 7);
    c.step_times(6);
    assert_eq!(a.cells, c.cells);
}

#[test]
fn moves_wrap_around_the_edges() {
    let n = grid(4, 3);
    assert_eq!(n.left(0), 3);
    assert_eq!(n.left(2), 1);
    assert_eq!(n.right(3), 0);
    assert_eq!(n.right(1), 2);
    assert_eq!(n.up(0), 2);
    assert_eq!(n.down(2), 0);
    assert_eq!(n.down(0), 1);
    assert_eq!(n.rigth_pos(3, 1), Vector2::new(0, 1));
    assert_eq!(n.left_pos(0, 1), Vector2::new(3, 1));
    assert_eq!(n.up_pos(2, 0), Vector2::new(2, 2));
    assert_eq!(n.down_pos(2, 2), Vector2::new(2, 0));
    assert_eq!(n.index_at(3, 2), 11);
}

#[test]
fn neighborhood_is_row_major_from_the_top_left() {
    let n = grid(4, 3);
    let ring = n.neighborhood(0, 0, 1);
    let want = vec![
        Vector2::new(3, 2), Vector2::new(0, 2), Vector2::new(1, 2),
        Vector2::new(3, 0), Vector2::new(0, 0), Vector2::new(1, 0),
        Vector2::new(3, 1), Vector2::new(0, 1), Vector2::new(1, 1),
    ];
    assert_eq!(ring, want);
}

#[test]
fn neighborhood_wider_than_the_grid_wraps_again() {
    let n = grid(2, 2);
    let square = n.neighborhood(1, 0, 2);
    assert_eq!(square.len(), 25);
    assert_eq!(square[0], Vector2::new(1, 0));
    assert_eq!(square[1], Vector2::new(0, 0));
    assert_eq!(square[5], Vector2::new(1, 1));
    assert_eq!(square[12], Vector2::new(1, 0));
    assert_eq!(square[24], Vector2::new(1, 0));
}
