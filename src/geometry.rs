use vstd::prelude::*;
use vstd::arithmetic::div_mod::{
    lemma_add_mod_noop_right, lemma_fundamental_div_mod, lemma_fundamental_div_mod_converse, lemma_small_mod,
};

verus! {

/// A pair of coordinates, or a width and a height.
#[derive(Copy, Clone, Debug, PartialEq, Eq)]
pub struct Vector2<T> {
    pub x: T,
    pub y: T,
}

impl<T> Vector2<T> {
    pub fn new(x: T, y: T) -> (r: Vector2<T>)
        ensures
            r.x == x,
            r.y == y,
    {
        Vector2 { x, y }
    }
}

/// An axis-aligned rectangle given by its corner and its size.
pub struct Rectangle<T> {
    pub position: Vector2<T>,
    pub size: Vector2<T>,
}

impl<T> Rectangle<T> {
    pub fn new(x: T, y: T, width: T, height: T) -> (r: Rectangle<T>)
        ensures
            r.position.x == x,
            r.position.y == y,
            r.size.x == width,
            r.size.y == height,
    {
        let position = Vector2::new(x, y);
        let size = Vector2::new(width, height);
        Rectangle { position, size }
    }
}

/// The `k`-th position, in row-major order from the top-left corner, of the
/// square of side `2 * radius + 1` centred on `(x, y)` on a `w` by `h` torus.
pub open spec fn neighbor_at(w: int, h: int, x: int, y: int, radius: int, k: int) -> Vector2<u32> {
    let side = 2 * radius + 1;
    Vector2 { x: ((x - radius + k % side) % w) as u32, y: ((y - radius + k / side) % h) as u32 }
}

/// `((a mod m) + d) mod m == (a + d) mod m`.
pub proof fn lemma_wrap_shift(a: int, d: int, m: int)
    requires
        m > 0,
    ensures
        ((a % m) + d) % m == (a + d) % m,
{
    lemma_add_mod_noop_right(d, a, m);
}

/// `k == row * side + col` with `col < side` gives back `row` and `col`.
pub proof fn lemma_row_col(k: int, side: int, row: int, col: int)
    requires
        side > 0,
        0 <= col < side,
        k == row * side + col,
    ensures
        k / side == row,
        k % side == col,
{
    lemma_fundamental_div_mod_converse(k, side, row, col);
}

/// Stepping back by one from `i` in `[0, n)` wraps to `n - 1`.
pub proof fn lemma_step_back(i: int, n: int)
    requires
        0 <= i < n,
    ensures
        (i - 1) % n == if i == 0 { n - 1 } else { i - 1 },
{
    if i == 0 {
        lemma_fundamental_div_mod_converse(-1, n, -1, n - 1);
    } else {
        lemma_small_mod((i - 1) as nat, n as nat);
    }
}

/// Stepping forward by one from `i` in `[0, n)` wraps to 0 after `n - 1`.
pub proof fn lemma_step_forward(i: int, n: int)
    requires
        0 <= i < n,
    ensures
        (i + 1) % n == if i == n - 1 { 0 } else { i + 1 },
{
    if i == n - 1 {
        lemma_fundamental_div_mod_converse(n, n, 1, 0);
    } else {
        lemma_small_mod((i + 1) as nat, n as nat);
    }
}


/// The position of index `i` of a `w`-wide grid lies inside the grid.
pub proof fn lemma_index_split(i: int, w: int, h: int)
    requires
        w > 0,
        0 <= i < w * h,
    ensures
        0 <= i % w < w,
        0 <= i / w < h,
        i == (i / w) * w + i % w,
{
    lemma_fundamental_div_mod(i, w);
    assert((i / w) * w == w * (i / w)) by (nonlinear_arith);
    assert(0 <= i / w < h) by (nonlinear_arith)
        requires
            w > 0,
            0 <= i < w * h,
            i == w * (i / w) + i % w,
            0 <= i % w < w,
    ;
}

/// The coordinate before `i` on a ring of `n`, wrapping from 0 to `n - 1`.
pub fn wrap_back(n: u32, i: u32) -> (r: u32)
    requires
        i < n,
    ensures
        r == (i - 1) % (n as int),
{
    proof {
        lemma_step_back(i as int, n as int);
    }
    match i {
        0 => n - 1,
        _ => i - 1,
    }
}

/// The coordinate after `i` on a ring of `n`, wrapping from `n - 1` to 0.
pub fn wrap_forward(n: u32, i: u32) -> (r: u32)
    requires
        i < n,
    ensures
        r == (i + 1) % (n as int),
{
    proof {
        lemma_step_forward(i as int, n as int);
    }
    if i == n - 1 {
        return 0;
    }
    i + 1
}

/// The square of side `2 * radius + 1` centred on `(x, y)` of a `size.x` by
/// `size.y` torus, row-major from its top-left corner; a radius past the
/// grid size wraps several times.
pub fn torus_neighborhood(size: Vector2<u32>, x: u32, y: u32, radius: u32) -> (r: Vec<Vector2<u32>>)
    requires
        size.x >= 1,
        size.y >= 1,
        x < size.x,
        y < size.y,
        2 * radius + 1 <= u32::MAX,
        (2 * radius + 1) * (2 * radius + 1) <= usize::MAX,
    ensures
        r@.len() == (2 * radius + 1) * (2 * radius + 1),
        forall|k: int|
            0 <= k < r@.len() ==> #[trigger] r@[k] == neighbor_at(
                size.x as int,
                size.y as int,
                x as int,
                y as int,
                radius as int,
                k,
            ),
{
    let ghost w = size.x as int;
    let ghost h = size.y as int;
    let side_length: u32 = radius * 2 + 1;
    let mut position = Vector2::new(x, y);
    proof {
        lemma_small_mod(x as nat, w as nat);
        lemma_small_mod(y as nat, h as nat);
    }
    let mut i: u32 = 0;
    while i < radius
        invariant
            size.x >= 1,
            i <= radius,
            position.x == (x - i) % w,
            position.y == y,
            w == size.x,
        decreases radius - i,
    {
        proof {
            lemma_wrap_shift(x - i, -1, w);
        }
        position = Vector2::new(wrap_back(size.x, position.x), position.y);
        i = i + 1;
    }
    i = 0;
    while i < radius
        invariant
            size.y >= 1,
            i <= radius,
            position.x == (x - radius) % w,
            position.y == (y - i) % h,
            h == size.y,
        decreases radius - i,
    {
        proof {
            lemma_wrap_shift(y - i, -1, h);
        }
        position = Vector2::new(position.x, wrap_back(size.y, position.y));
        i = i + 1;
    }
    let mut row_pos = position;
    let side = side_length as usize;
    let mut neighborhood: Vec<Vector2<u32>> = Vec::with_capacity(side * side);
    let mut row: usize = 0;
    while row < side
        invariant
            size.x >= 1,
            size.y >= 1,
            w == size.x,
            h == size.y,
            side == 2 * radius + 1,
            side * side <= usize::MAX,
            row <= side,
            row_pos.x == (x - radius) % w,
            row_pos.y == (y - radius + row) % h,
            neighborhood@.len() == row * side,
            forall|k: int|
                0 <= k < neighborhood@.len() ==> #[trigger] neighborhood@[k] == neighbor_at(
                    w,
                    h,
                    x as int,
                    y as int,
                    radius as int,
                    k,
                ),
        decreases side - row,
    {
        position = row_pos;
        let mut col: usize = 0;
        while col < side
            invariant
                size.x >= 1,
                size.y >= 1,
                w == size.x,
                h == size.y,
                side == 2 * radius + 1,
                side * side <= usize::MAX,
                row < side,
                col <= side,
                position.x == (x - radius + col) % w,
                position.y == (y - radius + row) % h,
                neighborhood@.len() == row * side + col,
                forall|k: int|
                    0 <= k < neighborhood@.len() ==> #[trigger] neighborhood@[k] == neighbor_at(
                        w,
                        h,
                        x as int,
                        y as int,
                        radius as int,
                        k,
                    ),
            decreases side - col,
        {
            proof {
                lemma_row_col(row * side + col, side as int, row as int, col as int);
                assert(row * side + col < side * side) by (nonlinear_arith)
                    requires
                        row < side,
                        col < side,
                ;
                lemma_wrap_shift(x - radius + col, 1, w);
            }
            neighborhood.push(position);
            position = Vector2::new(wrap_forward(size.x, position.x), position.y);
            col = col + 1;
        }
        proof {
            assert((row + 1) * side == row * side + side) by (nonlinear_arith);
            lemma_wrap_shift(y - radius + row, 1, h);
        }
        row_pos = Vector2::new(row_pos.x, wrap_forward(size.y, row_pos.y));
        row = row + 1;
    }
    neighborhood
}

} // verus!
