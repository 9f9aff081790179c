//! A rectangular room of cells, each of which may hold an occupant.
use vstd::prelude::*;
use crate::geometry::{lemma_index_split, Vector2};

verus! {

/// Something that can stand in a cell of a room.
pub trait Occupant {}

/// One cell of a room: where it is and what stands in it.
pub struct Cell<O: Occupant> {
    pub position: Vector2<u32>,
    pub occupant: Option<Box<O>>,
}

impl<O: Occupant> Cell<O> {
    /// An empty cell at `(x, y)`.
    pub fn new(x: u32, y: u32) -> (r: Cell<O>)
        ensures
            r.position.x == x,
            r.position.y == y,
            r.occupant.is_none(),
    {
        let position = Vector2::new(x, y);
        Cell { position, occupant: None }
    }
}

/// A `size.x` by `size.y` room, its cells in row-major order.
pub struct Room<O: Occupant> {
    pub size: Vector2<u32>,
    pub cells: Vec<Cell<O>>,
}

impl<O: Occupant> Room<O> {
    /// An empty room; the cell at index `i` sits at `(i % width, i / width)`.
    pub fn new(width: u32, height: u32) -> (r: Room<O>)
        requires
            width * height <= usize::MAX,
        ensures
            r.size.x == width,
            r.size.y == height,
            r.cells@.len() == width * height,
            forall|i: int|
                0 <= i < r.cells@.len() ==> {
                    &&& (#[trigger] r.cells@[i]).position.x == i % (width as int)
                    &&& r.cells@[i].position.y == i / (width as int)
                    &&& r.cells@[i].occupant.is_none()
                },
    {
        let size = Vector2::new(width, height);
        let n = width as usize * height as usize;
        let mut cells: Vec<Cell<O>> = Vec::with_capacity(n);
        let w = width as usize;
        let mut i: usize = 0;
        while i < n
            invariant
                n == width * height,
                w == width,
                i <= n,
                cells@.len() == i,
                forall|t: int|
                    0 <= t < i ==> {
                        &&& (#[trigger] cells@[t]).position.x == t % (width as int)
                        &&& cells@[t].position.y == t / (width as int)
                        &&& cells@[t].occupant.is_none()
                    },
            decreases n - i,
        {
            proof {
                lemma_index_split(i as int, width as int, height as int);
            }
            cells.push(Cell::new((i % w) as u32, (i / w) as u32));
            i = i + 1;
        }
        Room { size, cells }
    }
}

} // verus!
