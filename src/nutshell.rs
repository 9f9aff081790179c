//! A general layered torus whose cells remember their neighbors, with a
//! front and a back buffer per layer.
use vstd::prelude::*;
use crate::geometry::{lemma_index_split, neighbor_at, torus_neighborhood, wrap_back, wrap_forward, Vector2};

verus! {

/// A cell: three channel values and the positions of its neighbors.
pub struct Cell {
    pub neighbors: Vec<Vector2<u32>>,
    pub color: u64,
    pub saturation: u64,
    pub brightness: u64,
}

impl Cell {
    /// A cell with no neighbors yet.
    pub fn new(color: u64, saturation: u64, brightness: u64) -> (r: Cell)
        ensures
            r.neighbors@.len() == 0,
            r.color == color,
            r.saturation == saturation,
            r.brightness == brightness,
    {
        let neighbors = Vec::with_capacity(16);
        Cell { neighbors, color, saturation, brightness }
    }
}

/// One layer: the cells being shown, the cells being built, and the number
/// of values of each channel.
pub struct Cells {
    pub front: Vec<Cell>,
    pub back: Vec<Cell>,
    pub colors: u64,
    pub saturations: u64,
    pub brightnessess: u64,
}

/// The layers of a `size.x` by `size.y` torus.
pub struct Nutshell {
    pub cells: Vec<Cells>,
    pub size: Vector2<u32>,
}

/// The 3 by 3 square around `(x, y)`, row-major from its top-left corner.
pub open spec fn ring_of(w: int, h: int, x: int, y: int) -> Seq<Vector2<u32>> {
    Seq::new(9, |k: int| neighbor_at(w, h, x, y, 1, k))
}

/// The cells of a new layer: zero on every channel, each with its ring.
pub open spec fn fresh_layer(layer: Seq<Cell>, w: int, h: int) -> bool {
    &&& layer.len() == w * h
    &&& forall|i: int|
        0 <= i < layer.len() ==> {
            let c = #[trigger] layer[i];
            c.color == 0 && c.saturation == 0 && c.brightness == 0 && c.neighbors@ == ring_of(w, h, i % w, i / w)
        }
}

/// Appends `ns` to the neighbors of `cell`.
fn extend_cell(cell: &mut Cell, ns: &Vec<Vector2<u32>>)
    ensures
        final(cell).neighbors@ == old(cell).neighbors@ + ns@,
        final(cell).color == old(cell).color,
        final(cell).saturation == old(cell).saturation,
        final(cell).brightness == old(cell).brightness,
{
    let mut k: usize = 0;
    while k < ns.len()
        invariant
            k <= ns@.len(),
            cell.neighbors@ == old(cell).neighbors@ + ns@.take(k as int),
            cell.color == old(cell).color,
            cell.saturation == old(cell).saturation,
            cell.brightness == old(cell).brightness,
        decreases ns@.len() - k,
    {
        cell.neighbors.push(ns[k]);
        k = k + 1;
        proof {
            assert(cell.neighbors@ =~= old(cell).neighbors@ + ns@.take(k as int));
        }
    }
    proof {
        assert(ns@.take(ns@.len() as int) =~= ns@);
    }
}

/// `b` is `a` with the neighbors of the cell at `index`, in both buffers,
/// extended by `ns`.
pub open spec fn extended_at(a: Cells, b: Cells, index: int, ns: Seq<Vector2<u32>>) -> bool {
    &&& b.colors == a.colors
    &&& b.saturations == a.saturations
    &&& b.brightnessess == a.brightnessess
    &&& b.front@.len() == a.front@.len()
    &&& b.back@.len() == a.back@.len()
    &&& forall|i: int| 0 <= i < a.front@.len() && i != index ==> #[trigger] b.front@[i] == a.front@[i]
    &&& forall|i: int| 0 <= i < a.back@.len() && i != index ==> #[trigger] b.back@[i] == a.back@[i]
    &&& same_channels(b.front@[index], a.front@[index])
    &&& same_channels(b.back@[index], a.back@[index])
    &&& b.front@[index].neighbors@ == a.front@[index].neighbors@ + ns
    &&& b.back@[index].neighbors@ == a.back@[index].neighbors@ + ns
}

pub open spec fn same_channels(a: Cell, b: Cell) -> bool {
    a.color == b.color && a.saturation == b.saturation && a.brightness == b.brightness
}

/// `b` is `a` with every back cell taking the channels of its front cell.
pub open spec fn back_filled(a: Cells, b: Cells) -> bool {
    &&& b.colors == a.colors
    &&& b.saturations == a.saturations
    &&& b.brightnessess == a.brightnessess
    &&& b.front@ == a.front@
    &&& b.back@.len() == a.back@.len()
    &&& forall|i: int|
        0 <= i < a.back@.len() ==> same_channels(#[trigger] b.back@[i], a.front@[i])
            && b.back@[i].neighbors@ == a.back@[i].neighbors@
}

impl Nutshell {
    pub open spec fn w(&self) -> int {
        self.size.x as int
    }

    pub open spec fn h(&self) -> int {
        self.size.y as int
    }

    pub open spec fn wf(&self) -> bool {
        &&& self.size.x >= 1
        &&& self.size.y >= 1
        &&& self.w() * self.h() <= usize::MAX
        &&& forall|l: int|
            0 <= l < self.cells@.len() ==> {
                &&& (#[trigger] self.cells@[l]).front@.len() == self.w() * self.h()
                &&& self.cells@[l].back@.len() == self.w() * self.h()
            }
    }

    /// The cell of `layer` at `index` in the front buffer.
    pub open spec fn front_cell(&self, layer: int, index: int) -> Cell {
        self.cells@[layer].front@[index]
    }

    /// `layers` layers of zeroed cells, each cell knowing its 3 by 3 ring;
    /// layer `i` has `colors[i]`, `saturations[i]` and `brightnessess[i]`
    /// values per channel.
    pub fn new(
        layers: usize,
        size: Vector2<u32>,
        colors: Vec<u64>,
        saturations: Vec<u64>,
        brightnessess: Vec<u64>,
    ) -> (r: Nutshell)
        requires
            size.x >= 1,
            size.y >= 1,
            size.x * size.y <= usize::MAX,
            colors@.len() >= layers,
            saturations@.len() >= layers,
            brightnessess@.len() >= layers,
        ensures
            r.wf(),
            r.size == size,
            r.cells@.len() == layers,
            forall|l: int|
                0 <= l < layers ==> {
                    &&& fresh_layer((#[trigger] r.cells@[l]).front@, size.x as int, size.y as int)
                    &&& fresh_layer(r.cells@[l].back@, size.x as int, size.y as int)
                    &&& r.cells@[l].colors == colors@[l]
                    &&& r.cells@[l].saturations == saturations@[l]
                    &&& r.cells@[l].brightnessess == brightnessess@[l]
                },
    {
        let ghost w = size.x as int;
        let ghost h = size.y as int;
        let n = size.x as usize * size.y as usize;
        let width = size.x as usize;
        let mut cells: Vec<Cells> = Vec::with_capacity(layers);
        let mut l: usize = 0;
        while l < layers
            invariant
                size.x >= 1,
                size.y >= 1,
                w == size.x,
                h == size.y,
                n == w * h,
                width == w,
                l <= layers,
                colors@.len() >= layers,
                saturations@.len() >= layers,
                brightnessess@.len() >= layers,
                cells@.len() == l,
                forall|k: int|
                    0 <= k < l ==> {
                        &&& fresh_layer((#[trigger] cells@[k]).front@, w, h)
                        &&& fresh_layer(cells@[k].back@, w, h)
                        &&& cells@[k].colors == colors@[k]
                        &&& cells@[k].saturations == saturations@[k]
                        &&& cells@[k].brightnessess == brightnessess@[k]
                    },
            decreases layers - l,
        {
            let mut front: Vec<Cell> = Vec::with_capacity(n);
            let mut back: Vec<Cell> = Vec::with_capacity(n);
            let mut i: usize = 0;
            while i < n
                invariant
                    size.x >= 1,
                    size.y >= 1,
                    w == size.x,
                    h == size.y,
                    n == w * h,
                    width == w,
                    i <= n,
                    front@.len() == i,
                    back@.len() == i,
                    forall|t: int|
                        0 <= t < i ==> {
                            let c = #[trigger] front@[t];
                            c.color == 0 && c.saturation == 0 && c.brightness == 0 && c.neighbors@ == ring_of(w, h, t % w, t / w)
                        },
                    forall|t: int|
                        0 <= t < i ==> {
                            let c = #[trigger] back@[t];
                            c.color == 0 && c.saturation == 0 && c.brightness == 0 && c.neighbors@ == ring_of(w, h, t % w, t / w)
                        },
                decreases n - i,
            {
                proof {
                    lemma_index_split(i as int, w, h);
                }
                let radius: u32 = 1;
                proof {
                    assert((2 * radius + 1) * (2 * radius + 1) == 9) by (nonlinear_arith)
                        requires
                            radius == 1,
                    ;
                }
                let x = (i % width) as u32;
                let y = (i / width) as u32;
                let mut a = Cell::new(0, 0, 0);
                a.neighbors = torus_neighborhood(size, x, y, radius);
                let mut b = Cell::new(0, 0, 0);
                b.neighbors = torus_neighborhood(size, x, y, radius);
                proof {
                    assert(a.neighbors@ =~= ring_of(w, h, x as int, y as int));
                    assert(b.neighbors@ =~= ring_of(w, h, x as int, y as int));
                }
                front.push(a);
                back.push(b);
                i = i + 1;
            }
            cells.push(Cells {
                front,
                back,
                colors: colors[l],
                saturations: saturations[l],
                brightnessess: brightnessess[l],
            });
            l = l + 1;
        }
        Nutshell { cells, size }
    }

    /// The 3 by 3 square, or wider, around `(x, y)`; see `torus_neighborhood`.
    pub fn neighborhood(&self, x: u32, y: u32, radius: u32) -> (r: Vec<Vector2<u32>>)
        requires
            self.size.x >= 1,
            self.size.y >= 1,
            x < self.size.x,
            y < self.size.y,
            2 * radius + 1 <= u32::MAX,
            (2 * radius + 1) * (2 * radius + 1) <= usize::MAX,
        ensures
            r@.len() == (2 * radius + 1) * (2 * radius + 1),
            forall|k: int|
                0 <= k < r@.len() ==> #[trigger] r@[k] == neighbor_at(self.w(), self.h(), x as int, y as int, radius as int, k),
    {
        torus_neighborhood(self.size, x, y, radius)
    }

    pub fn left(&self, i: u32) -> (r: u32)
        requires
            i < self.size.x,
        ensures
            r == (i - 1) % self.w(),
    {
        wrap_back(self.size.x, i)
    }

    pub fn up(&self, i: u32) -> (r: u32)
        requires
            i < self.size.y,
        ensures
            r == (i - 1) % self.h(),
    {
        wrap_back(self.size.y, i)
    }

    pub fn right(&self, i: u32) -> (r: u32)
        requires
            i < self.size.x,
        ensures
            r == (i + 1) % self.w(),
    {
        wrap_forward(self.size.x, i)
    }

    pub fn down(&self, i: u32) -> (r: u32)
        requires
            i < self.size.y,
        ensures
            r == (i + 1) % self.h(),
    {
        wrap_forward(self.size.y, i)
    }

    pub fn rigth_pos(&self, x: u32, y: u32) -> (r: Vector2<u32>)
        requires
            x < self.size.x,
        ensures
            r.x == (x + 1) % self.w(),
            r.y == y,
    {
        Vector2::new(self.right(x), y)
    }

    pub fn left_pos(&self, x: u32, y: u32) -> (r: Vector2<u32>)
        requires
            x < self.size.x,
        ensures
            r.x == (x - 1) % self.w(),
            r.y == y,
    {
        Vector2::new(self.left(x), y)
    }

    pub fn down_pos(&self, x: u32, y: u32) -> (r: Vector2<u32>)
        requires
            y < self.size.y,
        ensures
            r.x == x,
            r.y == (y + 1) % self.h(),
    {
        Vector2::new(x, self.down(y))
    }

    pub fn up_pos(&self, x: u32, y: u32) -> (r: Vector2<u32>)
        requires
            y < self.size.y,
        ensures
            r.x == x,
            r.y == (y - 1) % self.h(),
    {
        Vector2::new(x, self.up(y))
    }

    /// The row-major index of `(x, y)`.
    pub fn index_at(&self, x: u32, y: u32) -> (r: usize)
        requires
            self.wf(),
            x < self.size.x,
            y < self.size.y,
        ensures
            r == y * self.w() + x,
            r < self.w() * self.h(),
    {
        proof {
            assert(y * self.w() + x < self.w() * self.h()) by (nonlinear_arith)
                requires
                    x < self.w(),
                    y < self.h(),
            ;
        }
        y as usize * self.size.x as usize + x as usize
    }

    /// Appends `neighbours` to the neighbors of the cell at `(x, y)`, in both
    /// buffers of every layer.
    pub fn add_neighbors(&mut self, x: u32, y: u32, neighbours: Vec<Vector2<u32>>)
        requires
            old(self).wf(),
            x < old(self).size.x,
            y < old(self).size.y,
        ensures
            final(self).wf(),
            final(self).size == old(self).size,
            final(self).cells@.len() == old(self).cells@.len(),
            forall|l: int|
                0 <= l < old(self).cells@.len() ==> extended_at(
                    #[trigger] old(self).cells@[l],
                    final(self).cells@[l],
                    y * old(self).w() + x,
                    neighbours@,
                ),
    {
        let index = self.index_at(x, y);
        let n = self.cells.len();
        let mut l: usize = 0;
        while l < n
            invariant
                self.size == old(self).size,
                self.cells@.len() == n,
                n == old(self).cells@.len(),
                old(self).wf(),
                index == y * old(self).w() + x,
                index < old(self).w() * old(self).h(),
                l <= n,
                forall|t: int| l <= t < n ==> #[trigger] self.cells@[t] == old(self).cells@[t],
                forall|t: int|
                    0 <= t < l ==> extended_at(#[trigger] old(self).cells@[t], self.cells@[t], index as int, neighbours@),
            decreases n - l,
        {
            proof {
                assert(self.cells@[l as int] == old(self).cells@[l as int]);
                assert(old(self).cells@[l as int].front@.len() == old(self).w() * old(self).h());
            }
            extend_cell(&mut self.cells[l].front[index], &neighbours);
            extend_cell(&mut self.cells[l].back[index], &neighbours);
            l = l + 1;
        }
        proof {
            assert forall|t: int| 0 <= t < self.cells@.len() implies {
                &&& (#[trigger] self.cells@[t]).front@.len() == self.w() * self.h()
                &&& self.cells@[t].back@.len() == self.w() * self.h()
            } by {
                assert(extended_at(old(self).cells@[t], self.cells@[t], index as int, neighbours@));
            }
        }
    }

    /// Copies the channels of every front cell onto its back cell.
    pub fn fill_back(&mut self)
        requires
            old(self).wf(),
        ensures
            final(self).wf(),
            final(self).size == old(self).size,
            final(self).cells@.len() == old(self).cells@.len(),
            forall|l: int| 0 <= l < old(self).cells@.len() ==> back_filled(#[trigger] old(self).cells@[l], final(self).cells@[l]),
    {
        let n = self.cells.len();
        let cells_len = self.size.x as usize * self.size.y as usize;
        let mut l: usize = 0;
        while l < n
            invariant
                self.size == old(self).size,
                self.cells@.len() == n,
                n == old(self).cells@.len(),
                old(self).wf(),
                cells_len == old(self).w() * old(self).h(),
                l <= n,
                forall|t: int| l <= t < n ==> #[trigger] self.cells@[t] == old(self).cells@[t],
                forall|t: int| 0 <= t < l ==> back_filled(#[trigger] old(self).cells@[t], self.cells@[t]),
            decreases n - l,
        {
            let ghost before = self.cells@[l as int];
            proof {
                assert(self.cells@[l as int] == old(self).cells@[l as int]);
            }
            let mut i: usize = 0;
            while i < cells_len
                invariant
                    self.size == old(self).size,
                    self.cells@.len() == n,
                    l < n,
                    before.front@.len() == cells_len,
                    before.back@.len() == cells_len,
                    old(self).cells@.len() == n,
                    before == old(self).cells@[l as int],
                    forall|t: int| l < t < n ==> #[trigger] self.cells@[t] == old(self).cells@[t],
                    forall|t: int| 0 <= t < l ==> back_filled(#[trigger] old(self).cells@[t], self.cells@[t]),
                    self.cells@[l as int].colors == before.colors,
                    self.cells@[l as int].saturations == before.saturations,
                    self.cells@[l as int].brightnessess == before.brightnessess,
                    self.cells@[l as int].front@ == before.front@,
                    self.cells@[l as int].back@.len() == cells_len,
                    i <= cells_len,
                    forall|t: int|
                        0 <= t < i ==> same_channels(#[trigger] self.cells@[l as int].back@[t], before.front@[t])
                            && self.cells@[l as int].back@[t].neighbors@ == before.back@[t].neighbors@,
                    forall|t: int| i <= t < cells_len ==> #[trigger] self.cells@[l as int].back@[t] == before.back@[t],
                decreases cells_len - i,
            {
                let color = self.cells[l].front[i].color;
                let saturation = self.cells[l].front[i].saturation;
                let brightness = self.cells[l].front[i].brightness;
                let cell = &mut self.cells[l].back[i];
                cell.color = color;
                cell.saturation = saturation;
                cell.brightness = brightness;
                i = i + 1;
            }
            proof {
                assert(back_filled(old(self).cells@[l as int], self.cells@[l as int]));
            }
            l = l + 1;
        }
        proof {
            assert forall|t: int| 0 <= t < self.cells@.len() implies {
                &&& (#[trigger] self.cells@[t]).front@.len() == self.w() * self.h()
                &&& self.cells@[t].back@.len() == self.w() * self.h()
            } by {
                assert(back_filled(old(self).cells@[t], self.cells@[t]));
            }
        }
    }

    /// The back cell of `layer` at `(x, y)`, to be changed in place.
    pub fn back_cell(&mut self, layer: usize, x: u32, y: u32) -> (r: &mut Cell)
        requires
            old(self).wf(),
            layer < old(self).cells@.len(),
            x < old(self).size.x,
            y < old(self).size.y,
        ensures
            *r == old(self).cells@[layer as int].back@[y * old(self).w() + x],
            final(self).size == old(self).size,
            final(self).cells@ == old(self).cells@.update(
                layer as int,
                Cells {
                    back: final(self).cells@[layer as int].back,
                    ..old(self).cells@[layer as int]
                },
            ),
            final(self).cells@[layer as int].back@ == old(self).cells@[layer as int].back@.update(
                y * old(self).w() + x,
                *final(r),
            ),
    {
        let index = self.index_at(x, y);
        &mut self.cells[layer].back[index]
    }

    pub fn height(&self) -> (r: u32)
        ensures
            r == self.size.y,
    {
        self.size.y
    }

    pub fn width(&self) -> (r: u32)
        ensures
            r == self.size.x,
    {
        self.size.x
    }
}

} // verus!
