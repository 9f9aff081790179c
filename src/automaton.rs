//! The layered toroidal automaton whose top layer is rendered and sampled.
use vstd::prelude::*;
use crate::geometry::{
    lemma_index_split, lemma_wrap_shift, neighbor_at, torus_neighborhood, wrap_back, wrap_forward, Vector2,
};

verus! {

/// Three bounded counters, each in `[0, definition)` of its automaton.
#[derive(Copy, Clone, Debug, PartialEq, Eq, Structural)]
pub struct Cell {
    pub color: u64,
    pub saturation: u64,
    pub brightness: u64,
}

/// A stack of toroidal grids; layer `k` is derived from layer `k - 1` on each
/// step, and layer 0 from layer 1 of the previous step.
pub struct Nutshell {
    pub cells: Vec<Vec<Cell>>,
    pub layers: usize,
    pub definition: u64,
    pub size: Vector2<u32>,
}

/// The channel `ch` (0 color, 1 saturation, 2 brightness) of a cell.
pub open spec fn channel(c: Cell, ch: int) -> u64 {
    if ch == 0 {
        c.color
    } else if ch == 1 {
        c.saturation
    } else {
        c.brightness
    }
}

pub open spec fn zero_cell() -> Cell {
    Cell { color: 0, saturation: 0, brightness: 0 }
}

/// The cells of a new automaton: zero, but for the first cell of layer 1.
pub open spec fn seed_cell(l: int, i: int) -> Cell {
    if l == 1 && i == 0 {
        Cell { color: 1, saturation: 1, brightness: 1 }
    } else {
        zero_cell()
    }
}

pub open spec fn cell_in_range(c: Cell, definition: int) -> bool {
    c.color < definition && c.saturation < definition && c.brightness < definition
}

/// Every cell of every layer stays below the modulus.
pub open spec fn layers_in_range(s: Seq<Seq<Cell>>, definition: int) -> bool {
    forall|l: int, i: int|
        0 <= l < s.len() && 0 <= i < s[l].len() ==> #[trigger] cell_in_range(s[l][i], definition)
}

/// What a cell gains on a flip.
pub const CHANGE: u64 = 1;

/// Channel `ch` of the `k`-th cell of `layer` around `(x, y)`.
pub open spec fn value_at(layer: Seq<Cell>, w: int, h: int, x: int, y: int, radius: int, ch: int, k: int) -> u64 {
    let p = neighbor_at(w, h, x, y, radius, k);
    channel(layer[p.y * w + p.x], ch)
}

/// Channel `ch` of the cells of `layer` around `(x, y)`, in neighborhood order.
pub open spec fn values_around(layer: Seq<Cell>, w: int, h: int, x: int, y: int, radius: int, ch: int) -> Seq<u64> {
    Seq::new(((2 * radius + 1) * (2 * radius + 1)) as nat, |k: int| value_at(layer, w, h, x, y, radius, ch, k))
}

pub open spec fn seq_sum(s: Seq<u64>) -> int
    decreases s.len(),
{
    if s.len() == 0 {
        0
    } else {
        seq_sum(s.drop_last()) + s.last()
    }
}

/// How many entries of `s` equal `v`.
pub open spec fn count_of(s: Seq<u64>, v: u64) -> nat
    decreases s.len(),
{
    if s.len() == 0 {
        0
    } else {
        count_of(s.drop_last(), v) + if s.last() == v {
            1nat
        } else {
            0nat
        }
    }
}

/// The most frequent value of `s` among `[0, n)`, the lowest one on a tie.
pub open spec fn fashion_upto(s: Seq<u64>, n: int) -> u64
    decreases n,
{
    if n <= 1 {
        0
    } else {
        let best = fashion_upto(s, n - 1);
        if count_of(s, (n - 1) as u64) > count_of(s, best) {
            (n - 1) as u64
        } else {
            best
        }
    }
}

/// Layer 1's rule: each channel is the sum of the 3 by 3 square around the
/// cell, modulo `definition`.
pub open spec fn summed_cell(layer: Seq<Cell>, w: int, h: int, definition: int, x: int, y: int) -> Cell {
    Cell {
        color: (seq_sum(values_around(layer, w, h, x, y, 1, 0)) % definition) as u64,
        saturation: (seq_sum(values_around(layer, w, h, x, y, 1, 1)) % definition) as u64,
        brightness: (seq_sum(values_around(layer, w, h, x, y, 1, 2)) % definition) as u64,
    }
}

pub open spec fn flipped(below: u64, own: u64, definition: int) -> u64 {
    if below == 0 {
        ((own + CHANGE) % definition) as u64
    } else {
        own
    }
}

/// Layer 2's rule: a channel advances by one wherever the same channel of
/// the layer below is zero.
pub open spec fn flipped_cell(below: Cell, own: Cell, definition: int) -> Cell {
    Cell {
        color: flipped(below.color, own.color, definition),
        saturation: flipped(below.saturation, own.saturation, definition),
        brightness: flipped(below.brightness, own.brightness, definition),
    }
}

/// Layer 3's rule: each channel takes the most frequent value of the 9 by 9
/// square around the cell.
pub open spec fn fashion_cell(layer: Seq<Cell>, w: int, h: int, definition: int, x: int, y: int) -> Cell {
    Cell {
        color: fashion_upto(values_around(layer, w, h, x, y, 4, 0), definition),
        saturation: fashion_upto(values_around(layer, w, h, x, y, 4, 1), definition),
        brightness: fashion_upto(values_around(layer, w, h, x, y, 4, 2), definition),
    }
}

/// The layers after one step: layer 0 copies layer 1, and layers 1 to 3 each
/// read the layer below them as it has just been produced.
pub open spec fn step_layers(s: Seq<Seq<Cell>>, w: int, h: int, definition: int) -> Seq<Seq<Cell>> {
    let l0 = s[1];
    let l1 = Seq::new((w * h) as nat, |i: int| summed_cell(l0, w, h, definition, i % w, i / w));
    let l2 = Seq::new((w * h) as nat, |i: int| flipped_cell(l1[i], s[2][i], definition));
    let l3 = Seq::new((w * h) as nat, |i: int| fashion_cell(l2, w, h, definition, i % w, i / w));
    s.update(0, l0).update(1, l1).update(2, l2).update(3, l3)
}

/// The layers after `k` steps.
pub open spec fn steps_layers(s: Seq<Seq<Cell>>, w: int, h: int, definition: int, k: nat) -> Seq<Seq<Cell>>
    decreases k,
{
    if k == 0 {
        s
    } else {
        step_layers(steps_layers(s, w, h, definition, (k - 1) as nat), w, h, definition)
    }
}

/// The fashion among `[0, n)` is a most frequent value there, and no lower
/// value is as frequent.
pub proof fn lemma_fashion_is_first_mode(s: Seq<u64>, n: int)
    requires
        1 <= n <= u64::MAX,
    ensures
        fashion_upto(s, n) < n,
        forall|j: int| 0 <= j < n ==> #[trigger] count_of(s, j as u64) <= count_of(s, fashion_upto(s, n)),
        forall|j: int| 0 <= j < fashion_upto(s, n) ==> #[trigger] count_of(s, j as u64) < count_of(s, fashion_upto(s, n)),
    decreases n,
{
    if n > 1 {
        lemma_fashion_is_first_mode(s, n - 1);
    }
}

pub proof fn lemma_count_bounded(s: Seq<u64>, v: u64)
    ensures
        count_of(s, v) <= s.len(),
    decreases s.len(),
{
    if s.len() > 0 {
        lemma_count_bounded(s.drop_last(), v);
    }
}

fn channel_of(c: &Cell, ch: usize) -> (r: u64)
    requires
        ch < 3,
    ensures
        r == channel(*c, ch as int),
{
    if ch == 0 {
        c.color
    } else if ch == 1 {
        c.saturation
    } else {
        c.brightness
    }
}

/// The sum of `vals` modulo `definition`, reduced after each term.
fn sum_mod(vals: &Vec<u64>, definition: u64) -> (r: u64)
    requires
        1 <= definition <= u64::MAX / 4,
        forall|k: int| 0 <= k < vals@.len() ==> #[trigger] vals@[k] < definition,
    ensures
        r == seq_sum(vals@) % (definition as int),
        r < definition,
{
    let mut acc: u64 = 0;
    let mut k: usize = 0;
    proof {
        assert(vals@.take(0) =~= Seq::<u64>::empty());
    }
    while k < vals.len()
        invariant
            1 <= definition <= u64::MAX / 4,
            forall|j: int| 0 <= j < vals@.len() ==> #[trigger] vals@[j] < definition,
            k <= vals@.len(),
            acc < definition,
            acc == seq_sum(vals@.take(k as int)) % (definition as int),
        decreases vals@.len() - k,
    {
        proof {
            assert(vals@.take(k + 1).drop_last() =~= vals@.take(k as int));
            lemma_wrap_shift(seq_sum(vals@.take(k as int)), vals@[k as int] as int, definition as int);
        }
        acc = (acc + vals[k]) % definition;
        k = k + 1;
    }
    proof {
        assert(vals@.take(vals@.len() as int) =~= vals@);
    }
    acc
}

/// The most frequent entry of `vals`, the lowest one on a tie.
fn fashion_of(vals: &Vec<u64>, definition: u64) -> (r: u64)
    requires
        1 <= definition <= usize::MAX,
        forall|k: int| 0 <= k < vals@.len() ==> #[trigger] vals@[k] < definition,
    ensures
        r == fashion_upto(vals@, definition as int),
        r < definition,
{
    let n = definition as usize;
    let mut counts: Vec<u64> = Vec::with_capacity(n);
    let mut j: usize = 0;
    while j < n
        invariant
            j <= n,
            counts@.len() == j,
            forall|i: int| 0 <= i < j ==> #[trigger] counts@[i] == 0,
        decreases n - j,
    {
        counts.push(0);
        j = j + 1;
    }
    let mut k: usize = 0;
    while k < vals.len()
        invariant
            n == definition,
            forall|i: int| 0 <= i < vals@.len() ==> #[trigger] vals@[i] < definition,
            k <= vals@.len(),
            counts@.len() == n,
            forall|i: int| 0 <= i < n ==> #[trigger] counts@[i] == count_of(vals@.take(k as int), i as u64),
        decreases vals@.len() - k,
    {
        let v = vals[k] as usize;
        proof {
            assert(vals@.take(k + 1).drop_last() =~= vals@.take(k as int));
            lemma_count_bounded(vals@.take(k as int), v as u64);
        }
        let c = counts[v];
        counts.set(v, c + 1);
        k = k + 1;
    }
    proof {
        assert(vals@.take(vals@.len() as int) =~= vals@);
    }
    let mut best: usize = 0;
    let mut i: usize = 1;
    while i < n
        invariant
            n == definition,
            1 <= i <= n,
            counts@.len() == n,
            forall|t: int| 0 <= t < n ==> #[trigger] counts@[t] == count_of(vals@, t as u64),
            best < i,
            best as u64 == fashion_upto(vals@, i as int),
        decreases n - i,
    {
        if counts[i] > counts[best] {
            best = i;
        }
        i = i + 1;
    }
    best as u64
}

/// A copy of a layer.
pub(crate) fn copy_layer(layer: &Vec<Cell>) -> (r: Vec<Cell>)
    ensures
        r@ == layer@,
{
    let mut r: Vec<Cell> = Vec::with_capacity(layer.len());
    let mut i: usize = 0;
    while i < layer.len()
        invariant
            i <= layer@.len(),
            r@ == layer@.take(i as int),
        decreases layer@.len() - i,
    {
        r.push(layer[i]);
        i = i + 1;
        proof {
            assert(r@ =~= layer@.take(i as int));
        }
    }
    proof {
        assert(layer@.take(layer@.len() as int) =~= layer@);
    }
    r
}

/// Layer 2's rule applied to every cell.
fn flip_layer(below: &Vec<Cell>, own: &Vec<Cell>, definition: u64) -> (r: Vec<Cell>)
    requires
        1 <= definition <= u64::MAX / 4,
        below@.len() == own@.len(),
        forall|i: int| 0 <= i < own@.len() ==> #[trigger] cell_in_range(own@[i], definition as int),
    ensures
        r@.len() == own@.len(),
        forall|i: int| 0 <= i < own@.len() ==> #[trigger] r@[i] == flipped_cell(below@[i], own@[i], definition as int),
        forall|i: int| 0 <= i < own@.len() ==> #[trigger] cell_in_range(r@[i], definition as int),
{
    let mut r: Vec<Cell> = Vec::with_capacity(own.len());
    let mut i: usize = 0;
    while i < own.len()
        invariant
            1 <= definition <= u64::MAX / 4,
            below@.len() == own@.len(),
            forall|t: int| 0 <= t < own@.len() ==> #[trigger] cell_in_range(own@[t], definition as int),
            i <= own@.len(),
            r@.len() == i,
            forall|t: int| 0 <= t < i ==> #[trigger] r@[t] == flipped_cell(below@[t], own@[t], definition as int),
            forall|t: int| 0 <= t < i ==> #[trigger] cell_in_range(r@[t], definition as int),
        decreases own@.len() - i,
    {
        let b = below[i];
        let mut c = own[i];
        proof {
            assert(cell_in_range(own@[i as int], definition as int));
        }
        if b.color == 0 {
            c.color = (c.color + CHANGE) % definition;
        }
        if b.saturation == 0 {
            c.saturation = (c.saturation + CHANGE) % definition;
        }
        if b.brightness == 0 {
            c.brightness = (c.brightness + CHANGE) % definition;
        }
        r.push(c);
        i = i + 1;
    }
    r
}

impl Nutshell {
    pub open spec fn width(&self) -> int {
        self.size.x as int
    }

    pub open spec fn height(&self) -> int {
        self.size.y as int
    }

    /// The layers, each a row-major sequence of cells.
    pub open spec fn view(&self) -> Seq<Seq<Cell>> {
        Seq::new(self.cells@.len(), |l: int| self.cells@[l]@)
    }

    pub open spec fn wf(&self) -> bool {
        &&& self.size.x >= 1
        &&& self.size.y >= 1
        &&& self.definition >= 1
        &&& self.definition <= u64::MAX / 4
        &&& self.definition <= usize::MAX
        &&& self.width() * self.height() <= usize::MAX
        &&& self.layers >= 1
        &&& self.layers == self.cells@.len()
        &&& forall|l: int| 0 <= l < self.layers ==> #[trigger] self.cells@[l]@.len() == self.width() * self.height()
        &&& layers_in_range(self@, self.definition as int)
    }

    /// Builds `layers` zeroed layers of `size.x` by `size.y` cells and sets the
    /// first cell of layer 1 to one on every channel.
    pub fn new(size: Vector2<u32>, layers: usize, definition: u64) -> (r: Nutshell)
        requires
            size.x >= 1,
            size.y >= 1,
            size.x * size.y <= usize::MAX,
            2 <= layers,
            2 <= definition <= u64::MAX / 4,
            definition <= usize::MAX,
        ensures
            r.wf(),
            r.size == size,
            r.layers == layers,
            r.definition == definition,
            forall|l: int, i: int|
                0 <= l < layers && 0 <= i < size.x * size.y ==> #[trigger] r@[l][i] == seed_cell(l, i),
    {
        let n: usize = size.x as usize * size.y as usize;
        let mut cells: Vec<Vec<Cell>> = Vec::with_capacity(layers);
        let mut l: usize = 0;
        while l < layers
            invariant
                l <= layers,
                n == size.x * size.y,
                cells@.len() == l,
                forall|k: int, i: int|
                    0 <= k < l && 0 <= i < n ==> #[trigger] cells@[k]@[i] == seed_cell(k, i),
                forall|k: int| 0 <= k < l ==> #[trigger] cells@[k]@.len() == n,
            decreases layers - l,
        {
            let mut layer: Vec<Cell> = Vec::with_capacity(n);
            let mut i: usize = 0;
            while i < n
                invariant
                    i <= n,
                    layer@.len() == i,
                    forall|j: int| 0 <= j < i ==> #[trigger] layer@[j] == seed_cell(l as int, j),
                decreases n - i,
            {
                if l == 1 && i == 0 {
                    layer.push(Cell { color: 1, saturation: 1, brightness: 1 });
                } else {
                    layer.push(Cell { color: 0, saturation: 0, brightness: 0 });
                }
                i = i + 1;
            }
            cells.push(layer);
            l = l + 1;
        }
        let r = Nutshell { cells, layers, definition, size };
        assert forall|k: int, i: int| 0 <= k < r@.len() && 0 <= i < r@[k].len() implies #[trigger] cell_in_range(
            r@[k][i],
            definition as int,
        ) by {
            assert(r@[k][i] == seed_cell(k, i));
        }
        r
    }

    /// The row-major index of `(x, y)`.
    pub fn index_at(&self, x: u32, y: u32) -> (r: usize)
        requires
            self.wf(),
            x < self.size.x,
            y < self.size.y,
        ensures
            r == y * self.width() + x,
            r < self.width() * self.height(),
    {
        proof {
            assert(y * self.width() + x < self.width() * self.height()) by (nonlinear_arith)
                requires
                    x < self.width(),
                    y < self.height(),
            ;
        }
        y as usize * self.size.x as usize + x as usize
    }

    /// The column left of `i`, wrapping around.
    pub fn left(&self, i: u32) -> (r: u32)
        requires
            self.size.x >= 1,
            i < self.size.x,
        ensures
            r == (i - 1) % self.width(),
    {
        wrap_back(self.size.x, i)
    }

    /// The row above `i`, wrapping around.
    pub fn up(&self, i: u32) -> (r: u32)
        requires
            self.size.y >= 1,
            i < self.size.y,
        ensures
            r == (i - 1) % self.height(),
    {
        wrap_back(self.size.y, i)
    }

    /// The column right of `i`, wrapping around.
    pub fn right(&self, i: u32) -> (r: u32)
        requires
            self.size.x >= 1,
            i < self.size.x,
        ensures
            r == (i + 1) % self.width(),
    {
        wrap_forward(self.size.x, i)
    }

    /// The row below `i`, wrapping around.
    pub fn down(&self, i: u32) -> (r: u32)
        requires
            self.size.y >= 1,
            i < self.size.y,
        ensures
            r == (i + 1) % self.height(),
    {
        wrap_forward(self.size.y, i)
    }

    pub fn rigth_pos(&self, x: u32, y: u32) -> (r: Vector2<u32>)
        requires
            self.size.x >= 1,
            x < self.size.x,
        ensures
            r.x == (x + 1) % self.width(),
            r.y == y,
    {
        Vector2::new(self.right(x), y)
    }

    pub fn left_pos(&self, x: u32, y: u32) -> (r: Vector2<u32>)
        requires
            self.size.x >= 1,
            x < self.size.x,
        ensures
            r.x == (x - 1) % self.width(),
            r.y == y,
    {
        Vector2::new(self.left(x), y)
    }

    pub fn down_pos(&self, x: u32, y: u32) -> (r: Vector2<u32>)
        requires
            self.size.y >= 1,
            y < self.size.y,
        ensures
            r.x == x,
            r.y == (y + 1) % self.height(),
    {
        Vector2::new(x, self.down(y))
    }

    pub fn up_pos(&self, x: u32, y: u32) -> (r: Vector2<u32>)
        requires
            self.size.y >= 1,
            y < self.size.y,
        ensures
            r.x == x,
            r.y == (y - 1) % self.height(),
    {
        Vector2::new(x, self.up(y))
    }

    /// The square of side `2 * radius + 1` centred on `(x, y)`, row-major from
    /// its top-left corner; a radius past the grid size wraps several times.
    pub fn neighborhood(&self, x: u32, y: u32, radius: u32) -> (r: Vec<Vector2<u32>>)
        requires
            self.size.x >= 1,
            self.size.y >= 1,
            x < self.size.x,
            y < self.size.y,
            2 * radius + 1 <= u32::MAX,
            (2 * radius + 1) * (2 * radius + 1) <= usize::MAX,
        ensures
            r@.len() == (2 * radius + 1) * (2 * radius + 1),
            forall|k: int|
                0 <= k < r@.len() ==> #[trigger] r@[k] == neighbor_at(
                    self.width(),
                    self.height(),
                    x as int,
                    y as int,
                    radius as int,
                    k,
                ),
    {
        torus_neighborhood(self.size, x, y, radius)
    }

    /// Channel `ch` of the cells of `layer` around `(x, y)`.
    fn gather(&self, layer: &Vec<Cell>, x: u32, y: u32, radius: u32, ch: usize) -> (r: Vec<u64>)
        requires
            self.wf(),
            layer@.len() == self.width() * self.height(),
            forall|i: int| 0 <= i < layer@.len() ==> #[trigger] cell_in_range(layer@[i], self.definition as int),
            x < self.size.x,
            y < self.size.y,
            radius <= 4,
            ch < 3,
        ensures
            r@ == values_around(layer@, self.width(), self.height(), x as int, y as int, radius as int, ch as int),
            forall|k: int| 0 <= k < r@.len() ==> #[trigger] r@[k] < self.definition,
    {
        let ghost w = self.width();
        let ghost h = self.height();
        proof {
            assert((2 * radius + 1) * (2 * radius + 1) <= 81) by (nonlinear_arith)
                requires
                    radius <= 4,
            ;
        }
        let nbrs = self.neighborhood(x, y, radius);
        let ghost want = values_around(layer@, w, h, x as int, y as int, radius as int, ch as int);
        let mut vals: Vec<u64> = Vec::with_capacity(nbrs.len());
        let mut k: usize = 0;
        while k < nbrs.len()
            invariant
                self.wf(),
                w == self.width(),
                h == self.height(),
                layer@.len() == w * h,
                forall|i: int| 0 <= i < layer@.len() ==> #[trigger] cell_in_range(layer@[i], self.definition as int),
                ch < 3,
                want == values_around(layer@, w, h, x as int, y as int, radius as int, ch as int),
                nbrs@.len() == want.len(),
                forall|t: int| 0 <= t < nbrs@.len() ==> #[trigger] nbrs@[t] == neighbor_at(w, h, x as int, y as int, radius as int, t),
                k <= nbrs@.len(),
                vals@ == want.take(k as int),
                forall|t: int| 0 <= t < vals@.len() ==> #[trigger] vals@[t] < self.definition,
            decreases nbrs@.len() - k,
        {
            let p = nbrs[k];
            let idx = self.index_at(p.x, p.y);
            proof {
                assert(cell_in_range(layer@[idx as int], self.definition as int));
                assert(want[k as int] == value_at(layer@, w, h, x as int, y as int, radius as int, ch as int, k as int));
            }
            vals.push(channel_of(&layer[idx], ch));
            k = k + 1;
            proof {
                assert(vals@ =~= want.take(k as int));
            }
        }
        proof {
            assert(want.take(want.len() as int) =~= want);
        }
        vals
    }

    /// Layer 1's rule applied to every cell of `layer`.
    fn sum_layer(&self, layer: &Vec<Cell>) -> (r: Vec<Cell>)
        requires
            self.wf(),
            layer@.len() == self.width() * self.height(),
            forall|i: int| 0 <= i < layer@.len() ==> #[trigger] cell_in_range(layer@[i], self.definition as int),
        ensures
            r@.len() == layer@.len(),
            forall|i: int|
                0 <= i < r@.len() ==> #[trigger] r@[i] == summed_cell(
                    layer@,
                    self.width(),
                    self.height(),
                    self.definition as int,
                    i % self.width(),
                    i / self.width(),
                ),
            forall|i: int| 0 <= i < r@.len() ==> #[trigger] cell_in_range(r@[i], self.definition as int),
    {
        let ghost w = self.width();
        let ghost h = self.height();
        let n = layer.len();
        let width = self.size.x as usize;
        let mut r: Vec<Cell> = Vec::with_capacity(n);
        let mut i: usize = 0;
        while i < n
            invariant
                self.wf(),
                w == self.width(),
                h == self.height(),
                width == w,
                n == layer@.len(),
                layer@.len() == w * h,
                forall|t: int| 0 <= t < layer@.len() ==> #[trigger] cell_in_range(layer@[t], self.definition as int),
                i <= n,
                r@.len() == i,
                forall|t: int|
                    0 <= t < i ==> #[trigger] r@[t] == summed_cell(layer@, w, h, self.definition as int, t % w, t / w),
                forall|t: int| 0 <= t < i ==> #[trigger] cell_in_range(r@[t], self.definition as int),
            decreases n - i,
        {
            proof {
                lemma_index_split(i as int, w, h);
            }
            let x = (i % width) as u32;
            let y = (i / width) as u32;
            let definition = self.definition;
            let color = sum_mod(&self.gather(layer, x, y, 1, 0), definition);
            let saturation = sum_mod(&self.gather(layer, x, y, 1, 1), definition);
            let brightness = sum_mod(&self.gather(layer, x, y, 1, 2), definition);
            r.push(Cell { color, saturation, brightness });
            i = i + 1;
        }
        r
    }

    /// Layer 3's rule applied to every cell of `layer`.
    fn fashion_layer(&self, layer: &Vec<Cell>) -> (r: Vec<Cell>)
        requires
            self.wf(),
            layer@.len() == self.width() * self.height(),
            forall|i: int| 0 <= i < layer@.len() ==> #[trigger] cell_in_range(layer@[i], self.definition as int),
        ensures
            r@.len() == layer@.len(),
            forall|i: int|
                0 <= i < r@.len() ==> #[trigger] r@[i] == fashion_cell(
                    layer@,
                    self.width(),
                    self.height(),
                    self.definition as int,
                    i % self.width(),
                    i / self.width(),
                ),
            forall|i: int| 0 <= i < r@.len() ==> #[trigger] cell_in_range(r@[i], self.definition as int),
    {
        let ghost w = self.width();
        let ghost h = self.height();
        let n = layer.len();
        let width = self.size.x as usize;
        let mut r: Vec<Cell> = Vec::with_capacity(n);
        let mut i: usize = 0;
        while i < n
            invariant
                self.wf(),
                w == self.width(),
                h == self.height(),
                width == w,
                n == layer@.len(),
                layer@.len() == w * h,
                forall|t: int| 0 <= t < layer@.len() ==> #[trigger] cell_in_range(layer@[t], self.definition as int),
                i <= n,
                r@.len() == i,
                forall|t: int|
                    0 <= t < i ==> #[trigger] r@[t] == fashion_cell(layer@, w, h, self.definition as int, t % w, t / w),
                forall|t: int| 0 <= t < i ==> #[trigger] cell_in_range(r@[t], self.definition as int),
            decreases n - i,
        {
            proof {
                lemma_index_split(i as int, w, h);
            }
            let x = (i % width) as u32;
            let y = (i / width) as u32;
            let definition = self.definition;
            let color = fashion_of(&self.gather(layer, x, y, 4, 0), definition);
            let saturation = fashion_of(&self.gather(layer, x, y, 4, 1), definition);
            let brightness = fashion_of(&self.gather(layer, x, y, 4, 2), definition);
            r.push(Cell { color, saturation, brightness });
            i = i + 1;
        }
        r
    }

    /// One step: layer 0 copies layer 1, layer 1 sums the 3 by 3 square of
    /// the new layer 0, layer 2 flips where the new layer 1 is zero, and layer
    /// 3 follows the fashion of the 9 by 9 square of the new layer 2.
    pub fn step(&mut self)
        requires
            old(self).wf(),
            old(self).layers >= 4,
        ensures
            final(self).wf(),
            final(self).size == old(self).size,
            final(self).layers == old(self).layers,
            final(self).definition == old(self).definition,
            final(self)@ == step_layers(old(self)@, old(self).width(), old(self).height(), old(self).definition as int),
    {
        let ghost s = self@;
        let ghost w = self.width();
        let ghost h = self.height();
        let ghost d = self.definition as int;
        proof {
            assert(self.cells@[1]@.len() == w * h);
            assert(self.cells@[2]@.len() == w * h);
            assert forall|i: int| 0 <= i < s[1].len() implies #[trigger] cell_in_range(s[1][i], d) by {
                assert(cell_in_range(s[1][i], d));
            }
            assert forall|i: int| 0 <= i < s[2].len() implies #[trigger] cell_in_range(s[2][i], d) by {
                assert(cell_in_range(s[2][i], d));
            }
        }
        let l0 = copy_layer(&self.cells[1]);
        assert(l0@ == s[1]);
        let l1 = self.sum_layer(&l0);
        assert(self.cells@[2]@ == s[2]);
        let l2 = flip_layer(&l1, &self.cells[2], self.definition);
        let l3 = self.fashion_layer(&l2);
        self.cells.set(0, l0);
        self.cells.set(1, l1);
        self.cells.set(2, l2);
        self.cells.set(3, l3);
        proof {
            let t = step_layers(s, w, h, d);
            assert(l1@ =~= t[1]);
            assert(l2@ =~= t[2]);
            assert(l3@ =~= t[3]);
            assert(self@ =~= t);
            assert forall|l: int, i: int| 0 <= l < self@.len() && 0 <= i < self@[l].len() implies #[trigger] cell_in_range(
                self@[l][i],
                d,
            ) by {
                if l >= 4 {
                    assert(self@[l] == s[l]);
                }
            }
        }
    }

    /// Applies `k` steps.
    pub fn step_times(&mut self, k: u64)
        requires
            old(self).wf(),
            old(self).layers >= 4,
        ensures
            final(self).wf(),
            final(self).size == old(self).size,
            final(self).layers == old(self).layers,
            final(self).definition == old(self).definition,
            final(self)@ == steps_layers(
                old(self)@,
                old(self).width(),
                old(self).height(),
                old(self).definition as int,
                k as nat,
            ),
    {
        let ghost s = self@;
        let mut i: u64 = 0;
        while i < k
            invariant
                self.wf(),
                self.layers >= 4,
                self.size == old(self).size,
                self.layers == old(self).layers,
                self.definition == old(self).definition,
                s == old(self)@,
                i <= k,
                self@ == steps_layers(s, self.width(), self.height(), self.definition as int, i as nat),
            decreases k - i,
        {
            self.step();
            i = i + 1;
        }
    }
}

/// Stepping is a function of the layers alone: two automata that hold the
/// same cells, on grids of the same size and modulus, hold the same cells
/// again after any number of steps.
pub proof fn lemma_steps_replay(a: Nutshell, b: Nutshell, k: nat)
    requires
        a.wf(),
        b.wf(),
        a.size == b.size,
        a.definition == b.definition,
        a@ == b@,
    ensures
        steps_layers(a@, a.width(), a.height(), a.definition as int, k) == steps_layers(
            b@,
            b.width(),
            b.height(),
            b.definition as int,
            k,
        ),
    decreases k,
{
    if k > 0 {
        lemma_steps_replay(a, b, (k - 1) as nat);
    }
}

/// After a step, layer 0 holds what layer 1 held before it.
pub proof fn lemma_first_layer_copies(s: Seq<Seq<Cell>>, w: int, h: int, definition: int)
    requires
        s.len() >= 4,
    ensures
        step_layers(s, w, h, definition)[0] == s[1],
{
}

} // verus!
