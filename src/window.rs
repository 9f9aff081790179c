//! What a window is opened with.
use vstd::prelude::*;
use std::time::Duration;
use crate::geometry::{lemma_row_col, Vector2};

verus! {

/// How a window is opened: its title, its size on screen, the size of the
/// pixel grid drawn into it, and the interval between update ticks.
pub struct WindowOptions {
    pub update_delta: Duration,
    pub title: String,
    pub size: Vector2<u32>,
    pub graphics_size: Vector2<u32>,
}

/// A white RGBA pixel buffer of `width` by `height` pixels.
pub fn create_pixels(width: u32, height: u32) -> (r: Vec<u8>)
    requires
        4 * width * height <= usize::MAX,
    ensures
        r@.len() == 4 * width * height,
        forall|i: int| 0 <= i < r@.len() ==> #[trigger] r@[i] == 255,
{
    proof {
        assert(width * height <= 4 * width * height) by (nonlinear_arith);
        assert(width * height * 4 == 4 * width * height) by (nonlinear_arith);
    }
    let n = width as usize * height as usize * 4;
    let mut r: Vec<u8> = Vec::with_capacity(n);
    let mut i: usize = 0;
    while i < n
        invariant
            i <= n,
            r@.len() == i,
            forall|t: int| 0 <= t < i ==> #[trigger] r@[t] == 255,
        decreases n - i,
    {
        r.push(255);
        i = i + 1;
    }
    r
}

/// Copies a `width` by `height` RGBA image stored top row first into
/// `pixels` bottom row first, the order in which OpenGL reads a texture.
pub fn flip_rows(image: &Vec<u8>, width: u32, height: u32, pixels: &mut Vec<u8>)
    requires
        4 * width * height <= usize::MAX,
        image@.len() == 4 * width * height,
        old(pixels)@.len() == 4 * width * height,
    ensures
        final(pixels)@.len() == old(pixels)@.len(),
        forall|y: int, k: int|
            0 <= y < height && 0 <= k < 4 * width ==> #[trigger] final(pixels)@[(height - 1 - y) * (4 * width) + k]
                == image@[y * (4 * width) + k],
{
    let ghost rw = 4 * width as int;
    let ghost hh = height as int;
    proof {
        assert(4 * width * height == rw * hh) by (nonlinear_arith)
            requires
                rw == 4 * width,
                hh == height,
        ;
        assert(rw <= rw * hh || hh == 0) by (nonlinear_arith)
            requires
                hh >= 0,
                rw >= 0,
        ;
    }
    let h = height as usize;
    let row_len: usize = if h == 0 {
        0
    } else {
        width as usize * 4
    };
    let mut y: usize = 0;
    while y < h
        invariant
            h == hh,
            h > 0 ==> row_len == rw,
            rw >= 0,
            rw * hh <= usize::MAX,
            image@.len() == rw * hh,
            pixels@.len() == rw * hh,
            y <= h,
            forall|t: int, k: int|
                0 <= t < y && 0 <= k < rw ==> #[trigger] pixels@[(hh - 1 - t) * rw + k] == image@[t * rw + k],
        decreases h - y,
    {
        proof {
            assert((hh - y - 1) * rw + rw <= rw * hh) by (nonlinear_arith)
                requires
                    0 <= y < hh,
                    rw >= 0,
            ;
            assert(y * rw + rw <= rw * hh) by (nonlinear_arith)
                requires
                    0 <= y < hh,
                    rw >= 0,
            ;
            assert(0 <= (hh - y - 1) * rw) by (nonlinear_arith)
                requires
                    0 <= y < hh,
                    rw >= 0,
            ;
            assert(0 <= y * rw) by (nonlinear_arith)
                requires
                    0 <= y,
                    rw >= 0,
            ;
        }
        let target = (h - y - 1) * row_len;
        let source = y * row_len;
        let ghost before = pixels@;
        let mut k: usize = 0;
        while k < row_len
            invariant
                h == hh,
                row_len == rw,
                y < h,
                target == (hh - y - 1) * rw,
                source == y * rw,
                target + rw <= rw * hh,
                source + rw <= rw * hh,
                rw * hh <= usize::MAX,
                image@.len() == rw * hh,
                pixels@.len() == rw * hh,
                k <= row_len,
                forall|i: int| 0 <= i < rw * hh && !(target <= i < target + k) ==> #[trigger] pixels@[i] == before[i],
                forall|j: int| 0 <= j < k ==> #[trigger] pixels@[target + j] == image@[source + j],
            decreases row_len - k,
        {
            pixels.set(target + k, image[source + k]);
            k = k + 1;
        }
        proof {
            assert forall|t: int, j: int| 0 <= t < y + 1 && 0 <= j < rw implies #[trigger] pixels@[(hh - 1 - t) * rw + j]
                == image@[t * rw + j] by {
                let i = (hh - 1 - t) * rw + j;
                assert(0 <= i < rw * hh) by (nonlinear_arith)
                    requires
                        i == (hh - 1 - t) * rw + j,
                        0 <= t < hh,
                        0 <= j < rw,
                ;
                if t == y {
                    assert(i == target + j);
                } else {
                    lemma_row_col(i, rw, hh - 1 - t, j);
                    if target <= i < target + rw {
                        lemma_row_col(i, rw, hh - 1 - y, i - target);
                    }
                    assert(pixels@[i] == before[i]);
                }
            }
        }
        y = y + 1;
    }
}

} // verus!
