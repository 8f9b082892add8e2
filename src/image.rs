//! From the finished depth buffer to the RGBA bytes handed to the image encoder.

use crate::space::WINDOW_UNIT;
use vstd::prelude::*;

verus! {

/// The base colour of every pixel, one channel at a time (red, green, blue, alpha).
pub open spec fn base_channel(k: int) -> u8 {
    if k == 0 {
        165
    } else if k == 1 {
        255
    } else if k == 2 {
        214
    } else {
        255
    }
}

fn base_channel_exec(k: usize) -> (r: u8)
    ensures
        r == base_channel(k as int),
{
    if k == 0 {
        165
    } else if k == 1 {
        255
    } else if k == 2 {
        214
    } else {
        255
    }
}

/// One channel of a shaded pixel: the depth is first clamped to at most 1 (anything farther
/// shows as the far plane), then `[-1, 1]` maps onto `[base, 0]` as
/// `((1 - depth) / 2) * base`, rounded down; a depth nearer than -1 saturates at 255.
pub open spec fn shade(depth: i64, base: u8) -> u8 {
    let d = if depth > WINDOW_UNIT {
        WINDOW_UNIT as int
    } else {
        depth as int
    };
    let v = (WINDOW_UNIT - d) * base / (2 * WINDOW_UNIT);
    if v > 255 {
        255
    } else {
        v as u8
    }
}

/// Shades one channel of one depth cell.
pub fn shade_channel(depth: i64, base: u8) -> (r: u8)
    ensures
        r == shade(depth, base),
{
    let d: i128 = if depth > WINDOW_UNIT {
        WINDOW_UNIT as i128
    } else {
        depth as i128
    };
    let lifted: i128 = (WINDOW_UNIT as i128) - d;
    assert(0 <= lifted * base <= 0x1_0000_0000_0000_0000_0000) by (nonlinear_arith)
        requires
            0 <= lifted <= 0x8000_0000_0000_0000 + 65536,
            0 <= base <= 255,
    ;
    let v: i128 = lifted * (base as i128) / (2 * WINDOW_UNIT as i128);
    if v > 255 {
        255
    } else {
        proof {
            vstd::arithmetic::div_mod::lemma_div_pos_is_pos(lifted * base, 2 * WINDOW_UNIT as int);
        }
        v as u8
    }
}

/// The RGBA bytes of a depth image, its cells in row-major order: four channels per cell, each
/// the base colour shaded by the cell's depth.
pub fn encode_rgba(depths: &[i64]) -> (data: Vec<u8>)
    requires
        4 * depths.len() <= usize::MAX,
    ensures
        data.len() == 4 * depths.len(),
        forall|i: int, k: int|
            0 <= i < depths.len() && 0 <= k < 4 ==> #[trigger] data[4 * i + k] == shade(
                depths[i],
                base_channel(k),
            ),
{
    let mut data: Vec<u8> = Vec::new();
    let mut i: usize = 0;
    while i < depths.len()
        invariant
            4 * depths.len() <= usize::MAX,
            i <= depths.len(),
            data.len() == 4 * i,
            forall|j: int, k: int|
                0 <= j < i && 0 <= k < 4 ==> #[trigger] data[4 * j + k] == shade(
                    depths[j],
                    base_channel(k),
                ),
        decreases depths.len() - i,
    {
        let mut k: usize = 0;
        while k < 4
            invariant
                i < depths.len(),
                k <= 4,
                data.len() == 4 * i + k,
                forall|j: int, c: int|
                    0 <= j < i && 0 <= c < 4 ==> #[trigger] data[4 * j + c] == shade(
                        depths[j],
                        base_channel(c),
                    ),
                forall|c: int| 0 <= c < k ==> #[trigger] data[4 * i + c] == shade(depths[i as int], base_channel(c)),
            decreases 4 - k,
        {
            data.push(shade_channel(depths[i], base_channel_exec(k)));
            k = k + 1;
        }
        i = i + 1;
    }
    data
}

} // verus!
