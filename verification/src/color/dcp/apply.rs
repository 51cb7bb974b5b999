//! Which entries of a hue/saturation map surround a pixel.
//!
//! A map is a grid over hue, saturation and value. Hue wraps round; saturation and value stop at
//! their last entries. The application finds where in the grid a pixel lies and blends the eight
//! entries around it; which entries those are is decided here.

use super::parser::{cell_index, cells_lie_inside_a_full_map, HueSatMap, HueSatMapView};
use vstd::prelude::*;

verus! {

/// `h` moved by one turn towards the grid, which has `divs` hues.
pub open spec fn one_turn(h: int, divs: int) -> int {
    let up = if h < 0 {
        h + divs
    } else {
        h
    };
    if up >= divs {
        up - divs
    } else {
        up
    }
}

/// A hue index brought into the grid: by one turn at most, and by the remainder after that. A
/// number still below zero counts as the 32-bit pattern it has.
pub open spec fn wrapped_hue(h: int, divs: int) -> int {
    let h = one_turn(h, divs);
    (if h < 0 {
        h + 0x1_0000_0000
    } else {
        h
    }) % divs
}

/// The hue after `h`, with the first after the last.
pub open spec fn next_hue(h: u32, divs: u32) -> u32 {
    if h + 1 >= divs {
        0
    } else {
        (h + 1) as u32
    }
}

/// The entry after `i` on an axis that doesn't wrap.
pub open spec fn next_clamped(i: u32, divs: u32) -> u32 {
    if i + 1 >= divs {
        (divs - 1) as u32
    } else {
        (i + 1) as u32
    }
}

/// Brings a hue index into the grid.
pub fn hue_index_wrap(h: i32, hue_divs: u32) -> (index: u32)
    requires
        0 < hue_divs <= i32::MAX,
    ensures
        index == wrapped_hue(h as int, hue_divs as int),
        index < hue_divs,
{
    let divs: i64 = hue_divs as i64;
    let up: i64 = if h < 0 {
        h as i64 + divs
    } else {
        h as i64
    };
    let turned: i64 = if up >= divs {
        up - divs
    } else {
        up
    };
    let bits: u64 = if turned < 0 {
        (turned + 0x1_0000_0000) as u64
    } else {
        turned as u64
    };
    (bits % hue_divs as u64) as u32
}

/// The hue after `h0`.
pub fn hue_index_wrap_next(h0: u32, hue_divs: u32) -> (index: u32)
    requires
        h0 < u32::MAX,
    ensures
        index == next_hue(h0, hue_divs),
{
    if h0 + 1 >= hue_divs {
        0
    } else {
        h0 + 1
    }
}

/// The triple at a grid cell.
pub open spec fn triple_at(map: HueSatMapView, h: u32, s: u32, v: u32) -> (u32, u32, u32) {
    let at = cell_index(map.sat_divs, map.val_divs, h, s, v);
    (map.data[at], map.data[at + 1], map.data[at + 2])
}

/// A map that can be sampled: it has an entry on every axis, fills its grid, and can be counted
/// through in 32 bits.
pub open spec fn can_sample(map: HueSatMapView) -> bool {
    &&& 0 < map.hue_divs <= i32::MAX
    &&& 0 < map.sat_divs
    &&& 0 < map.val_divs
    &&& map.hue_divs * map.sat_divs * map.val_divs <= u32::MAX
    &&& map.full()
}

/// Whether a map can be sampled.
pub fn samplable(map: &HueSatMap) -> (yes: bool)
    ensures
        yes == can_sample(map@),
{
    if map.hue_divs == 0 || map.hue_divs > 0x7fff_ffff || map.sat_divs == 0 || map.val_divs == 0 {
        return false;
    }
    let ghost (h, s, v) = (map.hue_divs as int, map.sat_divs as int, map.val_divs as int);
    assert(0 <= h * s <= 0xffff_ffff * 0xffff_ffff) by (nonlinear_arith)
        requires
            0 <= h <= 0xffff_ffff,
            0 <= s <= 0xffff_ffff,
    ;
    assert(0 <= h * s * v <= 0xffff_ffff * 0xffff_ffff * 0xffff_ffff) by (nonlinear_arith)
        requires
            0 <= h * s <= 0xffff_ffff * 0xffff_ffff,
            0 <= v <= 0xffff_ffff,
    ;
    let cells: u128 = map.hue_divs as u128 * map.sat_divs as u128 * map.val_divs as u128;
    cells <= 0xffff_ffff && map.data.len() as u128 == cells * 3
}

/// A cell of the grid.
fn sample_cell(map: &HueSatMap, h: u32, s: u32, v: u32) -> (triple: (u32, u32, u32))
    requires
        can_sample(map@),
        h < map.hue_divs,
        s < map.sat_divs,
        v < map.val_divs,
    ensures
        triple == triple_at(map@, h, s, v),
{
    proof {
        cells_lie_inside_a_full_map(map@, h, s, v);
        let (sd, vd) = (map.sat_divs as int, map.val_divs as int);
        let row = h * sd + s;
        assert(0 <= row) by (nonlinear_arith)
            requires
                row == h * sd + s,
                0 <= h,
                0 <= s < sd,
        ;
        assert(row <= row * vd) by (nonlinear_arith)
            requires
                0 <= row,
                1 <= vd,
        ;
    }
    map.sample(h, s, v)
}

/// The eight entries around a pixel whose lower corner has hue index `h_floor`, saturation index
/// `s0` and value index `v0`: value changes fastest, hue slowest.
pub fn corners(map: &HueSatMap, h_floor: i32, s0: u32, v0: u32) -> (cells: [(u32, u32, u32); 8])
    requires
        can_sample(map@),
        s0 < map.sat_divs,
        v0 < map.val_divs,
    ensures
        ({
            let h0 = wrapped_hue(h_floor as int, map.hue_divs as int) as u32;
            let h1 = next_hue(h0, map.hue_divs);
            let s1 = next_clamped(s0, map.sat_divs);
            let v1 = next_clamped(v0, map.val_divs);
            cells@ == seq![
                triple_at(map@, h0, s0, v0),
                triple_at(map@, h0, s0, v1),
                triple_at(map@, h0, s1, v0),
                triple_at(map@, h0, s1, v1),
                triple_at(map@, h1, s0, v0),
                triple_at(map@, h1, s0, v1),
                triple_at(map@, h1, s1, v0),
                triple_at(map@, h1, s1, v1),
            ]
        }),
{
    let h0: u32 = hue_index_wrap(h_floor, map.hue_divs);
    let h1: u32 = hue_index_wrap_next(h0, map.hue_divs);
    let s1: u32 = if s0 + 1 >= map.sat_divs {
        map.sat_divs - 1
    } else {
        s0 + 1
    };
    let v1: u32 = if v0 + 1 >= map.val_divs {
        map.val_divs - 1
    } else {
        v0 + 1
    };
    [
        sample_cell(map, h0, s0, v0),
        sample_cell(map, h0, s0, v1),
        sample_cell(map, h0, s1, v0),
        sample_cell(map, h0, s1, v1),
        sample_cell(map, h1, s0, v0),
        sample_cell(map, h1, s0, v1),
        sample_cell(map, h1, s1, v0),
        sample_cell(map, h1, s1, v1),
    ]
}

/// Within a turn of the grid, wrapping a hue index is taking its remainder.
pub proof fn wrapping_is_the_remainder(h: int, divs: int)
    requires
        0 < divs,
        -divs <= h < 2 * divs,
    ensures
        wrapped_hue(h, divs) == h % divs,
{
    vstd::arithmetic::div_mod::lemma_mod_add_multiples_vanish(h, divs);
    vstd::arithmetic::div_mod::lemma_mod_sub_multiples_vanish(h, divs);
}

/// The hue after another is one more, modulo the number of hues.
pub proof fn hues_wrap_round(h: u32, divs: u32)
    requires
        h < divs,
    ensures
        next_hue(h, divs) < divs,
        next_hue(h, divs) == (h + 1) % (divs as int),
{
    if h + 1 < divs {
        vstd::arithmetic::div_mod::lemma_small_mod((h + 1) as nat, divs as nat);
    } else {
        vstd::arithmetic::div_mod::lemma_mod_self_0(divs as int);
    }
}

/// The eight entries are the ones around the pixel: hue and the next hue round the circle,
/// saturation and value and the next ones up to their last. A triple's three numbers stand side by
/// side, with value changing fastest and hue slowest.
pub proof fn corners_surround_the_pixel(
    map: &HueSatMap,
    h_floor: i32,
    s0: u32,
    v0: u32,
    cells: [(u32, u32, u32); 8],
    a: int,
    b: int,
    c: int,
)
    requires
        can_sample(map@),
        s0 < map.sat_divs,
        v0 < map.val_divs,
        call_ensures(corners, (map, h_floor, s0, v0), cells),
        -map.hue_divs <= h_floor < 2 * map.hue_divs,
        0 <= a < 2,
        0 <= b < 2,
        0 <= c < 2,
    ensures
        ({
            let h = (h_floor + a) % (map.hue_divs as int);
            let s = if s0 + b < map.sat_divs {
                s0 + b
            } else {
                s0 as int
            };
            let v = if v0 + c < map.val_divs {
                v0 + c
            } else {
                v0 as int
            };
            let at = 3 * (v + map.val_divs * (s + map.sat_divs * h));
            let triple = cells@[4 * a + 2 * b + c];
            &&& triple.0 == map.data@[at]
            &&& triple.1 == map.data@[at + 1]
            &&& triple.2 == map.data@[at + 2]
        }),
{
    let divs = map.hue_divs as int;
    wrapping_is_the_remainder(h_floor as int, divs);
    let h0 = wrapped_hue(h_floor as int, divs) as u32;
    assert(0 <= h_floor as int % divs < divs) by {
        vstd::arithmetic::div_mod::lemma_mod_bound(h_floor as int, divs);
    }
    hues_wrap_round(h0, map.hue_divs);
    assert((h_floor + 1) % divs == (h0 + 1) % divs) by {
        vstd::arithmetic::div_mod::lemma_add_mod_noop(h_floor as int, 1, divs);
        vstd::arithmetic::div_mod::lemma_add_mod_noop(h0 as int, 1, divs);
        vstd::arithmetic::div_mod::lemma_small_mod(h0 as nat, divs as nat);
    }
    let h = (if a == 0 {
        h0
    } else {
        next_hue(h0, map.hue_divs)
    }) as int;
    assert(h == (h_floor + a) % divs);
    let s = if s0 + b < map.sat_divs {
        s0 + b
    } else {
        s0 as int
    };
    let v = if v0 + c < map.val_divs {
        v0 + c
    } else {
        v0 as int
    };
    let h1 = next_hue(h0, map.hue_divs);
    let s1 = next_clamped(s0, map.sat_divs);
    let v1 = next_clamped(v0, map.val_divs);
    assert(cells@[0] == triple_at(map@, h0, s0, v0) && cells@[1] == triple_at(map@, h0, s0, v1));
    assert(cells@[2] == triple_at(map@, h0, s1, v0) && cells@[3] == triple_at(map@, h0, s1, v1));
    assert(cells@[4] == triple_at(map@, h1, s0, v0) && cells@[5] == triple_at(map@, h1, s0, v1));
    assert(cells@[6] == triple_at(map@, h1, s1, v0) && cells@[7] == triple_at(map@, h1, s1, v1));
    assert(s as u32 == if b == 0 {
        s0
    } else {
        s1
    });
    assert(v as u32 == if c == 0 {
        v0
    } else {
        v1
    });
    assert(h as u32 == if a == 0 {
        h0
    } else {
        h1
    });
    let k = 4 * a + 2 * b + c;
    assert(k == 0 || k == 1 || k == 2 || k == 3 || k == 4 || k == 5 || k == 6 || k == 7);
    assert(cells@[k] == triple_at(map@, h as u32, s as u32, v as u32));
    let (sd, vd) = (map.sat_divs as int, map.val_divs as int);
    let row = h * sd + s;
    assert(sd * h == h * sd) by (nonlinear_arith);
    assert(vd * row == row * vd) by (nonlinear_arith);
}

/// A map can be sampled where it has an entry on every axis, its grid can be counted in 32 bits,
/// and it holds three numbers for each cell of it, and nowhere else.
pub proof fn full_grids_can_be_sampled(map: &HueSatMap, yes: bool)
    requires
        call_ensures(samplable, (map,), yes),
    ensures
        ({
            let cells = map.hue_divs * map.sat_divs * map.val_divs;
            yes <==> map.hue_divs > 0 && map.hue_divs <= 0x7fff_ffff && map.sat_divs > 0
                && map.val_divs > 0 && cells <= 0xffff_ffff && map.data@.len() == 3 * cells
        }),
{
}

/// A hue of the circle, or one turn off it, comes to the hue at the same place, and the one after
/// a hue is the next, the first after the last.
pub proof fn hues_stay_on_the_circle(h: i32, divs: u32, index: u32, next: u32)
    requires
        0 < divs <= 0x7fff_ffff,
        -divs <= h < 2 * divs,
        call_ensures(hue_index_wrap, (h, divs), index),
        call_ensures(hue_index_wrap_next, (index, divs), next),
    ensures
        0 <= h < divs ==> index == h,
        h < 0 ==> index == h + divs,
        h >= divs ==> index == h - divs,
        index + 1 < divs ==> next == index + 1,
        index + 1 == divs ==> next == 0,
{
    wrapping_is_the_remainder(h as int, divs as int);
    let d = divs as int;
    if h < 0 {
        vstd::arithmetic::div_mod::lemma_mod_add_multiples_vanish(h as int, d);
        vstd::arithmetic::div_mod::lemma_small_mod((h + d) as nat, d as nat);
    } else if h >= d {
        vstd::arithmetic::div_mod::lemma_mod_sub_multiples_vanish(h as int, d);
        vstd::arithmetic::div_mod::lemma_small_mod((h - d) as nat, d as nat);
    } else {
        vstd::arithmetic::div_mod::lemma_small_mod(h as nat, d as nat);
    }
}

} // verus!
