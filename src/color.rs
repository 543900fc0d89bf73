//! Resource colours: golden-ratio hue rotation and a fixed-point HSV to RGB
//! conversion.

use vstd::prelude::*;

verus! {

/// One whole turn of hue, in hue units.
pub const HUE_TURN: u64 = 0x1_0000_0000;

/// The golden-ratio conjugate 0.6180339887..., in hue units.
pub const GOLDEN_RATIO_CONJUGATE: u32 = 0x9E37_79B9;

/// Saturation and value are fractions of `UNIT`.
pub const UNIT: u32 = 65536;

/// Saturation and value of the generated colours: one half.
pub const HALF: u32 = 32768;

/// Which sixth of the hue circle `h` lies in.
pub open spec fn hue_sector(h: int) -> int {
    (h * 6) / (HUE_TURN as int)
}

/// How far `h` has gone through its sector, as a fraction of `UNIT`.
pub open spec fn hue_fraction(h: int) -> int {
    ((h * 6) % (HUE_TURN as int)) / (UNIT as int)
}

/// `x * (1 - y)` for fractions of `UNIT`.
pub open spec fn scale_down(x: int, y: int) -> int {
    x * ((UNIT as int) - y) / (UNIT as int)
}

/// A colour channel, scaled by 256.
pub open spec fn channel(x: int) -> int {
    if x * 256 / (UNIT as int) > 255 { 255 } else { x * 256 / (UNIT as int) }
}

/// A fraction of `UNIT`, at most one.
pub open spec fn saturate(x: int) -> int {
    if x > UNIT { UNIT as int } else { x }
}

pub open spec fn pack_rgb(r: int, g: int, b: int) -> int {
    channel(r) * 65536 + channel(g) * 256 + channel(b)
}

/// The packed `0xRRGGBB` colour of hue `h`, saturation `s` and value `v`.
pub open spec fn hsv_rgb(h: int, s: int, v: int) -> int {
    let f = hue_fraction(h);
    let p = scale_down(v, s);
    let q = scale_down(v, f * s / (UNIT as int));
    let t = scale_down(v, ((UNIT as int) - f) * s / (UNIT as int));
    let i = hue_sector(h);
    if i == 0 {
        pack_rgb(v, t, p)
    } else if i == 1 {
        pack_rgb(q, v, p)
    } else if i == 2 {
        pack_rgb(p, v, t)
    } else if i == 3 {
        pack_rgb(p, q, v)
    } else if i == 4 {
        pack_rgb(t, p, v)
    } else {
        pack_rgb(v, p, q)
    }
}

/// The hue of the `i`-th resource, starting from hue `h0`.
pub open spec fn hue_at(h0: int, i: int) -> int {
    (h0 + i * (GOLDEN_RATIO_CONJUGATE as int)) % (HUE_TURN as int)
}

/// The colour of the `i`-th resource, starting from hue `h0`.
pub open spec fn resource_color(h0: int, i: int) -> int {
    hsv_rgb(hue_at(h0, i), HALF as int, HALF as int)
}

fn scale_down_exec(x: u64, y: u64) -> (r: u64)
    requires
        x <= UNIT,
        y <= UNIT,
    ensures
        r == scale_down(x as int, y as int),
        r <= x,
{
    proof {
        assert(x * (UNIT - y) <= x * UNIT) by (nonlinear_arith)
            requires
                y <= UNIT,
        ;
        assert(x * (UNIT - y) <= UNIT * UNIT) by (nonlinear_arith)
            requires
                x <= UNIT,
                y <= UNIT,
        ;
        assert(x * (UNIT - y) / (UNIT as int) <= x) by (nonlinear_arith)
            requires
                x * (UNIT - y) <= x * UNIT,
                x * (UNIT - y) >= 0,
        ;
    }
    x * (UNIT as u64 - y) / UNIT as u64
}

fn pack_rgb_exec(r: u64, g: u64, b: u64) -> (c: u32)
    requires
        r <= UNIT,
        g <= UNIT,
        b <= UNIT,
    ensures
        c == pack_rgb(r as int, g as int, b as int),
{
    let cr: u64 = channel_exec(r);
    let cg: u64 = channel_exec(g);
    let cb: u64 = channel_exec(b);
    (cr * 65536 + cg * 256 + cb) as u32
}

fn channel_exec(x: u64) -> (c: u64)
    requires
        x <= UNIT,
    ensures
        c == channel(x as int),
        c <= 255,
{
    let c: u64 = x * 256 / UNIT as u64;
    if c > 255 { 255 } else { c }
}

/// Converts hue `h` (a fraction of a turn), saturation `s` and value `v`
/// (fractions of `UNIT`) to a colour packed as `0xRRGGBB`, each channel
/// scaled by 256. A saturation or value above one counts as one, and a
/// channel that reaches 256 is held at 255.
pub fn hsv_to_rgb(h: u32, s: u32, v: u32) -> (r: u32)
    ensures
        r == hsv_rgb(h as int, saturate(s as int), saturate(v as int)),
{
    let s: u32 = if s > UNIT { UNIT } else { s };
    let v: u32 = if v > UNIT { UNIT } else { v };
    let h6: u64 = h as u64 * 6;
    let h_i: u64 = h6 / HUE_TURN;
    let f: u64 = (h6 % HUE_TURN) / UNIT as u64;
    proof {
        assert(f < UNIT) by (nonlinear_arith)
            requires
                f == (h6 % 0x1_0000_0000) / 65536,
                0 <= h6 % 0x1_0000_0000 < 0x1_0000_0000,
        ;
        assert(f * s <= UNIT * UNIT) by (nonlinear_arith)
            requires
                f < UNIT,
                s <= UNIT,
        ;
        assert(f * s / (UNIT as int) <= UNIT) by (nonlinear_arith)
            requires
                0 <= f * s <= UNIT * UNIT,
        ;
        assert((UNIT - f) * s <= UNIT * UNIT) by (nonlinear_arith)
            requires
                f < UNIT,
                s <= UNIT,
        ;
        assert((UNIT - f) * s / (UNIT as int) <= UNIT) by (nonlinear_arith)
            requires
                0 <= (UNIT - f) * s <= UNIT * UNIT,
        ;
    }
    let vv: u64 = v as u64;
    let p: u64 = scale_down_exec(vv, s as u64);
    let q: u64 = scale_down_exec(vv, f * s as u64 / UNIT as u64);
    let t: u64 = scale_down_exec(vv, (UNIT as u64 - f) * s as u64 / UNIT as u64);
    if h_i == 0 {
        pack_rgb_exec(vv, t, p)
    } else if h_i == 1 {
        pack_rgb_exec(q, vv, p)
    } else if h_i == 2 {
        pack_rgb_exec(p, vv, t)
    } else if h_i == 3 {
        pack_rgb_exec(p, q, vv)
    } else if h_i == 4 {
        pack_rgb_exec(t, p, vv)
    } else {
        pack_rgb_exec(vv, p, q)
    }
}

/// One colour per resource: hues start at `first_hue` and turn by the
/// golden-ratio conjugate from one resource to the next.
pub fn resource_colors(count: usize, first_hue: u32) -> (r: Vec<u32>)
    ensures
        r@.len() == count,
        forall|i: int| 0 <= i < count ==> r@[i] == resource_color(first_hue as int, i),
{
    let mut colors: Vec<u32> = Vec::new();
    let mut h: u32 = first_hue;
    let mut i: usize = 0;
    proof {
        vstd::arithmetic::div_mod::lemma_small_mod(first_hue as nat, HUE_TURN as nat);
    }
    while i < count
        invariant
            i <= count,
            colors@.len() == i,
            h == hue_at(first_hue as int, i as int),
            forall|j: int| 0 <= j < i ==> colors@[j] == resource_color(first_hue as int, j),
        decreases count - i,
    {
        colors.push(hsv_to_rgb(h, HALF, HALF));
        let next: u64 = (h as u64 + GOLDEN_RATIO_CONJUGATE as u64) % HUE_TURN;
        proof {
            let a = first_hue as int + i as int * (GOLDEN_RATIO_CONJUGATE as int);
            vstd::arithmetic::div_mod::lemma_add_mod_noop(a, GOLDEN_RATIO_CONJUGATE as int, HUE_TURN as int);
            vstd::arithmetic::div_mod::lemma_small_mod(GOLDEN_RATIO_CONJUGATE as nat, HUE_TURN as nat);
            assert((i + 1) as int * (GOLDEN_RATIO_CONJUGATE as int)
                == i as int * (GOLDEN_RATIO_CONJUGATE as int) + GOLDEN_RATIO_CONJUGATE as int) by (nonlinear_arith);
        }
        h = next as u32;
        i = i + 1;
    }
    colors
}

/// Relies on rand's `random::<u32>`: any hue may come back.
#[verifier::external_body]
pub(crate) fn random_hue() -> u32 {
    rand::random::<u32>()
}

} // verus!
