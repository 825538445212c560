use vstd::prelude::*;

verus! {

/// A colour made of three independent 8-bit channels.
#[derive(Clone, Copy, Debug, PartialEq, Eq, Structural, Hash)]
pub struct Pixel {
    pub r: u8,
    pub g: u8,
    pub b: u8,
}

/// One channel blended `local / steps` of the way from `a` to `b`, truncated
/// toward zero: `floor((a * (steps - local) + b * local) / steps)`.
pub open spec fn blend_channel(local: nat, steps: nat, a: u8, b: u8) -> int
    recommends
        0 < steps,
        local <= steps,
{
    (a * (steps - local) + b * local) / (steps as int)
}

/// Each channel of `a` and `b` blended by `blend_channel`.
pub open spec fn blend(local: nat, steps: nat, a: Pixel, b: Pixel) -> Pixel
    recommends
        0 < steps,
        local <= steps,
{
    Pixel {
        r: blend_channel(local, steps, a.r, b.r) as u8,
        g: blend_channel(local, steps, a.g, b.g) as u8,
        b: blend_channel(local, steps, a.b, b.b) as u8,
    }
}

proof fn lemma_blend_channel_bounds(local: nat, steps: nat, a: u8, b: u8)
    requires
        0 < steps,
        local <= steps,
    ensures
        0 <= blend_channel(local, steps, a, b) <= 255,
{
    let s = steps as int;
    let l = local as int;
    assert(0 <= a * (s - l) + b * l <= 255 * s) by (nonlinear_arith)
        requires
            0 <= a <= 255,
            0 <= b <= 255,
            0 <= l <= s,
    ;
    assert(0 <= (a * (s - l) + b * l) / s <= 255) by (nonlinear_arith)
        requires
            0 <= a * (s - l) + b * l <= 255 * s,
            0 < s,
    ;
}

fn blend_u8(local: usize, steps: usize, a: u8, b: u8) -> (r: u8)
    requires
        0 < steps,
        local <= steps,
    ensures
        r as int == blend_channel(local as nat, steps as nat, a, b),
{
    proof {
        lemma_blend_channel_bounds(local as nat, steps as nat, a, b);
    }
    let s = steps as u128;
    let l = local as u128;
    assert((a as u128) * (s - l) <= 255 * s) by (nonlinear_arith)
        requires
            a <= 255,
            l <= s,
    ;
    assert((b as u128) * l <= 255 * s) by (nonlinear_arith)
        requires
            b <= 255,
            l <= s,
    ;
    let total: u128 = (a as u128) * (s - l) + (b as u128) * l;
    (total / s) as u8
}

/// A blend at fraction zero is the first pixel, and one at fraction one is
/// the second.
pub proof fn lemma_blend_ends(steps: nat, a: Pixel, b: Pixel)
    requires
        0 < steps,
    ensures
        blend(0, steps, a, b) == a,
        blend(steps, steps, a, b) == b,
{
    let s = steps as int;
    assert forall|c: u8, d: u8| #[trigger] blend_channel(0, steps, c, d) == c as int
        && blend_channel(steps, steps, c, d) == d as int by {
        assert(c * (s - 0) + d * 0 == c * s) by (nonlinear_arith);
        assert(c * (s - s) + d * s == d * s) by (nonlinear_arith);
        vstd::arithmetic::div_mod::lemma_div_by_multiple(c as int, s);
        vstd::arithmetic::div_mod::lemma_div_by_multiple(d as int, s);
    }
    assert(blend_channel(0, steps, a.r, b.r) == a.r as int);
    assert(blend_channel(0, steps, a.g, b.g) == a.g as int);
    assert(blend_channel(0, steps, a.b, b.b) == a.b as int);
    assert(blend_channel(steps, steps, a.r, b.r) == b.r as int);
    assert(blend_channel(steps, steps, a.g, b.g) == b.g as int);
    assert(blend_channel(steps, steps, a.b, b.b) == b.b as int);
}

/// Blends `c1` toward `c2` by the fraction `local / steps`, channel by channel,
/// truncating each result toward zero.
pub fn smooth(local: usize, steps: usize, c1: Pixel, c2: Pixel) -> (r: Pixel)
    requires
        0 < steps,
        local <= steps,
    ensures
        r == blend(local as nat, steps as nat, c1, c2),
{
    Pixel {
        r: blend_u8(local, steps, c1.r, c2.r),
        g: blend_u8(local, steps, c1.g, c2.g),
        b: blend_u8(local, steps, c1.b, c2.b),
    }
}

} // verus!
