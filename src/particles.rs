use vstd::prelude::*;

verus! {

/// An 8-bit RGBA color.
#[derive(Clone, Copy, Debug, PartialEq, Eq, Structural)]
pub struct Color {
    pub r: u8,
    pub g: u8,
    pub b: u8,
    pub a: u8,
}

impl Color {
    pub fn rgb(r: u8, g: u8, b: u8) -> (c: Color)
        ensures
            c == (Color { r, g, b, a: 255 }),
    {
        Color { r, g, b, a: 255 }
    }

    pub fn black() -> (c: Color)
        ensures
            c == (Color { r: 0, g: 0, b: 0, a: 255 }),
    {
        Color::rgb(0, 0, 0)
    }

    pub fn white() -> (c: Color)
        ensures
            c == (Color { r: 255, g: 255, b: 255, a: 255 }),
    {
        Color::rgb(255, 255, 255)
    }

    pub fn yellow() -> (c: Color)
        ensures
            c == (Color { r: 255, g: 255, b: 0, a: 255 }),
    {
        Color::rgb(255, 255, 0)
    }

    pub fn purple() -> (c: Color)
        ensures
            c == (Color { r: 128, g: 0, b: 128, a: 255 }),
    {
        Color::rgb(128, 0, 128)
    }

    pub fn cyan() -> (c: Color)
        ensures
            c == (Color { r: 0, g: 255, b: 255, a: 255 }),
    {
        Color::rgb(0, 255, 255)
    }

    pub fn blue() -> (c: Color)
        ensures
            c == (Color { r: 0, g: 0, b: 255, a: 255 }),
    {
        Color::rgb(0, 0, 255)
    }

    pub fn pink() -> (c: Color)
        ensures
            c == (Color { r: 255, g: 20, b: 148, a: 255 }),
    {
        Color::rgb(255, 20, 148)
    }

    pub fn green() -> (c: Color)
        ensures
            c == (Color { r: 0, g: 255, b: 0, a: 255 }),
    {
        Color::rgb(0, 255, 0)
    }
}

/// Age of a particle and the age at which it expires, in milliseconds.
#[derive(Clone, Copy, Debug, PartialEq, Eq, Structural)]
pub struct ParticleLifetime {
    pub elapsed: u32,
    pub max: u32,
}

impl ParticleLifetime {
    /// A live particle has a positive lifetime and has not outlived it.
    pub open spec fn wf(&self) -> bool {
        0 < self.max && self.elapsed <= self.max
    }

    pub fn new(max: u32) -> (r: ParticleLifetime)
        ensures
            r == (ParticleLifetime { elapsed: 0, max }),
    {
        ParticleLifetime { elapsed: 0, max }
    }
}

/// Colors a particle fades between over its lifetime.
#[derive(Clone, Copy, Debug, PartialEq, Eq, Structural)]
pub struct ParticleColorLerp {
    pub start: Color,
    pub end: Color,
}

/// Channel value a fraction `elapsed / max` of the way from `s` to `e`.
pub open spec fn lerp_channel(s: int, e: int, elapsed: int, max: int) -> int {
    (s * (max - elapsed) + e * elapsed) / max
}

/// Color a fraction `elapsed / max` of the way from `start` to `end`, channel by channel.
pub open spec fn lerp_color(start: Color, end: Color, elapsed: int, max: int) -> Color {
    Color {
        r: lerp_channel(start.r as int, end.r as int, elapsed, max) as u8,
        g: lerp_channel(start.g as int, end.g as int, elapsed, max) as u8,
        b: lerp_channel(start.b as int, end.b as int, elapsed, max) as u8,
        a: lerp_channel(start.a as int, end.a as int, elapsed, max) as u8,
    }
}

fn lerp_u8(s: u8, e: u8, elapsed: u32, max: u32) -> (r: u8)
    requires
        0 < max,
        elapsed <= max,
    ensures
        r == lerp_channel(s as int, e as int, elapsed as int, max as int),
{
    let m = max as u64;
    let t = elapsed as u64;
    proof {
        assert(s * (m - t) <= 255 * (m - t) && e * t <= 255 * t) by (nonlinear_arith)
            requires
                s <= 255,
                e <= 255,
                t <= m,
        ;
        assert(255 * (m - t) <= 255 * 0x1_0000_0000 && 255 * t <= 255 * 0x1_0000_0000) by (nonlinear_arith)
            requires
                t <= m,
                m < 0x1_0000_0000,
        ;
    }
    let sum = s as u64 * (m - t) + e as u64 * t;
    proof {
        assert(sum / m <= 255) by (nonlinear_arith)
            requires
                sum <= 255 * (m - t) + 255 * t,
                m > 0,
        ;
    }
    (sum / m) as u8
}

/// Render color of a particle with the given lifetime.
pub fn color_at(lerp: &ParticleColorLerp, life: &ParticleLifetime) -> (c: Color)
    requires
        life.wf(),
    ensures
        c == lerp_color(lerp.start, lerp.end, life.elapsed as int, life.max as int),
{
    Color {
        r: lerp_u8(lerp.start.r, lerp.end.r, life.elapsed, life.max),
        g: lerp_u8(lerp.start.g, lerp.end.g, life.elapsed, life.max),
        b: lerp_u8(lerp.start.b, lerp.end.b, life.elapsed, life.max),
        a: lerp_u8(lerp.start.a, lerp.end.a, life.elapsed, life.max),
    }
}

/// A particle shows its start color exactly when it is born and its end color exactly
/// when its lifetime is used up.
pub proof fn lemma_color_endpoints(start: Color, end: Color, max: int)
    requires
        max > 0,
    ensures
        lerp_color(start, end, 0, max) == start,
        lerp_color(start, end, max, max) == end,
{
    assert forall|s: int, e: int| lerp_channel(s, e, 0, max) == s && lerp_channel(s, e, max, max) == e by {
        assert(s * (max - 0) + e * 0 == s * max) by (nonlinear_arith);
        assert((s * max) / max == s) by (nonlinear_arith)
            requires
                max > 0,
        ;
        assert(s * (max - max) + e * max == e * max) by (nonlinear_arith);
        assert((e * max) / max == e) by (nonlinear_arith)
            requires
                max > 0,
        ;
    }
}

} // verus!
