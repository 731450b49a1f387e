use vstd::prelude::*;

verus! {

/// Sub-units in one pixel: 33 frames' worth of thousandths.
pub const SUBUNITS_PER_PIXEL: i64 = 33000;

/// Thousandths of a pixel per frame in one pixel per frame.
pub const MILLI: i64 = 1000;

/// Largest magnitude a position coordinate can hold, in sub-units (2^40).
pub const POS_LIMIT: i64 = 1099511627776;

/// Largest magnitude a velocity component can hold (2^30).
pub const VEL_LIMIT: i64 = 1073741824;

/// Position (sub-units), render depth and rotation (whole degrees, below 360).
#[derive(Clone, Copy, Debug, PartialEq, Eq, Structural)]
pub struct Transform {
    pub x: i64,
    pub y: i64,
    pub z: i64,
    pub rotation: u32,
}

impl Transform {
    pub open spec fn wf(&self) -> bool {
        -POS_LIMIT <= self.x <= POS_LIMIT && -POS_LIMIT <= self.y <= POS_LIMIT
            && -POS_LIMIT <= self.z <= POS_LIMIT && self.rotation < 360
    }

    pub fn from_xyz(x: i64, y: i64, z: i64) -> (r: Transform)
        ensures
            r == (Transform { x, y, z, rotation: 0 }),
    {
        Transform { x, y, z, rotation: 0 }
    }
}

/// Velocity in thousandths of a pixel per 33 ms frame.
#[derive(Clone, Copy, Debug, PartialEq, Eq, Structural)]
pub struct Velocity {
    pub x: i64,
    pub y: i64,
}

impl Velocity {
    pub open spec fn wf(&self) -> bool {
        -VEL_LIMIT <= self.x <= VEL_LIMIT && -VEL_LIMIT <= self.y <= VEL_LIMIT
    }
}

/// Marks a source of pull; `max_velocity` is carried but not used by the pull.
#[derive(Clone, Copy, Debug, PartialEq, Eq, Structural)]
pub struct Attractor {
    pub max_velocity: i64,
}

/// `v` held within `[-limit, limit]`.
pub open spec fn saturate(v: int, limit: int) -> int {
    if v > limit {
        limit
    } else if v < -limit {
        -limit
    } else {
        v
    }
}

/// Coordinate `p` moved by velocity component `v` over `elapsed` milliseconds.
pub open spec fn step_coord(p: int, v: int, elapsed: int) -> int {
    saturate(p + v * elapsed, POS_LIMIT as int)
}

/// `t` moved by `v` over `elapsed` milliseconds; depth and rotation are kept.
pub open spec fn advanced(t: Transform, v: Velocity, elapsed: int) -> Transform {
    Transform {
        x: step_coord(t.x as int, v.x as int, elapsed) as i64,
        y: step_coord(t.y as int, v.y as int, elapsed) as i64,
        ..t
    }
}

pub(crate) fn saturate_i128(v: i128, limit: i64) -> (r: i64)
    requires
        limit >= 0,
    ensures
        r == saturate(v as int, limit as int),
{
    if v > limit as i128 {
        limit
    } else if v < -(limit as i128) {
        -limit
    } else {
        v as i64
    }
}

/// `|a * b| <= la * lb` when `|a| <= la` and `0 <= b <= lb`.
proof fn lemma_product_bound(a: int, la: int, b: int, lb: int)
    requires
        -la <= a <= la,
        0 <= b <= lb,
    ensures
        -(la * lb) <= a * b <= la * lb,
{
    assert(-(la * lb) <= a * b <= la * lb) by (nonlinear_arith)
        requires
            -la <= a <= la,
            0 <= b <= lb,
    ;
}

/// Moves a transform by a velocity over `elapsed` milliseconds.
pub fn advance(t: &Transform, v: &Velocity, elapsed: u32) -> (r: Transform)
    requires
        t.wf(),
        v.wf(),
    ensures
        r == advanced(*t, *v, elapsed as int),
        r.wf(),
{
    let e = elapsed as i128;
    proof {
        lemma_product_bound(v.x as int, VEL_LIMIT as int, e as int, 0x1_0000_0000);
        lemma_product_bound(v.y as int, VEL_LIMIT as int, e as int, 0x1_0000_0000);
    }
    let x = saturate_i128(t.x as i128 + v.x as i128 * e, POS_LIMIT);
    let y = saturate_i128(t.y as i128 + v.y as i128 * e, POS_LIMIT);
    Transform { x, y, ..*t }
}

/// Velocity integration is linear: two steps over `h` milliseconds each land where one
/// step over `2 * h` does, whenever the single step stays within the position range.
pub proof fn lemma_velocity_step_linear(t: Transform, v: Velocity, h: int)
    requires
        t.wf(),
        h >= 0,
        -POS_LIMIT <= t.x + v.x * (2 * h) <= POS_LIMIT,
        -POS_LIMIT <= t.y + v.y * (2 * h) <= POS_LIMIT,
    ensures
        advanced(advanced(t, v, h), v, h) == advanced(t, v, 2 * h),
{
    assert(v.x * (2 * h) == 2 * (v.x * h)) by (nonlinear_arith);
    assert(v.y * (2 * h) == 2 * (v.y * h)) by (nonlinear_arith);
}

/// `n` is the integer square root of `s`.
pub open spec fn is_root(s: int, n: int) -> bool {
    0 <= n && n * n <= s && s < (n + 1) * (n + 1)
}

/// The integer square root of `s`.
pub open spec fn root(s: int) -> int {
    choose|n: int| is_root(s, n)
}

proof fn lemma_root_unique(s: int, n: int, m: int)
    requires
        is_root(s, n),
        is_root(s, m),
    ensures
        n == m,
{
    if n < m {
        assert((n + 1) * (n + 1) <= m * m) by (nonlinear_arith)
            requires
                0 <= n < m,
        ;
    } else if m < n {
        assert((m + 1) * (m + 1) <= n * n) by (nonlinear_arith)
            requires
                0 <= m < n,
        ;
    }
}

/// Bound below which `isqrt` accepts its argument (2^84).
pub const ROOT_ARG_LIMIT: u128 = 19342813113834066795298816;

/// Integer square root by bisection.
pub fn isqrt(s: u128) -> (r: u128)
    requires
        s < ROOT_ARG_LIMIT,
    ensures
        r == root(s as int),
        is_root(s as int, r as int),
        r < 4398046511104,
{
    let mut lo: u128 = 0;
    let mut hi: u128 = 4398046511104;
    assert(4398046511104 * 4398046511104 == ROOT_ARG_LIMIT);
    while hi - lo > 1
        invariant
            lo < hi <= 4398046511104,
            lo * lo <= s,
            s < hi * hi,
        decreases hi - lo,
    {
        let mid = lo + (hi - lo) / 2;
        assert(mid * mid <= 4398046511104 * 4398046511104) by (nonlinear_arith)
            requires
                mid < 4398046511104,
        ;
        if mid * mid <= s {
            lo = mid;
        } else {
            hi = mid;
        }
    }
    assert(is_root(s as int, lo as int));
    assert(is_root(s as int, root(s as int)));
    proof {
        lemma_root_unique(s as int, lo as int, root(s as int));
    }
    lo
}

/// Strength of the pull: 2000 pixels' worth, in the crate's units
/// (`2000 * MILLI * SUBUNITS_PER_PIXEL * SUBUNITS_PER_PIXEL / 33`).
pub const PULL: i128 = 66000000000000;

/// Integer division rounding toward zero, for `b > 0`.
pub open spec fn trunc_div(a: int, b: int) -> int {
    if a >= 0 {
        a / b
    } else {
        -((-a) / b)
    }
}

/// Squared distance between two transforms, depth included.
pub open spec fn dist2(a: Transform, b: Transform) -> int {
    (a.x - b.x) * (a.x - b.x) + (a.y - b.y) * (a.y - b.y) + (a.z - b.z) * (a.z - b.z)
}

/// Change of one velocity component: the offset `d` toward the attractor, normalised by
/// the distance `n`, divided by the squared distance, scaled by the pull and the elapsed time.
pub open spec fn pull(d: int, n: int, elapsed: int) -> int {
    trunc_div(PULL * elapsed * d, n * n * n)
}

/// Velocity of an entity at `target` after one pull from `attractor`; no pull at distance zero.
pub open spec fn attracted(attractor: Transform, target: Transform, v: Velocity, elapsed: int) -> Velocity {
    let s = dist2(attractor, target);
    if s == 0 {
        v
    } else {
        let n = root(s);
        Velocity {
            x: saturate(v.x + pull(attractor.x - target.x, n, elapsed), VEL_LIMIT as int) as i64,
            y: saturate(v.y + pull(attractor.y - target.y, n, elapsed), VEL_LIMIT as int) as i64,
        }
    }
}

fn trunc_div_i128(a: i128, b: i128) -> (r: i128)
    requires
        b > 0,
        a > i128::MIN,
    ensures
        r == trunc_div(a as int, b as int),
{
    if a >= 0 {
        a / b
    } else {
        -((-a) / b)
    }
}

proof fn lemma_square_bound(d: int)
    requires
        -0x200_0000_0000 <= d <= 0x200_0000_0000,
    ensures
        0 <= d * d <= 0x4_0000_0000_0000_0000_0000,
{
    assert(0 <= d * d <= 0x4_0000_0000_0000_0000_0000) by (nonlinear_arith)
        requires
            -0x200_0000_0000 <= d <= 0x200_0000_0000,
    ;
}

proof fn lemma_root_bounds(s: int, n: int)
    requires
        is_root(s, n),
        0 < s < ROOT_ARG_LIMIT,
    ensures
        1 <= n < 0x400_0000_0000,
        1 <= n * n * n < 0x4000_0000_0000_0000_0000_0000_0000_0000,
{
    if n >= 0x400_0000_0000 {
        assert(n * n >= 0x400_0000_0000 * 0x400_0000_0000) by (nonlinear_arith)
            requires
                n >= 0x400_0000_0000,
        ;
    }
    assert(1 <= n * n * n < 0x4000_0000_0000_0000_0000_0000_0000_0000) by (nonlinear_arith)
        requires
            1 <= n < 0x400_0000_0000,
    ;
}

/// Applies one attractor's pull to the velocity of an entity at `target`.
pub fn attraction_step(attractor: &Transform, target: &Transform, v: &Velocity, elapsed: u32) -> (r: Velocity)
    requires
        attractor.wf(),
        target.wf(),
        v.wf(),
    ensures
        r == attracted(*attractor, *target, *v, elapsed as int),
        r.wf(),
{
    let dx = attractor.x as i128 - target.x as i128;
    let dy = attractor.y as i128 - target.y as i128;
    let dz = attractor.z as i128 - target.z as i128;
    proof {
        lemma_square_bound(dx as int);
        lemma_square_bound(dy as int);
        lemma_square_bound(dz as int);
    }
    let s = dx * dx + dy * dy + dz * dz;
    if s == 0 {
        return *v;
    }
    let n = isqrt(s as u128) as i128;
    proof {
        lemma_root_bounds(s as int, n as int);
    }
    let cube = n * n * n;
    let scale = PULL * elapsed as i128;
    proof {
        lemma_product_bound(PULL as int, PULL as int, elapsed as int, 0x1_0000_0000);
        assert(66000000000000 * 0x1_0000_0000 <= 0x4000_0000_0000_0000_0000);
        assert(0 <= scale) by (nonlinear_arith)
            requires
                scale == PULL * elapsed,
                0 <= elapsed,
                PULL >= 0,
        ;
        lemma_product_bound(dx as int, 0x200_0000_0000, scale as int, 0x4000_0000_0000_0000_0000);
        lemma_product_bound(dy as int, 0x200_0000_0000, scale as int, 0x4000_0000_0000_0000_0000);
        assert(scale * dx == PULL * elapsed * dx) by (nonlinear_arith)
            requires scale == PULL * elapsed;
        assert(scale * dy == PULL * elapsed * dy) by (nonlinear_arith)
            requires scale == PULL * elapsed;
    }
    let px = trunc_div_i128(scale * dx, cube);
    let py = trunc_div_i128(scale * dy, cube);
    Velocity {
        x: saturate_i128(v.x as i128 + px, VEL_LIMIT),
        y: saturate_i128(v.y as i128 + py, VEL_LIMIT),
    }
}

/// The unit push (one pixel per frame) along the direction from `b` to `a`; none when
/// the two coincide.
pub open spec fn push_vector(a: Transform, b: Transform) -> Velocity {
    let s = dist2(a, b);
    if s == 0 {
        Velocity { x: 0, y: 0 }
    } else {
        let n = root(s);
        Velocity {
            x: trunc_div((a.x - b.x) * MILLI, n) as i64,
            y: trunc_div((a.y - b.y) * MILLI, n) as i64,
        }
    }
}

/// Computes `push_vector(a, b)`.
pub fn bounce_push(a: &Transform, b: &Transform) -> (r: Velocity)
    requires
        a.wf(),
        b.wf(),
    ensures
        r == push_vector(*a, *b),
        -0x8_0000_0000_0000 <= r.x <= 0x8_0000_0000_0000,
        -0x8_0000_0000_0000 <= r.y <= 0x8_0000_0000_0000,
{
    let dx = a.x as i128 - b.x as i128;
    let dy = a.y as i128 - b.y as i128;
    let dz = a.z as i128 - b.z as i128;
    proof {
        lemma_square_bound(dx as int);
        lemma_square_bound(dy as int);
        lemma_square_bound(dz as int);
    }
    let s = dx * dx + dy * dy + dz * dz;
    if s == 0 {
        return Velocity { x: 0, y: 0 };
    }
    let n = isqrt(s as u128) as i128;
    proof {
        lemma_root_bounds(s as int, n as int);
    }
    let px = trunc_div_i128(dx * 1000, n);
    let py = trunc_div_i128(dy * 1000, n);
    proof {
        lemma_trunc_div_bound(dx * 1000, n as int);
        lemma_trunc_div_bound(dy * 1000, n as int);
    }
    Velocity { x: px as i64, y: py as i64 }
}

proof fn lemma_trunc_div_bound(a: int, n: int)
    requires
        n >= 1,
    ensures
        -(if a >= 0 { a } else { -a }) <= trunc_div(a, n) <= (if a >= 0 { a } else { -a }),
{
    if a >= 0 {
        assert(0 <= a / n <= a) by (nonlinear_arith)
            requires
                a >= 0,
                n >= 1,
        ;
    } else {
        assert(0 <= (-a) / n <= -a) by (nonlinear_arith)
            requires
                -a >= 0,
                n >= 1,
        ;
    }
}

/// Largest speed thrust can reach: five pixels per frame.
pub const MAX_THRUST_SPEED: i64 = 5000;

/// `v` shortened, along its own direction, to at most `MAX_THRUST_SPEED`.
pub open spec fn capped(v: Velocity) -> Velocity {
    let s = v.x * v.x + v.y * v.y;
    if s > MAX_THRUST_SPEED * MAX_THRUST_SPEED {
        let n = root(s);
        Velocity {
            x: trunc_div(v.x * MAX_THRUST_SPEED, n) as i64,
            y: trunc_div(v.y * MAX_THRUST_SPEED, n) as i64,
        }
    } else {
        v
    }
}

/// Computes `capped(v)`.
pub fn cap_speed(v: &Velocity) -> (r: Velocity)
    requires
        v.wf(),
    ensures
        r == capped(*v),
        r.wf(),
{
    let x = v.x as i128;
    let y = v.y as i128;
    proof {
        lemma_square_bound(x as int);
        lemma_square_bound(y as int);
    }
    let s = x * x + y * y;
    if s <= 25000000 {
        return *v;
    }
    let n = isqrt(s as u128) as i128;
    proof {
        lemma_root_bounds(s as int, n as int);
        assert(x * x <= n * n + 2 * n) by (nonlinear_arith)
            requires
                x * x + y * y == s,
                s < (n + 1) * (n + 1),
                y * y >= 0,
        ;
        assert(y * y <= n * n + 2 * n) by (nonlinear_arith)
            requires
                x * x + y * y == s,
                s < (n + 1) * (n + 1),
                x * x >= 0,
        ;
        lemma_abs_le_root(x as int, n as int);
        lemma_abs_le_root(y as int, n as int);
        lemma_scaled_le(x as int, n as int);
        lemma_scaled_le(y as int, n as int);
    }
    Velocity { x: trunc_div_i128(x * 5000, n) as i64, y: trunc_div_i128(y * 5000, n) as i64 }
}

proof fn lemma_abs_le_root(x: int, n: int)
    requires
        n >= 1,
        x * x <= n * n + 2 * n,
    ensures
        -n <= x <= n,
{
    assert((n + 1) * (n + 1) == n * n + 2 * n + 1) by (nonlinear_arith);
    if x > n {
        assert(x * x >= (n + 1) * (n + 1)) by (nonlinear_arith)
            requires
                x >= n + 1,
                n >= 1,
        ;
    }
    if x < -n {
        assert(x * x >= (n + 1) * (n + 1)) by (nonlinear_arith)
            requires
                -x >= n + 1,
                n >= 1,
        ;
    }
}

proof fn lemma_scaled_le(x: int, n: int)
    requires
        n >= 1,
        -n <= x <= n,
    ensures
        -5000 <= trunc_div(x * 5000, n) <= 5000,
{
    if x >= 0 {
        assert((x * 5000) / n <= 5000) by (nonlinear_arith)
            requires
                0 <= x <= n,
                n >= 1,
        ;
        assert((x * 5000) / n >= 0) by (nonlinear_arith)
            requires
                0 <= x,
                n >= 1,
        ;
    } else {
        assert((-(x * 5000)) / n <= 5000) by (nonlinear_arith)
            requires
                0 <= -x <= n,
                n >= 1,
        ;
        assert((-(x * 5000)) / n >= 0) by (nonlinear_arith)
            requires
                0 <= -x,
                n >= 1,
        ;
    }
}

} // verus!
