//! Positions in the layout rectangle, distances between them and the delay a
//! spike takes to travel a distance.
use vstd::prelude::*;

verus! {

/// A point of the layout rectangle, in space units.
#[derive(Clone, Copy, Debug, PartialEq, Eq)]
pub struct Position {
    pub x: u64,
    pub y: u64,
}

/// Whether `r` is the floor of the square root of `n`.
pub open spec fn is_floor_sqrt(n: int, r: int) -> bool {
    0 <= r && r * r <= n < (r + 1) * (r + 1)
}

/// The floor of the square root of `n`.
pub open spec fn floor_sqrt(n: nat) -> nat {
    choose|r: nat| is_floor_sqrt(n as int, r as int)
}

pub open spec fn abs_diff(a: u64, b: u64) -> int {
    if a >= b {
        a - b
    } else {
        b - a
    }
}

pub open spec fn square_distance(a: Position, b: Position) -> nat {
    (abs_diff(a.x, b.x) * abs_diff(a.x, b.x) + abs_diff(a.y, b.y) * abs_diff(a.y, b.y)) as nat
}

/// The distance between two neurons, rounded down to whole units; neurons
/// closer than one unit count as one unit apart.
pub open spec fn separation(a: Position, b: Position) -> int {
    let r = floor_sqrt(square_distance(a, b));
    if r == 0 {
        1
    } else {
        r as int
    }
}

/// Travel time in microseconds over `dist` units at `speed` units per second,
/// rounded up.
pub open spec fn delay_of(dist: int, speed: int) -> int {
    (dist * 1_000_000 + speed - 1) / speed
}

proof fn lemma_floor_sqrt_unique(n: int, a: int, b: int)
    requires
        is_floor_sqrt(n, a),
        is_floor_sqrt(n, b),
    ensures
        a == b,
{
    if a < b {
        assert((a + 1) * (a + 1) <= b * b) by (nonlinear_arith)
            requires
                0 <= a < b,
        ;
    } else if b < a {
        assert((b + 1) * (b + 1) <= a * a) by (nonlinear_arith)
            requires
                0 <= b < a,
        ;
    }
}

/// The floor of the square root of `n`, by bisection.
pub fn isqrt(n: u64) -> (r: u64)
    ensures
        r == floor_sqrt(n as nat),
        is_floor_sqrt(n as int, r as int),
{
    let mut lo: u64 = 0;
    let mut hi: u64 = 0x1_0000_0000;
    assert(n < hi * hi) by (nonlinear_arith)
        requires
            n <= u64::MAX,
            hi == 0x1_0000_0000,
    ;
    while hi - lo > 1
        invariant
            lo < hi <= 0x1_0000_0000,
            lo * lo <= n < hi * hi,
        decreases hi - lo,
    {
        let mid: u64 = lo + (hi - lo) / 2;
        assert(mid * mid <= 0x1_0000_0000 * 0x1_0000_0000) by (nonlinear_arith)
            requires
                mid <= 0x1_0000_0000,
        ;
        if (mid as u128) * (mid as u128) <= n as u128 {
            lo = mid;
        } else {
            hi = mid;
        }
    }
    assert(is_floor_sqrt(n as int, lo as int));
    let ghost r = floor_sqrt(n as nat);
    proof {
        assert(exists|r: nat| is_floor_sqrt(n as int, r as int)) by {
            assert(is_floor_sqrt(n as int, (lo as nat) as int));
        }
        lemma_floor_sqrt_unique(n as int, r as int, lo as int);
    }
    lo
}

/// The separation of two neurons for coordinates below `2^31`.
pub fn separation_of(a: Position, b: Position) -> (r: u64)
    requires
        a.x < 0x8000_0000,
        a.y < 0x8000_0000,
        b.x < 0x8000_0000,
        b.y < 0x8000_0000,
    ensures
        r == separation(a, b),
        1 <= r < 0x1_0000_0000,
{
    let dx: u64 = if a.x >= b.x { a.x - b.x } else { b.x - a.x };
    let dy: u64 = if a.y >= b.y { a.y - b.y } else { b.y - a.y };
    assert(dx * dx + dy * dy < 0x8000_0000 * 0x8000_0000 * 2) by (nonlinear_arith)
        requires
            dx < 0x8000_0000,
            dy < 0x8000_0000,
    ;
    let root: u64 = isqrt(dx * dx + dy * dy);
    assert(root < 0x1_0000_0000) by (nonlinear_arith)
        requires
            root * root <= dx * dx + dy * dy,
            dx * dx + dy * dy < 0x8000_0000 * 0x8000_0000 * 2,
            root >= 0,
    ;
    if root == 0 {
        1
    } else {
        root
    }
}

/// The delay over `dist` units at `speed` units per second.
pub fn delay_for(dist: u64, speed: u64) -> (r: u64)
    requires
        1 <= dist < 0x1_0000_0000,
        speed >= 1,
    ensures
        r == delay_of(dist as int, speed as int),
        r >= 1,
{
    assert(dist as int * 1_000_000 + speed - 1 <= u64::MAX as int + 0x1_0000_0000 * 1_000_000) by (nonlinear_arith)
        requires
            dist < 0x1_0000_0000,
            speed <= u64::MAX,
    ;
    let r: u128 = ((dist as u128) * 1_000_000 + (speed as u128) - 1) / (speed as u128);
    assert(r >= 1 && r <= dist * 1_000_000 + speed) by (nonlinear_arith)
        requires
            r == (dist * 1_000_000 + speed - 1) / (speed as int),
            dist >= 1,
            speed >= 1,
    ;
    assert(r <= u64::MAX) by (nonlinear_arith)
        requires
            r == (dist * 1_000_000 + speed - 1) / (speed as int),
            dist < 0x1_0000_0000,
            1 <= speed <= u64::MAX,
    ;
    r as u64
}

/// A delay is positive, and it does not shrink as the distance grows.
pub proof fn lemma_delay_positive_monotone(d1: int, d2: int, speed: int)
    requires
        1 <= d1 <= d2,
        speed >= 1,
    ensures
        0 < delay_of(d1, speed) <= delay_of(d2, speed),
{
    assert(0 < (d1 * 1_000_000 + speed - 1) / speed) by (nonlinear_arith)
        requires
            d1 >= 1,
            speed >= 1,
    ;
    assert((d1 * 1_000_000 + speed - 1) / speed <= (d2 * 1_000_000 + speed - 1) / speed)
        by (nonlinear_arith)
        requires
            d1 <= d2,
            speed >= 1,
    ;
}

/// Two neurons are at least one unit apart.
pub proof fn lemma_separation_positive(a: Position, b: Position)
    ensures
        separation(a, b) >= 1,
{
}

/// Every number has a floor square root.
pub proof fn lemma_floor_sqrt_exists(n: nat)
    ensures
        is_floor_sqrt(n as int, floor_sqrt(n) as int),
    decreases n,
{
    if n == 0 {
        assert(is_floor_sqrt(0, (0nat) as int));
    } else {
        lemma_floor_sqrt_exists((n - 1) as nat);
        let r = floor_sqrt((n - 1) as nat);
        if (r + 1) * (r + 1) <= n {
            assert(n < (r + 2) * (r + 2)) by (nonlinear_arith)
                requires
                    n - 1 < (r + 1) * (r + 1),
                    r >= 0,
            ;
            assert(is_floor_sqrt(n as int, ((r + 1) as nat) as int));
        } else {
            assert(is_floor_sqrt(n as int, r as int));
        }
    }
}

/// Two points of a `w` by `h` rectangle are less than `w + h` apart.
pub proof fn lemma_separation_within(a: Position, b: Position, w: int, h: int)
    requires
        a.x < w,
        b.x < w,
        a.y < h,
        b.y < h,
    ensures
        1 <= separation(a, b) < w + h,
{
    let n = square_distance(a, b);
    lemma_floor_sqrt_exists(n);
    let r = floor_sqrt(n) as int;
    let dx = abs_diff(a.x, b.x);
    let dy = abs_diff(a.y, b.y);
    assert(r < w + h) by (nonlinear_arith)
        requires
            r * r <= n,
            n == dx * dx + dy * dy,
            0 <= dx < w,
            0 <= dy < h,
            r >= 0,
    {
        assert(dx * dx + dy * dy <= (dx + dy) * (dx + dy));
        if r >= dx + dy + 1 {
            assert(r * r >= (dx + dy + 1) * (dx + dy + 1));
        }
    }
}

} // verus!
