use vstd::prelude::*;
use vstd::arithmetic::div_mod::lemma_fundamental_div_mod_converse;

verus! {

/// The highest resolution level that is honoured; larger levels are clamped to it.
pub const MAX_LEVEL: u32 = 7;

/// A coordinate of the source plane, held exactly as the fraction `num / den`.
#[derive(Clone, Copy, Debug, PartialEq, Eq, Structural)]
pub struct Coord {
    pub num: i32,
    pub den: u32,
}

impl Coord {
    /// A coordinate is valid when its denominator is positive.
    pub open spec fn wf(self) -> bool {
        self.den > 0
    }

    /// The coordinate lies on the grid of `res` lines per unit.
    pub open spec fn on_grid(self, res: int) -> bool {
        (self.num * res) % (self.den as int) == 0
    }

    /// The coordinate rounded down to a whole number.
    pub open spec fn floor(self) -> int {
        floor_div(self.num as int, self.den as int)
    }

    /// The coordinate with value `num / den`.
    pub fn new(num: i32, den: u32) -> (c: Coord)
        requires
            den > 0,
        ensures
            c.num == num,
            c.den == den,
            c.wf(),
    {
        Coord { num, den }
    }

    /// The whole number `n`.
    pub fn from_int(n: i32) -> (c: Coord)
        ensures
            c.num == n,
            c.den == 1,
            c.wf(),
    {
        Coord { num: n, den: 1 }
    }
}

/// `a / b` rounded down, for `b > 0`.
pub open spec fn floor_div(a: int, b: int) -> int {
    a / b
}

/// `a / b` rounded up, for `b > 0`.
pub open spec fn ceil_div(a: int, b: int) -> int {
    -((-a) / b)
}

/// `2` to the power `n`.
pub open spec fn two_pow(n: nat) -> nat
    decreases n,
{
    if n == 0 {
        1
    } else {
        2 * two_pow((n - 1) as nat)
    }
}

proof fn lemma_two_pow_bound(n: nat)
    requires
        n <= MAX_LEVEL,
    ensures
        1 <= two_pow(n) <= 128,
        n < MAX_LEVEL ==> two_pow(n) <= 64,
{
    reveal_with_fuel(two_pow, 8);
    assert(n == 0 || n == 1 || n == 2 || n == 3 || n == 4 || n == 5 || n == 6 || n == 7);
}

/// The resolution slider value clamped to `0 ..= MAX_LEVEL`.
pub open spec fn clamp_level(resolution: int) -> nat {
    if resolution < 0 {
        0
    } else if resolution > MAX_LEVEL {
        MAX_LEVEL as nat
    } else {
        resolution as nat
    }
}

/// Index of the first grid line at or above `num / den`, on a grid of `res` lines per unit.
pub open spec fn snap_min_index(num: int, den: int, res: int) -> int {
    ceil_div(num * res, den)
}

/// Index of the last grid line at or below `num / den`, on a grid of `res` lines per unit.
pub open spec fn snap_max_index(num: int, den: int, res: int) -> int {
    floor_div(num * res, den)
}

proof fn lemma_neg_div(m: int, d: int)
    requires
        m >= 0,
        d > 0,
    ensures
        (-m) / d == -((m + d - 1) / d),
        0 <= (m + d - 1) / d <= m,
        0 <= m / d <= m,
{
    vstd::arithmetic::div_mod::lemma_div_nonincreasing(m, d);
    vstd::arithmetic::div_mod::lemma_div_pos_is_pos(m, d);
    let q = (m + d - 1) / d;
    let r = (m + d - 1) % d;
    vstd::arithmetic::div_mod::lemma_fundamental_div_mod(m + d - 1, d);
    assert(-m == (-q) * d + (d - 1 - r)) by (nonlinear_arith)
        requires
            m + d - 1 == d * q + r,
    ;
    lemma_fundamental_div_mod_converse(-m, d, -q, d - 1 - r);
    assert(0 <= q <= m) by (nonlinear_arith)
        requires
            m + d - 1 == d * q + r,
            0 <= r < d,
            m >= 0,
            d > 0,
    ;
}

proof fn lemma_product_range(n: int, r: int)
    requires
        -0x8000_0000 <= n < 0x8000_0000,
        0 <= r < 0x1_0000_0000,
    ensures
        -0x7fff_ffff_ffff_ffff <= n * r <= 0x7fff_ffff_ffff_ffff,
        r <= 128 ==> -0x40_0000_0000 <= n * r <= 0x40_0000_0000,
{
    if r <= 128 {
        assert(-0x8000_0000 * 128 <= n * r <= 0x8000_0000 * 128) by (nonlinear_arith)
            requires
                -0x8000_0000 <= n < 0x8000_0000,
                0 <= r <= 128,
        ;
    }
    assert(-0x8000_0000 * 0x1_0000_0000 < n * r < 0x8000_0000 * 0x1_0000_0000) by (nonlinear_arith)
        requires
            -0x8000_0000 <= n < 0x8000_0000,
            0 <= r < 0x1_0000_0000,
    ;
}

/// The product `num * res` divided by `den`, rounded down.
fn floor_div_exec(a: i64, d: u32) -> (q: i64)
    requires
        d > 0,
        -0x7fff_ffff_ffff_ffff <= a,
    ensures
        q == floor_div(a as int, d as int),
        a >= 0 ==> 0 <= q <= a,
        a < 0 ==> a <= q <= 0,
{
    if a >= 0 {
        (a as u64 / d as u64) as i64
    } else {
        let m: u64 = (-a) as u64;
        let q: u64 = (m + (d as u64 - 1)) / d as u64;
        proof {
            lemma_neg_div(m as int, d as int);
        }
        -(q as i64)
    }
}

/// The product `num * res` divided by `den`, rounded up.
fn ceil_div_exec(a: i64, d: u32) -> (q: i64)
    requires
        d > 0,
        -0x7fff_ffff_ffff_ffff <= a,
    ensures
        q == ceil_div(a as int, d as int),
        a >= 0 ==> 0 <= q <= a,
        a < 0 ==> a <= q <= 0,
{
    if a <= 0 {
        let m: u64 = (-a) as u64;
        proof {
            lemma_neg_div(m as int, d as int);
        }
        -((m / d as u64) as i64)
    } else {
        let m: u64 = a as u64;
        let q: u64 = (m + (d as u64 - 1)) / d as u64;
        proof {
            lemma_neg_div(m as int, d as int);
        }
        q as i64
    }
}

/// The slider value `resolution` clamped to `0 ..= MAX_LEVEL`.
pub fn effective_level(resolution: i32) -> (level: u32)
    ensures
        level == clamp_level(resolution as int),
        level <= MAX_LEVEL,
{
    if resolution < 0 {
        0
    } else if resolution > MAX_LEVEL as i32 {
        MAX_LEVEL
    } else {
        resolution as u32
    }
}

/// Number of coarse grid lines per unit at `level`: `2^level`.
pub fn coarse_resolution(level: u32) -> (res: u32)
    requires
        level <= MAX_LEVEL,
    ensures
        res == two_pow(level as nat),
        1 <= res <= 128,
{
    let mut res: u32 = 1;
    let mut i: u32 = 0;
    while i < level
        invariant
            i <= level <= MAX_LEVEL,
            res == two_pow(i as nat),
        decreases level - i,
    {
        proof {
            lemma_two_pow_bound(i as nat);
        }
        res = res * 2;
        i = i + 1;
    }
    proof {
        lemma_two_pow_bound(i as nat);
    }
    res
}

/// Index of the first grid line at or above `v`, on a grid of `res` lines per unit;
/// the snapped bound is that index divided by `res`.
pub fn snap_min(v: Coord, res: u32) -> (k: i64)
    requires
        v.wf(),
    ensures
        k == snap_min_index(v.num as int, v.den as int, res as int),
        res <= 128 ==> -0x40_0000_0000 <= k <= 0x40_0000_0000,
{
    proof {
        lemma_product_range(v.num as int, res as int);
    }
    let a: i64 = v.num as i64 * res as i64;
    ceil_div_exec(a, v.den)
}

/// Index of the last grid line at or below `v`, on a grid of `res` lines per unit;
/// the snapped bound is that index divided by `res`.
pub fn snap_max(v: Coord, res: u32) -> (k: i64)
    requires
        v.wf(),
    ensures
        k == snap_max_index(v.num as int, v.den as int, res as int),
        res <= 128 ==> -0x40_0000_0000 <= k <= 0x40_0000_0000,
{
    proof {
        lemma_product_range(v.num as int, res as int);
    }
    let a: i64 = v.num as i64 * res as i64;
    floor_div_exec(a, v.den)
}

} // verus!
