//! Exact decimal numbers: a signed 96-bit mantissa and a decimal scale of at most 28.
use vstd::arithmetic::div_mod::lemma_fundamental_div_mod_converse;
use vstd::prelude::*;

verus! {

/// Largest decimal scale a `Money` can carry.
pub const MAX_SCALE: u32 = 28;

/// Largest magnitude of a mantissa: 2^96 - 1.
pub const MAX_MANTISSA: i128 = 79228162514264337593543950335;

/// Ten to the power `n`.
pub open spec fn pow10(n: nat) -> int
    decreases n,
{
    if n == 0 {
        1
    } else {
        10 * pow10((n - 1) as nat)
    }
}

/// `n / d` rounded to the nearest integer, ties to the even neighbour (`d > 0`).
pub open spec fn round_half_even(n: int, d: int) -> int {
    let q = n / d;
    let r = n % d;
    if 2 * r < d {
        q
    } else if 2 * r > d {
        q + 1
    } else if q % 2 == 0 {
        q
    } else {
        q + 1
    }
}

/// The value `n / d`, rounded half-to-even to `dp` fractional digits, in units of 10^-28.
pub open spec fn quot_units(n: int, d: int, dp: nat) -> int {
    round_half_even(n * pow10(dp), d) * pow10((28 - dp) as nat)
}

/// A value `u` (in units of 10^-28) rounded half-to-even to `dp` fractional digits.
pub open spec fn round_units(u: int, dp: nat) -> int {
    round_half_even(u, pow10((28 - dp) as nat)) * pow10((28 - dp) as nat)
}

pub proof fn lemma_pow10_pos(n: nat)
    ensures
        pow10(n) > 0,
    decreases n,
{
    if n > 0 {
        lemma_pow10_pos((n - 1) as nat);
    }
}

pub proof fn lemma_pow10_add(a: nat, b: nat)
    ensures
        pow10(a + b) == pow10(a) * pow10(b),
    decreases a,
{
    if a > 0 {
        lemma_pow10_add((a - 1) as nat, b);
        assert(pow10(a + b) == 10 * pow10((a - 1 + b) as nat));
        assert(10 * (pow10((a - 1) as nat) * pow10(b)) == (10 * pow10((a - 1) as nat)) * pow10(b))
            by (nonlinear_arith);
    }
}

pub proof fn lemma_pow10_mono(a: nat, b: nat)
    requires
        a <= b,
    ensures
        pow10(a) <= pow10(b),
    decreases b,
{
    if a < b {
        lemma_pow10_mono(a, (b - 1) as nat);
        lemma_pow10_pos((b - 1) as nat);
    }
}

/// Scaling numerator and denominator by the same positive factor keeps the rounded quotient.
pub proof fn lemma_round_scale(n: int, d: int, p: int)
    requires
        d > 0,
        p > 0,
    ensures
        round_half_even(n * p, d * p) == round_half_even(n, d),
{
    let q = n / d;
    let r = n % d;
    assert(n == d * q + r && 0 <= r < d) by {
        vstd::arithmetic::div_mod::lemma_fundamental_div_mod(n, d);
    }
    assert(n * p == q * (d * p) + r * p && 0 <= r * p < d * p) by (nonlinear_arith)
        requires
            n == d * q + r,
            0 <= r < d,
            p > 0,
    ;
    lemma_fundamental_div_mod_converse(n * p, d * p, q, r * p);
    assert(2 * (r * p) < d * p <==> 2 * r < d) by (nonlinear_arith)
        requires
            p > 0,
    ;
    assert(2 * (r * p) > d * p <==> 2 * r > d) by (nonlinear_arith)
        requires
            p > 0,
    ;
}

proof fn lemma_pow10_38()
    ensures
        pow10(38) == 100000000000000000000000000000000000000,
{
    reveal_with_fuel(pow10, 39);
}

/// Exact decimal number `mantissa / 10^scale`.
#[derive(Clone, Copy, Debug)]
pub struct Money {
    pub mantissa: i128,
    pub scale: u32,
}

/// `10^n` as a machine integer.
pub fn pow10_i128(n: u32) -> (r: i128)
    requires
        n <= 38,
    ensures
        r as int == pow10(n as nat),
{
    let mut r: i128 = 1;
    let mut i: u32 = 0;
    while i < n
        invariant
            i <= n <= 38,
            r as int == pow10(i as nat),
        decreases n - i,
    {
        proof {
            lemma_pow10_mono((i + 1) as nat, 38);
            lemma_pow10_38();
            assert(pow10((i + 1) as nat) == 10 * pow10(i as nat));
            assert(r * 10 <= 100000000000000000000000000000000000000);
            assert(r >= 0) by {
                lemma_pow10_pos(i as nat);
            }
        }
        r = r * 10;
        i = i + 1;
    }
    r
}

impl Money {
    /// Mantissa and scale are in the ranges a decimal of 96 bits can hold.
    pub open spec fn wf(self) -> bool {
        self.scale <= MAX_SCALE && -MAX_MANTISSA <= self.mantissa <= MAX_MANTISSA
    }

    /// The value in units of 10^-28.
    pub open spec fn units(self) -> int {
        self.mantissa as int * pow10((MAX_SCALE - self.scale) as nat)
    }

    /// The decimal `mantissa / 10^scale`.
    pub fn new(mantissa: i128, scale: u32) -> (r: Money)
        requires
            scale <= MAX_SCALE,
            -MAX_MANTISSA <= mantissa <= MAX_MANTISSA,
        ensures
            r.wf(),
            r.mantissa == mantissa,
            r.scale == scale,
    {
        Money { mantissa, scale }
    }

    /// The whole number `n`.
    pub fn from_int(n: i64) -> (r: Money)
        ensures
            r.wf(),
            r.units() == n as int * pow10(28),
            r.scale == 0,
    {
        Money { mantissa: n as i128, scale: 0 }
    }

    pub fn zero() -> (r: Money)
        ensures
            r == (Money { mantissa: 0, scale: 0 }),
            r.wf(),
            r.units() == 0,
            r.scale == 0,
    {
        Money { mantissa: 0, scale: 0 }
    }

    /// Three-way comparison of the values: -1, 0 or 1.
    pub fn compare(&self, other: &Money) -> (r: i8)
        requires
            self.wf(),
            other.wf(),
        ensures
            r == -1 <==> self.units() < other.units(),
            r == 0 <==> self.units() == other.units(),
            r == 1 <==> self.units() > other.units(),
    {
        if self.scale <= other.scale {
            let k = other.scale - self.scale;
            let p = pow10_i128(k);
            proof {
                lemma_pow10_pos(k as nat);
            }
            let ghost pb = pow10((MAX_SCALE - other.scale) as nat);
            proof {
                lemma_pow10_pos((MAX_SCALE - other.scale) as nat);
                lemma_pow10_add(k as nat, (MAX_SCALE - other.scale) as nat);
                assert(self.units() == (self.mantissa * p) * pb) by (nonlinear_arith)
                    requires
                        self.units() == self.mantissa * pow10((MAX_SCALE - self.scale) as nat),
                        pow10((MAX_SCALE - self.scale) as nat) == p * pb,
                ;
            }
            match self.mantissa.checked_mul(p) {
                Some(a) => {
                    proof {
                        lemma_cmp_scaled(a as int, other.mantissa as int, pb);
                    }
                    if a < other.mantissa {
                        -1
                    } else if a == other.mantissa {
                        0
                    } else {
                        1
                    }
                },
                None => {
                    proof {
                        lemma_cmp_scaled(self.mantissa * p, other.mantissa as int, pb);
                    }
                    if self.mantissa < 0 {
                        assert(self.mantissa * p < 0) by (nonlinear_arith)
                            requires self.mantissa < 0, p > 0;
                        assert(self.mantissa * p < other.mantissa);
                        -1
                    } else {
                        assert(self.mantissa * p >= 0) by (nonlinear_arith)
                            requires self.mantissa >= 0, p > 0;
                        assert(self.mantissa * p > other.mantissa);
                        1
                    }
                },
            }
        } else {
            let k = self.scale - other.scale;
            let p = pow10_i128(k);
            proof {
                lemma_pow10_pos(k as nat);
            }
            let ghost pa = pow10((MAX_SCALE - self.scale) as nat);
            proof {
                lemma_pow10_pos((MAX_SCALE - self.scale) as nat);
                lemma_pow10_add(k as nat, (MAX_SCALE - self.scale) as nat);
                assert(other.units() == (other.mantissa * p) * pa) by (nonlinear_arith)
                    requires
                        other.units() == other.mantissa * pow10((MAX_SCALE - other.scale) as nat),
                        pow10((MAX_SCALE - other.scale) as nat) == p * pa,
                ;
            }
            match other.mantissa.checked_mul(p) {
                Some(b) => {
                    proof {
                        lemma_cmp_scaled(self.mantissa as int, b as int, pa);
                    }
                    if self.mantissa < b {
                        -1
                    } else if self.mantissa == b {
                        0
                    } else {
                        1
                    }
                },
                None => {
                    proof {
                        lemma_cmp_scaled(self.mantissa as int, other.mantissa * p, pa);
                    }
                    if other.mantissa < 0 {
                        assert(other.mantissa * p < 0) by (nonlinear_arith)
                            requires other.mantissa < 0, p > 0;
                        assert(other.mantissa * p < self.mantissa);
                        1
                    } else {
                        assert(other.mantissa * p >= 0) by (nonlinear_arith)
                            requires other.mantissa >= 0, p > 0;
                        assert(other.mantissa * p > self.mantissa);
                        -1
                    }
                },
            }
        }
    }
}

proof fn lemma_mul_rearrange(m: int, ma: int, mb: int, x: int, y: int, z: int, w: int)
    requires
        m == ma * mb,
        z * w == x * y,
    ensures
        (m * z) * w == (ma * x) * (mb * y),
{
    assert((m * z) * w == m * (z * w)) by (nonlinear_arith);
    assert((ma * x) * (mb * y) == (ma * mb) * (x * y)) by (nonlinear_arith);
}

proof fn lemma_cmp_scaled(a: int, b: int, p: int)
    requires
        p > 0,
    ensures
        a < b <==> a * p < b * p,
        a == b <==> a * p == b * p,
{
    assert(a < b ==> a * p < b * p) by (nonlinear_arith)
        requires p > 0;
    assert(b < a ==> b * p < a * p) by (nonlinear_arith)
        requires p > 0;
}


pub proof fn lemma_div_bounds(n: int, d: int)
    requires
        d > 0,
    ensures
        n >= 0 ==> 0 <= n / d <= n,
        n < 0 ==> n <= n / d < 0,
        n == d * (n / d) + n % d,
        0 <= n % d < d,
{
    vstd::arithmetic::div_mod::lemma_fundamental_div_mod(n, d);
    let q = n / d;
    let r = n % d;
    assert(n >= 0 ==> 0 <= q <= n) by (nonlinear_arith)
        requires
            n == d * q + r,
            0 <= r < d,
    ;
    assert(n < 0 ==> n <= q < 0) by (nonlinear_arith)
        requires
            n == d * q + r,
            0 <= r < d,
    ;
}

/// `n / d` rounded half-to-even, on machine integers.
fn round_div(n: i128, d: i128) -> (q: i128)
    requires
        d > 0,
    ensures
        q as int == round_half_even(n as int, d as int),
{
    proof {
        lemma_div_bounds(n as int, d as int);
    }
    let q = n.checked_div_euclid(d).unwrap();
    let r = n.checked_rem_euclid(d).unwrap();
    if r < d - r {
        q
    } else if r > d - r {
        assert(q < i128::MAX) by (nonlinear_arith)
            requires
                n == d * q + r,
                r >= 0,
                d >= 2,
                n <= i128::MAX,
        ;
        q + 1
    } else if q.checked_rem_euclid(2).unwrap() == 0 {
        q
    } else {
        assert(q < i128::MAX) by (nonlinear_arith)
            requires
                n == d * q + r,
                r >= 0,
                d >= 2,
                n <= i128::MAX,
        ;
        q + 1
    }
}

/// A result mantissa that fits in 96 bits.
pub open spec fn fits(m: int) -> bool {
    -MAX_MANTISSA <= m <= MAX_MANTISSA
}

pub open spec fn in_i128(m: int) -> bool {
    i128::MIN <= m <= i128::MAX
}

impl Money {
    /// The mantissa rescaled to scale `s` (at least `self.scale`).
    pub open spec fn aligned(self, s: u32) -> int {
        self.mantissa * pow10((s - self.scale) as nat)
    }

    pub open spec fn neg_spec(self) -> Money {
        Money { mantissa: (-self.mantissa) as i128, scale: self.scale }
    }

    /// The exact sum, at the larger of the two scales, if its mantissa fits.
    pub open spec fn add_spec(self, o: Money) -> Option<Money> {
        let s = if self.scale >= o.scale { self.scale } else { o.scale };
        let m = self.aligned(s) + o.aligned(s);
        if fits(m) {
            Some(Money { mantissa: m as i128, scale: s })
        } else {
            None
        }
    }

    pub open spec fn sub_spec(self, o: Money) -> Option<Money> {
        self.add_spec(o.neg_spec())
    }

    /// The exact product, if the scales add up to at most 28 and the mantissa fits.
    pub open spec fn mul_spec(self, o: Money) -> Option<Money> {
        let m = self.mantissa * o.mantissa;
        if self.scale + o.scale <= MAX_SCALE && fits(m) {
            Some(Money { mantissa: m as i128, scale: (self.scale + o.scale) as u32 })
        } else {
            None
        }
    }

    /// Rounded half-to-even to `dp` fractional digits.
    pub open spec fn round_spec(self, dp: u32) -> Money {
        if self.scale <= dp {
            self
        } else {
            Money {
                mantissa: round_half_even(
                    self.mantissa as int,
                    pow10((self.scale - dp) as nat),
                ) as i128,
                scale: dp,
            }
        }
    }

    /// Numerator and denominator of `self / o * 10^dp` as integers.
    pub open spec fn div_parts(self, o: Money, dp: u32) -> (int, int) {
        if o.scale + dp >= self.scale {
            (self.mantissa * pow10((o.scale + dp - self.scale) as nat), o.mantissa as int)
        } else {
            (self.mantissa as int, o.mantissa * pow10((self.scale - o.scale - dp) as nat))
        }
    }

    /// The quotient rounded half-to-even to `dp` digits, if the intermediate
    /// integers fit in 128 bits and the result in 96.
    pub open spec fn div_spec(self, o: Money, dp: u32) -> Option<Money> {
        let (n, d) = self.div_parts(o, dp);
        let q = round_half_even(n, d);
        if in_i128(n) && in_i128(d) && fits(q) {
            Some(Money { mantissa: q as i128, scale: dp })
        } else {
            None
        }
    }

    pub fn neg(&self) -> (r: Money)
        requires
            self.wf(),
        ensures
            r == self.neg_spec(),
            r.wf(),
            r.units() == -self.units(),
    {
        let r = Money { mantissa: -self.mantissa, scale: self.scale };
        proof {
            let p = pow10((MAX_SCALE - self.scale) as nat);
            assert((-self.mantissa) * p == -(self.mantissa * p)) by (nonlinear_arith);
        }
        r
    }

    pub fn abs(&self) -> (r: Money)
        requires
            self.wf(),
        ensures
            r.wf(),
            r.units() == if self.units() < 0 { -self.units() } else { self.units() },
    {
        proof {
            lemma_pow10_pos((MAX_SCALE - self.scale) as nat);
            lemma_sign_units(*self);
        }
        if self.mantissa < 0 {
            self.neg()
        } else {
            *self
        }
    }

    pub fn checked_add(&self, o: &Money) -> (r: Option<Money>)
        requires
            self.wf(),
            o.wf(),
        ensures
            r == self.add_spec(*o),
            r matches Some(c) ==> c.wf() && c.units() == self.units() + o.units(),
    {
        let s = if self.scale >= o.scale { self.scale } else { o.scale };
        let pa = pow10_i128(s - self.scale);
        let pb = pow10_i128(s - o.scale);
        proof {
            lemma_pow10_pos((s - self.scale) as nat);
            lemma_pow10_pos((s - o.scale) as nat);
            lemma_units_aligned(*self, s);
            lemma_units_aligned(*o, s);
        }
        let a = self.mantissa.checked_mul(pa);
        let b = o.mantissa.checked_mul(pb);
        match (a, b) {
            (Some(a), Some(b)) => {
                let m = a.checked_add(b);
                match m {
                    Some(m) => {
                        if -MAX_MANTISSA <= m && m <= MAX_MANTISSA {
                            proof {
                                lemma_pow10_pos((MAX_SCALE - s) as nat);
                                assert(a * pow10((MAX_SCALE - s) as nat) + b * pow10((MAX_SCALE - s) as nat)
                                    == m * pow10((MAX_SCALE - s) as nat)) by (nonlinear_arith)
                                    requires m == a + b;
                            }
                            Some(Money { mantissa: m, scale: s })
                        } else {
                            None
                        }
                    },
                    None => None,
                }
            },
            _ => {
                proof {
                    // only the operand of smaller scale is scaled up; the other stays within 96 bits
                    if self.scale >= o.scale {
                        assert(pa == 1);
                        assert(self.mantissa * pa == self.mantissa);
                    } else {
                        assert(pb == 1);
                        assert(o.mantissa * pb == o.mantissa);
                    }
                }
                None
            },
        }
    }

    pub fn checked_sub(&self, o: &Money) -> (r: Option<Money>)
        requires
            self.wf(),
            o.wf(),
        ensures
            r == self.sub_spec(*o),
            r matches Some(c) ==> c.wf() && c.units() == self.units() - o.units(),
    {
        let n = o.neg();
        self.checked_add(&n)
    }

    pub fn checked_mul(&self, o: &Money) -> (r: Option<Money>)
        requires
            self.wf(),
            o.wf(),
        ensures
            r == self.mul_spec(*o),
            r matches Some(c) ==> c.wf() && c.units() * pow10(28) == self.units() * o.units(),
    {
        if self.scale + o.scale > MAX_SCALE {
            return None;
        }
        match self.mantissa.checked_mul(o.mantissa) {
            Some(m) => {
                if -MAX_MANTISSA <= m && m <= MAX_MANTISSA {
                    let c = Money { mantissa: m, scale: self.scale + o.scale };
                    proof {
                        let ea = (MAX_SCALE - self.scale) as nat;
                        let eb = (MAX_SCALE - o.scale) as nat;
                        let ec = (MAX_SCALE - c.scale) as nat;
                        lemma_pow10_add(ea, eb);
                        lemma_pow10_add(ec, 28);
                        assert(ea + eb == ec + 28);
                        lemma_mul_rearrange(m as int, self.mantissa as int, o.mantissa as int, pow10(ea), pow10(eb), pow10(ec), pow10(28));
                    }
                    Some(c)
                } else {
                    None
                }
            },
            None => None,
        }
    }

    /// Rounds half-to-even to `dp` fractional digits.
    pub fn round_dp(&self, dp: u32) -> (r: Money)
        requires
            self.wf(),
            dp <= MAX_SCALE,
        ensures
            r == self.round_spec(dp),
            r.wf(),
            r.scale <= dp,
            r.units() == round_units(self.units(), dp as nat),
    {
        let ghost big = pow10((MAX_SCALE - dp) as nat);
        proof {
            lemma_pow10_pos((MAX_SCALE - dp) as nat);
            lemma_pow10_pos((MAX_SCALE - self.scale) as nat);
        }
        if self.scale <= dp {
            proof {
                let k = (dp - self.scale) as nat;
                lemma_pow10_add(k, (MAX_SCALE - dp) as nat);
                lemma_round_exact(self.mantissa * pow10(k), big);
                assert(self.units() == (self.mantissa * pow10(k)) * big) by (nonlinear_arith)
                    requires
                        self.units() == self.mantissa * pow10((MAX_SCALE - self.scale) as nat),
                        pow10((MAX_SCALE - self.scale) as nat) == pow10(k) * big,
                ;
            }
            *self
        } else {
            let k = self.scale - dp;
            let d = pow10_i128(k);
            proof {
                lemma_pow10_pos(k as nat);
            }
            let q = round_div(self.mantissa, d);
            proof {
                lemma_pow10_add(k as nat, (MAX_SCALE - self.scale) as nat);
                lemma_round_scale(self.mantissa as int, d as int, pow10((MAX_SCALE - self.scale) as nat));
                lemma_pow10_mono(1, k as nat);
                lemma_round_bound(self.mantissa as int, d as int);
            }
            Money { mantissa: q, scale: dp }
        }
    }

    /// The integers whose rounded quotient is `self / o` at `dp` digits, if they fit.
    fn div_operands(&self, o: &Money, dp: u32) -> (r: Option<(i128, i128)>)
        requires
            self.wf(),
            o.wf(),
            o.mantissa > 0,
            dp <= MAX_SCALE,
        ensures
            r matches Some(p) ==> (p.0 as int, p.1 as int) == self.div_parts(*o, dp) && p.1 > 0,
            r is None ==> !(in_i128(self.div_parts(*o, dp).0) && in_i128(self.div_parts(*o, dp).1)),
    {
        if o.scale + dp >= self.scale {
            let e = o.scale + dp - self.scale;
            if e > 38 {
                if self.mantissa != 0 {
                    proof {
                        lemma_pow10_mono(39, e as nat);
                        reveal_with_fuel(pow10, 40);
                        assert(self.mantissa * pow10(e as nat) > i128::MAX || self.mantissa * pow10(e as nat) < i128::MIN) by (nonlinear_arith)
                            requires
                                self.mantissa != 0,
                                pow10(e as nat) >= 1000000000000000000000000000000000000000,
                        ;
                    }
                    return None;
                }
                return Some((0, o.mantissa));
            }
            let p = pow10_i128(e);
            match self.mantissa.checked_mul(p) {
                Some(x) => Some((x, o.mantissa)),
                None => None,
            }
        } else {
            let e = self.scale - o.scale - dp;
            let p = pow10_i128(e);
            proof {
                lemma_pow10_pos(e as nat);
            }
            match o.mantissa.checked_mul(p) {
                Some(x) => {
                    assert(x > 0) by (nonlinear_arith)
                        requires x == o.mantissa * p, o.mantissa > 0, p > 0;
                    Some((self.mantissa, x))
                },
                None => None,
            }
        }
    }

    /// The quotient `self / o`, rounded half-to-even to `dp` fractional digits.
    pub fn div_round(&self, o: &Money, dp: u32) -> (r: Option<Money>)
        requires
            self.wf(),
            o.wf(),
            o.units() > 0,
            dp <= MAX_SCALE,
        ensures
            r == self.div_spec(*o, dp),
            r matches Some(c) ==> c.wf() && c.scale == dp && c.units() == quot_units(
                self.units(),
                o.units(),
                dp as nat,
            ),
    {
        proof {
            lemma_sign_units(*o);
        }
        match self.div_operands(o, dp) {
            None => None,
            Some((n, d)) => {
                let q = round_div(n, d);
                proof {
                    lemma_div_parts_scale(*self, *o, dp);
                }
                if -MAX_MANTISSA <= q && q <= MAX_MANTISSA {
                    Some(Money { mantissa: q, scale: dp })
                } else {
                    None
                }
            },
        }
    }
}

/// The integer operands round to the same quotient as the exact values.
proof fn lemma_div_parts_scale(a: Money, o: Money, dp: u32)
    requires
        a.wf(),
        o.wf(),
        o.mantissa > 0,
        dp <= MAX_SCALE,
    ensures
        a.div_parts(o, dp).1 > 0,
        round_half_even(a.div_parts(o, dp).0, a.div_parts(o, dp).1) == round_half_even(
            a.units() * pow10(dp as nat),
            o.units(),
        ),
{
    let (n, d) = a.div_parts(o, dp);
    lemma_pow10_add((MAX_SCALE - a.scale) as nat, dp as nat);
    if o.scale + dp >= a.scale {
        let e = (o.scale + dp - a.scale) as nat;
        let p = pow10((MAX_SCALE - o.scale) as nat);
        lemma_pow10_pos((MAX_SCALE - o.scale) as nat);
        lemma_pow10_add(e, (MAX_SCALE - o.scale) as nat);
        assert(a.units() * pow10(dp as nat) == n * p) by (nonlinear_arith)
            requires
                n == a.mantissa * pow10(e),
                a.units() == a.mantissa * pow10((MAX_SCALE - a.scale) as nat),
                pow10((MAX_SCALE - a.scale) as nat) * pow10(dp as nat) == pow10(e) * p,
        ;
        lemma_round_scale(n, d, p);
    } else {
        let e = (a.scale - o.scale - dp) as nat;
        let pp = pow10((MAX_SCALE - a.scale + dp) as nat);
        lemma_pow10_pos(e);
        lemma_pow10_pos((MAX_SCALE - a.scale + dp) as nat);
        lemma_pow10_add(e, (MAX_SCALE - a.scale + dp) as nat);
        assert(d > 0) by (nonlinear_arith)
            requires d == o.mantissa * pow10(e), o.mantissa > 0, pow10(e) > 0;
        assert(o.units() == d * pp) by (nonlinear_arith)
            requires
                d == o.mantissa * pow10(e),
                o.units() == o.mantissa * pow10((MAX_SCALE - o.scale) as nat),
                pow10((MAX_SCALE - o.scale) as nat) == pow10(e) * pp,
        ;
        assert(((MAX_SCALE - a.scale) as nat + dp as nat) == (MAX_SCALE - a.scale + dp) as nat);
        assert(a.units() * pow10(dp as nat) == n * pp) by (nonlinear_arith)
            requires
                n == a.mantissa,
                a.units() == a.mantissa * pow10((MAX_SCALE - a.scale) as nat),
                pow10((MAX_SCALE - a.scale) as nat) * pow10(dp as nat) == pp,
        ;
        lemma_round_scale(n, d, pp);
    }
}

proof fn lemma_sign_units(a: Money)
    requires
        a.wf(),
    ensures
        a.units() > 0 <==> a.mantissa > 0,
        a.units() < 0 <==> a.mantissa < 0,
        a.units() == 0 <==> a.mantissa == 0,
{
    let p = pow10((MAX_SCALE - a.scale) as nat);
    lemma_pow10_pos((MAX_SCALE - a.scale) as nat);
    assert(a.mantissa > 0 ==> a.mantissa * p > 0) by (nonlinear_arith)
        requires p > 0;
    assert(a.mantissa < 0 ==> a.mantissa * p < 0) by (nonlinear_arith)
        requires p > 0;
    assert(a.mantissa == 0 ==> a.mantissa * p == 0);
}

proof fn lemma_units_aligned(a: Money, s: u32)
    requires
        a.wf(),
        a.scale <= s <= MAX_SCALE,
    ensures
        a.units() == a.aligned(s) * pow10((MAX_SCALE - s) as nat),
{
    lemma_pow10_add((s - a.scale) as nat, (MAX_SCALE - s) as nat);
    assert(a.units() == a.aligned(s) * pow10((MAX_SCALE - s) as nat)) by (nonlinear_arith)
        requires
            a.units() == a.mantissa * pow10((MAX_SCALE - a.scale) as nat),
            a.aligned(s) == a.mantissa * pow10((s - a.scale) as nat),
            pow10((MAX_SCALE - a.scale) as nat) == pow10((s - a.scale) as nat) * pow10((MAX_SCALE - s) as nat),
    ;
}

/// A multiple of `d` rounds to itself.
proof fn lemma_round_exact(x: int, d: int)
    requires
        d > 0,
    ensures
        round_half_even(x * d, d) * d == x * d,
{
    lemma_fundamental_div_mod_converse(x * d, d, x, 0);
}

/// Dividing by at least 10 and rounding keeps a 96-bit magnitude.
proof fn lemma_round_bound(m: int, d: int)
    requires
        fits(m),
        d >= 10,
    ensures
        fits(round_half_even(m, d)),
{
    vstd::arithmetic::div_mod::lemma_fundamental_div_mod(m, d);
    let q = m / d;
    let r = m % d;
    assert(-MAX_MANTISSA / 2 <= q <= MAX_MANTISSA / 2) by (nonlinear_arith)
        requires
            m == d * q + r,
            0 <= r < d,
            d >= 10,
            -MAX_MANTISSA <= m <= MAX_MANTISSA,
    ;
}

#[verifier::external_type_specification]
#[verifier::external_body]
pub struct ExDecimalError(rust_decimal::Error);

/// What `rust_decimal::Decimal::from_str_exact` yields for a text: its
/// mantissa and scale, or nothing where it refuses the text.
pub uninterp spec fn parse_decimal_of(s: Seq<char>) -> Option<(int, int)>;

/// The text `rust_decimal` writes for the decimal `mantissa / 10^scale`.
pub uninterp spec fn decimal_text_of(mantissa: int, scale: int) -> Seq<char>;

/// Relies on `rust_decimal::Decimal::from_str_exact`: a plain decimal text
/// becomes a decimal with a scale of at most 28 and a 96-bit mantissa.
#[verifier::external_body]
fn decimal_from_str(s: &str) -> (r: Result<Money, rust_decimal::Error>)
    ensures
        r is Ok <==> parse_decimal_of(s@) is Some,
        r matches Ok(m) ==> m.wf() && parse_decimal_of(s@) == Some(
            (m.mantissa as int, m.scale as int),
        ),
{
    match rust_decimal::Decimal::from_str_exact(s) {
        Ok(d) => Ok(Money { mantissa: d.mantissa(), scale: d.scale() }),
        Err(e) => Err(e),
    }
}

/// Relies on `rust_decimal::Decimal::from_i128_with_scale` and its `Display`:
/// the decimal text of a value in range.
#[verifier::external_body]
fn decimal_text(m: &Money) -> (r: String)
    requires
        m.wf(),
    ensures
        r@ == decimal_text_of(m.mantissa as int, m.scale as int),
{
    rust_decimal::Decimal::from_i128_with_scale(m.mantissa, m.scale).to_string()
}

impl Money {
    /// Parses a plain decimal text exactly; scientific notation is refused.
    pub fn parse(s: &str) -> (r: Result<Money, rust_decimal::Error>)
        ensures
            r is Ok <==> parse_decimal_of(s@) is Some,
            r matches Ok(m) ==> m.wf() && parse_decimal_of(s@) == Some(
                (m.mantissa as int, m.scale as int),
            ),
    {
        decimal_from_str(s)
    }

    /// The decimal text of the value.
    pub fn to_string(&self) -> (r: String)
        requires
            self.wf(),
        ensures
            r@ == decimal_text_of(self.mantissa as int, self.scale as int),
    {
        decimal_text(self)
    }

    pub fn is_positive(&self) -> (r: bool)
        requires
            self.wf(),
        ensures
            r == (self.units() > 0),
    {
        proof {
            lemma_sign_units(*self);
        }
        self.mantissa > 0
    }

    pub fn is_negative(&self) -> (r: bool)
        requires
            self.wf(),
        ensures
            r == (self.units() < 0),
    {
        proof {
            lemma_sign_units(*self);
        }
        self.mantissa < 0
    }

    pub fn is_zero(&self) -> (r: bool)
        requires
            self.wf(),
        ensures
            r == (self.units() == 0),
    {
        proof {
            lemma_sign_units(*self);
        }
        self.mantissa == 0
    }

    /// Whether the mantissa and scale are in range.
    pub fn is_valid(&self) -> (r: bool)
        ensures
            r == self.wf(),
    {
        self.scale <= MAX_SCALE && -MAX_MANTISSA <= self.mantissa && self.mantissa <= MAX_MANTISSA
    }

    /// Value equality: `1.0` equals `1.00`.
    pub fn eq_value(&self, o: &Money) -> (r: bool)
        requires
            self.wf(),
            o.wf(),
        ensures
            r == (self.units() == o.units()),
    {
        self.compare(o) == 0
    }
}

/// What `round_dp` computes, as facts of the spec: the value is rounded, the scale bounded.
pub proof fn lemma_round_spec_props(a: Money, dp: u32)
    requires
        a.wf(),
        dp <= MAX_SCALE,
    ensures
        a.round_spec(dp).wf(),
        a.round_spec(dp).scale <= dp,
        a.round_spec(dp).units() == round_units(a.units(), dp as nat),
{
    lemma_pow10_pos((MAX_SCALE - dp) as nat);
    lemma_pow10_pos((MAX_SCALE - a.scale) as nat);
    if a.scale <= dp {
        let k = (dp - a.scale) as nat;
        let big = pow10((MAX_SCALE - dp) as nat);
        lemma_pow10_add(k, (MAX_SCALE - dp) as nat);
        lemma_round_exact(a.mantissa * pow10(k), big);
        assert(a.units() == (a.mantissa * pow10(k)) * big) by (nonlinear_arith)
            requires
                a.units() == a.mantissa * pow10((MAX_SCALE - a.scale) as nat),
                pow10((MAX_SCALE - a.scale) as nat) == pow10(k) * big,
        ;
    } else {
        let k = (a.scale - dp) as nat;
        lemma_pow10_pos(k);
        lemma_pow10_add(k, (MAX_SCALE - a.scale) as nat);
        lemma_round_scale(a.mantissa as int, pow10(k), pow10((MAX_SCALE - a.scale) as nat));
        lemma_pow10_mono(1, k);
        reveal_with_fuel(pow10, 2);
        lemma_round_bound(a.mantissa as int, pow10(k));
    }
}

/// A difference that cannot be held is far larger than 10^-4.
pub proof fn lemma_sub_overflow_large(a: Money, b: Money)
    requires
        a.wf(),
        b.wf(),
        a.sub_spec(b) is None,
    ensures
        a.units() - b.units() > pow10(24) || a.units() - b.units() < -pow10(24),
{
    let nb = b.neg_spec();
    let s = if a.scale >= nb.scale { a.scale } else { nb.scale };
    let m = a.aligned(s) + nb.aligned(s);
    lemma_units_aligned(a, s);
    lemma_units_aligned(nb, s);
    lemma_pow10_pos((MAX_SCALE - s) as nat);
    assert(nb.units() == -b.units()) by (nonlinear_arith)
        requires
            nb.mantissa == -b.mantissa,
            nb.scale == b.scale,
            nb.units() == nb.mantissa * pow10((MAX_SCALE - nb.scale) as nat),
            b.units() == b.mantissa * pow10((MAX_SCALE - b.scale) as nat),
    ;
    reveal_with_fuel(pow10, 25);
    assert(pow10(24) == 1000000000000000000000000);
    let p = pow10((MAX_SCALE - s) as nat);
    assert(a.units() - b.units() == m * p) by (nonlinear_arith)
        requires
            a.units() == a.aligned(s) * p,
            nb.units() == nb.aligned(s) * p,
            nb.units() == -b.units(),
            m == a.aligned(s) + nb.aligned(s),
    ;
    assert(m * p > pow10(24) || m * p < -pow10(24)) by (nonlinear_arith)
        requires
            m > MAX_MANTISSA || m < -MAX_MANTISSA,
            p >= 1,
            pow10(24) == 1000000000000000000000000,
    ;
}

/// The product the spec describes carries the product of the values.
pub proof fn lemma_mul_spec_units(a: Money, b: Money)
    requires
        a.wf(),
        b.wf(),
        a.mul_spec(b) is Some,
    ensures
        a.mul_spec(b).unwrap().wf(),
        a.mul_spec(b).unwrap().units() * pow10(28) == a.units() * b.units(),
{
    let c = a.mul_spec(b).unwrap();
    let ea = (MAX_SCALE - a.scale) as nat;
    let eb = (MAX_SCALE - b.scale) as nat;
    let ec = (MAX_SCALE - c.scale) as nat;
    lemma_pow10_add(ea, eb);
    lemma_pow10_add(ec, 28);
    assert(ea + eb == ec + 28);
    lemma_mul_rearrange(c.mantissa as int, a.mantissa as int, b.mantissa as int, pow10(ea), pow10(eb), pow10(ec), pow10(28));
}

/// A value minus itself has a zero mantissa.
pub proof fn lemma_sub_self(a: Money)
    requires
        a.wf(),
    ensures
        a.sub_spec(a) matches Some(c) ==> c.mantissa == 0,
{
    let nb = a.neg_spec();
    assert(a.aligned(a.scale) + nb.aligned(a.scale) == 0) by (nonlinear_arith)
        requires
            nb.mantissa == -a.mantissa,
            a.aligned(a.scale) == a.mantissa * pow10((a.scale - a.scale) as nat),
            nb.aligned(a.scale) == nb.mantissa * pow10((a.scale - nb.scale) as nat),
            nb.scale == a.scale,
    ;
}

/// Rounding a zero mantissa gives a zero mantissa.
pub proof fn lemma_round_zero(a: Money, dp: u32)
    requires
        a.wf(),
        a.mantissa == 0,
        dp <= MAX_SCALE,
    ensures
        a.round_spec(dp).mantissa == 0,
        a.round_spec(dp).units() == 0,
{
    if a.scale > dp {
        let d = pow10((a.scale - dp) as nat);
        lemma_pow10_pos((a.scale - dp) as nat);
        lemma_fundamental_div_mod_converse(0, d, 0, 0);
    }
}

} // verus!
