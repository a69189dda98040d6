//! Shares reckoned with 24 significant bits, as numbers of single precision are:
//! every result is the nearest such number, and the even one from the middle
//! between two.
//!
//! The model of a number is how many of a very small unit it holds.

use vstd::arithmetic::div_mod::{lemma_basic_div, lemma_div_is_ordered, lemma_div_multiples_vanish, lemma_fundamental_div_mod, lemma_fundamental_div_mod_converse, lemma_small_mod};
use vstd::arithmetic::power2::{lemma2_to64, lemma2_to64_rest, lemma_pow2_adds, lemma_pow2_pos, lemma_pow2_strictly_increases, lemma_pow2_unfold, pow2};
use vstd::prelude::*;

verus! {

/// How many of the small unit make one.
pub open spec fn one() -> nat {
    pow2(256)
}

/// A fraction rounded to a whole number: to the nearest, and to the even one from
/// the middle between two.
pub open spec fn half_even(p: nat, q: nat) -> nat {
    let f = p / q;
    let r = p % q;
    if 2 * r > q || (2 * r == q && f % 2 == 1) {
        f + 1
    } else {
        f
    }
}

/// A fraction of small units rounded to 24 significant bits.
pub open spec fn significant(n: nat, d: nat) -> nat
    decreases n - d,
{
    if d == 0 {
        0
    } else if n < 0x100_0000 * d {
        half_even(n, d)
    } else {
        2 * significant(n, 2 * d)
    }
}

/// A fraction as a number.
pub open spec fn ratio(n: nat, d: nat) -> nat {
    significant(n * one(), d)
}

/// One number by another.
pub open spec fn quotient(a: nat, b: nat) -> nat {
    significant(a * one(), b)
}

/// One number times another.
pub open spec fn product(a: nat, b: nat) -> nat {
    significant(a * b, one())
}

/// A share: the number of a part by the number of the whole.
pub open spec fn share(part: nat, whole: nat) -> nat {
    quotient(ratio(part, 1), ratio(whole, 1))
}

/// The whole part of a number.
pub open spec fn whole_part(a: nat) -> nat {
    a / one()
}

/// A number in whole numbers.
pub open spec fn to_nearest(a: nat) -> nat {
    half_even(a, one())
}

// ---------------------------------------------------------------------------
// Lemmas
// ---------------------------------------------------------------------------

proof fn lemma_half_even_scaled(c: nat, p: nat, q: nat)
    requires
        c > 0,
        q > 0,
    ensures
        c * q > 0,
        half_even(c * p, c * q) == half_even(p, q),
{
    let f = p / q;
    let r = p % q;
    lemma_fundamental_div_mod(p as int, q as int);
    assert(c * q > 0 && c * p == (c * q) * f + c * r && 0 <= c * r < c * q) by (nonlinear_arith)
        requires
            c > 0,
            q > 0,
            p == q * f + r,
            0 <= r < q,
    ;
    lemma_fundamental_div_mod_converse(
        (c * p) as int,
        (c * q) as int,
        f as int,
        (c * r) as int,
    );
    assert((2 * (c * r) > c * q) == (2 * r > q) && (2 * (c * r) == c * q) == (2 * r == q))
        by (nonlinear_arith)
        requires
            c > 0,
    ;
}

/// A fraction is rounded as the same fraction in other numbers is.
pub proof fn lemma_scaled(c: nat, n: nat, d: nat)
    requires
        c > 0,
        d > 0,
    ensures
        significant(c * n, c * d) == significant(n, d),
    decreases n - d,
{
    assert(c * d > 0) by (nonlinear_arith)
        requires
            c > 0,
            d > 0,
    ;
    assert((c * n < 0x100_0000 * (c * d)) == (n < 0x100_0000 * d)) by (nonlinear_arith)
        requires
            c > 0,
    ;
    if n < 0x100_0000 * d {
        lemma_half_even_scaled(c, n, d);
    } else {
        lemma_scaled(c, n, 2 * d);
        assert(c * (2 * d) == 2 * (c * d)) by (nonlinear_arith);
    }
}

proof fn lemma_half_even_grows(p: nat, q: nat, s: nat, t: nat)
    requires
        q > 0,
        t > 0,
        p * t <= s * q,
    ensures
        half_even(p, q) <= half_even(s, t),
{
    let f = p / q;
    let r = p % q;
    let g = s / t;
    let u = s % t;
    lemma_fundamental_div_mod(p as int, q as int);
    lemma_fundamental_div_mod(s as int, t as int);
    assert(f <= g) by (nonlinear_arith)
        requires
            q > 0,
            t > 0,
            p * t <= s * q,
            p == q * f + r,
            s == t * g + u,
            0 <= r < q,
            0 <= u < t,
    {
        if f >= g + 1 {
            assert(p * t >= (q * f) * t);
            assert((q * f) * t >= (q * (g + 1)) * t);
            assert((q * (g + 1)) * t == q * (t * g + t));
            assert(q * (t * g + t) > q * s);
        }
    }
    if f == g {
        assert(r * t <= u * q) by (nonlinear_arith)
            requires
                p * t <= s * q,
                p == q * f + r,
                s == t * g + u,
                f == g,
        ;
        if 2 * r > q {
            assert(2 * u > t) by (nonlinear_arith)
                requires
                    2 * r > q,
                    r * t <= u * q,
                    q > 0,
                    t > 0,
            {
                if 2 * u <= t {
                    assert(2 * r * t > q * t);
                    assert(2 * u * q <= t * q);
                }
            }
        } else if 2 * r == q {
            assert(2 * u >= t) by (nonlinear_arith)
                requires
                    2 * r == q,
                    r * t <= u * q,
                    q > 0,
                    t > 0,
            {
                if 2 * u < t {
                    assert(2 * r * t == q * t);
                    assert(2 * u * q < t * q);
                }
            }
        }
    }
}

/// What is no less than a whole number is not rounded to less, nor what is no
/// more to more.
pub proof fn lemma_half_even_bounds(p: nat, q: nat, m: nat)
    requires
        q > 0,
    ensures
        p >= m * q ==> half_even(p, q) >= m,
        p <= m * q ==> half_even(p, q) <= m,
        half_even(m * q, q) == m,
{
    let a = m * q;
    lemma_fundamental_div_mod_converse(a as int, q as int, m as int, 0);
    assert(half_even(a, q) == m);
    if p >= m * q {
        assert(a * q <= p * q) by (nonlinear_arith)
            requires
                a <= p,
        ;
        lemma_half_even_grows(a, q, p, q);
    }
    if p <= m * q {
        assert(p * q <= a * q) by (nonlinear_arith)
            requires
                p <= a,
        ;
        lemma_half_even_grows(p, q, a, q);
    }
}

proof fn lemma_significant_at_least(n: nat, d: nat)
    requires
        d > 0,
        n >= 0x80_0000 * d,
    ensures
        significant(n, d) >= 0x80_0000,
    decreases n - d,
{
    if n < 0x100_0000 * d {
        lemma_half_even_bounds(n, d, 0x80_0000);
    } else {
        lemma_significant_at_least(n, 2 * d);
    }
}

/// What is not less is not rounded to less.
pub proof fn lemma_significant_grows(n: nat, d: nat, p: nat, q: nat)
    requires
        d > 0,
        q > 0,
        n * q <= p * d,
    ensures
        significant(n, d) <= significant(p, q),
    decreases n - d, p - q,
{
    if n < 0x100_0000 * d && p < 0x100_0000 * q {
        lemma_half_even_grows(n, d, p, q);
    } else if n < 0x100_0000 * d {
        lemma_half_even_bounds(n, d, 0x100_0000);
        lemma_significant_at_least(p, 2 * q);
    } else {
        assert(p >= 0x100_0000 * q) by (nonlinear_arith)
            requires
                n * q <= p * d,
                n >= 0x100_0000 * d,
                d > 0,
                q > 0,
        {
            if p < 0x100_0000 * q {
                assert(p * d < (0x100_0000 * q) * d);
                assert(n * q >= (0x100_0000 * d) * q);
            }
        }
        assert(n * (2 * q) <= p * (2 * d)) by (nonlinear_arith)
            requires
                n * q <= p * d,
        ;
        lemma_significant_grows(n, 2 * d, p, 2 * q);
    }
}

/// What has no more than 24 significant bits stays as it is.
pub proof fn lemma_exact(m: nat, k: nat)
    requires
        m < 0x100_0000,
    ensures
        significant(m * pow2(k), 1) == m * pow2(k),
    decreases k,
{
    lemma2_to64();
    let n = m * pow2(k);
    if n < 0x100_0000 {
        lemma_half_even_bounds(n, 1, n);
    } else {
        assert(k > 0) by {
            if k == 0 {
                assert(m * pow2(0) == m);
            }
        }
        lemma_exact(m, (k - 1) as nat);
        lemma_pow2_unfold(k);
        assert(n == 2 * (m * pow2((k - 1) as nat))) by (nonlinear_arith)
            requires
                n == m * pow2(k),
                pow2(k) == 2 * pow2((k - 1) as nat),
        ;
        lemma_scaled(2, m * pow2((k - 1) as nat), 1);
    }
}

proof fn lemma_shifted(n: nat, d: nat, k: nat)
    requires
        d > 0,
        0x80_0000 * d <= n < 0x100_0000 * d,
    ensures
        significant(n * pow2(k), d) == half_even(n, d) * pow2(k),
    decreases k,
{
    lemma2_to64();
    if k == 0 {
        assert(n * pow2(0) == n);
    } else {
        let half = pow2((k - 1) as nat);
        lemma_pow2_unfold(k);
        lemma_pow2_pos((k - 1) as nat);
        lemma_shifted(n, d, (k - 1) as nat);
        assert(n * pow2(k) == 2 * (n * half) && n * pow2(k) >= 0x100_0000 * d) by (nonlinear_arith)
            requires
                pow2(k) == 2 * half,
                half >= 1,
                n >= 0x80_0000 * d,
        ;
        lemma_scaled(2, n * half, d);
        assert(half_even(n, d) * pow2(k) == 2 * (half_even(n, d) * half)) by (nonlinear_arith)
            requires
                pow2(k) == 2 * half,
        ;
    }
}

proof fn lemma_one()
    ensures
        one() > 0,
        one() == 0x100_0000 * pow2(232),
{
    lemma_pow2_pos(256);
    lemma_pow2_adds(24, 232);
    lemma2_to64();
}

/// A small whole number is held as it is.
pub proof fn lemma_small_whole(n: nat)
    requires
        n < 0x100_0000,
    ensures
        ratio(n, 1) == n * one(),
{
    lemma_exact(n, 256);
}

// ---------------------------------------------------------------------------
// Numbers
// ---------------------------------------------------------------------------

/// A number: 24 bits, and by how many places they are moved.
#[derive(Debug, Clone, Copy, PartialEq, Eq, Structural)]
pub struct Single {
    pub bits: u32,
    pub moved: i32,
}

impl Single {
    /// The first bit is set, unless the number is zero, and the bits are not
    /// moved below the unit.
    pub open spec fn wf(self) -> bool {
        &&& self.bits == 0 || 0x80_0000 <= self.bits
        &&& self.bits < 0x100_0000
        &&& -256 <= self.moved
    }

    /// The number in small units.
    pub open spec fn value(self) -> nat {
        self.bits as nat * pow2((self.moved + 256) as nat)
    }

    /// The number nearest to a fraction that is moved by some places.
    fn nearest(n: u128, d: u128, moved: i32) -> (r: Single)
        requires
            n <= 0xffff_ffff_ffff_ffff,
            0 < d <= 0x100_0000,
            -200 <= moved <= 200,
        ensures
            r.wf(),
            r.value() == significant(n as nat * pow2((moved + 256) as nat), d as nat),
            moved - 48 <= r.moved <= moved + 42,
            d == 1 ==> r.moved >= moved - 24,
            n < 0x100_0000 * d ==> r.moved <= moved + 1,
            n < 0x1_0000_0000_0000 ==> r.moved <= moved + 25,
    {
        let ghost want = significant(n as nat * pow2((moved + 256) as nat), d as nat);
        proof {
            lemma2_to64();
            lemma2_to64_rest();
            lemma_pow2_pos((moved + 256) as nat);
        }
        if n == 0 {
            proof {
                assert(0 * pow2((moved + 256) as nat) == 0);
                lemma_half_even_bounds(0, d as nat, 0);
            }
            return Single { bits: 0, moved };
        }
        let mut a: u128 = n;
        let mut b: u128 = d;
        let mut e: i32 = moved;
        let ghost mut down: nat = 0;
        while a >= 0x100_0000 * b
            invariant
                0 < n == a <= 0xffff_ffff_ffff_ffff,
                0 < d <= b <= 0xffff_ffff_ffff_ffff,
                -200 <= moved <= 200,
                e == moved + down,
                pow2(down) <= b,
                down == 0 ==> b == d,
                down > 0 ==> a >= 0x80_0000 * b && pow2((down - 1) as nat) * 0x100_0000 <= n && n
                    >= 0x100_0000 * d,
                down <= 41,
                want == significant(a as nat * pow2((e + 256) as nat), b as nat),
            decreases a - b,
        {
            proof {
                let k = (e + 256) as nat;
                lemma_pow2_unfold(k + 1);
                lemma_scaled(2, a as nat * pow2(k), b as nat);
                assert(2 * (a as nat * pow2(k)) == a as nat * pow2(k + 1)) by (nonlinear_arith)
                    requires
                        pow2(k + 1) == 2 * pow2(k),
                ;
                lemma_pow2_unfold(down + 1);
                assert(pow2(down) * 0x100_0000 <= n);
                lemma2_to64();
                lemma2_to64_rest();
                if down >= 41 {
                    if down > 41 {
                        lemma_pow2_strictly_increases(41, down);
                    }
                    assert(pow2(41) * 0x100_0000 > 0xffff_ffff_ffff_ffff);
                }
                down = down + 1;
            }
            b = 2 * b;
            e = e + 1;
        }
        let ghost mut up: nat = 0;
        while a < 0x80_0000 * b
            invariant
                0 < n <= a < 0x100_0000 * b,
                0 < d <= b <= 0xffff_ffff_ffff_ffff,
                d <= 0x100_0000,
                -200 <= moved <= 200,
                down <= 41,
                down > 0 ==> a >= 0x80_0000 * b,
                down == 0 ==> b == d,
                e == moved + down - up,
                pow2(up) <= a,
                up > 0 ==> down == 0,
                up <= 48,
                d == 1 ==> up <= 24,
                want == significant(a as nat * pow2((e + 256) as nat), b as nat),
            decreases 0x100_0000 * b - a,
        {
            proof {
                let k = (e + 256) as nat;
                lemma_pow2_unfold(k);
                assert(a as nat * pow2(k) == (2 * a) as nat * pow2((k - 1) as nat))
                    by (nonlinear_arith)
                    requires
                        pow2(k) == 2 * pow2((k - 1) as nat),
                ;
                lemma_pow2_unfold(up + 1);
                lemma2_to64();
                lemma2_to64_rest();
                assert(pow2(up) < 0x80_0000 * 0x100_0000);
                if up >= 48 {
                    if up > 48 {
                        lemma_pow2_strictly_increases(48, up);
                    }
                    assert(pow2(48) > 0x80_0000 * 0x100_0000);
                }
                if d == 1 && up >= 24 {
                    if up > 24 {
                        lemma_pow2_strictly_increases(24, up);
                    }
                    assert(pow2(24) > 0x80_0000);
                }
                up = up + 1;
            }
            a = 2 * a;
            e = e - 1;
        }
        let f: u128 = a / b;
        let rest: u128 = a % b;
        let bits: u128 = if 2 * rest > b || (2 * rest == b && f % 2 == 1) {
            f + 1
        } else {
            f
        };
        proof {
            let k = (e + 256) as nat;
            assert(bits == half_even(a as nat, b as nat));
            lemma_half_even_bounds(a as nat, b as nat, 0x80_0000);
            lemma_half_even_bounds(a as nat, b as nat, 0x100_0000);
            lemma_shifted(a as nat, b as nat, k);
            lemma_pow2_unfold(k + 1);
            assert(0x100_0000 * pow2(k) == 0x80_0000 * pow2(k + 1));
            if n < 0x1_0000_0000_0000 && down > 24 {
                lemma2_to64();
                if down > 25 {
                    lemma_pow2_strictly_increases(24, (down - 1) as nat);
                }
                assert(pow2((down - 1) as nat) * 0x100_0000 >= 0x100_0000 * 0x100_0000);
            }
        }
        if bits == 0x100_0000 {
            Single { bits: 0x80_0000, moved: e + 1 }
        } else {
            Single { bits: bits as u32, moved: e }
        }
    }

    /// The number zero.
    pub fn zero() -> (r: Single)
        ensures
            r.wf(),
            r.value() == 0,
            r.moved == 0,
    {
        proof {
            assert(0 * pow2(256) == 0);
        }
        Single { bits: 0, moved: 0 }
    }

    /// The number nearest to a fraction.
    pub fn of(n: u64, d: u32) -> (r: Single)
        requires
            0 < d <= 0x100_0000,
        ensures
            r.wf(),
            r.value() == ratio(n as nat, d as nat),
            -48 <= r.moved <= 42,
            d == 1 ==> r.moved >= -24,
            n < 0x100_0000 ==> r.moved <= 1,
    {
        Single::nearest(n as u128, d as u128, 0)
    }

    /// One number by another.
    pub fn over(self, other: Single) -> (r: Single)
        requires
            self.wf(),
            other.wf(),
            other.bits > 0,
            -24 <= self.moved <= 42,
            -24 <= other.moved <= 42,
        ensures
            r.wf(),
            r.value() == quotient(self.value(), other.value()),
            -114 <= r.moved <= 67,
    {
        proof {
            let m = self.moved - other.moved;
            let c = pow2((other.moved + 256) as nat);
            let x = self.bits as nat;
            let y = other.bits as nat;
            let p = pow2((m + 256) as nat);
            lemma_pow2_pos((other.moved + 256) as nat);
            lemma_pow2_adds((self.moved + 256) as nat, 256);
            lemma_pow2_adds((m + 256) as nat, (other.moved + 256) as nat);
            assert(m + 256 + (other.moved + 256) == self.moved + 256 + 256);
            let q = pow2((self.moved + 256) as nat);
            assert(self.value() * one() == c * (x * p)) by (nonlinear_arith)
                requires
                    self.value() == x * q,
                    q * one() == p * c,
            ;
            assert(other.value() == c * y) by (nonlinear_arith)
                requires
                    other.value() == y * c,
            ;
            lemma_scaled(c, x * p, y);
        }
        Single::nearest(self.bits as u128, other.bits as u128, self.moved - other.moved)
    }

    /// One number times another.
    pub fn times(self, other: Single) -> (r: Single)
        requires
            self.wf(),
            other.wf(),
            -114 <= self.moved <= 67,
            -24 <= other.moved <= 42,
        ensures
            r.wf(),
            r.value() == product(self.value(), other.value()),
            r.moved <= self.moved + other.moved + 25,
    {
        proof {
            let m = self.moved + other.moved;
            let c = one();
            let x = self.bits as nat;
            let y = other.bits as nat;
            let s = pow2((self.moved + 256) as nat);
            let t = pow2((other.moved + 256) as nat);
            let p = pow2((m + 256) as nat);
            lemma_one();
            lemma_pow2_adds((self.moved + 256) as nat, (other.moved + 256) as nat);
            lemma_pow2_adds((m + 256) as nat, 256);
            assert(self.moved + 256 + (other.moved + 256) == m + 256 + 256);
            assert(self.value() * other.value() == c * ((x * y) * p)) by (nonlinear_arith)
                requires
                    self.value() == x * s,
                    other.value() == y * t,
                    s * t == p * c,
            ;
            lemma_scaled(c, (x * y) * p, 1);
            assert(x * y < 0x1_0000_0000_0000) by (nonlinear_arith)
                requires
                    x < 0x100_0000,
                    y < 0x100_0000,
            ;
        }
        Single::nearest(self.bits as u128 * other.bits as u128, 1, self.moved + other.moved)
    }

    /// Whether one number is greater than another.
    pub fn exceeds(self, other: Single) -> (r: bool)
        requires
            self.wf(),
            other.wf(),
        ensures
            r == (self.value() > other.value()),
    {
        proof {
            let s = (self.moved + 256) as nat;
            let t = (other.moved + 256) as nat;
            lemma_pow2_pos(s);
            lemma_pow2_pos(t);
            if self.bits == 0 {
                assert(0 * pow2(s) == 0);
            } else {
                assert(self.value() > 0) by (nonlinear_arith)
                    requires
                        self.value() == self.bits * pow2(s),
                        self.bits > 0,
                        pow2(s) > 0,
                ;
            }
            if other.bits == 0 {
                assert(0 * pow2(t) == 0);
            } else if self.bits > 0 {
                if s == t {
                    assert((self.value() > other.value()) == (self.bits > other.bits))
                        by (nonlinear_arith)
                        requires
                            self.value() == self.bits * pow2(s),
                            other.value() == other.bits * pow2(s),
                            pow2(s) > 0,
                    ;
                } else if s < t {
                    lemma_places(self, other);
                } else {
                    lemma_places(other, self);
                }
            }
        }
        if self.bits == 0 {
            false
        } else if other.bits == 0 {
            true
        } else if self.moved == other.moved {
            self.bits > other.bits
        } else {
            self.moved > other.moved
        }
    }

    /// The whole part of a number, as far as a terminal can show it.
    pub fn cells(self) -> (r: u16)
        requires
            self.wf(),
        ensures
            r == (if whole_part(self.value()) > u16::MAX {
                u16::MAX as nat
            } else {
                whole_part(self.value())
            }),
    {
        proof {
            lemma_one();
        }
        if self.bits == 0 {
            proof {
                assert(0 * pow2((self.moved + 256) as nat) == 0);
            }
            return 0;
        }
        if self.moved >= 0 {
            proof {
                lemma_above_one(self);
                lemma_div_is_ordered(
                    (0x80_0000 * one()) as int,
                    self.value() as int,
                    one() as int,
                );
                lemma_div_multiples_vanish(0x80_0000, one() as int);
            }
            return 0xffff;
        }
        if self.moved <= -24 {
            proof {
                lemma_below_one(self);
                lemma_basic_div(self.value() as int, one() as int);
            }
            return 0;
        }
        let mut p: u32 = 1;
        let mut k: i32 = 0;
        proof {
            lemma2_to64();
        }
        while k < -self.moved
            invariant
                0 <= k <= -self.moved < 24,
                p == pow2(k as nat),
                p <= 0x80_0000,
            decreases -self.moved - k,
        {
            proof {
                lemma_pow2_unfold((k + 1) as nat);
                lemma2_to64();
                if k + 1 < 23 {
                    lemma_pow2_strictly_increases((k + 1) as nat, 23);
                }
            }
            p = 2 * p;
            k = k + 1;
        }
        let w: u32 = self.bits / p;
        proof {
            let c = pow2((self.moved + 256) as nat);
            lemma_pow2_pos((self.moved + 256) as nat);
            lemma_pow2_adds((self.moved + 256) as nat, k as nat);
            assert(one() == c * p as nat);
            assert(self.value() == c * self.bits as nat) by (nonlinear_arith)
                requires
                    self.value() == self.bits * c,
            ;
            lemma_fraction_scaled(c, self.bits as nat, p as nat);
        }
        if w > 0xffff {
            0xffff
        } else {
            w as u16
        }
    }

    /// The number in whole numbers.
    pub fn nearest_whole(self) -> (r: u128)
        requires
            self.wf(),
            self.moved <= 100,
        ensures
            r == to_nearest(self.value()),
    {
        proof {
            lemma_one();
            lemma2_to64();
            lemma2_to64_rest();
        }
        if self.moved >= 0 {
            let mut w: u128 = self.bits as u128;
            let mut k: i32 = 0;
            proof {
                assert(self.bits as nat * pow2(0) == self.bits);
                lemma_pow2_adds(64, 60);
            }
            while k < self.moved
                invariant
                    0 <= k <= self.moved <= 100,
                    self.bits < 0x100_0000,
                    w == self.bits * pow2(k as nat),
                decreases self.moved - k,
            {
                proof {
                    lemma_pow2_unfold((k + 1) as nat);
                    if k < 100 {
                        lemma_pow2_strictly_increases(k as nat, 100);
                    }
                    lemma2_to64();
                    lemma2_to64_rest();
                    lemma_pow2_adds(50, 50);
                    assert(w < 0x100_0000 * (0x4_0000_0000_0000 * 0x4_0000_0000_0000))
                        by (nonlinear_arith)
                        requires
                            w == self.bits * pow2(k as nat),
                            self.bits < 0x100_0000,
                            pow2(k as nat) <= 0x4_0000_0000_0000 * 0x4_0000_0000_0000,
                    ;
                    assert(self.bits * (2 * pow2(k as nat)) == 2 * (self.bits * pow2(k as nat)))
                        by (nonlinear_arith);
                }
                w = 2 * w;
                k = k + 1;
            }
            proof {
                lemma_pow2_adds(self.moved as nat, 256);
                assert(self.value() == w as nat * one()) by (nonlinear_arith)
                    requires
                        self.value() == self.bits * (pow2(self.moved as nat) * one()),
                        w == self.bits * pow2(self.moved as nat),
                ;
                lemma_half_even_bounds(self.value(), one(), w as nat);
            }
            return w;
        }
        if self.moved <= -26 || self.bits == 0 {
            proof {
                if self.bits == 0 {
                    assert(0 * pow2((self.moved + 256) as nat) == 0);
                    lemma_half_even_bounds(0, one(), 0);
                } else {
                    lemma_below_half(self);
                    lemma_basic_div(self.value() as int, one() as int);
                    lemma_small_mod(self.value(), one());
                }
            }
            return 0;
        }
        let mut p: u32 = 1;
        let mut k: i32 = 0;
        while k < -self.moved
            invariant
                0 <= k <= -self.moved < 26,
                p == pow2(k as nat),
                p <= 0x200_0000,
            decreases -self.moved - k,
        {
            proof {
                lemma_pow2_unfold((k + 1) as nat);
                lemma2_to64();
                if k + 1 < 25 {
                    lemma_pow2_strictly_increases((k + 1) as nat, 25);
                }
            }
            p = 2 * p;
            k = k + 1;
        }
        let f: u32 = self.bits / p;
        let rest: u32 = self.bits % p;
        proof {
            let c = pow2((self.moved + 256) as nat);
            lemma_pow2_pos((self.moved + 256) as nat);
            lemma_pow2_adds((self.moved + 256) as nat, k as nat);
            assert(one() == c * p as nat);
            assert(self.value() == c * self.bits as nat) by (nonlinear_arith)
                requires
                    self.value() == self.bits * c,
            ;
            lemma_half_even_scaled(c, self.bits as nat, p as nat);
        }
        if 2 * rest > p || (2 * rest == p && f % 2 == 1) {
            f as u128 + 1
        } else {
            f as u128
        }
    }
}

proof fn lemma_fraction_scaled(c: nat, p: nat, q: nat)
    requires
        c > 0,
        q > 0,
    ensures
        c * q > 0,
        (c * p) / (c * q) == p / q,
{
    let f = p / q;
    let r = p % q;
    lemma_fundamental_div_mod(p as int, q as int);
    assert(c * q > 0 && c * p == (c * q) * f + c * r && 0 <= c * r < c * q) by (nonlinear_arith)
        requires
            c > 0,
            q > 0,
            p == q * f + r,
            0 <= r < q,
    ;
    lemma_fundamental_div_mod_converse(
        (c * p) as int,
        (c * q) as int,
        f as int,
        (c * r) as int,
    );
}

proof fn lemma_places(low: Single, high: Single)
    requires
        low.wf(),
        high.wf(),
        low.bits > 0,
        high.bits > 0,
        low.moved < high.moved,
    ensures
        low.value() < high.value(),
{
    let s = (low.moved + 256) as nat;
    let t = (high.moved + 256) as nat;
    lemma_pow2_pos(s);
    lemma_pow2_unfold(s + 1);
    if s + 1 < t {
        lemma_pow2_strictly_increases(s + 1, t);
    }
    assert(low.value() < high.value()) by (nonlinear_arith)
        requires
            low.value() == low.bits * pow2(s),
            high.value() == high.bits * pow2(t),
            pow2(t) >= 2 * pow2(s),
            pow2(s) > 0,
            low.bits < 0x100_0000,
            high.bits >= 0x80_0000,
    ;
}

proof fn lemma_above_one(a: Single)
    requires
        a.wf(),
        a.bits > 0,
        a.moved >= 0,
    ensures
        a.value() >= 0x80_0000 * one(),
{
    let t = (a.moved + 256) as nat;
    if t > 256 {
        lemma_pow2_strictly_increases(256, t);
    }
    assert(a.value() >= 0x80_0000 * one()) by (nonlinear_arith)
        requires
            a.value() == a.bits * pow2(t),
            a.bits >= 0x80_0000,
            pow2(t) >= one(),
    ;
}

proof fn lemma_below_one(a: Single)
    requires
        a.wf(),
        a.moved <= -24,
    ensures
        a.value() < one(),
{
    let t = (a.moved + 256) as nat;
    lemma_one();
    lemma_pow2_pos(t);
    if t < 232 {
        lemma_pow2_strictly_increases(t, 232);
    }
    assert(a.value() < one()) by (nonlinear_arith)
        requires
            a.value() == a.bits * pow2(t),
            a.bits < 0x100_0000,
            0 < pow2(t) <= pow2(232),
            one() == 0x100_0000 * pow2(232),
    ;
}

proof fn lemma_below_half(a: Single)
    requires
        a.wf(),
        a.moved <= -26,
    ensures
        2 * a.value() < one(),
{
    let t = (a.moved + 256) as nat;
    lemma_one();
    lemma_pow2_pos(t);
    lemma_pow2_unfold(231);
    lemma_pow2_unfold(232);
    if t < 230 {
        lemma_pow2_strictly_increases(t, 230);
    }
    assert(2 * a.value() < one()) by (nonlinear_arith)
        requires
            a.value() == a.bits * pow2(t),
            a.bits < 0x100_0000,
            0 < pow2(t),
            2 * pow2(t) < pow2(232),
            one() == 0x100_0000 * pow2(232),
    ;
}

/// The share of a part in a whole.
pub fn share_of(part: u64, whole: u64) -> (r: Single)
    requires
        whole > 0,
    ensures
        r.wf(),
        r.value() == share(part as nat, whole as nat),
        -114 <= r.moved <= 67,
{
    let b: Single = Single::of(whole, 1);
    proof {
        lemma_positive(whole as nat);
        if b.bits == 0 {
            assert(0 * pow2((b.moved + 256) as nat) == 0);
        }
    }
    Single::of(part, 1).over(b)
}

proof fn lemma_positive(n: nat)
    requires
        n > 0,
    ensures
        ratio(n, 1) > 0,
{
    lemma_small_whole(1);
    lemma_one();
    assert(1 * one() <= n * one()) by (nonlinear_arith)
        requires
            n >= 1,
    ;
    lemma_significant_grows(1 * one(), 1, n * one(), 1);
}

// ---------------------------------------------------------------------------
// Laws
// ---------------------------------------------------------------------------

/// More of the same whole is never a smaller share; nothing is no share; and all
/// of it is one.
pub proof fn law_share_follows_part(a: nat, b: nat, whole: nat)
    requires
        a <= b,
        whole > 0,
    ensures
        share(a, whole) <= share(b, whole),
        share(0, whole) == 0,
        share(whole, whole) == one(),
{
    let w = ratio(whole, 1);
    lemma_positive(whole);
    lemma_one();
    assert(a * one() <= b * one()) by (nonlinear_arith)
        requires
            a <= b,
    ;
    lemma_significant_grows(a * one(), 1, b * one(), 1);
    let x = ratio(a, 1);
    let y = ratio(b, 1);
    assert((x * one()) * w <= (y * one()) * w) by (nonlinear_arith)
        requires
            x <= y,
    ;
    lemma_significant_grows(x * one(), w, y * one(), w);
    lemma_small_whole(0);
    assert(0 * one() == 0);
    lemma_half_even_bounds(0, w, 0);
    lemma_scaled(w, one(), 1);
    assert(w * 1 == w);
    lemma_small_whole(1);
    assert(1 * one() == one());
}

/// A share of a small number grows with the share; one times the number is the
/// number.
pub proof fn law_product_follows_share(a: nat, b: nat, n: nat)
    requires
        a <= b,
        n < 0x100_0000,
    ensures
        product(a, ratio(n, 1)) <= product(b, ratio(n, 1)),
        product(0, ratio(n, 1)) == 0,
        product(one(), ratio(n, 1)) == n * one(),
{
    let m = ratio(n, 1);
    lemma_one();
    assert((a * m) * one() <= (b * m) * one()) by (nonlinear_arith)
        requires
            a <= b,
    ;
    lemma_significant_grows(a * m, one(), b * m, one());
    assert(0 * m == 0);
    lemma_half_even_bounds(0, one(), 0);
    lemma_scaled(one(), m, 1);
    assert(one() * 1 == one());
    lemma_small_whole(n);
    lemma_exact(n, 256);
}

/// Whole numbers follow the number, and those of a whole number are it.
pub proof fn law_whole_numbers_follow(a: nat, b: nat, n: nat)
    requires
        a <= b,
    ensures
        whole_part(a) <= whole_part(b),
        to_nearest(a) <= to_nearest(b),
        whole_part(n * one()) == n,
        to_nearest(n * one()) == n,
{
    lemma_one();
    lemma_div_is_ordered(a as int, b as int, one() as int);
    lemma_div_multiples_vanish(n as int, one() as int);
    assert(n * one() == one() * n) by (nonlinear_arith);
    assert(a * one() <= b * one()) by (nonlinear_arith)
        requires
            a <= b,
    ;
    lemma_half_even_grows(a, one(), b, one());
    lemma_half_even_bounds(0, one(), n);
}

/// A fraction of a number by itself is one.
pub proof fn law_ratio_of_same(n: nat)
    requires
        n > 0,
    ensures
        ratio(n, n) == one(),
{
    lemma_scaled(n, one(), 1);
    assert(n * 1 == n);
    lemma_small_whole(1);
    assert(1 * one() == one());
}

/// Among counts of up to 24 bits, a share is at least one exactly where the part
/// is at least the whole.
pub proof fn law_full_share(part: nat, whole: nat)
    requires
        part < 0x100_0000,
        0 < whole < 0x100_0000,
    ensures
        share(part, whole) >= one() <==> part >= whole,
{
    lemma_one();
    law_share_follows_part(whole, if part >= whole {
        part
    } else {
        whole
    }, whole);
    if part < whole {
        let s = one();
        lemma_small_whole(part);
        lemma_small_whole(whole);
        assert((part * s) * s == s * (part * s) && whole * s == s * whole) by (nonlinear_arith);
        lemma_scaled(s, part * s, whole);
        let v = 0xff_ffff * pow2(232);
        lemma_exact(0xff_ffff, 232);
        lemma_pow2_pos(232);
        assert((part * s) * 1 <= v * whole) by (nonlinear_arith)
            requires
                part + 1 <= whole,
                whole <= 0x100_0000,
                s == 0x100_0000 * pow2(232),
                v == 0xff_ffff * pow2(232),
        {
            let u = pow2(232);
            assert(part * s <= (whole - 1) * s);
            assert((whole - 1) * s == whole * s - s);
            assert(whole * s == whole * v + whole * u);
            assert(whole * u <= s);
        }
        lemma_significant_grows(part * s, whole, v, 1);
        assert(v < s);
    }
}

/// A rounded fraction is one of the two whole numbers beside it, the nearer, and
/// from the middle the even one.
pub proof fn law_rounded_to_the_nearest(p: nat, q: nat)
    requires
        q > 0,
    ensures
        -(q as int) <= 2 * (half_even(p, q) * q - p) <= q,
        2 * (half_even(p, q) * q - p) == q || 2 * (half_even(p, q) * q - p) == -(q as int)
            ==> half_even(p, q) % 2 == 0,
        p % q == 0 ==> half_even(p, q) * q == p,
{
    let f = p / q;
    vstd::arithmetic::div_mod::lemma_fundamental_div_mod(p as int, q as int);
    vstd::arithmetic::mul::lemma_mul_is_commutative(f as int, q as int);
    vstd::arithmetic::mul::lemma_mul_is_distributive_add_other_way(q as int, f as int, 1);
    assert((f + 1) * q == f * q + q);
}

/// A number keeps 24 significant bits: it is off by half a unit at most, or by one
/// part in 16777216 of itself.
pub proof fn law_significant_bits(n: nat, d: nat)
    requires
        d > 0,
    ensures
        ({
            let e = significant(n, d) * d - n;
            ||| -(d as int) <= 2 * e <= d
            ||| -(n as int) <= 0x100_0000 * e <= n
        }),
    decreases n - d,
{
    if n < 0x100_0000 * d {
        law_rounded_to_the_nearest(n, d);
    } else {
        law_significant_bits(n, 2 * d);
        let s = significant(n, 2 * d);
        vstd::arithmetic::mul::lemma_mul_is_associative(s as int, 2, d as int);
        vstd::arithmetic::mul::lemma_mul_is_commutative(s as int, 2);
        assert(2 * s * d == s * (2 * d));
    }
}

} // verus!
