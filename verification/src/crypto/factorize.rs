//! Pollard's rho in Brent's variant, for the 64-bit product that the server
//! sends in the key exchange.

use vstd::prelude::*;

verus! {

/// `d` divides `n`: it is not zero and leaves no remainder.
pub open spec fn divides(d: int, n: int) -> bool {
    d > 0 && n % d == 0
}

/// `g` is the greatest common divisor of `a` and `b`: it divides both, and
/// no number that divides both is greater. Of zero and zero it is zero.
pub open spec fn is_gcd(g: int, a: int, b: int) -> bool {
    if a == 0 && b == 0 {
        g == 0
    } else {
        &&& divides(g, a)
        &&& divides(g, b)
        &&& forall|d: int| divides(d, a) && divides(d, b) ==> d <= g
    }
}

/// A number divides `a` and `b` just when it divides `b` and what `a`
/// leaves when divided by `b`.
pub proof fn lemma_divides_remainder(d: int, a: int, b: int)
    requires
        0 <= a,
        0 < b,
        0 < d,
    ensures
        (divides(d, a) && divides(d, b)) == (divides(d, b) && divides(d, a % b)),
{
    if b % d == 0 {
        let q = a / b;
        let r = a % b;
        let y = b / d;
        vstd::arithmetic::div_mod::lemma_fundamental_div_mod(a, b);
        vstd::arithmetic::div_mod::lemma_fundamental_div_mod(b, d);
        assert(b == d * y);
        assert(a == d * (q * y) + r) by (nonlinear_arith)
            requires
                a == b * q + r,
                b == d * y,
        ;
        vstd::arithmetic::div_mod::lemma_mod_multiples_vanish(q * y, r, d);
    }
}

/// A number that divides another, which is not zero, is not greater.
pub proof fn lemma_divisor_bound(d: int, n: int)
    requires
        divides(d, n),
        0 < n,
    ensures
        d <= n,
{
    vstd::arithmetic::div_mod::lemma_fundamental_div_mod(n, d);
    let q = n / d;
    assert(n == d * q);
    assert(q >= 1) by (nonlinear_arith)
        requires
            n == d * q,
            n > 0,
            d > 0,
    ;
    assert(d <= d * q) by (nonlinear_arith)
        requires
            q >= 1,
            d > 0,
    ;
}

/// Two numbers have one greatest common divisor.
pub proof fn lemma_gcd_unique(g: int, h: int, a: int, b: int)
    requires
        is_gcd(g, a, b),
        is_gcd(h, a, b),
    ensures
        g == h,
{
}

/// The greatest common divisor of `a` and `b`.
pub open spec fn spec_gcd(a: int, b: int) -> int {
    choose|g: int| is_gcd(g, a, b)
}

/// Greatest common divisor by Euclid's algorithm.
pub fn gcd(a: u128, b: u128) -> (g: u128)
    ensures
        is_gcd(g as int, a as int, b as int),
        g == spec_gcd(a as int, b as int),
        g <= a || g <= b,
        b == 0 ==> g == a,
{
    let mut a = a;
    let mut b = b;
    let ghost a0 = a;
    let ghost b0 = b;
    while b != 0
        invariant
            a <= a0 || a <= b0,
            b <= a0 || b <= b0,
            b0 == 0 ==> b == 0 && a == a0,
            (a == 0 && b == 0) == (a0 == 0 && b0 == 0),
            forall|d: int|
                (divides(d, a as int) && divides(d, b as int)) == (divides(d, a0 as int)
                    && divides(d, b0 as int)),
        decreases b,
    {
        proof {
            assert forall|d: int|
                (divides(d, b as int) && divides(d, (a % b) as int)) == (divides(d, a0 as int)
                    && divides(d, b0 as int)) by {
                if d > 0 {
                    lemma_divides_remainder(d, a as int, b as int);
                }
            }
        }
        let t = b;
        b = a % b;
        a = t;
    }
    proof {
        if a == 0 {
            assert(is_gcd(0, a0 as int, b0 as int));
        }
        if a != 0 {
            assert(divides(a as int, a as int)) by {
                vstd::arithmetic::div_mod::lemma_mod_self_0(a as int);
            }
            assert(divides(a as int, 0int));
            assert forall|d: int| divides(d, a0 as int) && divides(d, b0 as int) implies d
                <= a by {
                assert(divides(d, a as int) && divides(d, b as int));
                lemma_divisor_bound(d, a as int);
            }
        }
        assert(is_gcd(a as int, a0 as int, b0 as int));
        lemma_gcd_unique(a as int, spec_gcd(a0 as int, b0 as int), a0 as int, b0 as int);
    }
    a
}

/// The square of `n` reduced by `m`; zero for modulus one.
pub open spec fn spec_square_mod(n: int, m: int) -> int {
    if m == 1 {
        0
    } else {
        ((n % m) * (n % m)) % m
    }
}

/// The square of `n` modulo `m`.
pub fn square_mod(n: u128, m: u128) -> (r: u128)
    requires
        0 < m <= u64::MAX,
    ensures
        r == spec_square_mod(n as int, m as int),
        r < m,
{
    if m == 1 {
        return 0;
    }
    let b = n % m;
    assert(b * b <= u128::MAX) by (nonlinear_arith)
        requires
            b < 0x1_0000_0000_0000_0000u128,
    ;
    (b * b) % m
}

/// The distance between two numbers.
pub fn abs_sub(a: u128, b: u128) -> (d: u128)
    ensures
        d == if a >= b {
            a - b
        } else {
            b - a
        },
{
    if a >= b {
        a - b
    } else {
        b - a
    }
}

/// The distance between two numbers.
pub open spec fn spec_abs_sub(a: int, b: int) -> int {
    if a >= b {
        a - b
    } else {
        b - a
    }
}

/// One step of the pseudo-random walk: `y² + c` modulo `pq`.
pub open spec fn spec_step(y: int, c: int, pq: int) -> int {
    (spec_square_mod(y, pq) + c) % pq
}

/// Where the walk stands `n` steps after `y`.
pub open spec fn spec_walk(y: int, c: int, pq: int, n: int) -> int
    decreases n,
{
    if n <= 0 {
        y
    } else {
        spec_step(spec_walk(y, c, pq, n - 1), c, pq)
    }
}

/// `n` steps of the walk from `y`, with the product `q` of the distances
/// from `x` gathered on the way, modulo `pq`: where the walk stands, and
/// the product.
pub open spec fn spec_batch(x: int, y: int, q: int, c: int, pq: int, n: int) -> (int, int)
    decreases n,
{
    if n <= 0 {
        (y, q)
    } else {
        let before = spec_batch(x, y, q, c, pq, n - 1);
        let next = spec_step(before.0, c, pq);
        (next, (before.1 * spec_abs_sub(x, next)) % pq)
    }
}

/// What an attempt holds: the walk's place `y`, the divisor `g` found so
/// far, the length `r` of the cycle explored, the product `q` of distances,
/// the place `x` that distances are taken from, and the place `ys` and the
/// length `batch` of the last batch of steps.
pub struct Walk {
    pub y: int,
    pub g: int,
    pub r: int,
    pub q: int,
    pub x: int,
    pub ys: int,
    pub batch: int,
}

/// The batches of one cycle from the step `k` on, each of at most `m`
/// steps, as long as no divisor has shown: after each batch the divisor is
/// what the product has in common with `pq`.
pub open spec fn spec_rounds(w: Walk, c: int, pq: int, m: int, k: int) -> Walk
    decreases w.r + m - k,
{
    if k < w.r && w.g == 1 && m > 0 {
        let batch = if m < w.r - k {
            m
        } else {
            w.r - k
        };
        let done = spec_batch(w.x, w.y, w.q, c, pq, batch);
        spec_rounds(
            Walk {
                y: done.0,
                g: spec_gcd(done.1, pq),
                r: w.r,
                q: done.1,
                x: w.x,
                ys: w.y,
                batch,
            },
            c,
            pq,
            m,
            k + m,
        )
    } else {
        w
    }
}

/// The cycles of an attempt, each twice as long as the one before, as long
/// as no divisor has shown and the length stays below `MAX_CYCLE`: the walk
/// goes the length of the cycle, and then once more in batches.
pub open spec fn spec_cycles(w: Walk, c: int, pq: int, m: int) -> Walk
    decreases 2 * MAX_CYCLE - w.r,
{
    if w.g == 1 && 1 <= w.r < MAX_CYCLE {
        let walked = Walk {
            y: spec_walk(w.y, c, pq, w.r),
            g: w.g,
            r: w.r,
            q: w.q,
            x: w.y,
            ys: w.ys,
            batch: w.batch,
        };
        let after = spec_rounds(walked, c, pq, m, 0);
        spec_cycles(
            Walk {
                y: after.y,
                g: after.g,
                r: 2 * w.r,
                q: after.q,
                x: after.x,
                ys: after.ys,
                batch: after.batch,
            },
            c,
            pq,
            m,
        )
    } else {
        w
    }
}

/// The last batch gone again from `ys`, step by step, from the step `j`
/// on: the first divisor above one that a single distance from `x` has in
/// common with `pq`; without one, the divisor of the last step, or `g` where
/// no step is left.
pub open spec fn spec_retrace(x: int, ys: int, g: int, c: int, pq: int, batch: int, j: int) -> int
    decreases batch - j,
{
    if j < batch {
        let next = spec_step(ys, c, pq);
        let found = spec_gcd(spec_abs_sub(x, next), pq);
        if found > 1 {
            found
        } else {
            spec_retrace(x, next, found, c, pq, batch, j + 1)
        }
    } else {
        g
    }
}

/// The answer for the divisor `g` of `pq`: `g` and what `pq` divided by it
/// gives, the smaller first; `(1, pq)` where `g` is no divisor.
pub open spec fn spec_pair(g: int, pq: int) -> (int, int) {
    if g <= 0 || g > pq || g * (pq / g) != pq {
        (1, pq)
    } else if g <= pq / g {
        (g, pq / g)
    } else {
        (pq / g, g)
    }
}

/// One attempt with the walk's constant `c`: `(2, pq / 2)` for an even
/// `pq`; else what the divisor gives that the cycles find, the last batch
/// gone again where the product swallowed `pq` whole. `(1, pq)` says that
/// the attempt found nothing.
pub open spec fn spec_factorize_with(pq: int, c: int) -> (int, int) {
    let m = 7 * (pq / 13);
    if pq % 2 == 0 {
        (2, pq / 2)
    } else if m == 0 {
        (1, pq)
    } else {
        let w = spec_cycles(
            Walk { y: 3 * (pq / 7), g: 1, r: 1, q: 1, x: 0, ys: 0, batch: 0 },
            c,
            pq,
            m,
        );
        let g = if w.g == pq {
            spec_retrace(w.x, w.ys, w.g, c, pq, w.batch, 0)
        } else {
            w.g
        };
        spec_pair(g, pq)
    }
}

/// One step of the pseudo-random walk: `y² + c` modulo `pq`.
fn step(y: u128, c: u128, pq: u128) -> (r: u128)
    requires
        0 < pq <= u64::MAX,
        c <= u64::MAX,
    ensures
        r == spec_step(y as int, c as int, pq as int),
        r < pq,
{
    (square_mod(y, pq) + c) % pq
}

/// The largest cycle length that one attempt explores before it gives up.
pub const MAX_CYCLE: u128 = 0x1_0000_0000_0000_0000;

/// The state of an attempt as contracts see it.
pub open spec fn walk_of(y: u128, g: u128, r: u128, q: u128, x: u128, ys: u128, batch: u128) -> Walk {
    Walk {
        y: y as int,
        g: g as int,
        r: r as int,
        q: q as int,
        x: x as int,
        ys: ys as int,
        batch: batch as int,
    }
}

/// One attempt with the walk's constant `c`. The answer is `(2, pq / 2)` for
/// an even `pq`; otherwise a pair with `p * q == pq` and `p <= q`, where
/// `p == 1` says that this attempt found no factor.
pub fn factorize_with(pq: u128, c: u128) -> (r: (u64, u64))
    requires
        pq <= u64::MAX,
        c <= u64::MAX,
    ensures
        (r.0 as int, r.1 as int) == spec_factorize_with(pq as int, c as int),
        pq % 2 == 0 ==> r == (2u64, (pq / 2) as u64),
        pq % 2 != 0 ==> r.0 * r.1 == pq && r.0 <= r.1,
{
    if pq % 2 == 0 {
        return (2, (pq / 2) as u64);
    }
    let nothing: (u64, u64) = (1, pq as u64);
    let m: u128 = 7 * (pq / 13);
    if m == 0 {
        return nothing;
    }
    let mut y: u128 = 3 * (pq / 7);
    let mut g: u128 = 1;
    let mut r: u128 = 1;
    let mut q: u128 = 1;
    let mut x: u128 = 0;
    let mut ys: u128 = 0;
    let mut batch: u128 = 0;
    let ghost ci = c as int;
    let ghost n = pq as int;
    let ghost mi = m as int;
    let ghost target = spec_cycles(walk_of(y, g, r, q, x, ys, batch), ci, n, mi);

    while g == 1 && r < MAX_CYCLE
        invariant
            0 < pq <= u64::MAX,
            c <= u64::MAX,
            0 < m <= u64::MAX,
            ci == c,
            n == pq,
            mi == m,
            1 <= r <= 2 * MAX_CYCLE,
            y < pq,
            x < pq,
            ys < pq,
            q < pq || q == 1,
            g <= pq || g == 1,
            batch <= m,
            spec_cycles(walk_of(y, g, r, q, x, ys, batch), ci, n, mi) == target,
        decreases 2 * MAX_CYCLE - r,
    {
        let ghost start = walk_of(y, g, r, q, x, ys, batch);
        x = y;
        let mut i: u128 = 0;
        while i < r
            invariant
                0 < pq <= u64::MAX,
                c <= u64::MAX,
                ci == c,
                n == pq,
                i <= r,
                y < pq,
                y == spec_walk(x as int, ci, n, i as int),
            decreases r - i,
        {
            y = step(y, c, pq);
            i += 1;
        }
        let ghost walked = walk_of(y, g, r, q, x, ys, batch);
        let ghost after = spec_rounds(walked, ci, n, mi, 0);
        let mut k: u128 = 0;
        while k < r && g == 1
            invariant
                0 < pq <= u64::MAX,
                c <= u64::MAX,
                0 < m <= u64::MAX,
                ci == c,
                n == pq,
                mi == m,
                r <= MAX_CYCLE,
                k <= r + m,
                y < pq,
                x < pq,
                ys < pq,
                q < pq || q == 1,
                g <= pq || g == 1,
                batch <= m,
                spec_rounds(walk_of(y, g, r, q, x, ys, batch), ci, n, mi, k as int) == after,
            decreases r + m - k,
        {
            ys = y;
            batch = if m < r - k {
                m
            } else {
                r - k
            };
            let ghost q0 = q;
            let mut j: u128 = 0;
            while j < batch
                invariant
                    0 < pq <= u64::MAX,
                    c <= u64::MAX,
                    ci == c,
                    n == pq,
                    j <= batch,
                    y < pq,
                    x < pq,
                    q < pq || q == 1,
                    (y as int, q as int) == spec_batch(
                        x as int,
                        ys as int,
                        q0 as int,
                        ci,
                        n,
                        j as int,
                    ),
                decreases batch - j,
            {
                y = step(y, c, pq);
                let d = abs_sub(x, y);
                assert(q * d <= u128::MAX) by (nonlinear_arith)
                    requires
                        q < 0x1_0000_0000_0000_0000u128,
                        d < 0x1_0000_0000_0000_0000u128,
                ;
                q = q * d % pq;
                j += 1;
            }
            g = gcd(q, pq);
            proof {
                lemma_divisor_bound(g as int, pq as int);
            }
            k += m;
        }
        assert(walk_of(y, g, r, q, x, ys, batch) == after);
        r *= 2;
        assert(spec_cycles(start, ci, n, mi) == spec_cycles(
            walk_of(y, g, r, q, x, ys, batch),
            ci,
            n,
            mi,
        ));
    }
    assert(walk_of(y, g, r, q, x, ys, batch) == target);

    let ghost wanted = if g == pq {
        spec_retrace(x as int, ys as int, g as int, ci, n, batch as int, 0)
    } else {
        g as int
    };
    if g == pq {
        // walk the last batch again, one step at a time
        let mut j: u128 = 0;
        let mut found = false;
        while j < batch && !found
            invariant
                0 < pq <= u64::MAX,
                c <= u64::MAX,
                ci == c,
                n == pq,
                j <= batch,
                ys < pq,
                x < pq,
                g <= pq || g == 1,
                found ==> g == wanted,
                !found ==> spec_retrace(x as int, ys as int, g as int, ci, n, batch as int, j as int)
                    == wanted,
            decreases batch - j + (if found { 0int } else { 1int }),
        {
            ys = step(ys, c, pq);
            g = gcd(abs_sub(x, ys), pq);
            proof {
                lemma_divisor_bound(g as int, pq as int);
            }
            if g > 1 {
                found = true;
            } else {
                j += 1;
            }
        }
    }
    assert(g == wanted);
    assert((1int, pq as int) == spec_pair(g as int, pq as int) || !(g == 0 || g > pq));
    if g == 0 || g > pq {
        return nothing;
    }
    let p = g as u64;
    let q = (pq / g) as u64;
    assert((p as u128) * (q as u128) <= u128::MAX) by (nonlinear_arith)
        requires
            p <= u64::MAX,
            q <= u64::MAX,
    ;
    if (p as u128) * (q as u128) != pq {
        return nothing;
    }
    assert(p * q == q * p) by (nonlinear_arith);
    if p <= q {
        (p, q)
    } else {
        (q, p)
    }
}

/// The multiplier of the walk's constant in the attempt numbered `i`: the
/// primes from 43 up, and 61 from the fifth attempt on.
pub open spec fn spec_walk_multiplier(i: int) -> int {
    if i == 0 {
        43
    } else if i == 1 {
        47
    } else if i == 2 {
        53
    } else if i == 3 {
        59
    } else {
        61
    }
}

/// The multiplier of the walk's constant in the attempt numbered `i`.
fn walk_multiplier(i: usize) -> (k: u128)
    ensures
        k == spec_walk_multiplier(i as int),
        k <= 61,
{
    if i == 0 {
        43
    } else if i == 1 {
        47
    } else if i == 2 {
        53
    } else if i == 3 {
        59
    } else {
        61
    }
}

/// Two factors of an odd number, the smaller of which is not one, are both
/// above one and below the number.
pub proof fn lemma_proper_factors(p: int, q: int, n: int)
    requires
        0 <= p <= q,
        p * q == n,
        n % 2 != 0,
        p != 1,
    ensures
        1 < p <= q < n,
{
    if p == 0 {
        assert(p * q == 0) by (nonlinear_arith)
            requires
                p == 0,
        ;
    }
    assert(q < p * q) by (nonlinear_arith)
        requires
            p >= 2,
            q >= p,
    ;
}

/// The attempts from the one numbered `i` on: the answer of the first that
/// finds a factor; `(1, pq)` where none of the five does.
pub open spec fn spec_attempts(pq: int, i: int) -> (int, int)
    decreases 5 - i,
{
    if i < 0 || i >= 5 {
        (1, pq)
    } else {
        let found = spec_factorize_with(pq, spec_walk_multiplier(i) * (pq / 103));
        if found.0 != 1 {
            found
        } else {
            spec_attempts(pq, i + 1)
        }
    }
}

/// The factors that `factorize` gives for `pq`.
pub open spec fn spec_factorize(pq: int) -> (int, int) {
    spec_attempts(pq, 0)
}

/// Factorizes `pq` into `(p, q)` with `p * q == pq`. Five walks with fixed
/// constants are tried in turn; the first that finds a factor decides. An
/// even `pq` gives `(2, pq / 2)`. Where no walk finds a factor the answer is
/// `(1, pq)`.
pub fn factorize(pq: u64) -> (r: (u64, u64))
    ensures
        (r.0 as int, r.1 as int) == spec_factorize(pq as int),
        r.0 * r.1 == pq,
        pq % 2 != 0 && r.0 != 1 ==> 1 < r.0 <= r.1 < pq,
        pq % 2 == 0 ==> r == (2u64, pq / 2),
        pq % 2 != 0 ==> r.0 <= r.1,
{
    let n = pq as u128;
    let unit: u128 = n / 103;
    let mut i: usize = 0;
    while i < 5
        invariant
            i <= 5,
            n == pq,
            unit == n / 103,
            i > 0 ==> pq % 2 != 0,
            spec_attempts(pq as int, i as int) == spec_factorize(pq as int),
        decreases 5 - i,
    {
        let k = walk_multiplier(i);
        assert(k * unit <= u64::MAX) by (nonlinear_arith)
            requires
                k <= 61,
                unit <= 0xffff_ffff_ffff_ffffu128 / 103,
        ;
        let c = k * unit;
        let (p, q) = factorize_with(n, c);
        if p != 1 {
            proof {
                if pq % 2 != 0 {
                    lemma_proper_factors(p as int, q as int, pq as int);
                }
            }
            return (p, q);
        }
        i += 1;
    }
    (1, pq)
}

} // verus!
