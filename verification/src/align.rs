//! Alignment arithmetic: power-of-two predicates, the distance from an
//! address to the next aligned address, and rounding a length up to a
//! multiple of an alignment.

use vstd::prelude::*;
use vstd::arithmetic::div_mod::{
    lemma_fundamental_div_mod, lemma_mod_bound, lemma_mod_multiples_basic,
};
use vstd::arithmetic::mul::{
    lemma_mul_is_associative, lemma_mul_is_commutative, lemma_mul_is_distributive_sub,
};

verus! {

/// A positive integer whose only prime factor is two.
pub open spec fn is_power_of_two(n: nat) -> bool
    decreases n,
{
    if n == 0 {
        false
    } else if n == 1 {
        true
    } else {
        n % 2 == 0 && is_power_of_two(n / 2)
    }
}

/// How many bytes lie between `addr` and the next address aligned to
/// `align` (zero when `addr` is already aligned).
pub open spec fn spec_align_offset(addr: int, align: int) -> int {
    if addr % align == 0 {
        0
    } else {
        align - addr % align
    }
}

/// The smallest multiple of `align` that is at least `x`.
pub open spec fn spec_round_up(x: int, align: int) -> int {
    x + spec_align_offset(x, align)
}

/// A power of two is at least one.
pub proof fn lemma_power_of_two_pos(n: nat)
    requires
        is_power_of_two(n),
    ensures
        n >= 1,
{
}

/// The smaller of two powers of two divides the larger.
pub proof fn lemma_power_of_two_divides(a: nat, b: nat)
    requires
        is_power_of_two(a),
        is_power_of_two(b),
        a <= b,
    ensures
        b % a == 0,
    decreases b,
{
    if a == 1 {
        assert(b as int % 1int == 0);
    } else {
        lemma_power_of_two_pos(a);
        lemma_power_of_two_pos(b);
        assert(a % 2 == 0);
        assert(b >= 2);
        assert(b % 2 == 0);
        lemma_power_of_two_divides(a / 2, b / 2);
        let ai = a as int;
        let bi = b as int;
        let a2 = ai / 2;
        let b2 = bi / 2;
        assert(ai == 2 * a2 && bi == 2 * b2) by {
            lemma_fundamental_div_mod(ai, 2);
            lemma_fundamental_div_mod(bi, 2);
        }
        let q = b2 / a2;
        assert(b2 == a2 * q) by {
            lemma_fundamental_div_mod(b2, a2);
        }
        assert(bi == ai * q) by {
            lemma_mul_is_associative(2, a2, q);
        }
        assert((q * ai) % ai == 0) by {
            lemma_mod_multiples_basic(q, ai);
        }
        assert(bi == q * ai) by {
            lemma_mul_is_commutative(ai, q);
        }
    }
}

/// Divisibility is transitive: a multiple of `m` is a multiple of every
/// divisor `p` of `m`.
pub proof fn lemma_divides_trans(x: int, m: int, p: int)
    requires
        m > 0,
        p > 0,
        x % m == 0,
        m % p == 0,
    ensures
        x % p == 0,
{
    lemma_fundamental_div_mod(x, m);
    lemma_fundamental_div_mod(m, p);
    assert(x == m * (x / m));
    assert(m == p * (m / p));
    assert(x == (p * (m / p)) * (x / m));
    assert(x == p * ((m / p) * (x / m))) by {
        lemma_mul_is_associative(p, m / p, x / m);
    }
    assert((((m / p) * (x / m)) * p) % p == 0) by {
        lemma_mod_multiples_basic((m / p) * (x / m), p);
    }
    assert(p * ((m / p) * (x / m)) == ((m / p) * (x / m)) * p) by {
        lemma_mul_is_commutative(p, (m / p) * (x / m));
    }
}

/// The sum and difference of two multiples of `p` are multiples of `p`.
pub proof fn lemma_mod_diff_zero(x: int, y: int, p: int)
    requires
        p > 0,
        x % p == 0,
        y % p == 0,
    ensures
        (x - y) % p == 0,
        (x + y) % p == 0,
{
    lemma_fundamental_div_mod(x, p);
    lemma_fundamental_div_mod(y, p);
    assert(x - y == p * (x / p) - p * (y / p));
    assert(p * (x / p) - p * (y / p) == p * (x / p - y / p)) by {
        lemma_mul_is_distributive_sub(p, x / p, y / p);
    }
    assert(((x / p - y / p) * p) % p == 0) by {
        lemma_mod_multiples_basic(x / p - y / p, p);
    }
    assert(p * (x / p - y / p) == (x / p - y / p) * p) by {
        lemma_mul_is_commutative(p, x / p - y / p);
    }
    assert(x + y == p * (x / p) + p * (y / p));
    assert(p * (x / p) + p * (y / p) == p * (x / p + y / p)) by {
        vstd::arithmetic::mul::lemma_mul_is_distributive_add(p, x / p, y / p);
    }
    assert(((x / p + y / p) * p) % p == 0) by {
        lemma_mod_multiples_basic(x / p + y / p, p);
    }
    assert(p * (x / p + y / p) == (x / p + y / p) * p) by {
        lemma_mul_is_commutative(p, x / p + y / p);
    }
}

/// The remainder of `addr` by `align` is itself a multiple of `p` whenever
/// both `addr` and `align` are.
pub proof fn lemma_mod_multiple_mod(addr: int, align: int, p: int)
    requires
        p > 0,
        align > 0,
        addr >= 0,
        addr % p == 0,
        align % p == 0,
    ensures
        (addr % align) % p == 0,
{
    lemma_fundamental_div_mod(addr, align);
    let q = addr / align;
    assert(addr % align == addr - align * q);
    assert((align * q) % p == 0) by {
        lemma_fundamental_div_mod(align, p);
        assert(align * q == (p * (align / p)) * q);
        assert((p * (align / p)) * q == p * ((align / p) * q)) by {
            lemma_mul_is_associative(p, align / p, q);
        }
        assert((((align / p) * q) * p) % p == 0) by {
            lemma_mod_multiples_basic((align / p) * q, p);
        }
        assert(p * ((align / p) * q) == ((align / p) * q) * p) by {
            lemma_mul_is_commutative(p, (align / p) * q);
        }
    }
    lemma_mod_diff_zero(addr, align * q, p);
}

/// The alignment offset is in `[0, align)` and lands on an aligned address.
pub proof fn lemma_align_offset_bounds(addr: int, align: int)
    requires
        align > 0,
        addr >= 0,
    ensures
        0 <= spec_align_offset(addr, align) < align,
        (addr + spec_align_offset(addr, align)) % align == 0,
{
    lemma_mod_bound(addr, align);
    if addr % align != 0 {
        lemma_fundamental_div_mod(addr, align);
        let q = addr / align;
        assert(addr + spec_align_offset(addr, align) == align * q + align);
        assert(align * q + align == align * (q + 1)) by {
            lemma_mul_is_distributive_sub(align, q + 1, 1);
        }
        assert(((q + 1) * align) % align == 0) by {
            lemma_mod_multiples_basic(q + 1, align);
        }
        assert(align * (q + 1) == (q + 1) * align) by {
            lemma_mul_is_commutative(align, q + 1);
        }
    }
}

/// When `addr` is a multiple of the page size `p` and `align` is a larger
/// multiple of `p`, the offset to the next `align` boundary is a multiple of
/// `p`, and — unless it is zero — leaves room for at least one page below
/// the boundary.
pub proof fn lemma_align_offset_page(addr: int, align: int, p: int)
    requires
        p > 0,
        align > 0,
        align % p == 0,
        addr >= 0,
        addr % p == 0,
    ensures
        spec_align_offset(addr, align) % p == 0,
        spec_align_offset(addr, align) == 0 || spec_align_offset(addr, align) <= align - p,
{
    let off = spec_align_offset(addr, align);
    lemma_mod_multiple_mod(addr, align, p);
    let m = addr % align;
    if m != 0 {
        lemma_mod_bound(addr, align);
        lemma_mod_diff_zero(align, m, p);
        assert(off == align - m);
        // `m` is a positive multiple of `p`, hence at least `p`.
        assert(m >= p) by {
            lemma_fundamental_div_mod(m, p);
            lemma_mod_bound(addr, align);
            if m / p <= 0 {
                assert(p * (m / p) <= 0) by {
                    lemma_mul_is_commutative(p, m / p);
                    lemma_mul_inequality_helper(m / p, p);
                }
            } else {
                assert(p * (m / p) >= p * 1) by {
                    vstd::arithmetic::mul::lemma_mul_inequality(1, m / p, p);
                    lemma_mul_is_commutative(p, m / p);
                }
            }
        }
    }
}

/// A nonpositive factor times a positive one gives a nonpositive product.
proof fn lemma_mul_inequality_helper(x: int, p: int)
    requires
        x <= 0,
        p > 0,
    ensures
        x * p <= 0,
{
    vstd::arithmetic::mul::lemma_mul_inequality(x, 0, p);
}

/// Advances `addr` to the next address aligned to `align`, returning the
/// aligned address and the distance moved.
pub fn round_to_align(addr: usize, align: usize) -> (r: (usize, usize))
    requires
        is_power_of_two(align as nat),
        addr + align <= usize::MAX + 1,
    ensures
        r.1 == spec_align_offset(addr as int, align as int),
        r.0 == addr + r.1,
        r.0 % align == 0,
        r.1 < align,
{
    proof {
        lemma_power_of_two_pos(align as nat);
        lemma_align_offset_bounds(addr as int, align as int);
    }
    let m = addr % align;
    if m == 0 {
        (addr, 0)
    } else {
        let ost = align - m;
        (addr + ost, ost)
    }
}

/// Reports whether `n` is a power of two.
pub fn power_of_two(n: usize) -> (b: bool)
    ensures
        b == is_power_of_two(n as nat),
    decreases n,
{
    if n == 0 {
        false
    } else if n == 1 {
        true
    } else if n % 2 != 0 {
        false
    } else {
        power_of_two(n / 2)
    }
}

} // verus!
