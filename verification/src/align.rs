//! Rounding addresses up to an alignment.

use vstd::prelude::*;
use vstd::arithmetic::power2::is_pow2;

verus! {

/// The least multiple of `align` that is not below `addr`.
///
/// For `align == 0` there is no such multiple and the address is returned
/// as it is.
pub open spec fn align_up(addr: nat, align: nat) -> nat {
    if align == 0 || addr % align == 0 {
        addr
    } else {
        (addr + (align - addr % align)) as nat
    }
}

/// `align_up` lands on a multiple of the alignment and moves the address by
/// less than one alignment step.
pub proof fn lemma_align_up_bounds(addr: nat, align: nat)
    requires
        align > 0,
    ensures
        align_up(addr, align) % align == 0,
        addr <= align_up(addr, align) < addr + align,
{
    let r = addr % align;
    let up = align_up(addr, align);
    vstd::arithmetic::div_mod::lemma_fundamental_div_mod(addr as int, align as int);
    let q = addr as int / align as int;
    if r != 0 {
        assert(up == (q + 1) * align) by (nonlinear_arith)
            requires
                up == addr + (align - r),
                addr == align * q + r,
        ;
        vstd::arithmetic::div_mod::lemma_mod_multiples_basic(q + 1, align as int);
    }
}

/// No multiple of the alignment lies between an address and its `align_up`.
pub proof fn lemma_align_up_least(addr: nat, align: nat, m: nat)
    requires
        align > 0,
        addr <= m,
        m % align == 0,
    ensures
        align_up(addr, align) <= m,
{
    let r = addr % align;
    vstd::arithmetic::div_mod::lemma_fundamental_div_mod(addr as int, align as int);
    vstd::arithmetic::div_mod::lemma_fundamental_div_mod(m as int, align as int);
    let q = addr as int / align as int;
    let k = m as int / align as int;
    if r != 0 {
        assert(align * k >= align * q + align) by (nonlinear_arith)
            requires
                align * k >= align * q + r,
                r > 0,
                align > 0,
        ;
    }
}

/// Aligning an address that is already aligned leaves it where it is.
pub proof fn lemma_align_up_fixes_multiples(addr: nat, align: nat)
    ensures
        align == 0 || addr % align == 0 ==> align_up(addr, align) == addr,
        align_up(align_up(addr, align), align) == align_up(addr, align),
{
    if align > 0 {
        lemma_align_up_bounds(addr, align);
    }
}

/// A positive number is a power of two exactly when clearing its lowest set
/// bit leaves nothing.
pub proof fn lemma_single_bit_is_pow2(n: usize)
    requires
        n > 0,
    ensures
        (n & ((n - 1) as usize)) == 0 <==> is_pow2(n as int),
    decreases n,
{
    reveal(is_pow2);
    if n == 1 {
        assert(1usize & 0usize == 0) by (bit_vector);
    } else if n % 2 == 0 {
        let h: usize = n / 2;
        lemma_single_bit_is_pow2(h);
        assert(((n & ((n - 1) as usize)) == 0) == ((h & ((h - 1) as usize)) == 0))
            by (bit_vector)
            requires
                n % 2 == 0,
                n >= 2,
                h == n / 2,
        ;
    } else {
        assert((n & ((n - 1) as usize)) != 0) by (bit_vector)
            requires
                n % 2 == 1,
                n > 1,
        ;
    }
}

/// Whether `n` is a power of two.
pub fn is_power_of_two(n: usize) -> (b: bool)
    ensures
        b == is_pow2(n as int),
{
    if n == 0 {
        proof {
            reveal(is_pow2);
        }
        false
    } else {
        proof {
            lemma_single_bit_is_pow2(n);
        }
        (n & (n - 1)) == 0
    }
}

/// Rounds `addr` up to the next multiple of `align`, or reports that the
/// rounded address does not fit into a `usize`.
pub fn checked_align_up(addr: usize, align: usize) -> (res: Option<usize>)
    requires
        align > 0,
    ensures
        align_up(addr as nat, align as nat) <= usize::MAX ==> res == Some(
            align_up(addr as nat, align as nat) as usize,
        ),
        align_up(addr as nat, align as nat) > usize::MAX ==> res.is_none(),
{
    let rem: usize = addr % align;
    if rem == 0 {
        Some(addr)
    } else {
        addr.checked_add(align - rem)
    }
}

} // verus!
