//! Rounding up to a multiple of an alignment, and what makes a size and an
//! alignment a layout.

use vstd::arithmetic::power::lemma_pow_positive;
use vstd::arithmetic::power2::{is_pow2, is_pow2_equiv};
use vstd::layout::signed_int_min_max_values;
use vstd::prelude::*;

verus! {

/// The largest size a block may have: `isize::MAX` bytes.
pub open spec fn max_size() -> int {
    isize::MAX as int
}

/// `n` rounded up to the next multiple of `align`.
pub open spec fn round_up(n: int, align: int) -> int {
    ((n + align - 1) / align) * align
}

/// `round_up(n, align)` is the least multiple of `align` that is not below `n`.
pub proof fn lemma_round_up(n: int, align: int)
    requires
        0 <= n,
        0 < align,
    ensures
        round_up(n, align) % align == 0,
        n <= round_up(n, align) < n + align,
        n % align == 0 ==> round_up(n, align) == n,
{
    let q = (n + align - 1) / align;
    assert(q * align % align == 0 && q * align <= n + align - 1 && n <= q * align) by (nonlinear_arith)
        requires
            q == (n + align - 1) / align,
            0 < align,
            0 <= n,
    ;
    assert(n % align == 0 ==> q * align == n) by (nonlinear_arith)
        requires
            q == (n + align - 1) / align,
            0 < align,
            0 <= n,
    ;
}

/// No multiple of `align` lies between `n` and `round_up(n, align)`.
pub proof fn lemma_round_up_least(n: int, align: int, m: int)
    requires
        0 <= n <= m,
        0 < align,
        m % align == 0,
    ensures
        round_up(n, align) <= m,
{
    let q = (n + align - 1) / align;
    assert(q * align <= m) by (nonlinear_arith)
        requires
            q == (n + align - 1) / align,
            0 < align,
            0 <= n <= m,
            m % align == 0,
    ;
}

/// The only multiple of `align` from `n` up to, but not including,
/// `n + align` is `round_up(n, align)`.
pub proof fn lemma_round_up_unique(n: int, align: int, r: int)
    requires
        0 <= n <= r < n + align,
        r % align == 0,
    ensures
        r == round_up(n, align),
{
    let u = round_up(n, align);
    lemma_round_up(n, align);
    lemma_round_up_least(n, align, r);
    assert(u == r) by (nonlinear_arith)
        requires
            u % align == 0,
            r % align == 0,
            n <= u <= r < n + align,
    ;
}

/// Rounding up to `a` and then to a multiple `b` of `a` is rounding up to `b`.
pub proof fn lemma_round_up_twice(n: int, a: int, b: int)
    requires
        0 <= n,
        0 < a,
        0 < b,
        b % a == 0,
    ensures
        round_up(round_up(n, a), b) == round_up(n, b),
{
    let first = round_up(n, a);
    let both = round_up(first, b);
    lemma_round_up(n, a);
    lemma_round_up(n, b);
    lemma_round_up(first, b);
    // `round_up(n, b)` is a multiple of `a` above `n`, so it is not below `first`.
    lemma_multiple_of_multiple(round_up(n, b), b, a);
    lemma_round_up_least(n, a, round_up(n, b));
    lemma_round_up_least(first, b, round_up(n, b));
    lemma_round_up_least(n, b, both);
}

/// A multiple of a multiple of `a` is a multiple of `a`.
pub proof fn lemma_multiple_of_multiple(n: int, m: int, a: int)
    requires
        0 < a,
        0 < m,
        m % a == 0,
        n % m == 0,
    ensures
        n % a == 0,
{
    let k = n / m;
    let j = m / a;
    assert(n == k * m && m == j * a) by (nonlinear_arith)
        requires
            k == n / m,
            j == m / a,
            n % m == 0,
            m % a == 0,
            0 < a,
            0 < m,
    ;
    assert(n == (k * j) * a) by (nonlinear_arith)
        requires
            n == k * m,
            m == j * a,
    ;
    assert(((k * j) * a) % a == 0) by (nonlinear_arith)
        requires
            0 < a,
    ;
}

/// The sum of two multiples of `a` is a multiple of `a`.
pub proof fn lemma_sum_of_multiples(n: int, m: int, a: int)
    requires
        0 < a,
        n % a == 0,
        m % a == 0,
    ensures
        (n + m) % a == 0,
{
    let k = n / a;
    let j = m / a;
    assert(n + m == (k + j) * a) by (nonlinear_arith)
        requires
            k == n / a,
            j == m / a,
            n % a == 0,
            m % a == 0,
            0 < a,
    ;
    assert(((k + j) * a) % a == 0) by (nonlinear_arith)
        requires
            0 < a,
    ;
}

/// Of two powers of two, the smaller divides the larger.
pub proof fn lemma_pow2_divides(a: int, b: int)
    requires
        is_pow2(a),
        is_pow2(b),
        a <= b,
    ensures
        b % a == 0,
    decreases b,
{
    reveal(is_pow2);
    if a == b {
        assert(b % a == 0) by (nonlinear_arith)
            requires
                a == b,
                0 < a,
        ;
    } else {
        let h = b / 2;
        if a == 1 {
        } else {
            assert(a <= h) by {
                if a > h {
                    // `a` and `b` are both even, so halving keeps their order strict.
                    lemma_pow2_divides(a / 2, h);
                    assert(false) by (nonlinear_arith)
                        requires
                            h % (a / 2) == 0,
                            a % 2 == 0,
                            b % 2 == 0,
                            h == b / 2,
                            h < a < b,
                            0 < a,
                    ;
                }
            }
            lemma_pow2_divides(a, h);
            assert(b % h == 0) by (nonlinear_arith)
                requires
                    b == 2 * h,
                    0 < h,
            ;
            lemma_multiple_of_multiple(b, h, a);
        }
    }
}

/// One more than the largest block size is itself a power of two.
pub proof fn lemma_max_size_pow2()
    ensures
        is_pow2(max_size() + 1),
{
    let e = (isize::BITS - 1) as nat;
    signed_int_min_max_values();
    lemma_pow_positive(2, e);
    is_pow2_equiv(max_size() + 1);
}

/// Every power of two that a `usize` can hold divides `max_size() + 1`.
pub proof fn lemma_align_divides_max(align: int)
    requires
        is_pow2(align),
        align <= usize::MAX,
    ensures
        0 < align <= max_size() + 1,
        (max_size() + 1) % align == 0,
{
    lemma_max_size_pow2();
    assert(0 < align) by {
        reveal(is_pow2);
    }
    let m = max_size() + 1;
    if align > m {
        lemma_pow2_divides(m, align);
        assert(false) by (nonlinear_arith)
            requires
                align % m == 0,
                m < align < 2 * m,
                0 < m,
        ;
    }
    lemma_pow2_divides(align, m);
}

/// A size and an alignment describe a block that can exist: the alignment is
/// a power of two and the size, rounded up to it, does not exceed `isize::MAX`.
pub open spec fn valid_layout(size: int, align: int) -> bool {
    &&& 0 <= size
    &&& is_pow2(align)
    &&& round_up(size, align) <= max_size()
}

/// The rounded size stays within bounds exactly when the size leaves room
/// for `align - 1` bytes of padding.
pub proof fn lemma_valid_layout(size: int, align: int)
    requires
        0 <= size,
        is_pow2(align),
        align <= usize::MAX,
    ensures
        valid_layout(size, align) <==> size + align - 1 <= max_size(),
        0 < align <= max_size() + 1,
{
    lemma_align_divides_max(align);
    lemma_round_up(size, align);
    if size + align - 1 <= max_size() {
    } else if size <= max_size() + 1 {
        // the bound itself is a multiple of `align`; the rounded size cannot lie below it
        let r = round_up(size, align);
        let m = max_size() + 1;
        if r < m {
            assert(false) by (nonlinear_arith)
                requires
                    r % align == 0,
                    m % align == 0,
                    r < m,
                    m < size + align,
                    size <= r,
                    0 < align,
            ;
        }
    }
}

/// A layout that is no larger and no more strictly aligned than a valid
/// layout is valid.
pub proof fn lemma_valid_layout_smaller(size: int, align: int, big_size: int, big_align: int)
    requires
        0 <= size <= big_size,
        is_pow2(align),
        align <= big_align <= usize::MAX,
        valid_layout(big_size, big_align),
    ensures
        valid_layout(size, align),
{
    lemma_valid_layout(size, align);
    lemma_valid_layout(big_size, big_align);
}

/// The larger of two alignments.
pub open spec fn max_align(a: int, b: int) -> int {
    if a >= b {
        a
    } else {
        b
    }
}

} // verus!
