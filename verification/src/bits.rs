use vstd::prelude::*;
use vstd::std_specs::bits::u64_trailing_zeros;

verus! {

/// Whether bit `i` of `x` is set. Meaningful for `i < 64`.
pub open spec fn bit_at(x: u64, i: u64) -> bool {
    (x >> i) & 1 == 1
}

/// The word with only bit `i` set. Meaningful for `i < 64`.
pub open spec fn single(i: u64) -> u64 {
    1u64 << i
}

/// The set of bit positions that are set in `x`.
pub open spec fn members(x: u64) -> Set<int> {
    Set::new(|i: int| 0 <= i < 64 && bit_at(x, i as u64))
}

/// The position of the lowest set bit of `x`; 64 when `x` is zero.
pub open spec fn lowest(x: u64) -> u64 {
    u64_trailing_zeros(x) as u64
}

/// `x` with its lowest set bit cleared.
pub open spec fn drop_lowest(x: u64) -> u64 {
    if x == 0 {
        0
    } else {
        x & ((x - 1) as u64)
    }
}

/// The number of bits set in `x`, counted by clearing the lowest one at a time.
pub open spec fn popcount(x: u64) -> nat
    decreases x,
    via popcount_decreases
{
    if x == 0 {
        0
    } else {
        1 + popcount(drop_lowest(x))
    }
}

#[via_fn]
proof fn popcount_decreases(x: u64) {
    assert(x != 0 ==> x & ((x - 1) as u64) < x) by (bit_vector);
}

pub proof fn lemma_bit_logic(a: u64, b: u64, i: u64)
    by (bit_vector)
    requires
        i < 64,
    ensures
        bit_at(a | b, i) == (bit_at(a, i) || bit_at(b, i)),
        bit_at(a & b, i) == (bit_at(a, i) && bit_at(b, i)),
        bit_at(a ^ b, i) == (bit_at(a, i) != bit_at(b, i)),
        bit_at(!a, i) == !bit_at(a, i),
        !bit_at(0, i),
{
}

pub proof fn lemma_bit_single(s: u64, i: u64)
    by (bit_vector)
    requires
        s < 64,
        i < 64,
    ensures
        bit_at(single(s), i) == (i == s),
        single(s) != 0,
{
}

proof fn lemma_xor_zero(a: u64, b: u64)
    by (bit_vector)
    ensures
        (a ^ b == 0) == (a == b),
{
}

/// Two words with the same bits are the same word.
pub proof fn lemma_bits_equal(a: u64, b: u64)
    requires
        forall|i: u64| i < 64 ==> bit_at(a, i) == bit_at(b, i),
    ensures
        a == b,
{
    lemma_xor_zero(a, b);
    if a != b {
        let t = lowest(a ^ b);
        lemma_lowest(a ^ b);
        lemma_bit_logic(a, b, t);
    }
}

/// The lowest set bit of a non-zero word is set, and no bit below it is.
pub proof fn lemma_lowest(x: u64)
    requires
        x != 0,
    ensures
        lowest(x) < 64,
        bit_at(x, lowest(x)),
        forall|j: u64| j < lowest(x) ==> !bit_at(x, j),
{
    vstd::std_specs::bits::axiom_u64_trailing_zeros(x);
}

proof fn lemma_drop_lowest_bits(x: u64, t: u64)
    by (bit_vector)
    requires
        t < 64,
        (x >> t) & 1 == 1,
        t > 0 ==> x << ((64 - t) as u64) == 0,
    ensures
        x & ((x - 1) as u64) == x & !(1u64 << t),
        x & ((x - 1) as u64) < x,
{
}

/// Clearing the lowest set bit removes exactly that bit and makes the word smaller.
pub proof fn lemma_drop_lowest(x: u64)
    requires
        x != 0,
    ensures
        drop_lowest(x) == x & !single(lowest(x)),
        drop_lowest(x) < x,
{
    vstd::std_specs::bits::axiom_u64_trailing_zeros(x);
    let t = lowest(x);
    lemma_drop_lowest_bits(x, t);
}

/// Bit `i` of a union, an intersection and a complement, as an ambient fact.
pub broadcast proof fn lemma_bit_or(a: u64, b: u64, i: u64)
    requires
        i < 64,
    ensures
        #[trigger] bit_at(a | b, i) == (bit_at(a, i) || bit_at(b, i)),
{
    lemma_bit_logic(a, b, i);
}

pub broadcast proof fn lemma_bit_and(a: u64, b: u64, i: u64)
    requires
        i < 64,
    ensures
        #[trigger] bit_at(a & b, i) == (bit_at(a, i) && bit_at(b, i)),
{
    lemma_bit_logic(a, b, i);
}

pub broadcast proof fn lemma_bit_not(a: u64, i: u64)
    requires
        i < 64,
    ensures
        #[trigger] bit_at(!a, i) == !bit_at(a, i),
{
    lemma_bit_logic(a, a, i);
}

pub broadcast proof fn lemma_bit_zero(i: u64)
    requires
        i < 64,
    ensures
        !#[trigger] bit_at(0, i),
{
    lemma_bit_logic(0, 0, i);
}

pub broadcast proof fn lemma_bit_of_single(s: u64, i: u64)
    requires
        s < 64,
        i < 64,
    ensures
        #[trigger] bit_at(single(s), i) == (i == s),
{
    lemma_bit_single(s, i);
}

pub broadcast group group_bits {
    lemma_bit_or,
    lemma_bit_and,
    lemma_bit_not,
    lemma_bit_zero,
    lemma_bit_of_single,
}

/// Shifting a one-bit word moves the bit, or drops it off the end.
pub proof fn lemma_single_shift(s: u64, n: u64)
    by (bit_vector)
    requires
        s < 64,
        n < 64,
    ensures
        single(s) >> n == (if s >= n { single((s - n) as u64) } else { 0 }),
        single(s) << n == (if s + n < 64 { single((s + n) as u64) } else { 0 }),
{
}

/// A word is zero exactly when none of its bits is set.
pub proof fn lemma_zero_iff_no_bits(x: u64)
    ensures
        (x == 0) <==> (forall|i: u64| i < 64 ==> !#[trigger] bit_at(x, i)),
{
    broadcast use group_bits;
    if x != 0 {
        lemma_lowest(x);
    }
}

/// Two words share no bit exactly when their intersection is zero.
pub proof fn lemma_disjoint_bits(a: u64, b: u64)
    ensures
        (a & b == 0) <==> (forall|i: u64| i < 64 ==> !(#[trigger] bit_at(a, i) && bit_at(b, i))),
{
    if a & b == 0 {
        assert forall|i: u64| i < 64 implies !(#[trigger] bit_at(a, i) && bit_at(b, i)) by {
            lemma_bit_logic(a, b, i);
        }
    } else {
        lemma_lowest(a & b);
        lemma_bit_logic(a, b, lowest(a & b));
    }
}

/// A non-zero word has no more set bits than there are positions from its lowest set bit up.
pub proof fn lemma_popcount_bound(x: u64)
    ensures
        popcount(x) <= 64,
        x != 0 ==> popcount(x) + lowest(x) <= 64,
    decreases x,
{
    if x != 0 {
        let d = drop_lowest(x);
        lemma_lowest(x);
        lemma_drop_lowest(x);
        lemma_popcount_bound(d);
        if d != 0 {
            lemma_lowest(d);
            lemma_bit_logic(x, !single(lowest(x)), lowest(d));
            lemma_bit_logic(single(lowest(x)), 0, lowest(d));
            lemma_bit_single(lowest(x), lowest(d));
        }
    }
}

/// Bit `i` of a word is set exactly when the word meets the one-bit word of `i`.
pub proof fn lemma_bit_test(x: u64, i: u64)
    by (bit_vector)
    requires
        i < 64,
    ensures
        bit_at(x, i) == (x & single(i) != 0),
{
}

/// The set bits of a word are finitely many, and `popcount` is their number.
pub proof fn lemma_popcount_is_size(x: u64)
    ensures
        members(x).finite(),
        members(x).len() == popcount(x),
    decreases x,
{
    broadcast use group_bits;
    if x == 0 {
        assert(members(x) =~= Set::<int>::empty());
    } else {
        let d = drop_lowest(x);
        let t = lowest(x);
        lemma_lowest(x);
        lemma_drop_lowest(x);
        lemma_popcount_is_size(d);
        assert(!members(d).contains(t as int));
        assert(members(x) =~= members(d).insert(t as int));
    }
}

} // verus!
