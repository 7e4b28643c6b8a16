use vstd::prelude::*;

verus! {

/// The bit that holds the sign of an IEEE-754 single.
pub const SIGN_BIT: u32 = 0x8000_0000;

/// The bits that hold exponent and fraction of an IEEE-754 single.
pub const MAGNITUDE_MASK: u32 = 0x7fff_ffff;

/// The magnitude of the largest finite single, and so the key of the
/// number that stands for "no upper bound".
pub const INF_KEY: i32 = 0x7f7f_ffff;

/// The key of the number that stands for "no lower bound".
pub const NEG_INF_KEY: i32 = -0x7f7f_ffff;

/// The magnitude of a bit pattern: the pattern without its sign.
pub open spec fn magnitude(bits: u32) -> int {
    (bits & MAGNITUDE_MASK) as int
}

/// Whether the sign bit of a pattern is set.
pub open spec fn negative(bits: u32) -> bool {
    bits & SIGN_BIT != 0
}

/// The ordered key of the number with the given bit pattern: its
/// magnitude, with a minus where the sign bit is set.
///
/// Of two numbers that are no NaN the lesser has the lesser key, and equal
/// numbers have equal keys: both zeros have the key 0.
pub open spec fn key_of(bits: u32) -> int {
    if negative(bits) {
        -magnitude(bits)
    } else {
        magnitude(bits)
    }
}

/// The ordered key of the number with the given bit pattern.
pub fn from_bits(bits: u32) -> (key: i32)
    ensures
        key == key_of(bits),
        -0x7fff_ffff <= key <= 0x7fff_ffff,
{
    let m: u32 = bits & MAGNITUDE_MASK;
    assert(m <= 0x7fff_ffff) by (bit_vector)
        requires
            m == bits & 0x7fff_ffffu32,
    ;
    if bits & SIGN_BIT != 0 {
        -(m as i32)
    } else {
        m as i32
    }
}

/// The bit pattern that a key stands for, as a value: that of the
/// magnitude of the key, with the sign bit set where the key is negative.
pub open spec fn bits_of(key: i32) -> u32 {
    if key < 0 {
        ((-key) as u32) | SIGN_BIT
    } else {
        key as u32
    }
}

/// The bit pattern of the number that a key stands for. The key 0 gives
/// the positive zero.
pub fn to_bits(key: i32) -> (bits: u32)
    ensures
        bits == bits_of(key),
{
    if key < 0 {
        let m: u32 = (-(key as i64)) as u32;
        m | SIGN_BIT
    } else {
        key as u32
    }
}

/// A key that was made from a bit pattern gives the pattern back, but for
/// the negative zero, which comes back positive.
pub proof fn lemma_bits_survive(bits: u32)
    ensures
        bits != SIGN_BIT ==> bits_of(key_of(bits) as i32) == bits,
        bits == SIGN_BIT ==> bits_of(key_of(bits) as i32) == 0,
{
    let m: u32 = bits & MAGNITUDE_MASK;
    assert(m <= 0x7fff_ffff && (bits & 0x8000_0000u32 != 0 ==> bits == m | 0x8000_0000u32) && (bits
        & 0x8000_0000u32 == 0 ==> bits == m) && (bits == 0x8000_0000u32 ==> m == 0) && (m == 0
        && bits & 0x8000_0000u32 != 0 ==> bits == 0x8000_0000u32)) by (bit_vector)
        requires
            m == bits & 0x7fff_ffffu32,
    ;
}

/// A bit pattern that was made from a key gives the key back, but for the
/// one key that no pattern has.
pub proof fn lemma_key_survives(key: i32)
    requires
        key > i32::MIN,
    ensures
        key_of(bits_of(key)) == key,
{
    if key < 0 {
        let m: u32 = (-key) as u32;
        assert(m <= 0x7fff_ffff);
        assert((m | 0x8000_0000u32) & 0x7fff_ffffu32 == m && (m | 0x8000_0000u32) & 0x8000_0000u32
            != 0) by (bit_vector)
            requires
                m <= 0x7fff_ffffu32,
        ;
    } else {
        let m: u32 = key as u32;
        assert(m & 0x7fff_ffffu32 == m && m & 0x8000_0000u32 == 0) by (bit_vector)
            requires
                m <= 0x7fff_ffffu32,
        ;
    }
}

/// Keys order bit patterns by sign first and magnitude second: a negative
/// pattern comes before a positive one unless both are zero, two positive
/// patterns come in the order of their magnitudes, and two negative ones
/// in the reverse of it.
pub proof fn lemma_keys_order_patterns(a: u32, b: u32)
    ensures
        negative(a) && !negative(b) ==> key_of(a) <= key_of(b),
        !negative(a) && !negative(b) ==> (key_of(a) < key_of(b) <==> magnitude(a) < magnitude(b)),
        negative(a) && negative(b) ==> (key_of(a) < key_of(b) <==> magnitude(a) > magnitude(b)),
        key_of(a) == key_of(b) <==> (magnitude(a) == magnitude(b) && (negative(a) == negative(b)
            || magnitude(a) == 0)),
{
}

} // verus!
