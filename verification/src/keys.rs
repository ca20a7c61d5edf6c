//! Composite-key encoding: two independent 32-bit index spaces packed into
//! one 64-bit key. A rule that names only a primary identifier is keyed by
//! the bare primary index; a rule that names both identifiers is keyed by
//! `(primary_index << 32) | secondary_index`.

use vstd::prelude::*;

verus! {

/// Number of distinct index values that fit in each 32-bit half of a
/// composite key. Both index spaces are assumed to stay below this bound;
/// it is a configuration limit, not a condition checked at runtime.
pub const INDEX_SPACE: u64 = 0x1_0000_0000;

/// Key under which a primary-only rule is stored: the bare primary index.
pub open spec fn primary_key(pi: u64) -> u64 {
    pi
}

/// Key under which a combined rule is stored: primary index in the high
/// 32 bits, secondary index in the low 32 bits.
pub open spec fn combined_key(pi: u64, si: u64) -> u64 {
    (pi << 32) | si
}

/// Computes the combined composite key.
pub fn encode_combined(pi: u64, si: u64) -> (k: u64)
    ensures
        k == combined_key(pi, si),
{
    (pi << 32) | si
}

/// Within the 32-bit index spaces, the bit-packed key is the same as the
/// arithmetic form `pi * 2^32 + si`.
pub proof fn lemma_combined_key_arith(pi: u64, si: u64)
    requires
        pi < INDEX_SPACE,
        si < INDEX_SPACE,
    ensures
        combined_key(pi, si) == pi * INDEX_SPACE + si,
{
    assert(((pi << 32) | si) == pi * 0x1_0000_0000 + si) by (bit_vector)
        requires
            pi < 0x1_0000_0000 && si < 0x1_0000_0000,
    ;
}

/// Within the 32-bit index spaces, distinct index pairs give distinct
/// combined keys.
pub proof fn lemma_combined_key_injective(a: u64, b: u64, c: u64, d: u64)
    requires
        a < INDEX_SPACE,
        b < INDEX_SPACE,
        c < INDEX_SPACE,
        d < INDEX_SPACE,
        combined_key(a, b) == combined_key(c, d),
    ensures
        a == c,
        b == d,
{
    assert(((a << 32) | b) == ((c << 32) | d) && a < 0x1_0000_0000 && b < 0x1_0000_0000
        && c < 0x1_0000_0000 && d < 0x1_0000_0000 ==> a == c && b == d) by (bit_vector);
}

/// The one ambiguity of this encoding: a combined key whose primary index
/// is zero coincides with the bare primary key of its secondary index, so
/// key zero in particular stands both for "primary index 0 alone" and for
/// "primary index 0 with secondary index 0". The value map cannot tell the
/// two apart; lookups resolve the bare key first, so a primary-only rule
/// still wins.
pub proof fn lemma_zero_primary_collision(si: u64)
    requires
        si < INDEX_SPACE,
    ensures
        combined_key(0, si) == primary_key(si),
{
    assert(((0u64 << 32) | si) == si) by (bit_vector);
}

} // verus!
