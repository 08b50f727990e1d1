use vstd::prelude::*;

verus! {

/// The sign bit of a 64-bit IEEE 754 encoding.
pub const SIGN_BIT: u64 = 0x8000_0000_0000_0000;

/// The encoding of positive infinity. A magnitude above it encodes no number.
pub const INFINITY_BITS: u64 = 0x7FF0_0000_0000_0000;

/// An encoding without its sign bit. Among encodings of numbers a larger
/// magnitude is a number farther from zero.
pub open spec fn magnitude(bits: u64) -> u64 {
    if bits >= SIGN_BIT {
        (bits - SIGN_BIT) as u64
    } else {
        bits
    }
}

/// The encoding stands for a number, finite or infinite.
pub open spec fn is_number(bits: u64) -> bool {
    magnitude(bits) <= INFINITY_BITS
}

/// The encoding carries the sign bit.
pub open spec fn is_negative(bits: u64) -> bool {
    bits >= SIGN_BIT
}

/// The rank of a reading given by its encoding: an unsigned integer that is
/// larger for the larger reading. What encodes no number ranks below every
/// number; the two zeros rank the same.
pub open spec fn rank_of(bits: u64) -> u64 {
    if !is_number(bits) {
        0
    } else if is_negative(bits) {
        (SIGN_BIT - magnitude(bits)) as u64
    } else {
        (SIGN_BIT + magnitude(bits)) as u64
    }
}

/// Ranks a reading given by the bits of its 64-bit IEEE 754 encoding.
pub fn reading_rank(bits: u64) -> (rank: u64)
    ensures
        rank == rank_of(bits),
{
    let negative: bool = bits >= SIGN_BIT;
    let size: u64 = if negative {
        bits - SIGN_BIT
    } else {
        bits
    };
    if size > INFINITY_BITS {
        0
    } else if negative {
        SIGN_BIT - size
    } else {
        SIGN_BIT + size
    }
}

/// Ranks each reading of a spectrum.
pub fn reading_ranks(bits: &Vec<u64>) -> (ranks: Vec<u64>)
    ensures
        ranks.len() == bits.len(),
        forall|k: int| 0 <= k < ranks.len() ==> #[trigger] ranks[k] == rank_of(bits[k]),
{
    let mut ranks: Vec<u64> = Vec::new();
    let mut k: usize = 0;
    while k < bits.len()
        invariant
            k <= bits.len(),
            ranks.len() == k,
            forall|t: int| 0 <= t < k ==> #[trigger] ranks[t] == rank_of(bits[t]),
        decreases bits.len() - k,
    {
        ranks.push(reading_rank(bits[k]));
        k += 1;
    }
    ranks
}

/// Ranks order readings as their signs and magnitudes do: what encodes no
/// number ranks lowest and alone at 0; a negative number never ranks above a
/// number that is not negative, and ranks level with it only where both are
/// zero; of two numbers that are not negative the one of larger magnitude
/// ranks higher, and of two negative numbers the one of smaller magnitude.
pub proof fn lemma_rank_orders_numbers(a: u64, b: u64)
    ensures
        !is_number(a) <==> rank_of(a) == 0,
        is_number(a) && is_number(b) && is_negative(a) && !is_negative(b) ==> rank_of(a) <= rank_of(
            b,
        ) && (rank_of(a) == rank_of(b) <==> magnitude(a) == 0 && magnitude(b) == 0),
        is_number(a) && is_number(b) && !is_negative(a) && !is_negative(b) ==> (rank_of(a)
            < rank_of(b) <==> magnitude(a) < magnitude(b)),
        is_number(a) && is_number(b) && is_negative(a) && is_negative(b) ==> (rank_of(a) < rank_of(
            b,
        ) <==> magnitude(a) > magnitude(b)),
{
}

} // verus!
