//! The widths that a computation may be carried out at.

use vstd::prelude::*;
use vstd::arithmetic::power2::{lemma2_to64, lemma_pow2_strictly_increases, pow2};
use crate::error::Error;

verus! {

/// Whether `nbits` is a width to compute at: a power of two from 4 to 128.
pub open spec fn valid_width(nbits: nat) -> bool {
    4 <= nbits <= 128 && exists|k: nat| nbits == pow2(k)
}

/// The valid widths are 4, 8, 16, 32, 64 and 128.
pub proof fn lemma_valid_widths(nbits: nat)
    ensures
        valid_width(nbits) <==> (nbits == 4 || nbits == 8 || nbits == 16 || nbits == 32 || nbits
            == 64 || nbits == 128),
{
    lemma2_to64();
    if valid_width(nbits) {
        let k = choose|k: nat| nbits == pow2(k);
        if k < 2 {
            lemma_pow2_strictly_increases(k, 2);
        }
        if k > 7 {
            lemma_pow2_strictly_increases(7, k);
        }
    }
    if nbits == 4 {
        assert(nbits == pow2(2));
    } else if nbits == 8 {
        assert(nbits == pow2(3));
    } else if nbits == 16 {
        assert(nbits == pow2(4));
    } else if nbits == 32 {
        assert(nbits == pow2(5));
    } else if nbits == 64 {
        assert(nbits == pow2(6));
    } else if nbits == 128 {
        assert(nbits == pow2(7));
    }
}

/// Accepts a width that is a power of two from 4 to 128 and refuses every
/// other.
pub fn check_width(nbits: usize) -> (r: Result<(), Error>)
    ensures
        valid_width(nbits as nat) ==> r == Ok::<(), Error>(()),
        !valid_width(nbits as nat) ==> r == Err::<(), Error>(Error::InvalidWidth),
{
    if nbits < 4 || nbits > 128 {
        return Err(Error::InvalidWidth);
    }
    let below = nbits - 1;
    proof {
        lemma_valid_widths(nbits as nat);
        assert((nbits & below) == 0 <==> (nbits == 4 || nbits == 8 || nbits == 16 || nbits == 32
            || nbits == 64 || nbits == 128)) by (bit_vector)
            requires
                4 <= nbits <= 128,
                below == nbits - 1,
        ;
    }
    if nbits & below != 0 {
        Err(Error::InvalidWidth)
    } else {
        Ok(())
    }
}

} // verus!
