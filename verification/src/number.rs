//! Arbitrary-precision naturals.
//!
//! A number is held as its shortest little-endian encoding: at least one
//! byte, and no zero byte in the most significant place unless the number is
//! zero. Contracts speak of the number itself, a `nat`.

use crate::encoding::{
    fits_ledger, is_shortest, le_encoding, le_value, lemma_encoding_of_value,
    lemma_highest_difference_decides, lemma_shorter_is_smaller, MAX_ENCODED_LEN,
};
use crate::identity::same_bytes;
use core::cmp::Ordering;
use num_bigint::BigUint;
use num_traits::ToBytes;
use vstd::prelude::*;

verus! {

/// How `a` stands to `b`.
pub open spec fn number_order(a: nat, b: nat) -> Ordering {
    if a < b {
        Ordering::Less
    } else if a == b {
        Ordering::Equal
    } else {
        Ordering::Greater
    }
}

/// Decodes `bytes` with `BigUint::from_bytes_le` and encodes the number again
/// with `ToBytes::to_le_bytes`. The first reads any byte string, the empty one
/// as zero, least significant byte first; the second writes the single byte 0
/// for zero and otherwise just the bytes up to the most significant one that
/// is not zero. So the result spells the number that `bytes` spell, in its
/// shortest form.
#[verifier::external_body]
fn shortest_le_bytes(bytes: &[u8]) -> (r: Vec<u8>)
    ensures
        le_value(r@) == le_value(bytes@),
        is_shortest(r@),
{
    ToBytes::to_le_bytes(&BigUint::from_bytes_le(bytes))
}

/// A sequence number: a natural number of any size.
#[derive(Debug)]
pub struct SeqNo {
    bytes: Vec<u8>,
}

/// A random value, a number of the same kind.
pub type RandomNo = SeqNo;

impl View for SeqNo {
    type V = nat;

    closed spec fn view(&self) -> nat {
        le_value(self.bytes@)
    }
}

impl SeqNo {
    #[verifier::type_invariant]
    spec fn shortest(self) -> bool {
        is_shortest(self.bytes@)
    }

    /// The number that `bytes` spell, least significant byte first. Zero
    /// bytes in the most significant places, and the empty string, are
    /// accepted.
    pub fn from_bytes(bytes: &[u8]) -> (r: SeqNo)
        ensures
            r@ == le_value(bytes@),
    {
        SeqNo { bytes: shortest_le_bytes(bytes) }
    }

    /// The shortest little-endian encoding of the number.
    pub fn to_bytes(&self) -> (r: Vec<u8>)
        ensures
            r@ == le_encoding(self@),
    {
        proof {
            use_type_invariant(self);
            lemma_encoding_of_value(self.bytes@);
        }
        self.bytes.clone()
    }

    /// Whether the ledger can store the number.
    pub fn fits_ledger(&self) -> (r: bool)
        ensures
            r == fits_ledger(self@),
    {
        proof {
            use_type_invariant(self);
            lemma_encoding_of_value(self.bytes@);
        }
        self.bytes.len() <= MAX_ENCODED_LEN
    }
}

impl Clone for SeqNo {
    fn clone(&self) -> (r: SeqNo)
        ensures
            r@ == self@,
    {
        proof {
            use_type_invariant(self);
        }
        SeqNo { bytes: self.bytes.clone() }
    }
}

impl PartialEq for SeqNo {
    fn eq(&self, other: &SeqNo) -> (r: bool) {
        proof {
            use_type_invariant(self);
            use_type_invariant(other);
            lemma_encoding_of_value(self.bytes@);
            lemma_encoding_of_value(other.bytes@);
        }
        same_bytes(self.bytes.as_slice(), other.bytes.as_slice())
    }
}

impl Eq for SeqNo {}

impl PartialOrd for SeqNo {
    /// Numbers are ordered by size.
    fn partial_cmp(&self, other: &SeqNo) -> (r: Option<Ordering>) {
        proof {
            use_type_invariant(self);
            use_type_invariant(other);
        }
        let a = self.bytes.as_slice();
        let b = other.bytes.as_slice();
        if a.len() < b.len() {
            proof {
                lemma_shorter_is_smaller(a@, b@);
            }
            return Some(Ordering::Less);
        }
        if a.len() > b.len() {
            proof {
                lemma_shorter_is_smaller(b@, a@);
            }
            return Some(Ordering::Greater);
        }
        let mut i: usize = a.len();
        while i > 0
            invariant
                a@ == self.bytes@,
                b@ == other.bytes@,
                a@.len() == b@.len(),
                i <= a@.len(),
                forall|j: int| i <= j < a@.len() ==> a@[j] == b@[j],
            decreases i,
        {
            i -= 1;
            if a[i] < b[i] {
                proof {
                    lemma_highest_difference_decides(a@, b@, i);
                }
                return Some(Ordering::Less);
            }
            if a[i] > b[i] {
                proof {
                    lemma_highest_difference_decides(b@, a@, i);
                }
                return Some(Ordering::Greater);
            }
        }
        assert(a@ =~= b@);
        Some(Ordering::Equal)
    }
}

impl vstd::std_specs::cmp::PartialOrdSpecImpl for SeqNo {
    open spec fn obeys_partial_cmp_spec() -> bool {
        true
    }

    open spec fn partial_cmp_spec(&self, other: &SeqNo) -> Option<Ordering> {
        Some(number_order(self@, other@))
    }
}

impl vstd::std_specs::cmp::PartialEqSpecImpl for SeqNo {
    open spec fn obeys_eq_spec() -> bool {
        true
    }

    open spec fn eq_spec(&self, other: &SeqNo) -> bool {
        self@ == other@
    }
}

} // verus!
