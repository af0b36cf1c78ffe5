//! The little-endian byte encoding of natural numbers, and what holds of it.

use vstd::prelude::*;

verus! {

/// The largest encoding, in bytes, that the ledger stores.
pub const MAX_ENCODED_LEN: usize = 32;

/// The number that `bytes` spell, least significant byte first.
pub open spec fn le_value(bytes: Seq<u8>) -> nat
    decreases bytes.len(),
{
    if bytes.len() == 0 {
        0
    } else {
        bytes[0] as nat + 256 * le_value(bytes.drop_first())
    }
}

/// The shortest little-endian encoding of `n`; zero is the single byte 0.
pub open spec fn le_encoding(n: nat) -> Seq<u8>
    decreases n,
{
    if n < 256 {
        seq![n as u8]
    } else {
        seq![(n % 256) as u8] + le_encoding(n / 256)
    }
}

/// `bytes` is the shortest encoding of some number.
pub open spec fn is_shortest(bytes: Seq<u8>) -> bool {
    bytes.len() >= 1 && (bytes.len() == 1 || bytes.last() != 0)
}

/// `n` has an encoding that the ledger can store.
pub open spec fn fits_ledger(n: nat) -> bool {
    le_encoding(n).len() <= MAX_ENCODED_LEN
}

/// Decoding the encoding of a number gives the number back.
pub proof fn lemma_value_of_encoding(n: nat)
    ensures
        le_value(le_encoding(n)) == n,
    decreases n,
{
    if n < 256 {
        let one = seq![n as u8];
        assert(one.drop_first().len() == 0);
        assert(le_value(one.drop_first()) == 0);
    } else {
        let rest = le_encoding(n / 256);
        let all = seq![(n % 256) as u8] + rest;
        lemma_value_of_encoding(n / 256);
        assert(all.drop_first() =~= rest);
        assert(all[0] == (n % 256) as u8);
    }
}

/// The encoding of a number is the shortest one.
pub proof fn lemma_encoding_is_shortest(n: nat)
    ensures
        is_shortest(le_encoding(n)),
    decreases n,
{
    if n >= 256 {
        let rest = le_encoding(n / 256);
        let all = seq![(n % 256) as u8] + rest;
        lemma_encoding_is_shortest(n / 256);
        assert(all.last() == rest.last());
        if rest.len() == 1 {
            lemma_value_of_encoding(n / 256);
            assert(rest.drop_first().len() == 0);
            assert(le_value(rest.drop_first()) == 0);
            assert(rest[0] as nat == n / 256);
        }
    }
}

/// A byte string whose last byte is not zero spells a positive number.
pub proof fn lemma_value_positive(bytes: Seq<u8>)
    requires
        bytes.len() >= 1,
        bytes.last() != 0,
    ensures
        le_value(bytes) >= 1,
    decreases bytes.len(),
{
    if bytes.len() > 1 {
        let rest = bytes.drop_first();
        assert(rest.last() == bytes.last());
        lemma_value_positive(rest);
    } else {
        assert(bytes[0] == bytes.last());
    }
}

/// Encoding the number that a shortest byte string spells gives that string
/// back: a number has one shortest encoding only.
pub proof fn lemma_encoding_of_value(bytes: Seq<u8>)
    requires
        is_shortest(bytes),
    ensures
        le_encoding(le_value(bytes)) == bytes,
    decreases bytes.len(),
{
    let rest = bytes.drop_first();
    if bytes.len() == 1 {
        assert(rest.len() == 0);
        assert(le_value(rest) == 0);
        assert(le_encoding(le_value(bytes)) =~= bytes);
    } else {
        assert(rest.last() == bytes.last());
        lemma_value_positive(rest);
        lemma_encoding_of_value(rest);
        let high = le_value(rest);
        let n = le_value(bytes);
        assert(n == bytes[0] as nat + 256 * high);
        assert(n / 256 == high && n % 256 == bytes[0] as nat) by (nonlinear_arith)
            requires
                n == bytes[0] as nat + 256 * high,
                bytes[0] as nat <= 255,
        ;
        assert(le_encoding(n) =~= bytes);
    }
}

/// Two numbers with one encoding are one number.
pub proof fn lemma_encoding_injective(a: nat, b: nat)
    requires
        le_encoding(a) == le_encoding(b),
    ensures
        a == b,
{
    lemma_value_of_encoding(a);
    lemma_value_of_encoding(b);
}

/// 256 to the power `k`: the count of numbers that `k` bytes can spell.
pub open spec fn pow256(k: nat) -> nat
    decreases k,
{
    if k == 0 {
        1
    } else {
        256 * pow256((k - 1) as nat)
    }
}

/// The number that `k` bytes spell is below 256 to the power `k`.
pub proof fn lemma_value_below_pow(bytes: Seq<u8>)
    ensures
        le_value(bytes) < pow256(bytes.len()),
    decreases bytes.len(),
{
    if bytes.len() > 0 {
        lemma_value_below_pow(bytes.drop_first());
    }
}

/// A number has an encoding of `k` bytes or fewer exactly when it is below
/// 256 to the power `k`.
pub proof fn lemma_encoding_len(n: nat, k: nat)
    requires
        k >= 1,
    ensures
        le_encoding(n).len() <= k <==> n < pow256(k),
    decreases k,
{
    assert(pow256(1) == 256) by {
        assert(pow256(0) == 1);
    }
    if k == 1 {
        if n >= 256 {
            assert(le_encoding(n / 256).len() >= 1) by {
                lemma_encoding_is_shortest(n / 256);
            }
        }
    } else {
        let lower = (k - 1) as nat;
        if n < 256 {
            lemma_pow_positive(lower);
        } else {
            lemma_encoding_len(n / 256, lower);
            assert(n / 256 < pow256(lower) <==> n < 256 * pow256(lower)) by (nonlinear_arith);
        }
    }
}

/// 256 to any power is positive.
pub proof fn lemma_pow_positive(k: nat)
    ensures
        pow256(k) >= 1,
    decreases k,
{
    if k > 0 {
        lemma_pow_positive((k - 1) as nat);
    }
}

/// The ledger can store exactly the numbers below 256 to the power 32.
pub proof fn lemma_fits_ledger_bound(n: nat)
    ensures
        fits_ledger(n) <==> n < pow256(MAX_ENCODED_LEN as nat),
{
    lemma_encoding_len(n, MAX_ENCODED_LEN as nat);
}

/// The ledger can store the number that 32 bytes or fewer spell.
pub proof fn lemma_short_bytes_fit(bytes: Seq<u8>)
    requires
        bytes.len() <= MAX_ENCODED_LEN,
    ensures
        fits_ledger(le_value(bytes)),
{
    lemma_value_below_pow(bytes);
    lemma_pow_monotonic(bytes.len(), MAX_ENCODED_LEN as nat);
    lemma_fits_ledger_bound(le_value(bytes));
}

/// A larger power of 256 is not smaller.
pub proof fn lemma_pow_monotonic(j: nat, k: nat)
    requires
        j <= k,
    ensures
        pow256(j) <= pow256(k),
    decreases k,
{
    if j < k {
        lemma_pow_monotonic(j, (k - 1) as nat);
    }
}

/// Of two shortest encodings, the shorter spells the smaller number.
pub proof fn lemma_shorter_is_smaller(a: Seq<u8>, b: Seq<u8>)
    requires
        is_shortest(a),
        is_shortest(b),
        a.len() < b.len(),
    ensures
        le_value(a) < le_value(b),
{
    let k = (b.len() - 1) as nat;
    lemma_value_below_pow(a);
    lemma_pow_monotonic(a.len(), k);
    lemma_encoding_of_value(b);
    lemma_encoding_len(le_value(b), k);
}

/// Of two byte strings of one length that agree above place `i`, the one
/// with the smaller byte at place `i` spells the smaller number.
pub proof fn lemma_highest_difference_decides(a: Seq<u8>, b: Seq<u8>, i: usize)
    requires
        a.len() == b.len(),
        i < a.len(),
        a[i as int] < b[i as int],
        forall|j: int| i < j < a.len() ==> a[j] == b[j],
    ensures
        le_value(a) < le_value(b),
    decreases a.len(),
{
    let rest_a = a.drop_first();
    let rest_b = b.drop_first();
    if i == 0 {
        assert(rest_a =~= rest_b);
    } else {
        assert forall|j: int| i - 1 < j < rest_a.len() implies rest_a[j] == rest_b[j] by {
            assert(rest_a[j] == a[j + 1]);
            assert(rest_b[j] == b[j + 1]);
        }
        lemma_highest_difference_decides(rest_a, rest_b, (i - 1) as usize);
    }
}

} // verus!
