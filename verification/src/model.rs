//! What the service is, as mathematics: its state, and what each request
//! makes of a state. The contracts of the service say that it does this.

use crate::encoding::{
    fits_ledger, le_encoding, le_value, lemma_encoding_injective, lemma_short_bytes_fit,
    lemma_value_of_encoding, MAX_ENCODED_LEN,
};
use crate::error::Refusal;
use crate::identity::{anonymous_bytes, MAX_IDENTITY_LEN};
use vstd::prelude::*;

verus! {

/// The state of the service.
pub struct State {
    /// The owner's bytes.
    pub owner: Seq<u8>,
    /// The bytes of each operator.
    pub operators: Set<Seq<u8>>,
    /// The random value that each sequence number was given.
    pub ledger: Map<nat, nat>,
}

/// The state of a new service: the anonymous identity stands for the owner
/// that was never set, and there are no operators and no values.
pub open spec fn initial_state() -> State {
    State { owner: anonymous_bytes(), operators: Set::empty(), ledger: Map::empty() }
}

/// A state is well formed where the owner and every operator are identities,
/// of 29 bytes at most, and the ledger can store every sequence number and
/// every value in it. The service is in such a state from the moment it is
/// opened.
pub open spec fn well_formed(s: State) -> bool {
    &&& s.owner.len() <= MAX_IDENTITY_LEN
    &&& forall|id: Seq<u8>| #[trigger] s.operators.contains(id) ==> id.len() <= MAX_IDENTITY_LEN
    &&& forall|seq: nat| #[trigger]
        s.ledger.contains_key(seq) ==> fits_ledger(seq) && fits_ledger(s.ledger[seq])
}

/// The ledger that stored entries spell: a number has a value where the
/// ledger can store the number and its encoding is a key, and the value is
/// the number that the bytes under that key spell.
pub open spec fn ledger_of(entries: Map<Seq<u8>, Seq<u8>>) -> Map<nat, nat> {
    Map::new(
        |n: nat| fits_ledger(n) && entries.contains_key(le_encoding(n)),
        |n: nat| le_value(entries[le_encoding(n)]),
    )
}

/// No entries spell the ledger without values.
pub proof fn lemma_ledger_of_nothing(entries: Map<Seq<u8>, Seq<u8>>)
    requires
        forall|key: Seq<u8>| !(#[trigger] entries.contains_key(key)),
    ensures
        ledger_of(entries) == Map::<nat, nat>::empty(),
{
    assert(ledger_of(entries) =~= Map::<nat, nat>::empty());
}

/// Where every stored value has 32 bytes at most, the ledger that the entries
/// spell holds only numbers that the ledger can store.
pub proof fn lemma_ledger_of_fits(entries: Map<Seq<u8>, Seq<u8>>)
    requires
        forall|key: Seq<u8>| #[trigger]
            entries.contains_key(key) ==> entries[key].len() <= MAX_ENCODED_LEN,
    ensures
        forall|seq: nat| #[trigger]
            ledger_of(entries).contains_key(seq) ==> fits_ledger(seq) && fits_ledger(
                ledger_of(entries)[seq],
            ),
{
    assert forall|seq: nat| #[trigger] ledger_of(entries).contains_key(seq) implies fits_ledger(
        seq,
    ) && fits_ledger(ledger_of(entries)[seq]) by {
        assert(entries.contains_key(le_encoding(seq)));
        lemma_short_bytes_fit(entries[le_encoding(seq)]);
    }
}

/// Storing the encodings of a number and of its value adds that one pair to
/// the ledger that the entries spell.
pub proof fn lemma_ledger_of_insert(entries: Map<Seq<u8>, Seq<u8>>, seq: nat, value: nat)
    requires
        fits_ledger(seq),
    ensures
        ledger_of(entries.insert(le_encoding(seq), le_encoding(value))) == ledger_of(
            entries,
        ).insert(seq, value),
{
    let after = ledger_of(entries.insert(le_encoding(seq), le_encoding(value)));
    let expected = ledger_of(entries).insert(seq, value);
    lemma_value_of_encoding(value);
    assert forall|n: nat| after.contains_key(n) == expected.contains_key(n) by {
        if le_encoding(n) == le_encoding(seq) {
            lemma_encoding_injective(n, seq);
        }
    }
    assert forall|n: nat| after.contains_key(n) implies after[n] == expected[n] by {
        if le_encoding(n) == le_encoding(seq) {
            lemma_encoding_injective(n, seq);
        }
    }
    assert(after =~= expected);
}

/// Where a request for a random value stands once the ledger was looked at.
pub enum Progress {
    /// The sequence number has this value already.
    Ready(nat, nat),
    /// The sequence number has no value: entropy is to be drawn for it.
    Pending(nat),
}

/// The state after the owner is set.
pub open spec fn init_outcome(s: State, owner: Seq<u8>) -> State {
    State { owner, ..s }
}

/// The state and the answer after `caller` asks to add `operator`.
pub open spec fn add_operator_outcome(s: State, caller: Seq<u8>, operator: Seq<u8>) -> (
    State,
    Result<bool, Refusal>,
) {
    if caller == s.owner {
        (State { operators: s.operators.insert(operator), ..s }, Ok(true))
    } else {
        (s, Err(Refusal::NotOwner(caller)))
    }
}

/// The value that a read of `seq` returns.
pub open spec fn get_random_outcome(s: State, seq: nat) -> Option<nat> {
    if s.ledger.contains_key(seq) {
        Some(s.ledger[seq])
    } else {
        None
    }
}

/// The answer to `caller`'s request for the random value of `seq`, before
/// any entropy is drawn: a refusal where the caller is no operator, the
/// value where `seq` has one, and otherwise, whatever the size of `seq`, the
/// word that entropy is to be drawn. The state stays as it is.
pub open spec fn request_outcome(s: State, caller: Seq<u8>, seq: nat) -> Result<
    Progress,
    Refusal,
> {
    if !s.operators.contains(caller) {
        Err(Refusal::NotOperator(caller))
    } else if s.ledger.contains_key(seq) {
        Ok(Progress::Ready(seq, s.ledger[seq]))
    } else {
        Ok(Progress::Pending(seq))
    }
}

/// The state and the answer once the entropy source has answered a pending
/// request for `seq`: its bytes, or the description of its fault. A fault is
/// passed on. Bytes spell the value; the pair is stored where the ledger can
/// store both the number and the value, and refused where it cannot.
pub open spec fn record_outcome(s: State, seq: nat, entropy: Result<Seq<u8>, Seq<char>>) -> (
    State,
    Result<(nat, nat), Refusal>,
) {
    match entropy {
        Err(fault) => (s, Err(Refusal::EntropySource(fault))),
        Ok(bytes) => {
            let value = le_value(bytes);
            if fits_ledger(seq) && fits_ledger(value) {
                (State { ledger: s.ledger.insert(seq, value), ..s }, Ok((seq, value)))
            } else {
                (s, Err(Refusal::TooLarge))
            }
        },
    }
}

/// The state and the answer after a whole request for the random value of
/// `seq`, with nothing else happening between the look at the ledger and the
/// entropy source's answer. `entropy` is what the source answers if it is
/// asked.
pub open spec fn generate_outcome(
    s: State,
    caller: Seq<u8>,
    seq: nat,
    entropy: Result<Seq<u8>, Seq<char>>,
) -> (State, Result<(nat, nat), Refusal>) {
    match request_outcome(s, caller, seq) {
        Err(refusal) => (s, Err(refusal)),
        Ok(Progress::Ready(seq, value)) => (s, Ok((seq, value))),
        Ok(Progress::Pending(seq)) => record_outcome(s, seq, entropy),
    }
}

/// A request that can change the state. A request for a random value
/// stands here as a whole, with the answer that the entropy source gives if
/// it is asked.
pub enum Operation {
    Init { owner: Seq<u8> },
    AddOperator { caller: Seq<u8>, operator: Seq<u8> },
    GenerateRandom { caller: Seq<u8>, seq: nat, entropy: Result<Seq<u8>, Seq<char>> },
}

/// The state after one request.
pub open spec fn step(s: State, op: Operation) -> State {
    match op {
        Operation::Init { owner } => init_outcome(s, owner),
        Operation::AddOperator { caller, operator } => add_operator_outcome(s, caller, operator).0,
        Operation::GenerateRandom { caller, seq, entropy } => generate_outcome(
            s,
            caller,
            seq,
            entropy,
        ).0,
    }
}

/// The state after the requests `ops`, one after the other.
pub open spec fn run(s: State, ops: Seq<Operation>) -> State
    decreases ops.len(),
{
    if ops.len() == 0 {
        s
    } else {
        step(run(s, ops.drop_last()), ops.last())
    }
}

/// `op`, made in state `s`, is a request for the random value of `seq` that
/// is answered with a value.
pub open spec fn generates(s: State, op: Operation, seq: nat) -> bool {
    match op {
        Operation::GenerateRandom { caller, seq: asked, entropy } => asked == seq
            && generate_outcome(s, caller, asked, entropy).1 is Ok,
        _ => false,
    }
}

} // verus!
