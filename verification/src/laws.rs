//! What holds of the service whatever is asked of it, proved of the model
//! that the service's contracts are stated in.

use crate::encoding::{fits_ledger, le_encoding, le_value, lemma_value_of_encoding};
use crate::error::Refusal;
use crate::identity::MAX_IDENTITY_LEN;
use crate::model::{
    add_operator_outcome, generate_outcome, generates, get_random_outcome, init_outcome,
    initial_state, ledger_of,
    lemma_ledger_of_insert, record_outcome, request_outcome, run, step, well_formed, Operation,
    Progress, State,
};
use vstd::prelude::*;

verus! {

/// A new service is well formed, and a read of any sequence number returns
/// nothing.
pub proof fn law_initial_state(seq: nat)
    ensures
        well_formed(initial_state()),
        get_random_outcome(initial_state(), seq) is None,
{
}

/// The identity that a request brings into the state is an identity, of 29
/// bytes at most: the new owner, or the new operator.
pub open spec fn brings_identity(op: Operation) -> bool {
    match op {
        Operation::Init { owner } => owner.len() <= MAX_IDENTITY_LEN,
        Operation::AddOperator { operator, .. } => operator.len() <= MAX_IDENTITY_LEN,
        Operation::GenerateRandom { .. } => true,
    }
}

/// A well-formed state stays well formed: no request brings a number into
/// the ledger that the ledger cannot store, and the owner and the operators
/// stay identities where those that are asked for are identities.
pub proof fn law_step_keeps_well_formed(s: State, op: Operation)
    requires
        well_formed(s),
        brings_identity(op),
    ensures
        well_formed(step(s, op)),
{
}

/// One request leaves a value that is in the ledger as it is.
pub proof fn law_step_keeps_value(s: State, op: Operation, seq: nat)
    requires
        s.ledger.contains_key(seq),
    ensures
        get_random_outcome(step(s, op), seq) == get_random_outcome(s, seq),
{
}

/// A sequence number that has a value keeps that value: after any requests,
/// a read returns what it returned before them.
pub proof fn law_value_stays(s: State, ops: Seq<Operation>, seq: nat)
    requires
        s.ledger.contains_key(seq),
    ensures
        get_random_outcome(run(s, ops), seq) == get_random_outcome(s, seq),
    decreases ops.len(),
{
    if ops.len() > 0 {
        law_value_stays(s, ops.drop_last(), seq);
        law_step_keeps_value(run(s, ops.drop_last()), ops.last(), seq);
    }
}

/// A sequence number has no value until a request for its random value is
/// answered with one: a read returns nothing after any requests of which
/// none is such a request.
pub proof fn law_absent_until_generated(s: State, ops: Seq<Operation>, seq: nat)
    requires
        get_random_outcome(s, seq) is None,
        forall|i: int|
            0 <= i < ops.len() ==> !generates(run(s, ops.take(i)), #[trigger] ops[i], seq),
    ensures
        get_random_outcome(run(s, ops), seq) is None,
    decreases ops.len(),
{
    if ops.len() > 0 {
        let before = ops.drop_last();
        assert forall|i: int| 0 <= i < before.len() implies !generates(
            run(s, before.take(i)),
            #[trigger] before[i],
            seq,
        ) by {
            assert(before.take(i) =~= ops.take(i));
            assert(before[i] == ops[i]);
        }
        law_absent_until_generated(s, before, seq);
        assert(ops.take(ops.len() - 1) =~= before);
        assert(!generates(run(s, before), ops[ops.len() - 1], seq));
    }
}

/// The request that gives a sequence number its value makes a read return
/// that value.
pub proof fn law_generated_value_is_read(
    s: State,
    caller: Seq<u8>,
    seq: nat,
    entropy: Result<Seq<u8>, Seq<char>>,
)
    requires
        generate_outcome(s, caller, seq, entropy).1 is Ok,
    ensures
        generate_outcome(s, caller, seq, entropy).1 == Ok::<(nat, nat), Refusal>(
            (seq, generate_outcome(s, caller, seq, entropy).0.ledger[seq]),
        ),
        get_random_outcome(generate_outcome(s, caller, seq, entropy).0, seq) is Some,
{
}

/// Two requests by an operator for the random value of one sequence number,
/// one after the other: if the first is answered with a value, the second is
/// answered with the same value, whatever the entropy source would say, and
/// changes nothing.
pub proof fn law_generate_twice(
    s: State,
    caller: Seq<u8>,
    seq: nat,
    first: Result<Seq<u8>, Seq<char>>,
    second: Result<Seq<u8>, Seq<char>>,
)
    requires
        s.operators.contains(caller),
        generate_outcome(s, caller, seq, first).1 is Ok,
    ensures
        generate_outcome(generate_outcome(s, caller, seq, first).0, caller, seq, second) == (
            generate_outcome(s, caller, seq, first)
        ),
{
}

/// A request by an operator for a sequence number without a value asks the
/// entropy source, whatever the size of the number, and passes a fault of
/// the source on: the answer describes the fault, and nothing changes.
pub proof fn law_fault_is_passed_on(s: State, caller: Seq<u8>, seq: nat, fault: Seq<char>)
    requires
        s.operators.contains(caller),
        !s.ledger.contains_key(seq),
    ensures
        request_outcome(s, caller, seq) == Ok::<Progress, Refusal>(Progress::Pending(seq)),
        generate_outcome(s, caller, seq, Err(fault)) == (
            s,
            Err::<(nat, nat), Refusal>(Refusal::EntropySource(fault)),
        ),
{
}

/// A request for a random value is answered with a value exactly where the
/// caller is an operator and either the sequence number has a value, or the
/// entropy source answers with bytes and the ledger can store both the
/// sequence number and the value that the bytes spell.
pub proof fn law_generate_answers_exactly(
    s: State,
    caller: Seq<u8>,
    seq: nat,
    entropy: Result<Seq<u8>, Seq<char>>,
)
    ensures
        generate_outcome(s, caller, seq, entropy).1 is Ok <==> s.operators.contains(caller) && (
            s.ledger.contains_key(seq) || (entropy matches Ok(bytes) && fits_ledger(seq)
                && fits_ledger(le_value(bytes)))
        ),
{
}

/// Only setting the owner changes the owner.
pub proof fn law_only_init_changes_owner(s: State, op: Operation)
    requires
        step(s, op).owner != s.owner,
    ensures
        op is Init,
{
}

/// The owner stays through any requests of which none sets the owner.
pub proof fn law_owner_stays(s: State, ops: Seq<Operation>)
    requires
        forall|i: int| 0 <= i < ops.len() ==> !(#[trigger] ops[i] is Init),
    ensures
        run(s, ops).owner == s.owner,
    decreases ops.len(),
{
    if ops.len() > 0 {
        let before = ops.drop_last();
        assert forall|i: int| 0 <= i < before.len() implies !(#[trigger] before[i] is Init) by {
            assert(before[i] == ops[i]);
        }
        law_owner_stays(s, before);
        assert(!(ops[ops.len() - 1] is Init));
    }
}

/// Once the owner is set, a read of the owner returns that owner, after any
/// requests of which none sets the owner anew.
pub proof fn law_owner_is_who_was_set(s: State, owner: Seq<u8>, ops: Seq<Operation>)
    requires
        forall|i: int| 0 <= i < ops.len() ==> !(#[trigger] ops[i] is Init),
    ensures
        run(init_outcome(s, owner), ops).owner == owner,
{
    law_owner_stays(init_outcome(s, owner), ops);
}

/// Whoever is not the owner cannot add an operator: the request is refused,
/// the refusal names the caller, and nothing changes.
pub proof fn law_add_operator_refused(s: State, caller: Seq<u8>, operator: Seq<u8>)
    requires
        caller != s.owner,
    ensures
        add_operator_outcome(s, caller, operator) == (
            s,
            Err::<bool, Refusal>(Refusal::NotOwner(caller)),
        ),
{
}

/// Whoever is not an operator gets no random value: the request is refused
/// before any entropy is drawn, the refusal names the caller, and nothing
/// changes.
pub proof fn law_generate_refused(
    s: State,
    caller: Seq<u8>,
    seq: nat,
    entropy: Result<Seq<u8>, Seq<char>>,
)
    requires
        !s.operators.contains(caller),
    ensures
        request_outcome(s, caller, seq) == Err::<Progress, Refusal>(Refusal::NotOperator(caller)),
        generate_outcome(s, caller, seq, entropy) == (
            s,
            Err::<(nat, nat), Refusal>(Refusal::NotOperator(caller)),
        ),
{
}

/// A number that is written to the ledger is read back as it was written:
/// the bytes that are stored for it spell it, and the ledger that the stored
/// entries spell has it under its sequence number.
pub proof fn law_written_value_is_read_back(
    entries: Map<Seq<u8>, Seq<u8>>,
    seq: nat,
    value: nat,
)
    requires
        fits_ledger(seq),
        fits_ledger(value),
    ensures
        le_value(le_encoding(value)) == value,
        get_random_outcome(
            State {
                owner: Seq::empty(),
                operators: Set::empty(),
                ledger: ledger_of(entries.insert(le_encoding(seq), le_encoding(value))),
            },
            seq,
        ) == Some(value),
{
    lemma_value_of_encoding(value);
    lemma_ledger_of_insert(entries, seq, value);
}

/// The entropy that is recorded for a sequence number is what a read of it
/// returns then.
pub proof fn law_recorded_value_is_read(s: State, seq: nat, bytes: Seq<u8>)
    requires
        fits_ledger(seq),
        fits_ledger(le_value(bytes)),
    ensures
        get_random_outcome(record_outcome(s, seq, Ok(bytes)).0, seq) == Some(le_value(bytes)),
{
}

/// Recording the entropy of one request, whatever happened since the request
/// looked at the ledger, touches the value of its sequence number only: the
/// owner, the operators and every other value stay, and a fault of the
/// source or a value that cannot be stored changes nothing at all.
pub proof fn law_record_touches_one_value(
    s: State,
    seq: nat,
    entropy: Result<Seq<u8>, Seq<char>>,
    other: nat,
)
    requires
        other != seq,
    ensures
        record_outcome(s, seq, entropy).0.owner == s.owner,
        record_outcome(s, seq, entropy).0.operators == s.operators,
        get_random_outcome(record_outcome(s, seq, entropy).0, other) == get_random_outcome(
            s,
            other,
        ),
        record_outcome(s, seq, entropy).1 is Err ==> record_outcome(s, seq, entropy).0 == s,
{
}

/// No request takes an operator away.
pub proof fn law_operators_stay(s: State, op: Operation, id: Seq<u8>)
    requires
        s.operators.contains(id),
    ensures
        step(s, op).operators.contains(id),
{
}

/// Only the owner changes who the operators are.
pub proof fn law_only_owner_adds_operators(s: State, op: Operation)
    requires
        step(s, op).operators != s.operators,
    ensures
        op matches Operation::AddOperator { caller, .. } && caller == s.owner,
{
}

} // verus!
