//! The service: who owns it, who may ask it for random values, and the value
//! that each sequence number was given.

use crate::encoding::{fits_ledger, lemma_short_bytes_fit, MAX_ENCODED_LEN};
use crate::error::{OpenError, Refusal, ServiceError};
use crate::identity::{same_bytes, Identity};
use crate::model::{
    add_operator_outcome, get_random_outcome, init_outcome, initial_state, ledger_of,
    lemma_ledger_of_fits, lemma_ledger_of_insert, lemma_ledger_of_nothing, record_outcome,
    request_outcome, well_formed, Progress, State,
};
use crate::number::{RandomNo, SeqNo};
use crate::store::{
    ledger_entries, open_error, operator_set, owner_bytes, LedgerStore, OperatorStore, OwnerCell,
    Regions,
};
use ic_stable_structures::cell::InitError;
use vstd::prelude::*;

verus! {

/// The region of the owner cell.
pub const OWNER_REGION: u8 = 0;

/// The region of the operator set.
pub const OPERATOR_REGION: u8 = 1;

/// The region of the ledger.
pub const LEDGER_REGION: u8 = 2;

/// A request by an operator that found no value: the right to record the
/// entropy drawn for its sequence number.
#[derive(Debug)]
pub struct PendingDraw {
    seq_no: SeqNo,
}

impl View for PendingDraw {
    type V = nat;

    closed spec fn view(&self) -> nat {
        self.seq_no@
    }
}

impl PendingDraw {
    /// The sequence number that the entropy is drawn for.
    pub fn seq_no(&self) -> (r: &SeqNo)
        ensures
            r@ == self@,
    {
        &self.seq_no
    }
}

/// What a request for a random value leads to before any entropy is drawn.
#[derive(Debug)]
pub enum Generation {
    /// The sequence number has a value already: the answer.
    Ready(SeqNo, RandomNo),
    /// Entropy is to be drawn, and recorded with this.
    Pending(PendingDraw),
}

impl View for Generation {
    type V = Progress;

    open spec fn view(&self) -> Progress {
        match self {
            Generation::Ready(seq_no, value) => Progress::Ready(seq_no@, value@),
            Generation::Pending(draw) => Progress::Pending(draw@),
        }
    }
}

/// An answer to a request for a random value, as numbers.
pub open spec fn answer_view(answer: Result<(SeqNo, RandomNo), ServiceError>) -> Result<
    (nat, nat),
    Refusal,
> {
    match answer {
        Ok((seq_no, value)) => Ok((seq_no@, value@)),
        Err(e) => Err(e@),
    }
}

/// The first answer to a request for a random value, as numbers.
pub open spec fn generation_view(answer: Result<Generation, ServiceError>) -> Result<
    Progress,
    Refusal,
> {
    match answer {
        Ok(generation) => Ok(generation@),
        Err(e) => Err(e@),
    }
}

/// The answer to a request to add an operator, with the refusal as bytes.
pub open spec fn added_view(answer: Result<bool, ServiceError>) -> Result<bool, Refusal> {
    match answer {
        Ok(done) => Ok(done),
        Err(e) => Err(e@),
    }
}

/// The value read for a sequence number, as a number.
pub open spec fn value_view(value: Option<RandomNo>) -> Option<nat> {
    match value {
        Some(v) => Some(v@),
        None => None,
    }
}

/// The entropy source's answer, as bytes or characters.
pub open spec fn entropy_view(entropy: Result<Vec<u8>, String>) -> Result<Seq<u8>, Seq<char>> {
    match entropy {
        Ok(bytes) => Ok(bytes@),
        Err(fault) => Err(fault@),
    }
}

/// The service and its three stores.
pub struct Service {
    owner: OwnerCell,
    operators: OperatorStore,
    ledger: LedgerStore,
}

/// The state that three stores spell.
spec fn stored_state(
    owner: OwnerCell,
    operators: OperatorStore,
    ledger: LedgerStore,
) -> State {
    State {
        owner: owner_bytes(owner),
        operators: operator_set(operators),
        ledger: ledger_of(ledger_entries(ledger)),
    }
}

impl View for Service {
    type V = State;

    closed spec fn view(&self) -> State {
        stored_state(self.owner, self.operators, self.ledger)
    }
}

impl Service {
    /// A new service on the default memory, in place of whatever the memory
    /// held: the owner is the anonymous identity, which stands for the owner
    /// that was never set, and there are no operators and no values. It
    /// fails where the memory cannot take the owner cell.
    pub fn new() -> (r: Result<Service, OpenError>)
        ensures
            r matches Ok(service) ==> service@ == initial_state(),
    {
        let regions = Regions::open();
        let unset = Identity::anonymous();
        let owner = OwnerCell::create(regions.region(OWNER_REGION), unset.as_slice());
        let operators = OperatorStore::create(regions.region(OPERATOR_REGION));
        let ledger = LedgerStore::create(regions.region(LEDGER_REGION));
        proof {
            lemma_ledger_of_nothing(ledger_entries(ledger));
        }
        Service::assemble(owner, operators, ledger)
    }

    /// Opens the service on the default memory: the owner cell, the operator
    /// set and the ledger, each in its region. The service holds what the
    /// memory held, which is what an earlier run left there; on a memory
    /// that holds nothing it is as `Service::new` makes it. Whatever it holds
    /// is well formed. Open it once in a process: a second service on the
    /// same memory would not see what the first one writes.
    pub fn open() -> (r: Result<Service, OpenError>)
        ensures
            r matches Ok(service) ==> well_formed(service@),
    {
        let regions = Regions::open();
        let unset = Identity::anonymous();
        let owner = OwnerCell::open(regions.region(OWNER_REGION), unset.as_slice());
        let operators = OperatorStore::open(regions.region(OPERATOR_REGION));
        let ledger = LedgerStore::open(regions.region(LEDGER_REGION));
        proof {
            lemma_ledger_of_fits(ledger_entries(ledger));
        }
        Service::assemble(owner, operators, ledger)
    }

    /// The service of three opened stores, or why there is none: there is
    /// one exactly where the owner cell could be opened, and it holds what
    /// the stores hold.
    fn assemble(
        owner: Result<OwnerCell, InitError>,
        operators: OperatorStore,
        ledger: LedgerStore,
    ) -> (r: Result<Service, OpenError>)
        ensures
            r is Ok <==> owner is Ok,
            r matches Ok(service) ==> service@ == stored_state(owner->Ok_0, operators, ledger),
    {
        match owner {
            Ok(owner) => Ok(Service { owner, operators, ledger }),
            Err(e) => Err(open_error(e)),
        }
    }

    /// Makes `owner` the owner, whoever asks and whoever was the owner.
    pub fn init(&mut self, owner: &Identity)
        ensures
            final(self)@ == init_outcome(old(self)@, owner@),
    {
        self.owner.set(owner.as_slice());
    }

    /// The owner.
    pub fn get_owner(&self) -> (r: Identity)
        ensures
            r@ == self@.owner,
    {
        let bytes = self.owner.get();
        Identity::from_slice(bytes.as_slice()).unwrap()
    }

    /// Whether `id` is an operator.
    pub fn validate_operator(&self, id: &Identity) -> (r: bool)
        ensures
            r == self@.operators.contains(id@),
    {
        self.operators.contains(id.as_slice())
    }

    /// Adds `operator` to the operators if `caller` is the owner, and refuses
    /// otherwise, naming the caller. Adding an operator again changes
    /// nothing.
    pub fn add_operator(&mut self, caller: &Identity, operator: &Identity) -> (r: Result<
        bool,
        ServiceError,
    >)
        ensures
            (final(self)@, added_view(r)) == add_operator_outcome(
                old(self)@,
                caller@,
                operator@,
            ),
            caller@ != old(self)@.owner ==> r is Err && final(self)@ == old(self)@,
    {
        let owner = self.owner.get();
        if !same_bytes(caller.as_slice(), owner.as_slice()) {
            return Err(ServiceError::NotOwner(caller.clone()));
        }
        self.operators.insert(operator.as_slice());
        Ok(true)
    }

    /// The value of `seq_no`, if it has one. Anyone may ask.
    pub fn get_random_by_seq_no(&self, seq_no: &SeqNo) -> (r: Option<RandomNo>)
        ensures
            value_view(r) == get_random_outcome(self@, seq_no@),
    {
        if !seq_no.fits_ledger() {
            return None;
        }
        let key = seq_no.to_bytes();
        match self.ledger.get(key.as_slice()) {
            Some(bytes) => Some(SeqNo::from_bytes(bytes.as_slice())),
            None => None,
        }
    }

    /// The first half of a request for the random value of `seq_no`: who
    /// asks, and the look at the ledger. Refuses a caller who is not an
    /// operator, naming the caller. Answers with the value where `seq_no` has
    /// one. Otherwise entropy is to be drawn and handed to `record_random`,
    /// whatever the size of `seq_no`.
    pub fn generate_random(&self, caller: &Identity, seq_no: &SeqNo) -> (r: Result<
        Generation,
        ServiceError,
    >)
        ensures
            generation_view(r) == request_outcome(self@, caller@, seq_no@),
            !self@.operators.contains(caller@) ==> r is Err,
    {
        if !self.validate_operator(caller) {
            return Err(ServiceError::NotOperator(caller.clone()));
        }
        match self.get_random_by_seq_no(seq_no) {
            Some(value) => Ok(Generation::Ready(seq_no.clone(), value)),
            None => Ok(Generation::Pending(PendingDraw { seq_no: seq_no.clone() })),
        }
    }

    /// The second half: what the entropy source answered. A fault of the
    /// source is passed on. Its bytes spell the value, least significant
    /// byte first; the value is stored under the sequence number, in place
    /// of any value that got there meanwhile, and both are the answer. Where
    /// the ledger cannot store the sequence number or the value, the pair is
    /// refused. Neither a fault nor a refusal changes anything.
    pub fn record_random(&mut self, draw: PendingDraw, entropy: Result<Vec<u8>, String>) -> (r:
        Result<(SeqNo, RandomNo), ServiceError>)
        ensures
            (final(self)@, answer_view(r)) == record_outcome(
                old(self)@,
                draw@,
                entropy_view(entropy),
            ),
            entropy is Ok && entropy->Ok_0@.len() <= MAX_ENCODED_LEN && fits_ledger(draw@)
                ==> r is Ok,
    {
        proof {
            if entropy is Ok && entropy->Ok_0@.len() <= MAX_ENCODED_LEN {
                lemma_short_bytes_fit(entropy->Ok_0@);
            }
        }
        match entropy {
            Err(fault) => Err(ServiceError::EntropySource(fault)),
            Ok(bytes) => {
                let value = SeqNo::from_bytes(bytes.as_slice());
                if !draw.seq_no.fits_ledger() || !value.fits_ledger() {
                    return Err(ServiceError::TooLarge);
                }
                let key = draw.seq_no.to_bytes();
                let stored = value.to_bytes();
                proof {
                    lemma_ledger_of_insert(ledger_entries(self.ledger), draw@, value@);
                }
                self.ledger.insert(key.as_slice(), stored.as_slice());
                Ok((draw.seq_no, value))
            },
        }
    }
}

} // verus!
