//! Caller identities: short byte strings, equal when their bytes are equal.

use ic_principal::Principal;
use vstd::prelude::*;

verus! {

/// The longest identity, in bytes.
pub const MAX_IDENTITY_LEN: usize = 29;

/// The bytes of the identity that stands for "nobody": the owner of a service
/// that was never given one.
pub open spec fn anonymous_bytes() -> Seq<u8> {
    seq![4u8]
}

/// What `{:?}` prints for the principal with these bytes.
pub uninterp spec fn principal_debug_text(bytes: Seq<u8>) -> Seq<char>;

/// Calls `Principal::anonymous` and copies out its bytes with
/// `Principal::as_slice`: the anonymous principal is the single byte 4.
#[verifier::external_body]
fn anonymous_principal_bytes() -> (r: Vec<u8>)
    ensures
        r@ == anonymous_bytes(),
{
    Principal::anonymous().as_slice().to_vec()
}

/// Builds the principal with `Principal::from_slice`, which takes up to 29
/// bytes, and formats it with `{:?}`. The text depends on the bytes alone.
#[verifier::external_body]
fn principal_debug(bytes: &[u8]) -> (r: String)
    requires
        bytes@.len() <= MAX_IDENTITY_LEN,
    ensures
        r@ == principal_debug_text(bytes@),
{
    format!("{:?}", Principal::from_slice(bytes))
}

/// Whether two byte strings are the same.
pub fn same_bytes(a: &[u8], b: &[u8]) -> (r: bool)
    ensures
        r == (a@ == b@),
{
    if a.len() != b.len() {
        return false;
    }
    let mut i: usize = 0;
    while i < a.len()
        invariant
            a@.len() == b@.len(),
            i <= a@.len(),
            forall|j: int| 0 <= j < i ==> a@[j] == b@[j],
        decreases a@.len() - i,
    {
        if a[i] != b[i] {
            return false;
        }
        i += 1;
    }
    assert(a@ =~= b@);
    true
}

/// The identity of a caller.
#[derive(Debug)]
pub struct Identity {
    bytes: Vec<u8>,
}

impl View for Identity {
    type V = Seq<u8>;

    closed spec fn view(&self) -> Seq<u8> {
        self.bytes@
    }
}

impl Identity {
    #[verifier::type_invariant]
    spec fn bounded(self) -> bool {
        self.bytes@.len() <= MAX_IDENTITY_LEN
    }

    /// The identity with these bytes, if they are few enough.
    pub fn from_slice(bytes: &[u8]) -> (r: Option<Identity>)
        ensures
            bytes@.len() <= MAX_IDENTITY_LEN ==> r is Some && r->Some_0@ == bytes@,
            bytes@.len() > MAX_IDENTITY_LEN ==> r is None,
    {
        if bytes.len() <= MAX_IDENTITY_LEN {
            Some(Identity { bytes: vstd::slice::slice_to_vec(bytes) })
        } else {
            None
        }
    }

    /// The anonymous identity.
    pub fn anonymous() -> (r: Identity)
        ensures
            r@ == anonymous_bytes(),
    {
        Identity { bytes: anonymous_principal_bytes() }
    }

    /// The bytes of the identity.
    pub fn as_slice(&self) -> (r: &[u8])
        ensures
            r@ == self@,
            r@.len() <= MAX_IDENTITY_LEN,
    {
        proof {
            use_type_invariant(self);
        }
        self.bytes.as_slice()
    }

    /// What `{:?}` prints for the principal with this identity's bytes.
    pub fn debug_text(&self) -> (r: String)
        ensures
            r@ == principal_debug_text(self@),
    {
        principal_debug(self.as_slice())
    }
}

impl Clone for Identity {
    fn clone(&self) -> (r: Identity)
        ensures
            r@ == self@,
    {
        proof {
            use_type_invariant(self);
        }
        Identity { bytes: self.bytes.clone() }
    }
}

impl PartialEq for Identity {
    fn eq(&self, other: &Identity) -> (r: bool) {
        same_bytes(self.bytes.as_slice(), other.bytes.as_slice())
    }
}

impl Eq for Identity {}

impl vstd::std_specs::cmp::PartialEqSpecImpl for Identity {
    open spec fn obeys_eq_spec() -> bool {
        true
    }

    open spec fn eq_spec(&self, other: &Identity) -> bool {
        self@ == other@
    }
}

} // verus!
