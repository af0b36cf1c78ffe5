//! The three persisted stores: the owner cell, the operator set and the
//! ledger, each in a memory region of its own.
//!
//! The stores are stable structures. Nothing in this file is proved: each
//! function states what the structure's method does, over what the store
//! holds, and the rest of the library is proved from these statements.
//!
//! Each structure is kept in a struct that Verus does not look into: the
//! structures take their memory as a parameter bound by a trait of their
//! crate, and Verus cannot be told of such a type directly.
//!
//! What a store holds is a function of the store as long as nothing else
//! writes to its region: the regions are opened once, and each is handed to
//! one store.

use crate::encoding::MAX_ENCODED_LEN;
use crate::error::OpenError;
use crate::identity::MAX_IDENTITY_LEN;
use ic_principal::Principal;
use ic_stable_structures::cell::InitError;
use ic_stable_structures::memory_manager::{MemoryId, MemoryManager, VirtualMemory};
use ic_stable_structures::storable::Blob;
use ic_stable_structures::{DefaultMemoryImpl, StableBTreeMap, StableCell};
use vstd::prelude::*;

verus! {

/// Why a cell could not be opened: `InitError` of the cell.
#[verifier::external_type_specification]
#[verifier::external_body]
pub struct ExInitError(InitError);

/// The `MemoryManager` that divides the default memory into regions.
#[verifier::external_body]
pub struct Regions {
    inner: MemoryManager<DefaultMemoryImpl>,
}

/// One region of the memory: a `VirtualMemory` of the manager.
#[verifier::external_body]
pub struct Region {
    inner: VirtualMemory<DefaultMemoryImpl>,
}

/// The `StableCell` that holds the owner, a principal.
#[verifier::external_body]
pub struct OwnerCell {
    inner: StableCell<Principal, VirtualMemory<DefaultMemoryImpl>>,
}

/// The set of operators: a `StableBTreeMap` from principals to nothing.
#[verifier::external_body]
pub struct OperatorStore {
    inner: StableBTreeMap<Principal, (), VirtualMemory<DefaultMemoryImpl>>,
}

/// The ledger: a `StableBTreeMap` from byte strings of up to 32 bytes to
/// such strings. The map orders its keys by their bytes, not by the numbers
/// that they spell; the library looks keys up and never walks the map.
#[verifier::external_body]
pub struct LedgerStore {
    inner: StableBTreeMap<Blob<32>, Blob<32>, VirtualMemory<DefaultMemoryImpl>>,
}

/// The bytes of the principal in the cell.
pub uninterp spec fn owner_bytes(cell: OwnerCell) -> Seq<u8>;

/// The bytes of each principal in the set.
pub uninterp spec fn operator_set(store: OperatorStore) -> Set<Seq<u8>>;

/// The entries of the ledger, keys and values as the bytes that are stored.
pub uninterp spec fn ledger_entries(store: LedgerStore) -> Map<Seq<u8>, Seq<u8>>;

/// Tells the variants of `InitError` apart and moves their fields over.
#[verifier::external_body]
pub(crate) fn open_error(e: InitError) -> (r: OpenError) {
    match e {
        InitError::IncompatibleVersion { last_supported_version, decoded_version } => {
            OpenError::IncompatibleVersion { last_supported_version, decoded_version }
        },
        InitError::ValueTooLarge { value_size } => OpenError::ValueTooLarge { value_size },
    }
}

impl Regions {
    /// Calls `MemoryManager::init` on the default memory. What the regions
    /// hold is what the memory held, so nothing is said of it here; a new
    /// memory holds nothing.
    #[verifier::external_body]
    pub(crate) fn open() -> (r: Regions) {
        Regions { inner: MemoryManager::init(DefaultMemoryImpl::default()) }
    }

    /// Calls `MemoryManager::get` for the region with this number, which
    /// `MemoryId::new` takes unless it is 255.
    #[verifier::external_body]
    pub(crate) fn region(&self, id: u8) -> (r: Region)
        requires
            id != 255,
    {
        Region { inner: self.inner.get(MemoryId::new(id)) }
    }
}

impl OwnerCell {
    /// Calls `StableCell::init`: the cell that the region holds, or, where it
    /// holds none, a new cell with the principal of `unset`. Which of the
    /// two, and whether the call fails, lies with the region. Either way the
    /// cell holds a principal, and a principal has 29 bytes at most.
    #[verifier::external_body]
    pub(crate) fn open(region: Region, unset: &[u8]) -> (r: Result<OwnerCell, InitError>)
        requires
            unset@.len() <= MAX_IDENTITY_LEN,
        ensures
            r matches Ok(cell) ==> owner_bytes(cell).len() <= MAX_IDENTITY_LEN,
    {
        match StableCell::init(region.inner, Principal::from_slice(unset)) {
            Ok(cell) => Ok(OwnerCell { inner: cell }),
            Err(e) => Err(e),
        }
    }

    /// Calls `StableCell::new`, which writes a new cell with the principal of
    /// `owner` into the region, over whatever the region held. It fails
    /// where the memory cannot take the value; `InitError::from` carries
    /// that over.
    #[verifier::external_body]
    pub(crate) fn create(region: Region, owner: &[u8]) -> (r: Result<OwnerCell, InitError>)
        requires
            owner@.len() <= MAX_IDENTITY_LEN,
        ensures
            r matches Ok(cell) ==> owner_bytes(cell) == owner@,
    {
        match StableCell::new(region.inner, Principal::from_slice(owner)) {
            Ok(cell) => Ok(OwnerCell { inner: cell }),
            Err(e) => Err(InitError::from(e)),
        }
    }

    /// Calls `StableCell::get` and copies out the principal's bytes, which
    /// are 29 at most.
    #[verifier::external_body]
    pub(crate) fn get(&self) -> (r: Vec<u8>)
        ensures
            r@ == owner_bytes(*self),
            r@.len() <= MAX_IDENTITY_LEN,
    {
        self.inner.get().as_slice().to_vec()
    }

    /// Calls `StableCell::set` with the principal of `owner`. The call fails
    /// only where the value does not fit the cell's memory; an open cell has
    /// a page of memory or more and a principal takes 29 bytes at most, so
    /// here it replaces the value.
    #[verifier::external_body]
    pub(crate) fn set(&mut self, owner: &[u8])
        requires
            owner@.len() <= MAX_IDENTITY_LEN,
        ensures
            owner_bytes(*final(self)) == owner@,
    {
        self.inner.set(Principal::from_slice(owner)).unwrap();
    }
}

impl OperatorStore {
    /// Calls `StableBTreeMap::init`: the map that the region holds, or a new
    /// and empty one. Which of the two lies with the region. Either way its
    /// keys are principals, of 29 bytes at most.
    #[verifier::external_body]
    pub(crate) fn open(region: Region) -> (r: OperatorStore)
        ensures
            forall|id: Seq<u8>| #[trigger]
                operator_set(r).contains(id) ==> id.len() <= MAX_IDENTITY_LEN,
    {
        OperatorStore { inner: StableBTreeMap::init(region.inner) }
    }

    /// Calls `StableBTreeMap::new`, which writes a new map into the region,
    /// over whatever the region held: a map without keys.
    #[verifier::external_body]
    pub(crate) fn create(region: Region) -> (r: OperatorStore)
        ensures
            operator_set(r) == Set::<Seq<u8>>::empty(),
    {
        OperatorStore { inner: StableBTreeMap::new(region.inner) }
    }

    /// Calls `StableBTreeMap::contains_key` with the principal of `id`. Two
    /// principals are one key exactly when their bytes are the same.
    #[verifier::external_body]
    pub(crate) fn contains(&self, id: &[u8]) -> (r: bool)
        requires
            id@.len() <= MAX_IDENTITY_LEN,
        ensures
            r == operator_set(*self).contains(id@),
    {
        self.inner.contains_key(&Principal::from_slice(id))
    }

    /// Calls `StableBTreeMap::insert` with the principal of `id` as the key:
    /// the key is in the map afterwards, and every other key stays as it was.
    #[verifier::external_body]
    pub(crate) fn insert(&mut self, id: &[u8])
        requires
            id@.len() <= MAX_IDENTITY_LEN,
        ensures
            operator_set(*final(self)) == operator_set(*old(self)).insert(id@),
    {
        self.inner.insert(Principal::from_slice(id), ());
    }
}

impl LedgerStore {
    /// Calls `StableBTreeMap::init`: the map that the region holds, or a new
    /// and empty one. Which of the two lies with the region. Either way its
    /// values are `Blob`s of 32 bytes at most.
    #[verifier::external_body]
    pub(crate) fn open(region: Region) -> (r: LedgerStore)
        ensures
            forall|key: Seq<u8>| #[trigger]
                ledger_entries(r).contains_key(key) ==> ledger_entries(r)[key].len()
                    <= MAX_ENCODED_LEN,
    {
        LedgerStore { inner: StableBTreeMap::init(region.inner) }
    }

    /// Calls `StableBTreeMap::new`, which writes a new map into the region,
    /// over whatever the region held: a map without entries.
    #[verifier::external_body]
    pub(crate) fn create(region: Region) -> (r: LedgerStore)
        ensures
            forall|key: Seq<u8>| !(#[trigger] ledger_entries(r).contains_key(key)),
    {
        LedgerStore { inner: StableBTreeMap::new(region.inner) }
    }

    /// Calls `StableBTreeMap::get` with the `Blob` of `key`: the value stored
    /// under `key`, if there is one. Two blobs are one key exactly when their
    /// bytes are the same.
    #[verifier::external_body]
    pub(crate) fn get(&self, key: &[u8]) -> (r: Option<Vec<u8>>)
        requires
            key@.len() <= MAX_ENCODED_LEN,
        ensures
            match r {
                Some(value) => ledger_entries(*self).contains_key(key@) && value@
                    == ledger_entries(*self)[key@],
                None => !ledger_entries(*self).contains_key(key@),
            },
    {
        self.inner.get(&Blob::try_from(key).unwrap()).map(|value| value.as_slice().to_vec())
    }

    /// Calls `StableBTreeMap::insert` with the `Blob`s of `key` and `value`:
    /// `value` is stored under `key`, in place of what was there, and every
    /// other entry stays as it was.
    #[verifier::external_body]
    pub(crate) fn insert(&mut self, key: &[u8], value: &[u8])
        requires
            key@.len() <= MAX_ENCODED_LEN,
            value@.len() <= MAX_ENCODED_LEN,
        ensures
            ledger_entries(*final(self)) == ledger_entries(*old(self)).insert(key@, value@),
    {
        self.inner.insert(Blob::try_from(key).unwrap(), Blob::try_from(value).unwrap());
    }
}

} // verus!
