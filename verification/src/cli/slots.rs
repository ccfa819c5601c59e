//! Commands on slots.

use vstd::prelude::*;
use crate::digest::{digest_bytes, HashDigest, HashWriter, hex_text};
use crate::operations::install::system::SlotState;
use crate::system::slots::{
    has_no_slot, is_first_named, law_slot_is_found_by_its_name, slot_named, Slot, SlotKind,
    SystemSlots,
};
use crate::text::concat;

verus! {

/// Why a command on a slot is refused.
#[derive(Debug, Clone, Copy, PartialEq, Eq, Structural)]
pub enum SlotError {
    /// The slot was not found.
    NotFound,
    /// There is no stored state for the slot.
    NoState { slot: usize },
    /// The slot is not immutable, so it cannot be verified.
    NotImmutable { slot: usize },
    /// There are no digests stored for the slot.
    NoHashes { slot: usize },
    /// The block device of the slot is absent.
    AbsentDevice { slot: usize },
    /// Custom slots have no data that can be read.
    CustomSlot { slot: usize },
}

/// Where the data of a slot is, or why there is none.
pub open spec fn data_path(slot: Slot, index: usize) -> Result<Seq<char>, SlotError> {
    match slot.kind {
        SlotKind::Block { device: Some(device) } => Ok(device@),
        SlotKind::Block { device: None } => Err(SlotError::AbsentDevice { slot: index }),
        SlotKind::File { path } => Ok(path@),
        SlotKind::Custom { .. } => Err(SlotError::CustomSlot { slot: index }),
    }
}

fn slot_data(slot: &Slot, index: usize) -> (r: Result<String, SlotError>)
    ensures
        match r {
            Ok(path) => data_path(*slot, index) == Ok::<Seq<char>, SlotError>(path@),
            Err(e) => data_path(*slot, index) == Err::<Seq<char>, SlotError>(e),
        },
{
    match &slot.kind {
        SlotKind::Block { device: Some(device) } => Ok(device.as_str().to_owned()),
        SlotKind::Block { device: None } => Err(SlotError::AbsentDevice { slot: index }),
        SlotKind::File { path } => Ok(path.as_str().to_owned()),
        SlotKind::Custom { .. } => Err(SlotError::CustomSlot { slot: index }),
    }
}

/// The slot that an index is created for and where its data is, or why it is refused.
pub open spec fn index_target(slots: Seq<Slot>, name: Seq<char>) -> Result<
    (usize, Seq<char>),
    SlotError,
> {
    match slot_named(slots, name, 0) {
        Some(index) => match data_path(slots[index as int], index) {
            Ok(path) => Ok((index, path)),
            Err(e) => Err(e),
        },
        None => Err(SlotError::NotFound),
    }
}

/// Finds the slot that an index is created for, and where its data is.
pub fn create_index(slots: &SystemSlots, name: &str) -> (r: Result<(usize, String), SlotError>)
    ensures
        match r {
            Ok((slot, path)) => index_target(slots.slots@, name@) == Ok::<
                (usize, Seq<char>),
                SlotError,
            >((slot, path@)),
            Err(e) => index_target(slots.slots@, name@) == Err::<(usize, Seq<char>), SlotError>(e),
        },
{
    match slots.find_by_name(name) {
        Some(index) => match slot_data(&slots.slots[index], index) {
            Ok(path) => Ok((index, path)),
            Err(e) => Err(e),
        },
        None => Err(SlotError::NotFound),
    }
}

/// Why a slot cannot be verified.
pub open spec fn verify_error(slots: Seq<Slot>, slot: usize, state: Option<SlotState>) -> Option<
    SlotError,
> {
    match state {
        None => Some(SlotError::NoState { slot }),
        Some(state) => if !slots[slot as int].immutable {
            Some(SlotError::NotImmutable { slot })
        } else if state.hashes@.len() == 0 {
            Some(SlotError::NoHashes { slot })
        } else {
            match data_path(slots[slot as int], slot) {
                Ok(_) => None,
                Err(e) => Some(e),
            }
        },
    }
}

/// Whether the data of a slot is at a path: on its block device, or in its file.
pub open spec fn has_data_at(slot: Slot, path: Seq<char>) -> bool {
    match slot.kind {
        SlotKind::Block { device } => device is Some && device->0@ == path,
        SlotKind::File { path: file } => file@ == path,
        SlotKind::Custom { .. } => false,
    }
}

/// An index is created for the slot of the given name, from where its data is. It is refused
/// only where there is no such slot or its data cannot be read.
pub proof fn law_index_is_created_for_the_named_slot(slots: Seq<Slot>, name: Seq<char>)
    requires
        slots.len() <= usize::MAX,
    ensures
        match index_target(slots, name) {
            Ok((slot, path)) => is_first_named(slots, name, slot as int) && has_data_at(
                slots[slot as int],
                path,
            ),
            Err(SlotError::NotFound) => has_no_slot(slots, name),
            Err(SlotError::AbsentDevice { slot }) => is_first_named(slots, name, slot as int)
                && !slots[slot as int].available(),
            Err(SlotError::CustomSlot { slot }) => is_first_named(slots, name, slot as int)
                && slots[slot as int].kind is Custom,
            Err(_) => false,
        },
{
    law_slot_is_found_by_its_name(slots, name);
}

/// A slot is verified exactly where a digest is stored of it that its data must still have,
/// and its data can be read.
pub proof fn law_only_immutable_slots_are_verified(
    slots: Seq<Slot>,
    slot: usize,
    state: Option<SlotState>,
)
    requires
        slot < slots.len(),
    ensures
        ({
            let of = slots[slot as int];
            let error = verify_error(slots, slot, state);
            &&& error is None <==> state is Some && state->0.hashes@.len() > 0 && of.immutable
                && exists|path: Seq<char>| has_data_at(of, path)
            &&& error == Some(SlotError::NoState { slot }) <==> state is None
            &&& error matches Some(SlotError::NotImmutable { .. }) ==> !of.immutable
            &&& error matches Some(SlotError::NoHashes { .. }) ==> state->0.hashes@.len() == 0
            &&& error matches Some(SlotError::AbsentDevice { .. }) ==> !of.available()
            &&& error matches Some(SlotError::CustomSlot { .. }) ==> of.kind is Custom
            &&& !(error matches Some(SlotError::NotFound))
        }),
{
    let of = slots[slot as int];
    if let Ok(path) = data_path(of, slot) {
        assert(has_data_at(of, path));
    }
}

/// The number of bytes of a read that are taken.
pub open spec fn taken(read: nat, remaining: nat) -> nat {
    if read < remaining {
        read
    } else {
        remaining
    }
}

/// A slot whose data is being verified against its stored digest.
pub struct SlotVerification {
    writer: HashWriter,
    expected: HashDigest,
    remaining: u64,
    /// Number of bytes that the digest is of, at most.
    size: u64,
}

impl SlotVerification {
    /// The data that was taken.
    pub closed spec fn hashed(self) -> Seq<u8> {
        self.writer.written()
    }

    /// The stored digest.
    pub closed spec fn expected(self) -> HashDigest {
        self.expected
    }

    /// The number of bytes that are still to be taken, at most.
    pub closed spec fn rest(self) -> nat {
        self.remaining as nat
    }

    #[verifier::type_invariant]
    spec fn consistent(self) -> bool {
        &&& self.writer.written().len() + self.remaining == self.size
        &&& self.writer.algorithm() == self.expected.algorithm
    }

    /// Begins to verify a slot, whose data is at the path. Only as many bytes as the stored
    /// state tells are taken.
    pub fn begin(slots: &SystemSlots, slot: usize, state: Option<SlotState>) -> (r: Result<
        (SlotVerification, String),
        SlotError,
    >)
        requires
            slot < slots.slots@.len(),
        ensures
            match r {
                Ok((verification, path)) => {
                    &&& verify_error(slots.slots@, slot, state) is None
                    &&& data_path(slots.slots@[slot as int], slot) == Ok::<Seq<char>, SlotError>(
                        path@,
                    )
                    &&& verification.hashed() == Seq::<u8>::empty()
                    &&& verification.expected()@ == state->0.hashes@[0]@
                    &&& verification.rest() == match state->0.size {
                        Some(size) => size,
                        None => u64::MAX,
                    }
                },
                Err(e) => verify_error(slots.slots@, slot, state) == Some(e),
            },
    {
        let state = match state {
            Some(state) => state,
            None => {
                return Err(SlotError::NoState { slot });
            },
        };
        if !slots.slots[slot].immutable {
            return Err(SlotError::NotImmutable { slot });
        }
        if state.hashes.len() == 0 {
            return Err(SlotError::NoHashes { slot });
        }
        let path = match slot_data(&slots.slots[slot], slot) {
            Ok(path) => path,
            Err(e) => {
                return Err(e);
            },
        };
        let expected = state.hashes[0].copy();
        let size: u64 = match state.size {
            Some(size) => size,
            None => u64::MAX,
        };
        let writer = HashWriter::new(expected.algorithm);
        Ok((SlotVerification { writer, expected, remaining: size, size }, path))
    }

    /// Whether more data is to be read.
    pub fn wants_more(&self) -> (r: bool)
        ensures
            r == (self.rest() > 0),
    {
        self.remaining > 0
    }

    /// Takes the first `read` bytes of a buffer, or as many of them as are still to be
    /// taken.
    pub fn take(self, buffer: &[u8], read: usize) -> (r: Self)
        requires
            read <= buffer@.len(),
        ensures
            r.expected() == self.expected(),
            r.hashed() == self.hashed() + buffer@.take(taken(read as nat, self.rest()) as int),
            r.rest() == self.rest() - taken(read as nat, self.rest()),
    {
        proof {
            use_type_invariant(&self);
        }
        let SlotVerification { writer, expected, remaining, size } = self;
        let count: usize = if (read as u64) < remaining {
            read
        } else {
            remaining as usize
        };
        let writer = writer.write(buffer, count);
        SlotVerification { writer, expected, remaining: remaining - count as u64, size }
    }

    /// Compares the digest of the data with the stored one. What is said of a mismatch names
    /// the slot and both digests.
    pub fn finish(self, slot_name: &str) -> (r: Result<(), String>)
        ensures
            ({
                let algorithm = self.expected().algorithm;
                let found = digest_bytes(algorithm.code(), self.hashed());
                &&& r is Ok == (self.expected().raw@ == found)
                &&& r matches Err(message) ==> message@ == "hash mismatch for slot "@ + slot_name@
                    + ": expected "@ + digest_text(self.expected())
                    + ", found "@ + (algorithm.name_text() + "_"@ + hex_text(found))
            }),
    {
        proof {
            use_type_invariant(&self);
        }
        let SlotVerification { writer, expected, .. } = self;
        let (found, _) = writer.finalize();
        if found.equals(&expected) {
            return Ok(());
        }
        let start = concat("hash mismatch for slot ", slot_name);
        let named = concat(start.as_str(), ": expected ");
        let first = concat(named.as_str(), expected.text().as_str());
        let second = concat(first.as_str(), ", found ");
        Err(concat(second.as_str(), found.text().as_str()))
    }
}

/// The text of a digest.
pub open spec fn digest_text(digest: HashDigest) -> Seq<char> {
    digest.algorithm.name_text() + "_"@ + hex_text(digest.raw@)
}

/// What is taken of the first `n` reads, where `size` bytes are to be taken at most.
pub open spec fn taken_data(reads: Seq<Seq<u8>>, size: nat, n: nat) -> Seq<u8>
    decreases n,
{
    if n == 0 || n > reads.len() {
        Seq::empty()
    } else {
        let before = taken_data(reads, size, (n - 1) as nat);
        let read = reads[n - 1];
        before + read.take(taken(read.len(), (size - before.len()) as nat) as int)
    }
}

/// All data of the first `n` reads.
pub open spec fn all_data(reads: Seq<Seq<u8>>, n: nat) -> Seq<u8>
    decreases n,
{
    if n == 0 || n > reads.len() {
        Seq::empty()
    } else {
        all_data(reads, (n - 1) as nat) + reads[n - 1]
    }
}

/// However the data of a slot is split into reads, what is taken is the data up to the
/// stored size.
pub proof fn law_slot_is_verified_up_to_its_size(reads: Seq<Seq<u8>>, size: nat, n: nat)
    requires
        n <= reads.len(),
    ensures
        taken_data(reads, size, n) == all_data(reads, n).take(
            taken(all_data(reads, n).len(), size) as int,
        ),
    decreases n,
{
    if n > 0 {
        law_slot_is_verified_up_to_its_size(reads, size, (n - 1) as nat);
        let before = all_data(reads, (n - 1) as nat);
        let read = reads[n - 1];
        let kept = taken_data(reads, size, (n - 1) as nat);
        assert(kept == before.take(taken(before.len(), size) as int));
        assert(taken_data(reads, size, n) =~= (before + read).take(
            taken((before + read).len(), size) as int,
        ));
    } else {
        assert(all_data(reads, 0).take(0) =~= Seq::<u8>::empty());
    }
}

} // verus!
