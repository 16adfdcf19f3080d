//! A model of the memory behind the identities: for each live identity, the
//! bytes of its allocation.

use vstd::prelude::*;
use crate::storage::{resolvable, ByteRange, StorageId};

verus! {

/// The number of bytes reserved for each live identity.
pub open spec fn sizes(memory: Map<StorageId, Seq<u8>>) -> Map<StorageId, nat> {
    memory.map_values(|bytes: Seq<u8>| bytes.len())
}

/// The number of bytes that all allocations hold together.
pub open spec fn total_bytes(memory: Map<StorageId, Seq<u8>>) -> nat
    decreases memory.dom().len(),
    when memory.dom().finite()
{
    if memory.dom().len() == 0 {
        0
    } else {
        let id = memory.dom().choose();
        memory[id].len() + total_bytes(memory.remove(id))
    }
}

/// Statistics on the memory that a backend holds.
#[derive(Clone, Copy, Debug, PartialEq, Eq, Hash, Structural)]
pub struct MemoryUsage {
    /// The number of live allocations.
    pub number_allocs: usize,
    /// The number of bytes that the live allocations hold together.
    pub bytes_in_use: usize,
    /// The number of bytes that the backend has set aside for allocations,
    /// in use or not.
    pub bytes_reserved: usize,
}

impl MemoryUsage {
    /// The statistics are those of this memory: they count its allocations,
    /// of which there are finitely many, and their bytes, and no more bytes
    /// are in use than are set aside.
    pub open spec fn describes(self, memory: Map<StorageId, Seq<u8>>) -> bool {
        &&& memory.dom().finite()
        &&& self.number_allocs == memory.dom().len()
        &&& self.bytes_in_use == total_bytes(memory)
        &&& self.bytes_in_use <= self.bytes_reserved
    }
}

/// The bytes that a range addresses.
pub open spec fn bytes_at(memory: Map<StorageId, Seq<u8>>, range: ByteRange) -> Seq<u8> {
    memory[range.id].subrange(range.start as int, range.end() as int)
}

/// `bytes` with `data` laid over it from position `start` on.
pub open spec fn overlay(bytes: Seq<u8>, start: nat, data: Seq<u8>) -> Seq<u8> {
    Seq::new(
        bytes.len(),
        |i: int|
            if start <= i < start + data.len() {
                data[i - start]
            } else {
                bytes[i]
            },
    )
}

/// The memory after `data` was written to the bytes that a range addresses.
/// Nothing else changes: no other allocation, no byte outside the range.
pub open spec fn write_at(memory: Map<StorageId, Seq<u8>>, range: ByteRange, data: Seq<u8>) -> Map<
    StorageId,
    Seq<u8>,
> {
    memory.insert(range.id, overlay(memory[range.id], range.start, data))
}

/// Two ranges have no byte in common.
pub open spec fn disjoint(a: ByteRange, b: ByteRange) -> bool {
    a.id != b.id || a.end() <= b.start || b.end() <= a.start
}

/// The total is the size of any one allocation plus the total of the rest.
pub proof fn lemma_total_bytes_split(memory: Map<StorageId, Seq<u8>>, id: StorageId)
    requires
        memory.dom().finite(),
        memory.contains_key(id),
    ensures
        total_bytes(memory) == memory[id].len() + total_bytes(memory.remove(id)),
    decreases memory.dom().len(),
{
    let first = memory.dom().choose();
    if first != id {
        lemma_total_bytes_split(memory.remove(first), id);
        lemma_total_bytes_split(memory.remove(id), first);
        assert(memory.remove(first).remove(id) =~= memory.remove(id).remove(first));
    }
}

/// An allocation under a new identity adds its size to the total.
pub proof fn lemma_total_bytes_insert(
    memory: Map<StorageId, Seq<u8>>,
    id: StorageId,
    bytes: Seq<u8>,
)
    requires
        memory.dom().finite(),
        !memory.contains_key(id),
    ensures
        total_bytes(memory.insert(id, bytes)) == total_bytes(memory) + bytes.len(),
{
    lemma_total_bytes_split(memory.insert(id, bytes), id);
    assert(memory.insert(id, bytes).remove(id) =~= memory);
}

/// A write leaves the total as it was.
pub proof fn lemma_total_bytes_write(
    memory: Map<StorageId, Seq<u8>>,
    range: ByteRange,
    data: Seq<u8>,
)
    requires
        memory.dom().finite(),
        memory.contains_key(range.id),
    ensures
        total_bytes(write_at(memory, range, data)) == total_bytes(memory),
{
    let after = write_at(memory, range, data);
    lemma_total_bytes_split(memory, range.id);
    lemma_total_bytes_split(after, range.id);
    assert(after.remove(range.id) =~= memory.remove(range.id));
}

/// What was written to a range is what the range then holds.
pub proof fn lemma_write_reads_back(
    memory: Map<StorageId, Seq<u8>>,
    range: ByteRange,
    data: Seq<u8>,
)
    requires
        resolvable(range, sizes(memory)),
        data.len() == range.len,
    ensures
        sizes(write_at(memory, range, data)) == sizes(memory),
        bytes_at(write_at(memory, range, data), range) == data,
{
}

/// A write through one range is seen through every other: a byte that both
/// ranges address holds, read through the other, what was written to it.
pub proof fn lemma_write_seen_through_overlap(
    memory: Map<StorageId, Seq<u8>>,
    range: ByteRange,
    data: Seq<u8>,
    other: ByteRange,
    position: int,
)
    requires
        resolvable(range, sizes(memory)),
        resolvable(other, sizes(memory)),
        data.len() == range.len,
        range.id == other.id,
        range.start <= position < range.end(),
        other.start <= position < other.end(),
    ensures
        bytes_at(write_at(memory, range, data), other)[position - other.start] == data[position
            - range.start],
{
}

/// A write to one range leaves what any range disjoint from it holds.
pub proof fn lemma_write_spares_disjoint(
    memory: Map<StorageId, Seq<u8>>,
    range: ByteRange,
    data: Seq<u8>,
    other: ByteRange,
)
    requires
        resolvable(range, sizes(memory)),
        resolvable(other, sizes(memory)),
        data.len() == range.len,
        disjoint(range, other),
    ensures
        bytes_at(write_at(memory, range, data), other) == bytes_at(memory, other),
{
}

} // verus!
