//! Storage on host memory: every allocation is a buffer of bytes on the heap.

use vstd::prelude::*;
use crate::memory::{
    bytes_at, lemma_total_bytes_insert, lemma_total_bytes_split, lemma_total_bytes_write, overlay,
    sizes, total_bytes, write_at, MemoryUsage,
};
use crate::storage::{
    resolvable, ByteRange, ComputeStorage, StorageError, StorageHandle, StorageId,
    StorageUtilization,
};

verus! {

/// What [`BytesStorage`] resolves a handle to: the place of the handle's
/// bytes, with the offset of a full chunk written out as zero.
#[derive(Clone, Copy, Debug, PartialEq, Eq, Hash, Structural)]
pub struct BytesResource {
    /// The allocation.
    pub id: StorageId,
    /// The offset in bytes from the start of the allocation.
    pub offset: usize,
    /// The number of bytes.
    pub size: usize,
}

impl View for BytesResource {
    type V = ByteRange;

    open spec fn view(&self) -> ByteRange {
        ByteRange { id: self.id, start: self.offset as nat, len: self.size as nat }
    }
}

/// A storage that keeps its allocations on the heap, up to a number of bytes
/// fixed when it is made.
///
/// Identities are positions in a table that only grows, so an identity is
/// never given out twice.
#[derive(Debug)]
pub struct BytesStorage {
    slots: Vec<Option<Vec<u8>>>,
    capacity: usize,
    in_use: usize,
    live: usize,
}

/// The offset of the first byte that a handle addresses: zero for a full
/// chunk.
fn start_of(handle: &StorageHandle) -> (start: usize)
    ensures
        start == handle.start(),
{
    match handle.utilization {
        StorageUtilization::Full(_) => 0,
        StorageUtilization::Slice { offset, size: _ } => offset,
    }
}

impl BytesStorage {
    /// The bytes of every live allocation.
    pub closed spec fn contents(&self) -> Map<StorageId, Seq<u8>> {
        Map::new(
            |id: StorageId| id.value < self.slots@.len() && self.slots@[id.value as int] is Some,
            |id: StorageId| self.slots@[id.value as int].unwrap()@,
        )
    }

    /// The number of bytes that the storage may hold at one time.
    pub closed spec fn capacity(&self) -> usize {
        self.capacity
    }

    /// An empty storage that may hold up to `capacity` bytes.
    pub fn new(capacity: usize) -> (storage: Self)
        ensures
            storage.wf(),
            storage.contents() == Map::<StorageId, Seq<u8>>::empty(),
            storage.capacity() == capacity,
    {
        let storage = BytesStorage { slots: Vec::new(), capacity, in_use: 0, live: 0 };
        assert(storage.contents() =~= Map::<StorageId, Seq<u8>>::empty());
        storage
    }

    /// The number of live allocations, the bytes they hold, and the bytes
    /// that the storage may hold.
    pub fn memory_usage(&self) -> (usage: MemoryUsage)
        requires
            self.wf(),
        ensures
            usage.describes(self.contents()),
            usage.bytes_reserved == self.capacity(),
    {
        MemoryUsage {
            number_allocs: self.live,
            bytes_in_use: self.in_use,
            bytes_reserved: self.capacity,
        }
    }

    /// Whether a handle can be resolved by this storage: its identity is live
    /// and its bytes lie inside the allocation.
    pub fn resolves(&self, handle: &StorageHandle) -> (found: bool)
        ensures
            found == resolvable(handle@, self.allocations()),
    {
        if handle.id.value >= self.slots.len() {
            return false;
        }
        let start = start_of(handle);
        match &self.slots[handle.id.value] {
            Some(buffer) => start <= buffer.len() && handle.size() <= buffer.len() - start,
            None => false,
        }
    }

    /// Copies out the bytes that a resource gives access to.
    pub fn read(&self, resource: &BytesResource) -> (bytes: Vec<u8>)
        requires
            self.wf(),
            resolvable(resource@, self.allocations()),
        ensures
            bytes@ == bytes_at(self.contents(), resource@),
    {
        match &self.slots[resource.id.value] {
            Some(buffer) => {
                assert(buffer@.len() == buffer.len());
                let window = vstd::slice::slice_subrange(
                    buffer.as_slice(),
                    resource.offset,
                    resource.offset + resource.size,
                );
                vstd::slice::slice_to_vec(window)
            },
            None => vstd::pervasive::unreached(),
        }
    }

    /// Writes `data` over the bytes that a resource gives access to.
    pub fn write(&mut self, resource: &BytesResource, data: &[u8])
        requires
            old(self).wf(),
            resolvable(resource@, old(self).allocations()),
            data@.len() == resource.size,
        ensures
            final(self).wf(),
            final(self).contents() == write_at(old(self).contents(), resource@, data@),
            final(self).capacity() == old(self).capacity(),
    {
        let slot = resource.id.value;
        let mut buffer: Vec<u8> = match self.slots[slot].take() {
            Some(buffer) => buffer,
            None => vstd::pervasive::unreached(),
        };
        let ghost before = buffer@;
        assert(before.len() == buffer.len());
        let mut i: usize = 0;
        while i < data.len()
            invariant
                i <= data@.len(),
                data@.len() == resource.size,
                resource.offset + resource.size <= before.len() <= usize::MAX,
                buffer@.len() == before.len(),
                forall|k: int|
                    0 <= k < before.len() ==> buffer@[k] == (if resource.offset <= k
                        < resource.offset + i {
                        data@[k - resource.offset]
                    } else {
                        before[k]
                    }),
            decreases data@.len() - i,
        {
            buffer[resource.offset + i] = data[i];
            i = i + 1;
        }
        assert(buffer@ =~= overlay(before, resource.offset as nat, data@));
        self.slots[slot] = Some(buffer);
        assert(final(self).contents() =~= write_at(old(self).contents(), resource@, data@));
        proof {
            lemma_total_bytes_write(old(self).contents(), resource@, data@);
        }
    }
}

impl ComputeStorage for BytesStorage {
    type Resource = BytesResource;

    open spec fn allocations(&self) -> Map<StorageId, nat> {
        sizes(self.contents())
    }

    closed spec fn wf(&self) -> bool {
        &&& self.contents().dom().finite()
        &&& self.live == self.contents().dom().len()
        &&& self.live <= self.slots@.len()
        &&& self.in_use == total_bytes(self.contents())
        &&& self.in_use <= self.capacity
    }

    open spec fn resource_range(resource: &BytesResource) -> ByteRange {
        resource@
    }

    fn get(&mut self, handle: &StorageHandle) -> (resource: BytesResource)
        ensures
            *final(self) == *old(self),
            resource@ == handle@,
    {
        BytesResource { id: handle.id, offset: start_of(handle), size: handle.size() }
    }

    fn allocate(&mut self, size: usize) -> (result: Result<StorageHandle, StorageError>)
        ensures
            result is Ok <==> total_bytes(old(self).contents()) + size <= old(self).capacity(),
            final(self).capacity() == old(self).capacity(),
            match result {
                Ok(handle) => final(self).contents() == old(self).contents().insert(
                    handle.id,
                    Seq::new(size as nat, |i: int| 0u8),
                ),
                Err(error) => {
                    &&& error == StorageError::OutOfMemory
                    &&& *final(self) == *old(self)
                },
            },
    {
        if size > self.capacity - self.in_use {
            return Err(StorageError::OutOfMemory);
        }
        let id = StorageId { value: self.slots.len() };
        let buffer = vec![0u8; size];
        assert(buffer@ =~= Seq::new(size as nat, |i: int| 0u8));
        self.slots.push(Some(buffer));
        assert(self.live < self.slots.len());
        self.in_use = self.in_use + size;
        self.live = self.live + 1;
        assert(final(self).contents() =~= old(self).contents().insert(id, buffer@));
        proof {
            lemma_total_bytes_insert(old(self).contents(), id, buffer@);
        }
        Ok(StorageHandle::new(id, StorageUtilization::Full(size)))
    }

    fn dealloc(&mut self, id: StorageId)
        ensures
            final(self).contents() == old(self).contents().remove(id),
            final(self).capacity() == old(self).capacity(),
    {
        if id.value < self.slots.len() {
            match self.slots[id.value].take() {
                Some(buffer) => {
                    proof {
                        lemma_total_bytes_split(old(self).contents(), id);
                    }
                    self.in_use = self.in_use - buffer.len();
                    self.live = self.live - 1;
                },
                None => {},
            }
        }
        assert(final(self).contents() =~= old(self).contents().remove(id));
        proof {
            if !old(self).contents().contains_key(id) {
                assert(old(self).contents().remove(id) =~= old(self).contents());
            }
        }
    }
}

} // verus!
