//! Storage handles: an identity for one physical allocation, paired with the
//! byte range of that allocation which the handle addresses.

use vstd::prelude::*;
use crate::server::ComputeServer;

verus! {

/// Identity of one physical allocation.
///
/// An identity carries no size and no lifetime: the backend that minted it
/// owns the mapping from identity to memory.
#[derive(Clone, Copy, Debug, PartialEq, Eq, Hash, Structural)]
pub struct StorageId {
    /// The number the backend minted this identity from.
    pub value: usize,
}

/// Defines if data uses a full memory chunk or a slice of it.
#[derive(Clone, Copy, Debug, PartialEq, Eq, Hash, Structural)]
pub enum StorageUtilization {
    /// Full memory chunk of specified size.
    Full(usize),
    /// Slice of memory chunk with start index and size.
    Slice {
        /// The offset in bytes from the chunk start.
        offset: usize,
        /// The size of the slice in bytes.
        size: usize,
    },
}

/// Contains the [storage id](StorageId) of a resource and the way it is used.
#[derive(Clone, Copy, Debug, PartialEq, Eq, Hash, Structural)]
pub struct StorageHandle {
    /// Storage id.
    pub id: StorageId,
    /// How the storage is used.
    pub utilization: StorageUtilization,
}

/// A run of bytes inside one allocation: what a handle addresses, whichever
/// way its utilization is written down.
pub struct ByteRange {
    /// The allocation.
    pub id: StorageId,
    /// Position of the first byte, counted from the start of the allocation.
    pub start: nat,
    /// Number of bytes.
    pub len: nat,
}

impl ByteRange {
    /// Position just past the last byte.
    pub open spec fn end(self) -> nat {
        self.start + self.len
    }

    /// Every byte of `inner` is a byte of `self`.
    pub open spec fn contains(self, inner: ByteRange) -> bool {
        &&& self.id == inner.id
        &&& self.start <= inner.start
        &&& inner.end() <= self.end()
    }
}

impl View for StorageHandle {
    type V = ByteRange;

    open spec fn view(&self) -> ByteRange {
        ByteRange { id: self.id, start: self.start() as nat, len: self.spec_size() as nat }
    }
}

impl StorageHandle {
    /// Pairs an identity with the way its memory is used.
    pub fn new(id: StorageId, utilization: StorageUtilization) -> (handle: Self)
        ensures
            handle.id == id,
            handle.utilization == utilization,
    {
        Self { id, utilization }
    }

    /// The size that [`size`](StorageHandle::size) returns.
    pub open spec fn spec_size(&self) -> usize {
        match self.utilization {
            StorageUtilization::Full(size) => size,
            StorageUtilization::Slice { offset: _, size } => size,
        }
    }

    /// Position, within the allocation, of the first byte addressed. A full
    /// chunk starts where its allocation starts.
    pub open spec fn start(&self) -> usize {
        match self.utilization {
            StorageUtilization::Full(_) => 0,
            StorageUtilization::Slice { offset, size: _ } => offset,
        }
    }

    /// The handle that [`offset_start`](StorageHandle::offset_start) returns.
    pub open spec fn spec_offset_start(&self, offset_bytes: usize) -> StorageHandle {
        StorageHandle {
            id: self.id,
            utilization: StorageUtilization::Slice {
                offset: (self.start() + offset_bytes) as usize,
                size: (self.spec_size() - offset_bytes) as usize,
            },
        }
    }

    /// The handle that [`offset_end`](StorageHandle::offset_end) returns.
    pub open spec fn spec_offset_end(&self, offset_bytes: usize) -> StorageHandle {
        StorageHandle {
            id: self.id,
            utilization: StorageUtilization::Slice {
                offset: self.start(),
                size: (self.spec_size() - offset_bytes) as usize,
            },
        }
    }

    /// Returns the size the handle is pointing to in memory.
    #[verifier::when_used_as_spec(spec_size)]
    pub fn size(&self) -> (size: usize)
        ensures
            size == self.spec_size(),
            self.utilization matches StorageUtilization::Full(s) ==> size == s,
            self.utilization matches StorageUtilization::Slice { offset: _, size: s } ==> size
                == s,
    {
        match self.utilization {
            StorageUtilization::Full(size) => size,
            StorageUtilization::Slice { offset: _, size } => size,
        }
    }

    /// Returns the offset, in bytes from the chunk start, of a slice.
    ///
    /// Only a slice has an offset: a handle on a full chunk is not accepted.
    pub fn offset(&self) -> (offset: usize)
        requires
            self.utilization is Slice,
        ensures
            offset == self.start(),
            self.utilization == (StorageUtilization::Slice { offset, size: self.size() }),
    {
        match self.utilization {
            StorageUtilization::Full(..) => vstd::pervasive::unreached(),
            StorageUtilization::Slice { offset, .. } => offset,
        }
    }

    /// Increase the current offset with the given value in bytes.
    ///
    /// The region loses its first `offset_bytes` bytes and keeps its end. The
    /// result is always a slice, of the same allocation. With `offset_bytes`
    /// equal to the size it is the empty region at the end; more than the
    /// size is not accepted.
    #[verifier::when_used_as_spec(spec_offset_start)]
    pub fn offset_start(&self, offset_bytes: usize) -> (handle: Self)
        requires
            offset_bytes <= self.size(),
            self.start() + offset_bytes <= usize::MAX,
        ensures
            handle == self.spec_offset_start(offset_bytes),
            handle.id == self.id,
            handle.utilization is Slice,
            handle.size() == self.size() - offset_bytes,
            handle.start() == self.start() + offset_bytes,
            self.utilization matches StorageUtilization::Full(s) ==> handle.utilization == (
            StorageUtilization::Slice { offset: offset_bytes, size: (s - offset_bytes) as usize }),
            handle@.end() == self@.end(),
            self@.contains(handle@),
    {
        let utilization = match self.utilization {
            StorageUtilization::Full(size) => StorageUtilization::Slice {
                offset: offset_bytes,
                size: size - offset_bytes,
            },
            StorageUtilization::Slice { offset, size } => StorageUtilization::Slice {
                offset: offset + offset_bytes,
                size: size - offset_bytes,
            },
        };

        Self { id: self.id, utilization }
    }

    /// Reduce the size of the memory handle.
    ///
    /// The region loses its last `offset_bytes` bytes and keeps its start. The
    /// result is always a slice, of the same allocation. With `offset_bytes`
    /// equal to the size it is the empty region at the start; more than the
    /// size is not accepted.
    #[verifier::when_used_as_spec(spec_offset_end)]
    pub fn offset_end(&self, offset_bytes: usize) -> (handle: Self)
        requires
            offset_bytes <= self.size(),
        ensures
            handle == self.spec_offset_end(offset_bytes),
            handle.id == self.id,
            handle.utilization is Slice,
            handle.size() == self.size() - offset_bytes,
            handle.start() == self.start(),
            self.utilization is Full ==> handle.start() == 0,
            handle@.start == self@.start,
            self@.contains(handle@),
    {
        let utilization = match self.utilization {
            StorageUtilization::Full(size) => StorageUtilization::Slice {
                offset: 0,
                size: size - offset_bytes,
            },
            StorageUtilization::Slice { offset, size } => StorageUtilization::Slice {
                offset,
                size: size - offset_bytes,
            },
        };

        Self { id: self.id, utilization }
    }
}

/// Shrinking from the front by `a` and then by `b` gives the handle that
/// shrinking from the front by `a + b` gives.
pub proof fn lemma_offset_start_composes(handle: StorageHandle, a: usize, b: usize)
    requires
        a + b <= handle.size(),
        handle.start() + a + b <= usize::MAX,
    ensures
        handle.offset_start(a).offset_start(b) == handle.offset_start((a + b) as usize),
{
}

/// Shrinking from the back by `a` and then by `b` gives the handle that
/// shrinking from the back by `a + b` gives.
pub proof fn lemma_offset_end_composes(handle: StorageHandle, a: usize, b: usize)
    requires
        a + b <= handle.size(),
    ensures
        handle.offset_end(a).offset_end(b) == handle.offset_end((a + b) as usize),
{
}

/// Shrinking from the front and shrinking from the back can be done in either
/// order.
pub proof fn lemma_offset_start_end_commute(handle: StorageHandle, front: usize, back: usize)
    requires
        front + back <= handle.size(),
        handle.start() + front <= usize::MAX,
    ensures
        handle.offset_start(front).offset_end(back) == handle.offset_end(back).offset_start(
            front,
        ),
{
}

/// Why a storage backend could not serve a request.
#[derive(Clone, Copy, Debug, PartialEq, Eq, Hash, Structural)]
pub enum StorageError {
    /// The backend has no room left for an allocation of the requested size.
    OutOfMemory,
}

/// A range can be resolved against these allocations: its identity is live
/// and its bytes lie inside what was reserved for that identity.
pub open spec fn resolvable(range: ByteRange, allocations: Map<StorageId, nat>) -> bool {
    &&& allocations.contains_key(range.id)
    &&& range.end() <= allocations[range.id]
}

/// What can be resolved can be resolved in every part: a range that lies
/// inside a resolvable range is resolvable. So is every handle derived, by
/// [`offset_start`](StorageHandle::offset_start) and
/// [`offset_end`](StorageHandle::offset_end), from a handle that is.
pub proof fn lemma_part_resolvable(
    whole: ByteRange,
    part: ByteRange,
    allocations: Map<StorageId, nat>,
)
    requires
        resolvable(whole, allocations),
        whole.contains(part),
    ensures
        resolvable(part, allocations),
{
}

/// Storage types are responsible for allocating and deallocating memory.
pub trait ComputeStorage: Send + Sized {
    /// The resource associated type determines the way data is implemented and how
    /// it can be accessed by kernels.
    type Resource: Send;

    /// The live identities, each with the number of bytes reserved for it.
    spec fn allocations(&self) -> Map<StorageId, nat>;

    /// What the backend keeps true of its own state between calls.
    spec fn wf(&self) -> bool;

    /// The bytes that a resource gives access to.
    spec fn resource_range(resource: &Self::Resource) -> ByteRange;

    /// Returns the underlying resource for a specified storage handle.
    ///
    /// The resource gives access to the bytes that the handle addresses, so
    /// two resources got for one handle give access to the same bytes.
    /// Nothing is allocated or released.
    fn get(&mut self, handle: &StorageHandle) -> (resource: Self::Resource)
        requires
            old(self).wf(),
            resolvable(handle@, old(self).allocations()),
        ensures
            final(self).wf(),
            final(self).allocations() == old(self).allocations(),
            Self::resource_range(&resource) == handle@,
    ;

    /// Allocates `size` units of memory and returns a handle to it.
    ///
    /// On success the handle spans the whole of a new allocation, under an
    /// identity that no live allocation has. On failure nothing changes.
    fn allocate(&mut self, size: usize) -> (result: Result<StorageHandle, StorageError>)
        requires
            old(self).wf(),
        ensures
            final(self).wf(),
            match result {
                Ok(handle) => {
                    &&& handle.utilization == StorageUtilization::Full(size)
                    &&& !old(self).allocations().contains_key(handle.id)
                    &&& final(self).allocations() == old(self).allocations().insert(
                        handle.id,
                        size as nat,
                    )
                },
                Err(_) => final(self).allocations() == old(self).allocations(),
            },
    ;

    /// Deallocates the memory pointed by the given storage id.
    ///
    /// Every handle on that identity stops being resolvable.
    fn dealloc(&mut self, id: StorageId)
        requires
            old(self).wf(),
        ensures
            final(self).wf(),
            final(self).allocations() == old(self).allocations().remove(id),
    ;
}

/// The resource that a server's storage resolves a binding to.
pub type BindingResource<Server> =
    <<Server as ComputeServer>::Storage as ComputeStorage>::Resource;

} // verus!
