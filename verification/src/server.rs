//! The dispatch contract: what a compute backend owes the client that moves
//! data to and from it and submits kernels to it.
//!
//! The contract is stated for one caller at a time, over a model of the
//! backend's memory. A channel that many callers share hands their requests
//! to a server one after the other.

use vstd::prelude::*;
use cubecl_common::stub::Duration;
use crate::memory::{bytes_at, disjoint, sizes, MemoryUsage};
use crate::storage::{
    resolvable, BindingResource, ByteRange, ComputeStorage, StorageError, StorageHandle, StorageId,
    StorageUtilization,
};

verus! {

/// What a client holds for memory that a server has reserved for it.
pub type Handle = StorageHandle;

/// What a kernel execution, or a read, is given to address memory with.
pub type Binding = StorageHandle;

/// The safety policy of one kernel execution.
#[derive(Clone, Copy, Debug, PartialEq, Eq, Hash, Structural)]
pub enum ExecutionMode {
    /// The server validates that the kernel stays within its bindings, and
    /// reports a violation.
    Checked,
    /// The server validates nothing: that the kernel stays within its
    /// bindings is for the caller to have established.
    Unchecked,
}

/// The launch shape of a kernel execution: the number of cubes along each of
/// three axes.
#[derive(Clone, Copy, Debug, PartialEq, Eq, Hash, Structural)]
pub struct CubeCount {
    /// Cubes along the first axis.
    pub x: u32,
    /// Cubes along the second axis.
    pub y: u32,
    /// Cubes along the third axis.
    pub z: u32,
}

/// Why a kernel execution was not carried out.
#[derive(Clone, Copy, Debug, PartialEq, Eq, Hash, Structural)]
pub enum ExecutionError {
    /// The kernel, launched with this shape, would have accessed memory
    /// outside its bindings.
    OutOfBounds,
}

impl CubeCount {
    /// The number that [`num_cubes`](CubeCount::num_cubes) returns.
    pub open spec fn spec_num_cubes(&self) -> u128 {
        (self.x * self.y * self.z) as u128
    }

    /// The number of cubes in the whole launch: the product of the three
    /// axes.
    #[verifier::when_used_as_spec(spec_num_cubes)]
    pub fn num_cubes(&self) -> (cubes: u128)
        ensures
            cubes == self.spec_num_cubes(),
            cubes == self.x * self.y * self.z,
    {
        let x = self.x as u128;
        let y = self.y as u128;
        let z = self.z as u128;
        assert(x * y <= 0xffff_ffff * 0xffff_ffff) by (nonlinear_arith)
            requires
                x <= 0xffff_ffff,
                y <= 0xffff_ffff,
        ;
        assert(x * y * z <= 0xffff_ffff * 0xffff_ffff * 0xffff_ffff) by (nonlinear_arith)
            requires
                x * y <= 0xffff_ffff * 0xffff_ffff,
                z <= 0xffff_ffff,
        ;
        x * y * z
    }
}

/// Some binding addresses byte `position` of the allocation `id`.
pub open spec fn bound(bindings: Seq<Binding>, id: StorageId, position: int) -> bool {
    exists|k: int|
        0 <= k < bindings.len() && (#[trigger] bindings[k]).id == id && bindings[k]@.start
            <= position < bindings[k]@.end()
}

/// Every binding can be resolved against the memory.
pub open spec fn all_resolvable(bindings: Seq<Binding>, memory: Map<StorageId, Seq<u8>>) -> bool {
    forall|k: int| 0 <= k < bindings.len() ==> resolvable((#[trigger] bindings[k])@, sizes(memory))
}

/// Between `before` and `after` no allocation was made, released or resized,
/// and no byte changed that none of the bindings addresses.
pub open spec fn confined(
    before: Map<StorageId, Seq<u8>>,
    after: Map<StorageId, Seq<u8>>,
    bindings: Seq<Binding>,
) -> bool {
    &&& sizes(after) == sizes(before)
    &&& forall|id: StorageId, position: int|
        before.contains_key(id) && 0 <= position < before[id].len() && !bound(
            bindings,
            id,
            position,
        ) ==> #[trigger] after[id][position] == before[id][position]
}

/// `after` is `before` with one more allocation: a new identity, spanned
/// whole by `handle`, which holds `data`.
pub open spec fn uploaded(
    before: Map<StorageId, Seq<u8>>,
    after: Map<StorageId, Seq<u8>>,
    data: Seq<u8>,
    handle: Handle,
) -> bool {
    &&& handle.utilization == StorageUtilization::Full(data.len() as usize)
    &&& data.len() <= usize::MAX
    &&& !before.contains_key(handle.id)
    &&& after == before.insert(handle.id, data)
}

/// A compute backend, as one caller at a time sees it.
///
/// The memory of the backend is modelled as the bytes of each live
/// allocation. What a kernel does is the implementor's to say: whether a
/// launch stays within its bindings, and what it leaves in memory.
pub trait ComputeServer: Send + Sized {
    /// The kernel type defines the computation algorithms.
    type Kernel: Send;

    /// The storage that the server resolves bindings with.
    type Storage: ComputeStorage;

    /// The bytes of every live allocation.
    spec fn memory(&self) -> Map<StorageId, Seq<u8>>;

    /// What the server keeps true of its own state between calls.
    spec fn wf(&self) -> bool;

    /// Every access that the kernel makes, launched with this shape on these
    /// bindings, falls on a byte that the binding it goes through addresses.
    spec fn in_bounds(kernel: Self::Kernel, count: CubeCount, bindings: Seq<Binding>) -> bool;

    /// The memory that a launch which stays within its bindings leaves.
    spec fn effect(
        kernel: Self::Kernel,
        count: CubeCount,
        bindings: Seq<Binding>,
        memory: Map<StorageId, Seq<u8>>,
    ) -> Map<StorageId, Seq<u8>>;

    /// Given a binding, returns owned resource as bytes.
    ///
    /// The bytes are those that the binding addresses, as the requests made
    /// before this one left them.
    fn read(&mut self, binding: Binding) -> (bytes: Vec<u8>)
        requires
            old(self).wf(),
            resolvable(binding@, sizes(old(self).memory())),
        ensures
            final(self).wf(),
            final(self).memory() == old(self).memory(),
            bytes@ == bytes_at(old(self).memory(), binding@),
    ;

    /// Given a resource handle, returns the storage resource.
    fn get_resource(&mut self, binding: Binding) -> (resource: BindingResource<Self>)
        requires
            old(self).wf(),
            resolvable(binding@, sizes(old(self).memory())),
        ensures
            final(self).wf(),
            final(self).memory() == old(self).memory(),
            <Self::Storage as ComputeStorage>::resource_range(&resource) == binding@,
    ;

    /// Given a resource as bytes, stores it and returns the resource handle.
    ///
    /// On failure nothing changes.
    fn create(&mut self, data: &[u8]) -> (result: Result<Handle, StorageError>)
        requires
            old(self).wf(),
        ensures
            final(self).wf(),
            match result {
                Ok(handle) => uploaded(old(self).memory(), final(self).memory(), data@, handle),
                Err(_) => final(self).memory() == old(self).memory(),
            },
    ;

    /// Reserves `size` bytes in the storage, and returns a handle over them.
    ///
    /// Nothing is promised of what the bytes hold. On failure nothing
    /// changes.
    fn empty(&mut self, size: usize) -> (result: Result<Handle, StorageError>)
        requires
            old(self).wf(),
        ensures
            final(self).wf(),
            match result {
                Ok(handle) => exists|bytes: Seq<u8>|
                    bytes.len() == size && #[trigger] uploaded(
                        old(self).memory(),
                        final(self).memory(),
                        bytes,
                        handle,
                    ),
                Err(_) => final(self).memory() == old(self).memory(),
            },
    ;

    /// Executes the `kernel` over the given `bindings`.
    ///
    /// With [`ExecutionMode::Checked`] a launch that would leave its bindings
    /// is refused, and memory stays as it was. With
    /// [`ExecutionMode::Unchecked`] nothing is validated, and only a launch
    /// that stays within its bindings is accepted.
    fn execute(
        &mut self,
        kernel: Self::Kernel,
        count: CubeCount,
        bindings: Vec<Binding>,
        mode: ExecutionMode,
    ) -> (result: Result<(), ExecutionError>)
        requires
            old(self).wf(),
            all_resolvable(bindings@, old(self).memory()),
            mode is Unchecked ==> Self::in_bounds(kernel, count, bindings@),
        ensures
            final(self).wf(),
            result is Ok <==> Self::in_bounds(kernel, count, bindings@),
            result is Ok ==> final(self).memory() == Self::effect(
                kernel,
                count,
                bindings@,
                old(self).memory(),
            ),
            result is Err ==> result == Err::<(), ExecutionError>(ExecutionError::OutOfBounds)
                && final(self).memory() == old(self).memory(),
            confined(old(self).memory(), final(self).memory(), bindings@),
    ;

    /// Flush outstanding work of the server.
    fn flush(&mut self)
        requires
            old(self).wf(),
        ensures
            final(self).wf(),
            final(self).memory() == old(self).memory(),
    ;

    /// Waits for the work submitted so far to be done.
    ///
    /// Returns the (approximate) total amount of device work done since the
    /// last sync.
    fn sync(&mut self) -> (elapsed: Duration)
        requires
            old(self).wf(),
        ensures
            final(self).wf(),
            final(self).memory() == old(self).memory(),
    ;

    /// Get the current memory usage of the server.
    fn memory_usage(&self) -> (usage: MemoryUsage)
        requires
            self.wf(),
        ensures
            usage.describes(self.memory()),
    ;
}

/// What was uploaded can be read back: the handle that an upload returned
/// can be resolved, and the bytes it addresses are the bytes uploaded.
pub proof fn lemma_upload_reads_back(
    before: Map<StorageId, Seq<u8>>,
    after: Map<StorageId, Seq<u8>>,
    data: Seq<u8>,
    handle: Handle,
)
    requires
        uploaded(before, after, data, handle),
    ensures
        resolvable(handle@, sizes(after)),
        bytes_at(after, handle@) == data,
{
}

/// An upload leaves what was there: a range that could be resolved before
/// can be resolved after, and holds the same bytes.
pub proof fn lemma_upload_spares_others(
    before: Map<StorageId, Seq<u8>>,
    after: Map<StorageId, Seq<u8>>,
    data: Seq<u8>,
    handle: Handle,
    range: ByteRange,
)
    requires
        uploaded(before, after, data, handle),
        resolvable(range, sizes(before)),
    ensures
        resolvable(range, sizes(after)),
        bytes_at(after, range) == bytes_at(before, range),
{
}

/// A launch leaves what it was not given: a range that no binding of the
/// launch shares a byte with holds the same bytes after as before.
pub proof fn lemma_launch_spares_unbound(
    before: Map<StorageId, Seq<u8>>,
    after: Map<StorageId, Seq<u8>>,
    bindings: Seq<Binding>,
    range: ByteRange,
)
    requires
        confined(before, after, bindings),
        resolvable(range, sizes(before)),
        forall|k: int| 0 <= k < bindings.len() ==> disjoint((#[trigger] bindings[k])@, range),
    ensures
        resolvable(range, sizes(after)),
        bytes_at(after, range) == bytes_at(before, range),
{
}

} // verus!
