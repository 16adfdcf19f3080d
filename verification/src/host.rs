//! A server on host memory: the dispatch contract carried out on the heap,
//! with kernels that the processor runs itself.

use vstd::prelude::*;
use cubecl_common::stub::Duration;
use crate::bytes::{BytesResource, BytesStorage};
use crate::memory::{
    bytes_at, lemma_write_reads_back, overlay, sizes, total_bytes, write_at, MemoryUsage,
};
use crate::server::{
    uploaded, Binding, ComputeServer, CubeCount, ExecutionError, ExecutionMode, Handle,
};
use crate::storage::{resolvable, ByteRange, ComputeStorage, StorageError, StorageId};

verus! {

/// The kernels that a [`HostServer`] runs.
#[derive(Clone, Copy, Debug, PartialEq, Eq, Hash, Structural)]
pub enum HostKernel {
    /// Cube number `c` of the launch sets byte `c` of the first binding to
    /// `value`.
    Fill {
        /// The byte to write.
        value: u8,
    },
    /// Cube number `c` of the launch sets byte `c` of the first binding to
    /// what byte `c` of the second binding held when the launch began.
    Copy,
}

/// A server that keeps every allocation in a [`BytesStorage`] and runs
/// kernels at once, on the calling thread.
#[derive(Debug)]
pub struct HostServer {
    storage: BytesStorage,
}

/// The span of time that std's `Duration::from_nanos` makes of a number of
/// nanoseconds.
pub uninterp spec fn span_of_nanos(nanos: u64) -> Duration;

/// std's `Duration::from_nanos`, under the path by which `cubecl_common`
/// hands the type out: the span of time that lasts `nanos` nanoseconds. The
/// span depends on the number alone, and that is all that is claimed of it:
/// a `Duration` is opaque here.
#[verifier::external_body]
fn span(nanos: u64) -> (elapsed: Duration)
    ensures
        elapsed == span_of_nanos(nanos),
{
    Duration::from_nanos(nanos)
}

/// The bytes that the cubes of a launch reach in one of its bindings, one
/// byte each: the first `cubes` bytes of the binding.
pub open spec fn reached(binding: Binding, cubes: nat) -> ByteRange {
    ByteRange { id: binding.id, start: binding@.start, len: cubes }
}

/// The handle on the first `cubes` bytes of a binding.
fn front(binding: &Binding, cubes: usize) -> (window: Binding)
    requires
        cubes <= binding.size(),
    ensures
        window@ == reached(*binding, cubes as nat),
        binding@.contains(window@),
{
    binding.offset_end(binding.size() - cubes)
}

impl HostKernel {
    /// Whether a launch of this kernel stays within its bindings: whether it
    /// is given every binding that it reaches into, and none of them has
    /// fewer bytes than the launch has cubes.
    pub fn stays_in_bounds(&self, count: CubeCount, bindings: &[Binding]) -> (within: bool)
        ensures
            within == HostServer::in_bounds(*self, count, bindings@),
    {
        let cubes = count.num_cubes();
        match self {
            HostKernel::Fill { value: _ } => bindings.len() >= 1 && cubes
                <= bindings[0].size() as u128,
            HostKernel::Copy => bindings.len() >= 2 && cubes <= bindings[0].size() as u128
                && cubes <= bindings[1].size() as u128,
        }
    }
}

impl HostServer {
    /// The number of bytes that the server may hold at one time.
    pub closed spec fn capacity(&self) -> usize {
        self.storage.capacity()
    }

    /// A server without allocations that may hold up to `capacity` bytes.
    pub fn new(capacity: usize) -> (server: Self)
        ensures
            server.wf(),
            server.memory() == Map::<StorageId, Seq<u8>>::empty(),
            server.capacity() == capacity,
    {
        HostServer { storage: BytesStorage::new(capacity) }
    }

    /// Whether a binding can be resolved by this server: its identity is live
    /// and its bytes lie inside the allocation.
    pub fn resolves(&self, binding: &Binding) -> (found: bool)
        ensures
            found == resolvable(binding@, sizes(self.memory())),
    {
        self.storage.resolves(binding)
    }
}

impl ComputeServer for HostServer {
    type Kernel = HostKernel;

    type Storage = BytesStorage;

    closed spec fn memory(&self) -> Map<StorageId, Seq<u8>> {
        self.storage.contents()
    }

    closed spec fn wf(&self) -> bool {
        self.storage.wf()
    }

    open spec fn in_bounds(kernel: HostKernel, count: CubeCount, bindings: Seq<Binding>) -> bool {
        match kernel {
            HostKernel::Fill { value: _ } => bindings.len() >= 1 && count.num_cubes()
                <= bindings[0].size(),
            HostKernel::Copy => bindings.len() >= 2 && count.num_cubes() <= bindings[0].size()
                && count.num_cubes() <= bindings[1].size(),
        }
    }

    open spec fn effect(
        kernel: HostKernel,
        count: CubeCount,
        bindings: Seq<Binding>,
        memory: Map<StorageId, Seq<u8>>,
    ) -> Map<StorageId, Seq<u8>> {
        match kernel {
            HostKernel::Fill { value } => write_at(
                memory,
                reached(bindings[0], count.num_cubes() as nat),
                Seq::new(count.num_cubes() as nat, |i: int| value),
            ),
            HostKernel::Copy => write_at(
                memory,
                reached(bindings[0], count.num_cubes() as nat),
                bytes_at(memory, reached(bindings[1], count.num_cubes() as nat)),
            ),
        }
    }

    fn read(&mut self, binding: Binding) -> (bytes: Vec<u8>)
        ensures
            *final(self) == *old(self),
    {
        let resource = self.storage.get(&binding);
        self.storage.read(&resource)
    }

    fn get_resource(&mut self, binding: Binding) -> (resource: BytesResource)
        ensures
            *final(self) == *old(self),
            resource@ == binding@,
    {
        self.storage.get(&binding)
    }

    fn create(&mut self, data: &[u8]) -> (result: Result<Handle, StorageError>)
        ensures
            result is Ok <==> total_bytes(old(self).memory()) + data@.len() <= old(
                self,
            ).capacity(),
            result is Err ==> result == Err::<Handle, StorageError>(StorageError::OutOfMemory),
            final(self).capacity() == old(self).capacity(),
    {
        match self.storage.allocate(data.len()) {
            Ok(handle) => {
                let resource = self.storage.get(&handle);
                let ghost blank = Seq::new(data@.len(), |i: int| 0u8);
                self.storage.write(&resource, data);
                assert(overlay(blank, 0, data@) =~= data@);
                assert(final(self).memory() =~= old(self).memory().insert(handle.id, data@));
                Ok(handle)
            },
            Err(error) => Err(error),
        }
    }

    fn empty(&mut self, size: usize) -> (result: Result<Handle, StorageError>)
        ensures
            result is Ok <==> total_bytes(old(self).memory()) + size <= old(self).capacity(),
            result matches Ok(handle) ==> uploaded(
                old(self).memory(),
                final(self).memory(),
                Seq::new(size as nat, |i: int| 0u8),
                handle,
            ),
            result is Err ==> result == Err::<Handle, StorageError>(StorageError::OutOfMemory),
            final(self).capacity() == old(self).capacity(),
    {
        let result = self.storage.allocate(size);
        proof {
            if let Ok(handle) = result {
                let blank = Seq::new(size as nat, |i: int| 0u8);
                assert(uploaded(old(self).memory(), final(self).memory(), blank, handle));
            }
        }
        result
    }

    fn execute(
        &mut self,
        kernel: HostKernel,
        count: CubeCount,
        bindings: Vec<Binding>,
        mode: ExecutionMode,
    ) -> (result: Result<(), ExecutionError>)
        ensures
            final(self).capacity() == old(self).capacity(),
    {
        match mode {
            ExecutionMode::Checked => {
                if !kernel.stays_in_bounds(count, bindings.as_slice()) {
                    return Err(ExecutionError::OutOfBounds);
                }
            },
            ExecutionMode::Unchecked => {},
        }
        let cubes = count.num_cubes() as usize;
        let target = self.storage.get(&front(&bindings[0], cubes));
        match kernel {
            HostKernel::Fill { value } => {
                let data = vec![value; cubes];
                assert(data@ =~= Seq::new(cubes as nat, |i: int| value));
                self.storage.write(&target, data.as_slice());
            },
            HostKernel::Copy => {
                let source = self.storage.get(&front(&bindings[1], cubes));
                let data = self.storage.read(&source);
                self.storage.write(&target, data.as_slice());
            },
        }
        assert(sizes(final(self).memory()) =~= sizes(old(self).memory()));
        Ok(())
    }

    fn flush(&mut self)
        ensures
            *final(self) == *old(self),
    {
    }

    /// Every request is carried out before it returns, so there is nothing
    /// to wait for and no work was done since the last sync: the span
    /// returned is that of no time at all.
    fn sync(&mut self) -> (elapsed: Duration)
        ensures
            *final(self) == *old(self),
            elapsed == span_of_nanos(0),
    {
        span(0)
    }

    fn memory_usage(&self) -> (usage: MemoryUsage)
        ensures
            usage.bytes_reserved == self.capacity(),
    {
        self.storage.memory_usage()
    }
}

/// A read that follows a fill returns what the fill wrote, whatever the
/// bytes held before: each byte that the launch reached holds the value of
/// the fill.
pub proof fn lemma_fill_reads_back(
    memory: Map<StorageId, Seq<u8>>,
    binding: Binding,
    count: CubeCount,
    value: u8,
)
    requires
        resolvable(binding@, sizes(memory)),
        HostServer::in_bounds(HostKernel::Fill { value }, count, seq![binding]),
    ensures
        bytes_at(
            HostServer::effect(HostKernel::Fill { value }, count, seq![binding], memory),
            reached(binding, count.num_cubes() as nat),
        ) == Seq::new(count.num_cubes() as nat, |i: int| value),
{
    lemma_write_reads_back(
        memory,
        reached(binding, count.num_cubes() as nat),
        Seq::new(count.num_cubes() as nat, |i: int| value),
    );
}

/// A read that follows a copy returns what the copy wrote: the bytes that
/// the launch reached in the first binding hold what the bytes it reached in
/// the second binding held when the launch began.
pub proof fn lemma_copy_reads_back(
    memory: Map<StorageId, Seq<u8>>,
    target: Binding,
    source: Binding,
    count: CubeCount,
)
    requires
        resolvable(target@, sizes(memory)),
        resolvable(source@, sizes(memory)),
        HostServer::in_bounds(HostKernel::Copy, count, seq![target, source]),
    ensures
        bytes_at(
            HostServer::effect(HostKernel::Copy, count, seq![target, source], memory),
            reached(target, count.num_cubes() as nat),
        ) == bytes_at(memory, reached(source, count.num_cubes() as nat)),
{
    lemma_write_reads_back(
        memory,
        reached(target, count.num_cubes() as nat),
        bytes_at(memory, reached(source, count.num_cubes() as nat)),
    );
}

} // verus!
