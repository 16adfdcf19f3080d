use cubecl_runtime::host::{HostKernel, HostServer};
use cubecl_runtime::memory::MemoryUsage;
use cubecl_runtime::server::{ComputeServer, CubeCount, ExecutionError, ExecutionMode};
use cubecl_runtime::storage::{StorageError, StorageUtilization};
use std::time::Duration;

#[test]
fn create_then_read_round_trip() {
    let mut server = HostServer::new(1024);
    let data = [3u8, 1, 4, 1, 5, 9, 2, 6];
    let handle = server.create(&data).unwrap();
    assert_eq!(handle.utilization, StorageUtilization::Full(8));
    assert_eq!(server.read(handle), data.to_vec());
}

#[test]
fn create_of_nothing_round_trip() {
    let mut server = HostServer::new(1024);
    let handle = server.create(&[]).unwrap();
    assert_eq!(handle.size(), 0);
    assert_eq!(server.read(handle), Vec::<u8>::new());
}

#[test]
fn read_of_a_slice() {
    let mut server = HostServer::new(1024);
    let handle = server.create(&[10, 11, 12, 13, 14, 15]).unwrap();
    assert_eq!(server.read(handle.offset_start(2)), vec![12, 13, 14, 15]);
    assert_eq!(server.read(handle.offset_end(2)), vec![10, 11, 12, 13]);
    assert_eq!(server.read(handle.offset_start(1).offset_end(4)), vec![11]);
}

#[test]
fn create_leaves_earlier_uploads() {
    let mut server = HostServer::new(1024);
    let first = server.create(&[1, 2, 3]).unwrap();
    let second = server.create(&[4, 5]).unwrap();
    assert_ne!(first.id, second.id);
    assert_eq!(server.read(first), vec![1, 2, 3]);
    assert_eq!(server.read(second), vec![4, 5]);
}

#[test]
fn create_fails_when_out_of_memory() {
    let mut server = HostServer::new(4);
    let handle = server.create(&[1, 2, 3]).unwrap();
    assert_eq!(server.create(&[4, 5]), Err(StorageError::OutOfMemory));
    assert_eq!(server.empty(2), Err(StorageError::OutOfMemory));
    assert_eq!(server.read(handle), vec![1, 2, 3]);
    assert_eq!(
        server.memory_usage(),
        MemoryUsage { number_allocs: 1, bytes_in_use: 3, bytes_reserved: 4 }
    );
    assert!(server.create(&[4]).is_ok());
}

#[test]
fn empty_reserves_the_size() {
    let mut server = HostServer::new(1024);
    let handle = server.empty(48).unwrap();
    assert_eq!(handle.utilization, StorageUtilization::Full(48));
    assert_eq!(server.read(handle).len(), 48);
    assert_eq!(server.read(handle), vec![0u8; 48]);
    assert!(server.resolves(&handle));
}

#[test]
fn get_resource_honors_the_binding() {
    let mut server = HostServer::new(1024);
    let handle = server.create(&[0; 32]).unwrap();
    let resource = server.get_resource(handle.offset_start(8).offset_end(4));
    assert_eq!(resource.id, handle.id);
    assert_eq!(resource.offset, 8);
    assert_eq!(resource.size, 20);
    assert_eq!(server.get_resource(handle.offset_start(8).offset_end(4)), resource);
}

#[test]
fn read_after_execute_sees_the_kernel() {
    let mut server = HostServer::new(1024);
    let handle = server.create(&[1, 2, 3, 4]).unwrap();
    let result = server.execute(
        HostKernel::Fill { value: 7 },
        CubeCount { x: 4, y: 1, z: 1 },
        vec![handle],
        ExecutionMode::Checked,
    );
    assert_eq!(result, Ok(()));
    assert_eq!(server.read(handle), vec![7, 7, 7, 7]);
}

#[test]
fn execute_writes_the_front_of_the_binding() {
    let mut server = HostServer::new(1024);
    let handle = server.create(&[1, 2, 3, 4, 5, 6, 7, 8]).unwrap();
    let result = server.execute(
        HostKernel::Fill { value: 0 },
        CubeCount { x: 3, y: 1, z: 1 },
        vec![handle.offset_start(2)],
        ExecutionMode::Checked,
    );
    assert_eq!(result, Ok(()));
    assert_eq!(server.read(handle), vec![1, 2, 0, 0, 0, 6, 7, 8]);
}

#[test]
fn checked_execute_reports_out_of_bounds() {
    let mut server = HostServer::new(1024);
    let first = server.create(&[1, 2, 3, 4]).unwrap();
    let second = server.create(&[5, 6, 7, 8]).unwrap();
    let result = server.execute(
        HostKernel::Fill { value: 9 },
        CubeCount { x: 5, y: 1, z: 1 },
        vec![first],
        ExecutionMode::Checked,
    );
    assert_eq!(result, Err(ExecutionError::OutOfBounds));
    assert_eq!(server.read(second), vec![5, 6, 7, 8]);
    assert_eq!(server.read(first), vec![1, 2, 3, 4]);
}

#[test]
fn checked_execute_holds_a_slice_to_its_own_size() {
    let mut server = HostServer::new(1024);
    let handle = server.create(&[1, 2, 3, 4, 5, 6]).unwrap();
    let result = server.execute(
        HostKernel::Fill { value: 9 },
        CubeCount { x: 2, y: 2, z: 1 },
        vec![handle.offset_end(3)],
        ExecutionMode::Checked,
    );
    assert_eq!(result, Err(ExecutionError::OutOfBounds));
    assert_eq!(server.read(handle), vec![1, 2, 3, 4, 5, 6]);
}

#[test]
fn checked_execute_without_bindings_is_out_of_bounds() {
    let mut server = HostServer::new(1024);
    let handle = server.create(&[1, 2]).unwrap();
    let result = server.execute(
        HostKernel::Fill { value: 9 },
        CubeCount { x: 1, y: 1, z: 1 },
        vec![],
        ExecutionMode::Checked,
    );
    assert_eq!(result, Err(ExecutionError::OutOfBounds));
    assert_eq!(server.read(handle), vec![1, 2]);
}

#[test]
fn unchecked_execute_within_bounds() {
    let mut server = HostServer::new(1024);
    let first = server.create(&[1, 2, 3, 4]).unwrap();
    let second = server.create(&[5, 6, 7, 8]).unwrap();
    let result = server.execute(
        HostKernel::Fill { value: 9 },
        CubeCount { x: 2, y: 2, z: 1 },
        vec![first, second],
        ExecutionMode::Unchecked,
    );
    assert_eq!(result, Ok(()));
    assert_eq!(server.read(first), vec![9, 9, 9, 9]);
    assert_eq!(server.read(second), vec![5, 6, 7, 8]);
}

#[test]
fn execute_with_no_cubes_writes_nothing() {
    let mut server = HostServer::new(1024);
    let handle = server.create(&[1, 2, 3]).unwrap();
    let result = server.execute(
        HostKernel::Fill { value: 9 },
        CubeCount { x: 5, y: 0, z: 5 },
        vec![handle],
        ExecutionMode::Checked,
    );
    assert_eq!(result, Ok(()));
    assert_eq!(server.read(handle), vec![1, 2, 3]);
}

#[test]
fn num_cubes_is_the_product() {
    assert_eq!(CubeCount { x: 2, y: 3, z: 4 }.num_cubes(), 24);
    assert_eq!(CubeCount { x: 7, y: 0, z: 9 }.num_cubes(), 0);
    assert_eq!(
        CubeCount { x: u32::MAX, y: u32::MAX, z: u32::MAX }.num_cubes(),
        79228162458924105385300197375u128
    );
}

#[test]
fn checked_execute_rejects_a_huge_launch() {
    let mut server = HostServer::new(1024);
    let handle = server.create(&[1, 2, 3]).unwrap();
    let result = server.execute(
        HostKernel::Fill { value: 9 },
        CubeCount { x: u32::MAX, y: u32::MAX, z: u32::MAX },
        vec![handle],
        ExecutionMode::Checked,
    );
    assert_eq!(result, Err(ExecutionError::OutOfBounds));
    assert_eq!(server.read(handle), vec![1, 2, 3]);
}

#[test]
fn flush_and_sync_leave_memory() {
    let mut server = HostServer::new(1024);
    let handle = server.create(&[1, 2, 3]).unwrap();
    server.flush();
    let elapsed = server.sync();
    assert_eq!(elapsed, Duration::ZERO);
    assert_eq!(server.read(handle), vec![1, 2, 3]);
    assert_eq!(
        server.memory_usage(),
        MemoryUsage { number_allocs: 1, bytes_in_use: 3, bytes_reserved: 1024 }
    );
}

#[test]
fn memory_usage_counts_allocations() {
    let mut server = HostServer::new(100);
    assert_eq!(
        server.memory_usage(),
        MemoryUsage { number_allocs: 0, bytes_in_use: 0, bytes_reserved: 100 }
    );
    server.create(&[1, 2, 3]).unwrap();
    server.empty(10).unwrap();
    server.empty(0).unwrap();
    assert_eq!(
        server.memory_usage(),
        MemoryUsage { number_allocs: 3, bytes_in_use: 13, bytes_reserved: 100 }
    );
}

#[test]
fn resolves_tells_known_bindings() {
    let mut server = HostServer::new(100);
    let handle = server.create(&[1, 2, 3]).unwrap();
    let mut other = HostServer::new(100);
    assert!(server.resolves(&handle));
    assert!(server.resolves(&handle.offset_start(3)));
    assert!(!other.resolves(&handle));
    other.empty(2).unwrap();
    assert!(!other.resolves(&handle));
}

#[test]
fn copy_moves_bytes_between_bindings() {
    let mut server = HostServer::new(1024);
    let target = server.create(&[0, 0, 0, 0, 0]).unwrap();
    let source = server.create(&[1, 2, 3, 4, 5, 6]).unwrap();
    let result = server.execute(
        HostKernel::Copy,
        CubeCount { x: 3, y: 1, z: 1 },
        vec![target.offset_start(1), source.offset_start(2)],
        ExecutionMode::Checked,
    );
    assert_eq!(result, Ok(()));
    assert_eq!(server.read(target), vec![0, 3, 4, 5, 0]);
    assert_eq!(server.read(source), vec![1, 2, 3, 4, 5, 6]);
}

#[test]
fn copy_within_one_allocation_reads_before_it_writes() {
    let mut server = HostServer::new(1024);
    let handle = server.create(&[1, 2, 3, 4, 5]).unwrap();
    let result = server.execute(
        HostKernel::Copy,
        CubeCount { x: 4, y: 1, z: 1 },
        vec![handle.offset_start(1), handle],
        ExecutionMode::Unchecked,
    );
    assert_eq!(result, Ok(()));
    assert_eq!(server.read(handle), vec![1, 1, 2, 3, 4]);
}

#[test]
fn checked_copy_holds_both_bindings_to_their_size() {
    let mut server = HostServer::new(1024);
    let small = server.create(&[7, 7]).unwrap();
    let large = server.create(&[1, 2, 3, 4]).unwrap();
    let count = CubeCount { x: 3, y: 1, z: 1 };
    let into_small =
        server.execute(HostKernel::Copy, count, vec![small, large], ExecutionMode::Checked);
    assert_eq!(into_small, Err(ExecutionError::OutOfBounds));
    let from_small =
        server.execute(HostKernel::Copy, count, vec![large, small], ExecutionMode::Checked);
    assert_eq!(from_small, Err(ExecutionError::OutOfBounds));
    let one_binding = server.execute(HostKernel::Copy, count, vec![large], ExecutionMode::Checked);
    assert_eq!(one_binding, Err(ExecutionError::OutOfBounds));
    assert_eq!(server.read(small), vec![7, 7]);
    assert_eq!(server.read(large), vec![1, 2, 3, 4]);
}

#[test]
fn stays_in_bounds_compares_cubes_with_sizes() {
    let mut server = HostServer::new(1024);
    let four = server.create(&[1, 2, 3, 4]).unwrap();
    let two = server.create(&[5, 6]).unwrap();
    let fill = HostKernel::Fill { value: 0 };
    assert!(fill.stays_in_bounds(CubeCount { x: 4, y: 1, z: 1 }, &[four]));
    assert!(fill.stays_in_bounds(CubeCount { x: 2, y: 2, z: 1 }, &[four, two]));
    assert!(!fill.stays_in_bounds(CubeCount { x: 5, y: 1, z: 1 }, &[four]));
    assert!(!fill.stays_in_bounds(CubeCount { x: 3, y: 1, z: 1 }, &[four.offset_start(2)]));
    assert!(!fill.stays_in_bounds(CubeCount { x: 0, y: 0, z: 0 }, &[]));
    assert!(HostKernel::Copy.stays_in_bounds(CubeCount { x: 2, y: 1, z: 1 }, &[four, two]));
    assert!(!HostKernel::Copy.stays_in_bounds(CubeCount { x: 3, y: 1, z: 1 }, &[four, two]));
    assert!(!HostKernel::Copy.stays_in_bounds(CubeCount { x: 3, y: 1, z: 1 }, &[two, four]));
    assert!(!HostKernel::Copy.stays_in_bounds(CubeCount { x: 1, y: 1, z: 1 }, &[four]));
}

#[test]
fn sync_reports_no_time_whatever_was_done() {
    let mut server = HostServer::new(1024);
    assert_eq!(server.sync(), Duration::from_nanos(0));
    let handle = server.create(&[1, 2, 3, 4]).unwrap();
    let result = server.execute(
        HostKernel::Fill { value: 7 },
        CubeCount { x: 4, y: 1, z: 1 },
        vec![handle],
        ExecutionMode::Checked,
    );
    assert_eq!(result, Ok(()));
    assert_eq!(server.sync(), Duration::from_nanos(0));
    assert_eq!(server.sync(), server.sync());
    assert_eq!(server.read(handle), vec![7, 7, 7, 7]);
}
