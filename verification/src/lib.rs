//! Foundation layer of a GPU compute runtime.
//!
//! - [`storage`]: handles on device memory, the arithmetic that slices them,
//!   and what a storage backend owes its users.
//! - [`memory`]: the model of memory that the contracts are stated over.
//! - [`server`]: what a compute server owes the client that moves data and
//!   submits kernels.
//! - [`bytes`] and [`host`]: a storage and a server on host memory.

pub mod bytes;
pub mod host;
pub mod memory;
pub mod server;
pub mod storage;

pub use server::ExecutionMode;
