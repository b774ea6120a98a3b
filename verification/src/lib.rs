//! A deterministic execution engine for an actor-based virtual machine.
//!
//! Messages are validated and priced by the [`machine::Machine`], dispatched
//! through a [`call_stack::CallStack`] to sandboxed actor code that talks to
//! a [`kernel::DefaultKernel`], and applied against a snapshot-capable
//! [`state_tree::StateTree`] under the budget of a [`gas::GasTracker`].
//!
//! The sandbox that runs actor code is no part of the library. Whenever
//! actor code is to run, the machine hands its caller an
//! [`invocation::InvocationContainer`] and waits to be told how the code
//! ended; what the code asks of the machine while it runs goes through the
//! kernel in the container and through the machine.

pub mod account_actor;
pub mod address;
pub mod blocks;
pub mod blockstore;
pub mod bytes;
pub mod call_stack;
pub mod cid;
pub mod codes;
pub mod econ;
pub mod error;
pub mod externs;
pub mod gas;
pub mod invocation;
pub mod kernel;
pub mod machine;
pub mod message;
pub mod rand;
pub mod state_tree;
pub mod syscalls;
