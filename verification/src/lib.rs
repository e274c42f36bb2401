//! Repair of synchronous circuits against a testbench.
//!
//! A circuit comes as a transition system in which some states are marked,
//! by their names, as repair variables: change variables, each of which
//! switches one change of the circuit on, and free variables, whose values
//! the changes use. A testbench says, cycle by cycle, what drives the inputs
//! and what the outputs are to show. The library looks for values of the
//! repair variables with which the circuit passes the testbench, with as few
//! changes as possible.
//!
//! The pieces:
//! - [`csv`], [`bignum`], [`testbench`], [`fill`]: reading a testbench file
//!   into packed rows of words, with don't-care cells, and giving values to
//!   the inputs that have none;
//! - [`system`], [`repair`], [`count`]: what the library reads of the
//!   system, the registry of its repair variables, and the output that
//!   counts the changes;
//! - [`sim`], [`run`], [`apply`], [`snapshots`], [`context`]: driving the
//!   simulator: running the testbench, writing repair variables, going back
//!   to earlier cycles;
//! - [`constraints`]: what a search asserts of the signals;
//! - [`protocol`], [`minimal`], [`basic`], [`incremental`], [`filters`],
//!   [`windowing`], [`unrolling`], [`window`]: the searches. A search talks
//!   to no solver itself: it hands out one command at a time and takes the
//!   reply, so that every step of it is a function of its state and the
//!   reply;
//! - [`session`], [`result`]: the choices of a run and what it ends with.

pub mod apply;
pub mod basic;
pub mod bignum;
pub mod constraints;
pub mod context;
pub mod count;
pub mod csv;
pub mod fill;
pub mod filters;
pub mod incremental;
pub mod minimal;
pub mod protocol;
pub mod repair;
pub mod result;
pub mod run;
pub mod session;
pub mod sim;
pub mod snapshots;
pub mod system;
pub mod testbench;
pub mod unrolling;
pub mod window;
pub mod windowing;
pub mod words;
