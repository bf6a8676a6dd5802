//! A pool of channels to remote peers that rides out their failures.
//!
//! Requests to a peer share a few long-lived channels. A request that fails
//! is tried again, after a growing wait, as long as the failure is of a kind
//! that another try may cure; a health probe watches the peer while a call is
//! under way, so that a peer that died in silence is noticed long before the
//! call's own deadline; and a channel that has seen no success for a while is
//! replaced by a new connection.
//!
//! The library keeps the books and makes every decision, and does no I/O. It
//! is driven from outside: the driver connects, calls, sleeps and reads the
//! clock, and reports what happened. [`transport`] describes the round.

pub mod dynamic_pool;
pub mod failure;
pub mod probe;
mod random;
pub mod retry;
pub mod status;
pub mod text;
pub mod time;
pub mod transport;
