//! A minimal concurrent echo service, verified.
//!
//! Clients send byte chunks and receive each chunk echoed back together with
//! a globally monotonic request counter. A cooperative wait primitive watches
//! the counter and resolves once it has crossed two thresholds in sequence.
//! The modules here hold the service's logic: the counter, the decode step,
//! the response format, the threshold state machine, and the per-connection
//! request loop. The surrounding process (sockets, tasks, the log channel)
//! is ordinary async plumbing and lives outside this library.
pub mod connection;
pub mod counter;
pub mod response;
pub mod text;
pub mod waiter;
