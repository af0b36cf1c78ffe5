//! Random numbers on request, one for each sequence number.
//!
//! An owner names operators. An operator asks for the random value of a
//! sequence number: the first request draws entropy and records the value,
//! every later one is answered with the recorded value. Anyone may read a
//! value. Owner, operators and values live in stable structures and outlast
//! the process.
//!
//! - [`service`]: the service and its requests, each with a contract over
//!   the model.
//! - [`model`]: the state of the service as mathematics, and what each
//!   request makes of it.
//! - [`laws`]: what holds of the model whatever is asked.
//! - [`number`], [`encoding`]: arbitrary-precision numbers and their bytes.
//! - [`identity`]: who calls.
//! - [`error`]: refusals and their texts.
//!
//! `Service::open` takes up what an earlier run stored, `Service::new` starts
//! afresh. Drawing entropy is left to the caller: `Service::generate_random`
//! says whether it is needed, and `Service::record_random` takes what was
//! drawn.

pub mod encoding;
pub mod error;
pub mod identity;
pub mod laws;
pub mod model;
pub mod number;
pub mod service;
mod store;
