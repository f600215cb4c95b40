//! The rules behind a small HTTP/JSON service that builds, trains and queries
//! neural networks: what a request may ask for, what the engine is told to do
//! about it, what the server remembers, and what it answers.
//!
//! - [`config`]: the settings, and what an environment makes of them
//! - [`dto`]: requests and responses, and the validation of the former
//! - [`dataset`]: which file a request may have its data read from
//! - [`model`]: what is kept about a model
//! - [`engine`]: what goes into the engine and what comes out of it
//! - [`store`]: the models the server holds
//! - [`routes`]: the endpoints
//! - [`error`]: how a failure is answered
//! - [`laws`]: what holds of all of them together
//! - [`fidelity`], [`refusals`], [`seen`]: what is used of a request, what is
//!   refused, and what the contracts speak of
//! - [`ids`], [`number`], [`text`]: what the others are written in

pub mod config;
pub mod dataset;
pub mod dto;
pub mod engine;
pub mod error;
pub mod fidelity;
pub mod ids;
pub mod laws;
pub mod model;
pub mod number;
pub mod refusals;
pub mod routes;
pub mod seen;
pub mod store;
pub mod text;
