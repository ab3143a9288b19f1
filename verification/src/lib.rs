//! Ferrinx: the verified core of a lightweight ONNX inference service.
//!
//! The crate holds the rules and data transformations of the service:
//! tensor encoding and shape manipulation, task and model states,
//! permissions and request authorization, error answers, rate limiting, the
//! session cache of the inference engine, configuration defaults and
//! validation, the reading of queue entries, and the decisions of the
//! command-line client.
use vstd::prelude::*;

pub mod api;
pub mod cli;
pub mod config;
pub mod constants;
pub mod dto;
pub mod engine;
pub mod errors;
pub mod model;
pub mod pipeline;
pub mod ratelimit;
pub mod redis;
pub mod tensor;
pub mod text;
pub mod transform;
pub mod types;
pub mod utils;

verus! {

} // verus!
