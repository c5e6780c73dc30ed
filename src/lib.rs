//! The execution core of a serverless function platform: the engine's
//! lifecycle and policy, the composition of the script that a sandboxed
//! context runs, the typed outcome of an invocation, and the decisions of the
//! deployment client that produces a function's code.
pub mod bootstrap;
pub mod deployments;
pub mod invocation;
pub mod literal;
pub mod order;
pub mod pipeline;
pub mod runtime;
