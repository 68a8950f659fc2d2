//! Prompt records, the storage contract with its two backends, and the
//! retrieval pipeline that renders a prompt's content on read.
//!
//! Nothing here performs input or output. The backends and the front ends
//! are state machines: each says which step the surrounding program has to
//! perform next, and takes the outcome of that step as its next input.
//!
//! - `models`: the prompt and its identifier.
//! - `storage`: the storage contract, the file store and the relational
//!   store, and the proofs that both keep the contract.
//! - `render`: the substitution of bound values into a prompt's content.
//! - `mcp`, `rest`: the two front ends.

pub mod mcp;
pub mod models;
pub mod render;
pub mod rest;
pub mod storage;
pub mod text;
