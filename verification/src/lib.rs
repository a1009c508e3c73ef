//! Build an rpckit schema for a `jsonrpsee` RPC trait and render it as
//! TypeScript.
//!
//! - [`schema`]: the schema builder ([`Schema`], [`Method`], [`Param`]) and
//!   its TypeScript rendering;
//! - [`naming`]: snake-case names, generated item names and namespaced RPC
//!   method names;
//! - [`attrs`]: the decisions taken while reading an RPC trait's
//!   attributes and types;
//! - [`text`]: joining and padding helpers.
use vstd::prelude::*;

pub mod attrs;
pub mod naming;
pub mod schema;
pub mod text;

pub use schema::{ts_type_name, void_type, Method, Param, ParamKind, Schema};

verus! {

/// `ts_rs::Config`, the configuration that `ts-rs` renders types with; the
/// library only hands it on.
#[verifier::external_type_specification]
#[verifier::external_body]
pub struct ExConfig(ts_rs::Config);

} // verus!
