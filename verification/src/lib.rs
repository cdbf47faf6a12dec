//! Generator for the scaffolding of a remote procedure call dispatch layer.
//!
//! From a list of annotated procedure definitions the generator derives a
//! tagged union `RpcArgs` with one variant per procedure, a dispatch template
//! `rpc_dispatch` and an encoder template `rpc_encode`, and hands back the
//! definitions without their marker annotations.

pub mod emit;
pub mod generate;
pub mod laws;
pub mod model;
pub mod naming;
pub mod sanitize;
pub mod schema;
pub mod search;
pub mod syntax;
pub mod template;
pub mod validate;

pub use crate::generate::rpc_functions;
pub use crate::naming::capitalize_first_letter;
