//! Compiler from inheritance-based block model documents to a compact binary
//! mesh container: identifiers, parent-chain merging, quad lowering and the
//! byte-exact writer.

pub mod binary32;
pub mod fixed;
pub mod ident;
pub mod model;
pub mod order;
pub mod resolve;
pub mod text;
pub mod types;
pub mod vanilla;
pub mod writer;
