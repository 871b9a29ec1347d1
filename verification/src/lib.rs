//! An interface-definition-language toolchain core: a semantic model for
//! schema declarations, name resolution, conversion from parsed syntax into
//! the model, a whole-program registry, and a versioned, content-addressed
//! package repository.

use vstd::prelude::*;

pub mod ast;
pub mod bodies;
pub mod checksum;
pub mod config;
pub mod doc;
pub mod errors;
pub mod index;
pub mod into_model;
pub mod method_spec;
pub mod objects;
pub mod model;
pub mod scope;
pub mod sha256;
pub mod text;
pub mod version;

verus! {

} // verus!
