//! Composition of typed HTTP responses into unions keyed by status code,
//! with the merge, validation and rendering of their descriptors.
//!
//! - `status`: the closed catalog of statuses a union has slots for.
//! - `descriptor`: the static description of a response.
//! - `merge`: the override merge of a default and a declared descriptor set.
//! - `registry`: the schema registry.
//! - `response`: a typed response, its empty form, and how values render.
//! - `one_response`: a declared typed response, validated into a `ResponseType`.
//! - `uni_response`: the fixed-slot union and the validation of its declaration.
//! - `error_response`: the failure taxonomy and the classification of failures.
//! - `either_response`: a typed response combined with the taxonomy.
//! - `text`, `wire`, `error`: text operations relied on, rendered responses,
//!   declaration errors.

pub mod descriptor;
pub mod either_response;
pub mod error;
pub mod error_response;
pub mod merge;
pub mod one_response;
pub mod registry;
pub mod response;
pub mod status;
pub mod text;
pub mod uni_response;
pub mod wire;
