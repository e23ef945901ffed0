//! Core of a scientific-data object catalogue.
//!
//! Data artifacts are organised as Project -> Dataset -> ObjectGroup ->
//! ObjectGroupRevision -> Object, with DatasetVersions freezing sets of
//! revisions and APITokens carrying project-scoped rights.  The metadata
//! state lives in [`store::MetaStore`]; every handler is a verified
//! transition over that state.  Binary payloads live in an external object
//! store and are reached through presigned URLs minted outside this crate;
//! the crate only decides keys, locations and lifecycle state.

pub mod apitoken;
pub mod auth;
pub mod common;
pub mod create;
pub mod dataset_model;
pub mod dataset_object_group;
pub mod dataset_version;
pub mod delete;
pub mod error;
pub mod laws;
pub mod load;
pub mod objectstorage;
pub mod outside;
pub mod project_model;
pub mod read;
pub mod requests;
pub mod service;
pub mod store;
pub mod update;
