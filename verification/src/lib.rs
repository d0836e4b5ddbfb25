//! Content versioning and pipeline-consistency workflow.
//!
//! The crate manages uploaded content records and pipelines backed by a
//! document store, with binary payloads kept in an object store.  The core
//! logic — deduplicating uploads by owner and base filename, keeping the
//! object store consistent with the metadata records, and validating
//! pipeline step references — is verified here; the HTTP and database
//! plumbing lives outside the library.

pub mod api_response;
pub mod byteseq;
pub mod content;
pub mod digest;
pub mod error;
pub mod field_parser;
pub mod group;
pub mod hello;
pub mod ids;
pub mod literals;
pub mod mock_db;
pub mod models;
pub mod parser;
pub mod pipeline;
pub mod program;
pub mod reconcile;
pub mod repo;
pub mod store;
pub mod update_program_dto;
pub mod upload_file;
