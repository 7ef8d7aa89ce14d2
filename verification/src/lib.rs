//! Verified core of a 3D-tiles streaming service: identifier and path
//! rules, archive lookup decisions, URI rewriting and tile search.
pub mod text;
pub mod identifier;
pub mod error;
pub mod uri;
pub mod archive_path;
pub mod relative_path;
pub mod archive_index;
pub mod local_header;
pub mod decompress;
pub mod archive_lookup;
pub mod loader;
pub mod service;
pub mod tiles;
pub mod weights;
pub mod routes;
