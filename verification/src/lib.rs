//! A persistent storage engine for notarized documents: six keyed record
//! collections over one partitioned memory region, a binary record codec that
//! tolerates corrupted bytes, a linear snapshot format, and the integrity,
//! cleanup and statistics passes that run over the collections.

pub mod typed_map;
pub mod wire;
pub mod text;
pub mod hexadecimal;
pub mod keys;
pub mod fields;
pub mod records;
pub mod codec;
pub mod codec_laws;
pub mod token_list;
pub mod store;
pub mod access;
pub mod documents;
pub mod queries;
pub mod institutions;
pub mod users;
pub mod cleanup;
pub mod validation;
pub mod logging;
pub mod stats;
pub mod startup;
pub mod lifecycle_logger;
pub mod memory_logger;
pub mod helpers;
pub mod timestamp;
pub mod validate;
pub mod snapshot;
pub mod snapshot_laws;
pub mod snapshot_segment;
