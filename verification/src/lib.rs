//! Versioned table-storage core of an analytical data warehouse, with the
//! byte and text utilities around it.
//!
//! The storage core:
//! - `table_meta`, `table_options`: where the objects of a table live;
//! - `statistics`, `segment`, `bloom`, `digest`: what is known of rows
//!   without reading them;
//! - `pruning`: which segments and blocks a scan has to read;
//! - `snapshot`, `timestamp`: the chain of snapshots of a table;
//! - `replace_into`: which blocks rows of new keys may touch, and which rows
//!   they replace;
//! - `files`: the plan of removing objects in batches.
//!
//! Around it: readers of bytes and text (`position`, `cursor`, `datetime`),
//! the native file format (`native_meta`, `native_reader`, `rle`,
//! `delta_bp`), keys of the meta service (`tenant_key`, `key_escape`,
//! `match_seq`), and the plans and registries of the query service.

pub mod aggregator;
pub mod background_job_id_ident;
pub mod block_schema;
pub mod bloom;
pub mod codegen;
pub mod column_error;
pub mod common_settings;
pub mod connection_ident;
pub mod cursor;
pub mod cursor_ext;
pub mod datetime;
pub mod datetime_text;
pub mod delta_bp;
pub mod digest;
pub mod error;
pub mod files;
pub mod functions;
pub mod hive_partition;
pub mod interpreters;
pub mod key_escape;
pub mod list_iterator;
pub mod local_time;
pub mod lock;
pub mod match_seq;
pub mod merge;
pub mod metrics;
pub mod native_meta;
pub mod native_reader;
pub mod position;
pub mod pprof;
pub mod processor;
pub mod pruning;
pub mod replace_into;
pub mod rle;
pub mod segment;
pub mod sessions;
pub mod slices;
pub mod snapshot;
pub mod snapshot_store;
pub mod sort_utils;
pub mod statistics;
pub mod symbol;
pub mod table_meta;
pub mod table_options;
pub mod tenant_key;
pub mod text;
pub mod timestamp;
pub mod user_token;
pub mod virtual_column;
