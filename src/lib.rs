//! Search and indexing engine for a local image library: the feature blob
//! codec, the bookkeeping around the approximate nearest-neighbour index, the
//! query service's decisions, the filesystem watcher's event handling, the
//! startup reconciler's planning, the ingestion pipeline's exact steps and
//! the thumbnail decisions, each stated over plain values.

pub mod ann;
pub mod catalog;
pub mod codec;
pub mod error;
pub mod events;
pub mod ingest;
pub mod interface;
pub mod preprocessing;
pub mod query;
pub mod reconcile;
pub mod thumbnails;
pub mod uuid;
pub mod watcher;
