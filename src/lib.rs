//! A client-side timeline for a federated messaging protocol: raw events go
//! in, a deduplicated ordered list of display items and the diffs that keep
//! observers in step come out. The storage keys under which a sync session
//! caches its state live here too.

pub mod emitter;
pub mod event;
pub mod item;
pub mod laws;
pub mod storage_key;
pub mod timeline;
