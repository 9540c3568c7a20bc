//! A key/value map that defers allocating its hash table until the first
//! insertion, so that empty instances cost almost nothing.

pub mod lazy_hash_map;

pub use lazy_hash_map::Iter;
pub use lazy_hash_map::LazyHashMap;
