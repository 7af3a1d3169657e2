//! A staleness-aware, file-backed value cache.
//!
//! A [`Cached<T>`] handle keeps an in-memory value of type `T` synchronized
//! with a single backing file: it reloads the value only when the file's
//! modification stamp shows that it changed behind the handle's back, and it
//! writes the value out again when the caller mutates it or asks for an
//! explicit persist.  The byte format is not fixed here: the value type
//! supplies it through the [`Cache`] codec trait, and [`Records`] is a small
//! table of byte-string keys and signed counters that implements the codec
//! with a proven encode/decode round trip.
//!
//! All of the handle's logic is verified against [`Disk`], an in-memory model
//! of the backing file that also serves as an instrumented stub in tests: it
//! counts content reads and can inject metadata, read and write faults, so
//! the error contracts are exact and observable.

pub mod cached;
pub mod codec;
pub mod disk;
pub mod error;
pub mod laws;
pub mod records;

pub use cached::Cached;
pub use cached::stale;
pub use cached::sync_rejects;
pub use cached::sync_result;
pub use cached::sync_stamp;
pub use cached::sync_value;
pub use codec::Cache;
pub use disk::Disk;
pub use disk::DiskError;
pub use error::CacheError;
pub use records::Records;
