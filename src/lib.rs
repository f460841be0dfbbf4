//! Typed, object-scoped state proxies over a flat key-value host store.
//!
//! Containers are identified by small integer object identifiers. A logical
//! key is scoped to its container by prefixing the identifier's bytes, and
//! scalar values are stored in their fixed-width little-endian encoding.
//! Reads of absent keys give zero rather than an error, so a value that was
//! never written cannot be told apart from one explicitly set to zero
//! through `value` alone; `is_set` answers that question.
pub mod codec;
pub mod keys;
pub mod laws;
pub mod maps;
pub mod proxy;
pub mod registry;
pub mod store;
