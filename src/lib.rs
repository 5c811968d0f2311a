//! A small keyed store of creature records with write-through semantics.
//!
//! The library holds the verified logic: the record model, normalization of
//! provider responses, the in-memory store with fresh-id generation, the
//! decisions of each service operation and the parsing of identifier lists.
//! Locking, persistence and network access are left to the caller.

pub mod models;
pub mod names;
pub mod laws;
pub mod store;

pub use models::{normalize, FetchAllQuery, PokeAPIResponse, PokeType, Pokemon, PokemonInput, TypeName};
pub use store::{settle, ServiceError, Store};
pub use names::{parse_names, provider_url};
