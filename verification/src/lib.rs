//! A manga catalog host.
//!
//! The core is the extension host runtime: providers are sandboxed modules
//! that the host loads from a store ([`store`]), checks for compatibility
//! ([`version`]), keeps in a registry ([`registry`]) with a pool of
//! instances each ([`pool`]), and calls through a bus ([`bus`]). Requests
//! and responses cross the sandbox boundary as bytes ([`envelope`],
//! [`codec`], [`wire`], [`bridge`]).
//!
//! Around the core stand a catalog source that reads one site's pages
//! ([`mangasee`], [`markup`]), the discovery index ([`metadata`]), and the
//! state behind two pages of the user interface ([`histories`],
//! [`reader`]).
//!
//! The library does no input or output. Whatever has to be fetched, stored,
//! timed or drawn is handed in or out as plain values.

pub mod bridge;
pub mod bus;
pub mod codec;
pub mod envelope;
pub mod histories;
pub mod mangasee;
pub mod markup;
pub mod metadata;
pub mod pool;
pub mod reader;
pub mod registry;
pub mod store;
pub mod text;
pub mod wire;
pub mod version;
