//! A read-only resource server that speaks JSON-RPC over lines of text.
//!
//! The server holds a [`catalog`] of protocols, documentation and examples.
//! The catalog is filled from named files ([`files`]). Each resource of the
//! catalog has a URI ([`uri`]); the catalog lists its resources and reads one
//! by its URI ([`resources`]). A line of input is read as a JSON-RPC
//! [`message`], and the [`server`] answers it with one line of output, or with
//! none.
//!
//! Contracts are stated over mathematical models: a text is a sequence of
//! characters ([`text`]), a JSON value is a tree ([`json`]), a namespace is a
//! sequence of named entries ([`table`]). What holds of every catalog is
//! proved in [`laws`].

pub mod catalog;
pub mod files;
pub mod json;
pub mod laws;
pub mod message;
pub mod resources;
pub mod server;
pub mod table;
pub mod text;
pub mod uri;
