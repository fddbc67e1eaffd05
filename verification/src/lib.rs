//! An in-memory database of epics and stories, served to clients over a byte protocol.
//!
//! The crate holds the data model (`models`), the wire format of client requests
//! (`events`) and of server responses (`response`), the decisions the server takes for
//! each request (`server`), and the client's page logic (`interface`).

pub mod utils;
pub mod text;
pub mod models;
pub mod response;
pub mod events;
pub mod server;
pub mod interface;
