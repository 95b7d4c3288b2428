//! A record-and-replay HTTP proxy's transaction engine.
//!
//! In record mode a request and the upstream's response are put in their
//! archived form (`convert`, `model`), gathered by a session and named by a
//! fingerprint of the request (`store`, `proxy`). In playback mode archives
//! are loaded (`load`) into facts about requests, and a live request is
//! answered by the first loaded transaction whose facts it meets (`facts`,
//! `playback`). `message` holds the heads of live messages, `config` and
//! `cli` the servers' settings, and `text` the work on characters. The calls
//! into other crates stand in `outside`, those into the standard library in
//! `text`; their contracts are believed, not proved.

pub mod cli;
pub mod config;
pub mod convert;
pub mod facts;
pub mod load;
pub mod message;
pub mod model;
pub mod outside;
pub mod playback;
pub mod proxy;
pub mod store;
pub mod text;
