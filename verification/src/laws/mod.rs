//! What holds of the library as a whole.
//!
//! Each law is a proof function: its parameters are what the law speaks of, its `requires`
//! and `ensures` state it. Some speak of a single operation, by what goes into a call of it and
//! what comes out; the others relate operations, over the models that their contracts use.
pub mod answers;
pub mod atoms;
pub mod backend;
pub mod buffer;
pub mod chunks;
pub mod containers;
pub mod elements;
pub mod media;
pub mod models;
pub mod packets;
pub mod requests;
pub mod stream;
pub mod text;
pub mod timeline;
pub mod words;
