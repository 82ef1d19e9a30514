//! A small notes service, verified with Verus.
//!
//! The library holds the notes table as an in-memory store with a proved
//! well-formedness invariant (ids strictly ascending, titles unique,
//! `created_at <= updated_at`), the handler logic for the six endpoints of
//! the REST surface, and the exact texts of the response messages. The HTTP
//! shell around it lives outside the library.

pub mod note;
pub mod schema;
pub mod store;
pub mod handlers;
pub mod laws;
pub mod text;

pub use note::Note;
