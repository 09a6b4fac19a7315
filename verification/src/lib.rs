//! A generic access layer for typed documents in a document database.
//!
//! The layer lets an application store, retrieve and update documents
//! without each caller re-implementing pagination, collection naming or
//! conflict handling. Its core is the cursor-pagination engine behind
//! `get_all` together with the conflict-checked write operations; the
//! network connection itself is an external collaborator and is driven
//! by unverified glue outside this crate.

pub mod classify;
pub mod entity;
pub mod error;
pub mod page;
pub mod store;

pub use classify::classify_failure;
pub use entity::Entity;
pub use entity::Record;
pub use error::EngineError;
pub use page::Batch;
pub use page::PageState;
pub use page::Paginator;
pub use page::PAGE_SIZE;
pub use store::Collection;
