//! Server-side session management: a `Session` state container with a
//! verified lifecycle (created, saved, renewed, destroyed), a string-keyed
//! data container of structured values, a pluggable `Storage` contract, and
//! an in-memory reference backend.

pub mod cookie_options;
pub mod data;
pub mod memory_store;
pub mod session;
pub mod storage;
pub mod value;

pub use cookie_options::CookieOptions;
pub use cookie_options::CookieOptionsModel;
pub use data::Data;
pub use memory_store::MemoryStore;
pub use session::Session;
pub use session::Status;
pub use storage::SessionError;
pub use storage::Storage;
pub use storage::StoredModel;
pub use value::Value;
pub use value::ValueModel;
