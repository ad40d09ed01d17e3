//! A secret-masking codec: an API key is XOR-masked with a keystream that is
//! derived from the owning identifier and a fresh random salt, and stored as a
//! three-field record that only that same identifier can decode.

pub mod error;
pub mod key_store;
pub mod salt;
pub mod util;

pub use error::Error;
pub use error::InsertionFailError;
pub use error::InvalidCharacterError;
pub use error::NonceError;
