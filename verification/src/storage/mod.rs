pub mod encryption;
pub mod migrations;
pub mod schema;

pub use encryption::EncryptionKey;
