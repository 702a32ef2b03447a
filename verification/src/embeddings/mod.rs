pub mod noop;

pub use noop::NoopBackend;
