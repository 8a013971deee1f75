//! A compact string value with small-string optimization: content of at most
//! `CAPACITY` bytes lives inline in a 16-byte value, longer content lives in a
//! single owned heap buffer. Construction validates that the content carries
//! no NUL byte; every later operation (decoding, comparison, hashing) works on
//! the decoded content alone, never on the representation.

pub mod cmp;
pub mod order;
pub mod storage;

pub use storage::InvalidInputError;
pub use storage::Storage;
pub use storage::CAPACITY;
