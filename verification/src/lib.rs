//! An immutable builder for HTTP request descriptors.
//!
//! A [`request::RequestBuilder`] accumulates a method, a URL and a set of
//! headers into a [`request::RequestComponents`] snapshot. Every update
//! consumes the builder and returns a new one; nothing is changed in place.
//! Each function states what it returns over the mathematical view of its
//! arguments, and the algebra of the updates is proved beside them.

pub mod header;
pub mod method;
pub mod request;
pub mod text;
pub mod url;

pub use method::Method;
