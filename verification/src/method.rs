//! The request methods the builder knows.

use vstd::prelude::*;

verus! {

/// An HTTP request method.
#[derive(Clone, Copy, Debug, PartialEq, Eq, Hash, Structural)]
pub enum Method {
    Get,
    Post,
    Put,
    Delete,
}

} // verus!
