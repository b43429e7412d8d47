//! Request routing.

use vstd::prelude::*;
use crate::error::Error;

verus! {

/// A request that the server answers: routing consumes it and gives the
/// reply to send back, if any.
pub trait Router<T: Sized>: Sized {
    /// Handles the request.
    fn route(self) -> Result<Option<T>, Error>;
}

} // verus!
