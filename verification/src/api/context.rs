//! The context of a backend: the pool its packet buffers belong to.

use vstd::prelude::*;
use crate::api::token::Token;

verus! {

/// A backend's buffer pool, named by an id that tokens carry.
pub trait Context: Sized {
    /// The id of the pool.
    spec fn id(&self) -> u32;

    /// The id of the pool.
    fn pool_id(&self) -> (r: u32)
        ensures
            r == self.id(),
    ;

    /// Whether `token` belongs to this pool.
    fn check_token(&self, token: &Token) -> (r: bool)
        ensures
            r == (token.buffer_pool == self.id()),
    {
        token.pool_id() == self.pool_id()
    }
}

} // verus!
