//! Tokens: ownership of a packet buffer that can travel between threads.

use vstd::prelude::*;
use crate::api::buffer::BufferDesc;
use crate::api::context::Context;

verus! {

/// Ownership of a packet buffer: which buffer, how many bytes of packet it
/// holds and which pool it belongs to.
#[derive(Debug, PartialEq, Eq)]
pub struct Token {
    pub idx: BufferDesc,
    pub len: u32,
    pub buffer_pool: u32,
}

impl Token {
    /// A token for buffer `idx` of pool `buffer_pool` holding `len` bytes.
    pub fn new(idx: BufferDesc, buffer_pool: u32, len: u32) -> (t: Self)
        ensures
            t.idx == idx,
            t.buffer_pool == buffer_pool,
            t.len == len,
    {
        Token { idx, len, buffer_pool }
    }

    /// The buffer descriptor.
    pub fn buffer_desc(&self) -> (r: BufferDesc)
        ensures
            r == self.idx,
    {
        self.idx
    }

    /// The size of the packet data.
    pub fn size(&self) -> (r: u32)
        ensures
            r == self.len,
    {
        self.len
    }

    /// The pool the token belongs to.
    pub fn pool_id(&self) -> (r: u32)
        ensures
            r == self.buffer_pool,
    {
        self.buffer_pool
    }

    /// The token turned into a payload over `ctx`'s buffers; the token must
    /// belong to `ctx`'s pool.
    pub fn consume<'ctx, C: Context>(self, ctx: &'ctx C) -> (p: Payload<'ctx, C>)
        requires
            self.buffer_pool == ctx.id(),
        ensures
            p.token == self,
            p.ctx == ctx,
    {
        Payload::new(self, ctx)
    }

    /// Whether the token belongs to the pool of `ctx`.
    pub fn check_token<Ctx: Context>(&self, ctx: &Ctx) -> (r: bool)
        ensures
            r == (self.buffer_pool == ctx.id()),
    {
        ctx.check_token(self)
    }
}

/// A packet's buffer together with the context that owns it: the token and
/// the context.
pub struct Payload<'ctx, C: Context> {
    pub token: Token,
    pub ctx: &'ctx C,
}

impl<'ctx, C: Context> Payload<'ctx, C> {
    /// The payload of `token` over `ctx`.
    pub fn new(token: Token, ctx: &'ctx C) -> (p: Self)
        ensures
            p.token == token,
            p.ctx == ctx,
    {
        Payload { token, ctx }
    }

    /// The token back, the buffer still owned by it.
    pub fn into_token(self) -> (t: Token)
        ensures
            t == self.token,
    {
        self.token
    }
}

} // verus!
