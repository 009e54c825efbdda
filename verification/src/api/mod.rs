//! The unified packet I/O interface: buffers, tokens, contexts and the
//! errors of the distributors.

pub mod bdistributor;
pub mod buffer;
pub mod context;
pub mod enum_api;
pub mod hint;
pub mod metadata;
pub mod socket;
pub mod token;

pub use buffer::{BufferDesc, BufferRef};
pub use context::Context;
pub use hint::{likely, unlikely};
pub use metadata::{Metadata, MetadataType};
pub use socket::Flags;
pub use token::{Payload, Token};
