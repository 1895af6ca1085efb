//! The traits a user of the library will normally want in scope.

pub use crate::sync_traits::{Read, ReadExt, Write, WriteExt};
pub use crate::async_traits::{
    AsyncRead, AsyncReadExt, AsyncSynchronous, AsyncSynchronousExt, AsyncWrite, AsyncWriteExt,
};
