//! Buffering between a caller and a stream of elements.
//!
//! A [`Read`] keeps the elements that a stream delivered until the caller asks
//! for them; a [`Write`] keeps the caller's elements until the stream must take
//! them. Neither calls its stream. Each function here says what is to be done
//! next and takes what the stream answered as an argument, so whoever owns the
//! stream makes the calls, and the rules of buffering hold whatever the stream
//! answers.

pub mod laws;
mod read;
mod store;
mod write;

pub use read::{asked, reserved, Read, ReadView, Refill};
pub use store::least;
pub use write::{EndOfFile, Step, Write, WriteView};
