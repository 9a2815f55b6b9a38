//! A fixed-capacity circular (ring) byte buffer.
//!
//! The buffer supports FIFO enqueue and dequeue in O(1) time without ever
//! shifting stored data: only the head and tail cursors move through a
//! fixed-size storage region.

mod storage;
mod ring;

pub use ring::RotatingBuffer;
pub use ring::RotatingBufferAtCapacity;
