//! Searches byte buffers for the first occurrence of any member of a small
//! set of ASCII byte values.
//!
//! An [`AsciiChars`] holds up to eight ASCII bytes packed into a `u64`.
//! [`AsciiChars::find`] scans a haystack in 16-byte blocks, resolving an
//! unaligned leading block through a match bitmap, and returns the index of
//! the first byte that belongs to the set. An [`AsciiCharsSearcher`] turns
//! single lookups into a sequence of `Match`/`Reject` spans for splitting
//! and iteration.

pub mod block;
pub mod cursor;
pub mod needle;
pub mod search;

pub use cursor::AsciiCharsSearcher;
pub use cursor::AsciiCharsWithFallback;
pub use cursor::SearchStep;
pub use needle::AsciiChars;
