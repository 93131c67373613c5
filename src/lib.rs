//! Bit streams and universal integer codes (unary, Elias γ and δ, minimal
//! binary, ζ), in two bit orders, with every operation verified against a
//! model of the stream as a sequence of bits.
//!
//! - [`bits`] and [`word`]: the model. A field of `n` bits holding `x` is
//!   `bits_msb(x, n)` in M2L order and `bits_lsb(x, n)` in L2M order; a
//!   sequence of 64-bit words holds the concatenation of their 64-bit fields.
//! - [`traits`]: bit orders, errors, the word backends, and the bit-level
//!   reading and writing interfaces.
//! - [`writer`]: a writer that stages bits in a 128-bit register; everything it
//!   was given is the sink's words followed by the staged bits.
//! - [`reader`]: a reader that keeps only a bit position over a word source;
//!   [`buffered_reader`]: one that also keeps the last word it read.
//! - [`codes`], [`gamma`], [`delta`], [`minimal_binary`], [`zeta`]: the codes
//!   as bit strings, their lengths, and their reading and writing on any
//!   stream.
//! - [`unary_tables`], [`gamma_tables`], [`delta_tables`]: precomputed tables
//!   for short codes,
//!   each entry proved equal to the code it stands for.
//! - [`backends`]: word backends in memory.
//! - [`laws`]: what one side writes, the other reads back.

pub mod bits;
pub mod word;
pub mod traits;
pub mod writer;
pub mod reader;
pub mod buffered_reader;
pub mod codes;
pub mod gamma;
pub mod delta;
pub mod minimal_binary;
pub mod zeta;
pub mod backends;
pub mod unary_tables;
pub mod gamma_tables;
pub mod delta_tables;
pub mod laws;
