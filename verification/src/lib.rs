//! An incremental SHA-1 message-digest engine.
//!
//! The [`Sha1`] engine accepts an arbitrary byte stream delivered in one or
//! more chunks through [`Sha1::input`] and produces the standardized 160-bit
//! digest through [`Sha1::result`].  The compression core that mixes one
//! 64-byte block into the five-word running state is exposed as
//! [`sha1_digest_block`] and [`sha1_digest_block_u32`], and the batched
//! four-rounds-at-a-time primitives that emulate the hardware SHA
//! instructions as [`sha1_schedule_x4`] and [`sha1_digest_round_x4`].
//!
//! Every operation is specified against a mathematical model of the
//! algorithm: [`hash::sha1_digest`] maps any byte sequence to its 20-byte
//! digest, and the engine's contracts prove that the buffered, incremental
//! computation agrees with that model no matter how the stream is chunked.

pub mod batch;
pub mod block;
pub mod engine;
pub mod hash;
pub mod hex;
pub mod words;

pub use batch::sha1_digest_round_x4;
pub use batch::sha1_first;
pub use batch::sha1_first_add;
pub use batch::sha1_first_half;
pub use batch::sha1_schedule_x4;
pub use batch::U32x4;
pub use block::sha1_digest_block;
pub use block::sha1_digest_block_u32;
pub use engine::Sha1;
pub use hex::to_hex;
