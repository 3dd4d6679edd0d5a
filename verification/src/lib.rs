//! An escrow record as it is stored: 113 bytes at fixed offsets, read and
//! written in place in a buffer that the caller owns.
//!
//! * [`layout`] is the offset table and the meaning of the bytes.
//! * [`codec`] reads and writes integers and byte ranges inside a buffer.
//! * [`state`] holds the handles: [`Escrow`] to write, [`EscrowRef`] to read.
//! * [`laws`] proves what holds of the layout as a whole.

pub mod codec;
pub mod laws;
pub mod layout;
pub mod state;

pub use layout::{Field, Record};
pub use state::{Escrow, EscrowRef};
