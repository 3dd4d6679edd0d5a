//! The stored form of an escrow record: six fields at fixed offsets, 113
//! bytes in all, with no padding between them.
//!
//! ```text
//! offset   0   seed      8 bytes, little-endian unsigned integer
//! offset   8   maker    32 bytes
//! offset  40   mint_a   32 bytes
//! offset  72   mint_b   32 bytes
//! offset 104   receive   8 bytes, little-endian unsigned integer
//! offset 112   bump      1 byte
//! ```

use crate::codec::{le_bytes, le_value, overwrite};
use vstd::prelude::*;

verus! {

pub const SEED_OFFSET: usize = 0;

pub const MAKER_OFFSET: usize = 8;

pub const MINT_A_OFFSET: usize = 40;

pub const MINT_B_OFFSET: usize = 72;

pub const RECEIVE_OFFSET: usize = 104;

pub const BUMP_OFFSET: usize = 112;

/// Length of a stored record, the sum of the six field widths.
pub const RECORD_LEN: usize = 113;

/// The six fields, in the order in which they are stored.
pub enum Field {
    Seed,
    Maker,
    MintA,
    MintB,
    Receive,
    Bump,
}

/// Where a field's bytes start.
pub open spec fn offset(f: Field) -> int {
    match f {
        Field::Seed => SEED_OFFSET as int,
        Field::Maker => MAKER_OFFSET as int,
        Field::MintA => MINT_A_OFFSET as int,
        Field::MintB => MINT_B_OFFSET as int,
        Field::Receive => RECEIVE_OFFSET as int,
        Field::Bump => BUMP_OFFSET as int,
    }
}

/// How many bytes a field takes.
pub open spec fn width(f: Field) -> int {
    match f {
        Field::Seed => 8,
        Field::Maker => 32,
        Field::MintA => 32,
        Field::MintB => 32,
        Field::Receive => 8,
        Field::Bump => 1,
    }
}

/// The bytes of `s` that hold field `f`.
pub open spec fn field_bytes(s: Seq<u8>, f: Field) -> Seq<u8>
    recommends
        s.len() == RECORD_LEN,
{
    s.subrange(offset(f), offset(f) + width(f))
}

/// `s` with the bytes of field `f` replaced by `part`.
pub open spec fn with_field(s: Seq<u8>, f: Field, part: Seq<u8>) -> Seq<u8>
    recommends
        s.len() == RECORD_LEN,
        part.len() == width(f),
{
    overwrite(s, offset(f), part)
}

/// The field values of a record. The three identifiers are byte strings of
/// length 32.
pub struct Record {
    pub seed: u64,
    pub maker: Seq<u8>,
    pub mint_a: Seq<u8>,
    pub mint_b: Seq<u8>,
    pub receive: u64,
    pub bump: u8,
}

impl Record {
    /// Each identifier has its 32 bytes.
    pub open spec fn valid(self) -> bool {
        &&& self.maker.len() == 32
        &&& self.mint_a.len() == 32
        &&& self.mint_b.len() == 32
    }
}

/// The 113 bytes that store `r`.
pub open spec fn encode(r: Record) -> Seq<u8>
    recommends
        r.valid(),
{
    le_bytes(r.seed) + r.maker + r.mint_a + r.mint_b + le_bytes(r.receive) + seq![r.bump]
}

/// The field values that 113 bytes store. Every byte pattern stores some
/// record.
pub open spec fn decode(s: Seq<u8>) -> Record
    recommends
        s.len() == RECORD_LEN,
{
    Record {
        seed: le_value(field_bytes(s, Field::Seed)) as u64,
        maker: field_bytes(s, Field::Maker),
        mint_a: field_bytes(s, Field::MintA),
        mint_b: field_bytes(s, Field::MintB),
        receive: le_value(field_bytes(s, Field::Receive)) as u64,
        bump: field_bytes(s, Field::Bump)[0],
    }
}

} // verus!
