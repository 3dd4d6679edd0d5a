//! Typed access to an escrow record that lives in a caller's buffer.
//!
//! [`Escrow::load`] and [`Escrow::load_mut`] check that a buffer has the
//! record's exact length and hand back a handle that borrows it. Nothing is
//! copied: a setter writes straight into the caller's bytes, at the field's
//! offset.
//!
//! A handle's view is the [`Record`] that its bytes store. The contracts of
//! the writable handle say two things of every write: which bytes the buffer
//! holds afterwards, and that the handle still borrows the same buffer. The
//! second is the clause `final(final(self).data)@ == final(old(self).data)@`:
//! the value that the borrow gives back when it ends is the one that the
//! handle holds then. With it a caller learns, once the handle is gone, that
//! its own buffer holds what was written.

use crate::codec::{
    get_key, get_u64, le_bytes, lemma_le_round_trip, lemma_le_value_bound, put_bytes, put_u64,
};
use crate::laws::{law_fields_independent, law_six_writes_encode, law_write_lands_in_field};
use crate::layout::{
    decode, encode, field_bytes, width, with_field, Field, Record, BUMP_OFFSET, MAKER_OFFSET,
    MINT_A_OFFSET, MINT_B_OFFSET, RECEIVE_OFFSET, RECORD_LEN, SEED_OFFSET,
};
use pinocchio::program_error::ProgramError;
use pinocchio::pubkey::Pubkey;
use vstd::prelude::*;

verus! {

/// `pinocchio::program_error::ProgramError`, the error type of an on-chain
/// program. The declaration makes the enum known to the verifier, which reads
/// its variants from pinocchio itself; nothing is claimed of them here.
#[verifier::external_type_specification]
pub struct ExProgramError(ProgramError);

/// A writable escrow record: a mutable borrow of the bytes that store it.
///
/// The borrow is a public field, so that contracts can speak of what the
/// buffer holds when the borrow ends. A handle from [`Escrow::load_mut`] is
/// well formed ([`Escrow::wf`]), and every method keeps it so.
pub struct Escrow<'a> {
    pub data: &'a mut [u8],
}

/// A read-only escrow record: a shared borrow of the 113 bytes that store it.
/// Only [`Escrow::load`] makes one, so the length is known to hold.
pub struct EscrowRef<'a> {
    data: &'a [u8],
}

impl<'a> View for Escrow<'a> {
    type V = Record;

    open spec fn view(&self) -> Record {
        decode(self.data@)
    }
}

impl<'a> View for EscrowRef<'a> {
    type V = Record;

    open spec fn view(&self) -> Record {
        decode(self.bytes())
    }
}

impl<'a> EscrowRef<'a> {
    #[verifier::type_invariant]
    spec fn has_record_len(self) -> bool {
        self.data@.len() == RECORD_LEN
    }

    /// The borrowed bytes.
    pub closed spec fn bytes(&self) -> Seq<u8> {
        self.data@
    }

    /// The borrowed bytes themselves, for as long as the buffer is borrowed.
    pub fn as_bytes(&self) -> (b: &'a [u8])
        ensures
            b@ == self.bytes(),
            b@.len() == RECORD_LEN,
    {
        proof {
            use_type_invariant(self);
        }
        self.data
    }

    /// The stored seed.
    pub fn seed(&self) -> (v: u64)
        ensures
            v == self@.seed,
    {
        proof {
            use_type_invariant(self);
            lemma_le_value_bound(field_bytes(self.data@, Field::Seed));
        }
        get_u64(self.data, SEED_OFFSET)
    }

    /// The stored identity of the record's creator.
    pub fn maker(&self) -> (v: Pubkey)
        ensures
            v@ == self@.maker,
    {
        proof {
            use_type_invariant(self);
        }
        get_key(self.data, MAKER_OFFSET)
    }

    /// The stored identifier of the deposited asset.
    pub fn mint_a(&self) -> (v: Pubkey)
        ensures
            v@ == self@.mint_a,
    {
        proof {
            use_type_invariant(self);
        }
        get_key(self.data, MINT_A_OFFSET)
    }

    /// The stored identifier of the asset expected in return.
    pub fn mint_b(&self) -> (v: Pubkey)
        ensures
            v@ == self@.mint_b,
    {
        proof {
            use_type_invariant(self);
        }
        get_key(self.data, MINT_B_OFFSET)
    }

    /// The stored quantity expected in return.
    pub fn receive(&self) -> (v: u64)
        ensures
            v == self@.receive,
    {
        proof {
            use_type_invariant(self);
            lemma_le_value_bound(field_bytes(self.data@, Field::Receive));
        }
        get_u64(self.data, RECEIVE_OFFSET)
    }

    /// The stored bump byte.
    pub fn bump(&self) -> (v: [u8; 1])
        ensures
            v@ == seq![self@.bump],
    {
        proof {
            use_type_invariant(self);
        }
        let v: [u8; 1] = [self.data[BUMP_OFFSET]];
        assert(v@ =~= seq![self@.bump]);
        v
    }
}

impl<'a> Escrow<'a> {
    /// Length in bytes of a stored record.
    pub const LEN: usize = RECORD_LEN;

    /// The borrowed buffer has the record's length.
    pub open spec fn wf(&self) -> bool {
        self.data@.len() == RECORD_LEN
    }

    /// The length that a buffer must have to be taken as a record.
    pub fn expected_size() -> (n: usize)
        ensures
            n == RECORD_LEN,
            n == 113,
    {
        RECORD_LEN
    }

    /// Takes `bytes` as a writable record if it has the record's exact
    /// length, whatever it holds, and fails with `InvalidAccountData` on any
    /// other length. The handle borrows `bytes`: what is written through it is
    /// what `bytes` holds afterwards.
    pub fn load_mut(bytes: &'a mut [u8]) -> (r: Result<Escrow<'a>, ProgramError>)
        ensures
            r is Ok <==> old(bytes)@.len() == RECORD_LEN,
            r matches Err(e) ==> e == ProgramError::InvalidAccountData && final(bytes)@ == old(
                bytes,
            )@,
            r matches Ok(h) ==> h.wf() && h.data@ == old(bytes)@ && final(bytes)@ == final(h.data)@,
    {
        if bytes.len() != RECORD_LEN {
            return Err(ProgramError::InvalidAccountData);
        }
        Ok(Escrow { data: bytes })
    }

    /// Takes `bytes` as a read-only record if it has the record's exact
    /// length, whatever it holds, and fails with `InvalidAccountData` on any
    /// other length.
    pub fn load(bytes: &'a [u8]) -> (r: Result<EscrowRef<'a>, ProgramError>)
        ensures
            r is Ok <==> bytes@.len() == RECORD_LEN,
            r matches Err(e) ==> e == ProgramError::InvalidAccountData,
            r matches Ok(h) ==> h.bytes() == bytes@,
    {
        if bytes.len() != RECORD_LEN {
            return Err(ProgramError::InvalidAccountData);
        }
        Ok(EscrowRef { data: bytes })
    }

    /// Stores `seed` at offset 0, little-endian.
    pub fn set_seed(&mut self, seed: u64)
        requires
            old(self).wf(),
        ensures
            final(self).wf(),
            final(self).data@ == with_field(old(self).data@, Field::Seed, le_bytes(seed)),
            final(self)@ == (Record { seed: seed, ..old(self)@ }),
            final(final(self).data)@ == final(old(self).data)@,
    {
        proof {
            lemma_field_written(self.data@, Field::Seed, le_bytes(seed));
            lemma_le_round_trip(seed);
        }
        put_u64(self.data, SEED_OFFSET, seed);
    }

    /// Stores `maker` at offset 8.
    pub fn set_maker(&mut self, maker: Pubkey)
        requires
            old(self).wf(),
        ensures
            final(self).wf(),
            final(self).data@ == with_field(old(self).data@, Field::Maker, maker@),
            final(self)@ == (Record { maker: maker@, ..old(self)@ }),
            final(final(self).data)@ == final(old(self).data)@,
    {
        proof {
            lemma_field_written(self.data@, Field::Maker, maker@);
        }
        put_bytes(self.data, MAKER_OFFSET, maker.as_slice());
    }

    /// Stores `mint_a` at offset 40.
    pub fn set_mint_a(&mut self, mint_a: Pubkey)
        requires
            old(self).wf(),
        ensures
            final(self).wf(),
            final(self).data@ == with_field(old(self).data@, Field::MintA, mint_a@),
            final(self)@ == (Record { mint_a: mint_a@, ..old(self)@ }),
            final(final(self).data)@ == final(old(self).data)@,
    {
        proof {
            lemma_field_written(self.data@, Field::MintA, mint_a@);
        }
        put_bytes(self.data, MINT_A_OFFSET, mint_a.as_slice());
    }

    /// Stores `mint_b` at offset 72.
    pub fn set_mint_b(&mut self, mint_b: Pubkey)
        requires
            old(self).wf(),
        ensures
            final(self).wf(),
            final(self).data@ == with_field(old(self).data@, Field::MintB, mint_b@),
            final(self)@ == (Record { mint_b: mint_b@, ..old(self)@ }),
            final(final(self).data)@ == final(old(self).data)@,
    {
        proof {
            lemma_field_written(self.data@, Field::MintB, mint_b@);
        }
        put_bytes(self.data, MINT_B_OFFSET, mint_b.as_slice());
    }

    /// Stores `receive` at offset 104, little-endian.
    pub fn set_receive(&mut self, receive: u64)
        requires
            old(self).wf(),
        ensures
            final(self).wf(),
            final(self).data@ == with_field(old(self).data@, Field::Receive, le_bytes(receive)),
            final(self)@ == (Record { receive: receive, ..old(self)@ }),
            final(final(self).data)@ == final(old(self).data)@,
    {
        proof {
            lemma_field_written(self.data@, Field::Receive, le_bytes(receive));
            lemma_le_round_trip(receive);
        }
        put_u64(self.data, RECEIVE_OFFSET, receive);
    }

    /// Stores `bump` at offset 112.
    pub fn set_bump(&mut self, bump: [u8; 1])
        requires
            old(self).wf(),
        ensures
            final(self).wf(),
            final(self).data@ == with_field(old(self).data@, Field::Bump, bump@),
            final(self)@ == (Record { bump: bump@[0], ..old(self)@ }),
            final(final(self).data)@ == final(old(self).data)@,
    {
        proof {
            lemma_field_written(self.data@, Field::Bump, bump@);
        }
        put_bytes(self.data, BUMP_OFFSET, bump.as_slice());
    }

    /// Stores all six fields, in the order of the layout. Afterwards the
    /// buffer is the stored form of the six values, whatever it held before.
    pub fn set_inner(
        &mut self,
        seed: u64,
        maker: Pubkey,
        mint_a: Pubkey,
        mint_b: Pubkey,
        receive: u64,
        bump: [u8; 1],
    )
        requires
            old(self).wf(),
        ensures
            final(self).wf(),
            final(self).data@ == encode(
                Record {
                    seed: seed,
                    maker: maker@,
                    mint_a: mint_a@,
                    mint_b: mint_b@,
                    receive: receive,
                    bump: bump@[0],
                },
            ),
            final(self)@ == (Record {
                seed: seed,
                maker: maker@,
                mint_a: mint_a@,
                mint_b: mint_b@,
                receive: receive,
                bump: bump@[0],
            }),
            final(final(self).data)@ == final(old(self).data)@,
    {
        proof {
            let r = Record {
                seed: seed,
                maker: maker@,
                mint_a: mint_a@,
                mint_b: mint_b@,
                receive: receive,
                bump: bump@[0],
            };
            assert(bump@ =~= seq![bump@[0]]);
            law_six_writes_encode(self.data@, r);
        }
        self.set_seed(seed);
        self.set_maker(maker);
        self.set_mint_a(mint_a);
        self.set_mint_b(mint_b);
        self.set_receive(receive);
        self.set_bump(bump);
    }

    /// The stored seed.
    pub fn seed(&self) -> (v: u64)
        requires
            self.wf(),
        ensures
            v == self@.seed,
    {
        proof {
            lemma_le_value_bound(field_bytes(self.data@, Field::Seed));
        }
        get_u64(self.data, SEED_OFFSET)
    }

    /// The stored identity of the record's creator.
    pub fn maker(&self) -> (v: Pubkey)
        requires
            self.wf(),
        ensures
            v@ == self@.maker,
    {
        get_key(self.data, MAKER_OFFSET)
    }

    /// The stored identifier of the deposited asset.
    pub fn mint_a(&self) -> (v: Pubkey)
        requires
            self.wf(),
        ensures
            v@ == self@.mint_a,
    {
        get_key(self.data, MINT_A_OFFSET)
    }

    /// The stored identifier of the asset expected in return.
    pub fn mint_b(&self) -> (v: Pubkey)
        requires
            self.wf(),
        ensures
            v@ == self@.mint_b,
    {
        get_key(self.data, MINT_B_OFFSET)
    }

    /// The stored quantity expected in return.
    pub fn receive(&self) -> (v: u64)
        requires
            self.wf(),
        ensures
            v == self@.receive,
    {
        proof {
            lemma_le_value_bound(field_bytes(self.data@, Field::Receive));
        }
        get_u64(self.data, RECEIVE_OFFSET)
    }

    /// The stored bump byte.
    pub fn bump(&self) -> (v: [u8; 1])
        requires
            self.wf(),
        ensures
            v@ == seq![self@.bump],
    {
        let v: [u8; 1] = [self.data[BUMP_OFFSET]];
        assert(v@ =~= seq![self@.bump]);
        v
    }
}

/// After a write to field `f`, `f` reads as what was written and every other
/// field reads as before.
proof fn lemma_field_written(s: Seq<u8>, f: Field, part: Seq<u8>)
    requires
        s.len() == RECORD_LEN,
        part.len() == width(f),
    ensures
        with_field(s, f, part).len() == RECORD_LEN,
        field_bytes(with_field(s, f, part), f) == part,
        forall|g: Field| g != f ==> field_bytes(with_field(s, f, part), g) == field_bytes(s, g),
{
    law_write_lands_in_field(s, f, part);
    assert forall|g: Field| g != f implies field_bytes(with_field(s, f, part), g) == field_bytes(
        s,
        g,
    ) by {
        law_fields_independent(s, f, part, g);
    }
}

} // verus!
