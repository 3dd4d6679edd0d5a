//! What holds of the layout as a whole: the stored form loses nothing, a
//! write lands in its own field and nowhere else, and writing twice is
//! writing once.

use crate::codec::{
    le_bytes, lemma_le_bytes_of_value, lemma_le_round_trip, lemma_overwrite_keeps_apart,
    lemma_overwrite_reads_back,
};
use crate::layout::{decode, encode, field_bytes, offset, width, with_field, Field, Record, RECORD_LEN};
use vstd::prelude::*;

verus! {

/// A record's stored form is 113 bytes long, and reading it back gives the
/// record, field for field.
pub proof fn law_round_trip(r: Record)
    requires
        r.valid(),
    ensures
        encode(r).len() == RECORD_LEN,
        decode(encode(r)) == r,
{
    lemma_le_round_trip(r.seed);
    lemma_le_round_trip(r.receive);
    let s = encode(r);
    assert(field_bytes(s, Field::Seed) =~= le_bytes(r.seed));
    assert(field_bytes(s, Field::Maker) =~= r.maker);
    assert(field_bytes(s, Field::MintA) =~= r.mint_a);
    assert(field_bytes(s, Field::MintB) =~= r.mint_b);
    assert(field_bytes(s, Field::Receive) =~= le_bytes(r.receive));
    assert(field_bytes(s, Field::Bump) =~= seq![r.bump]);
}

/// Every 113 bytes are the stored form of the record they store: the layout
/// has no byte that reading ignores.
pub proof fn law_stored_form_is_exact(s: Seq<u8>)
    requires
        s.len() == RECORD_LEN,
    ensures
        decode(s).valid(),
        encode(decode(s)) == s,
{
    lemma_le_bytes_of_value(field_bytes(s, Field::Seed));
    lemma_le_bytes_of_value(field_bytes(s, Field::Receive));
    assert(encode(decode(s)) =~= s);
}

/// The fields tile the record: they follow one another without a gap and
/// end at its last byte.
pub proof fn law_fields_tile()
    ensures
        offset(Field::Seed) == 0,
        offset(Field::Maker) == offset(Field::Seed) + width(Field::Seed),
        offset(Field::MintA) == offset(Field::Maker) + width(Field::Maker),
        offset(Field::MintB) == offset(Field::MintA) + width(Field::MintA),
        offset(Field::Receive) == offset(Field::MintB) + width(Field::MintB),
        offset(Field::Bump) == offset(Field::Receive) + width(Field::Receive),
        offset(Field::Bump) + width(Field::Bump) == RECORD_LEN,
{
}

/// Writing a field puts exactly the written bytes at the field's offset and
/// leaves every byte outside the field, and the length, as it was.
pub proof fn law_write_lands_in_field(s: Seq<u8>, f: Field, part: Seq<u8>)
    requires
        s.len() == RECORD_LEN,
        part.len() == width(f),
    ensures
        with_field(s, f, part).len() == RECORD_LEN,
        field_bytes(with_field(s, f, part), f) == part,
        forall|i: int|
            0 <= i < RECORD_LEN && !(offset(f) <= i < offset(f) + width(f)) ==> with_field(
                s,
                f,
                part,
            )[i] == s[i],
{
    lemma_overwrite_reads_back(s, offset(f), part);
}

/// Writing one field never alters the stored bytes of another.
pub proof fn law_fields_independent(s: Seq<u8>, f: Field, part: Seq<u8>, g: Field)
    requires
        s.len() == RECORD_LEN,
        part.len() == width(f),
        f != g,
    ensures
        field_bytes(with_field(s, f, part), g) == field_bytes(s, g),
{
    lemma_overwrite_keeps_apart(s, offset(f), part, offset(g), offset(g) + width(g));
}

/// Writing the same bytes to a field twice leaves the record as one write
/// does.
pub proof fn law_write_idempotent(s: Seq<u8>, f: Field, part: Seq<u8>)
    requires
        s.len() == RECORD_LEN,
        part.len() == width(f),
    ensures
        with_field(with_field(s, f, part), f, part) == with_field(s, f, part),
{
    assert(with_field(with_field(s, f, part), f, part) =~= with_field(s, f, part));
}

/// Writing all six fields in turn gives the stored form of the six values,
/// whatever the buffer held before.
pub proof fn law_six_writes_encode(s: Seq<u8>, r: Record)
    requires
        s.len() == RECORD_LEN,
        r.valid(),
    ensures
        with_field(
            with_field(
                with_field(
                    with_field(
                        with_field(
                            with_field(s, Field::Seed, le_bytes(r.seed)),
                            Field::Maker,
                            r.maker,
                        ),
                        Field::MintA,
                        r.mint_a,
                    ),
                    Field::MintB,
                    r.mint_b,
                ),
                Field::Receive,
                le_bytes(r.receive),
            ),
            Field::Bump,
            seq![r.bump],
        ) == encode(r),
{
    let s1 = with_field(s, Field::Seed, le_bytes(r.seed));
    let s2 = with_field(s1, Field::Maker, r.maker);
    let s3 = with_field(s2, Field::MintA, r.mint_a);
    let s4 = with_field(s3, Field::MintB, r.mint_b);
    let s5 = with_field(s4, Field::Receive, le_bytes(r.receive));
    let s6 = with_field(s5, Field::Bump, seq![r.bump]);
    assert(s6 =~= encode(r));
}

} // verus!
