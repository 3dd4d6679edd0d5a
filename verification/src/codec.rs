//! Fixed-width little-endian integers and byte ranges inside a buffer.
//!
//! Everything here is stated over `Seq<u8>`: what eight bytes mean as an
//! unsigned integer, which eight bytes an integer is stored as, and what a
//! buffer looks like after a range of it has been overwritten.

use vstd::prelude::*;

verus! {

/// The eight bytes that store `x`, least significant byte first.
pub open spec fn le_bytes(x: u64) -> Seq<u8> {
    seq![
        (x % 0x100) as u8,
        (x / 0x100 % 0x100) as u8,
        (x / 0x1_0000 % 0x100) as u8,
        (x / 0x100_0000 % 0x100) as u8,
        (x / 0x1_0000_0000 % 0x100) as u8,
        (x / 0x100_0000_0000 % 0x100) as u8,
        (x / 0x1_0000_0000_0000 % 0x100) as u8,
        (x / 0x100_0000_0000_0000 % 0x100) as u8,
    ]
}

/// The unsigned integer that the first eight bytes of `s` store, least
/// significant byte first.
pub open spec fn le_value(s: Seq<u8>) -> int
    recommends
        s.len() >= 8,
{
    s[0] + s[1] * 0x100 + s[2] * 0x1_0000 + s[3] * 0x100_0000 + s[4] * 0x1_0000_0000 + s[5]
        * 0x100_0000_0000 + s[6] * 0x1_0000_0000_0000 + s[7] * 0x100_0000_0000_0000
}

/// `s` with the bytes from `off` on replaced by `part`; every other byte, and
/// the length, is kept.
pub open spec fn overwrite(s: Seq<u8>, off: int, part: Seq<u8>) -> Seq<u8>
    recommends
        0 <= off,
        off + part.len() <= s.len(),
{
    Seq::new(
        s.len(),
        |i: int|
            if off <= i < off + part.len() {
                part[i - off]
            } else {
                s[i]
            },
    )
}

/// Eight bytes always store a value that fits in 64 bits.
pub proof fn lemma_le_value_bound(s: Seq<u8>)
    requires
        s.len() >= 8,
    ensures
        0 <= le_value(s) <= u64::MAX,
{
}

/// Dividing by a power of 256 is dividing by 256 that many times.
proof fn lemma_shift_by_bytes(x: u64)
    ensures
        x / 0x1_0000 == x / 0x100 / 0x100,
        x / 0x100_0000 == x / 0x1_0000 / 0x100,
        x / 0x1_0000_0000 == x / 0x100_0000 / 0x100,
        x / 0x100_0000_0000 == x / 0x1_0000_0000 / 0x100,
        x / 0x1_0000_0000_0000 == x / 0x100_0000_0000 / 0x100,
        x / 0x100_0000_0000_0000 == x / 0x1_0000_0000_0000 / 0x100,
        x / 0x100_0000_0000_0000 < 0x100,
{
    assert(x / 0x1_0000 == x / 0x100 / 0x100 && x / 0x100_0000 == x / 0x1_0000 / 0x100 && x
        / 0x1_0000_0000 == x / 0x100_0000 / 0x100 && x / 0x100_0000_0000 == x / 0x1_0000_0000
        / 0x100 && x / 0x1_0000_0000_0000 == x / 0x100_0000_0000 / 0x100 && x
        / 0x100_0000_0000_0000 == x / 0x1_0000_0000_0000 / 0x100 && x / 0x100_0000_0000_0000
        < 0x100) by (bit_vector);
}

/// Storing an integer and reading the eight bytes back gives the integer.
pub proof fn lemma_le_round_trip(x: u64)
    ensures
        le_bytes(x).len() == 8,
        le_value(le_bytes(x)) == x,
{
    lemma_shift_by_bytes(x);
}

/// Eight bytes are the stored form of the integer they store: no two byte
/// patterns store the same value.
pub proof fn lemma_le_bytes_of_value(s: Seq<u8>)
    requires
        s.len() == 8,
    ensures
        le_bytes(le_value(s) as u64) == s,
{
    let t7: int = s[7] as int;
    let t6: int = s[6] + t7 * 0x100;
    let t5: int = s[5] + t6 * 0x100;
    let t4: int = s[4] + t5 * 0x100;
    let t3: int = s[3] + t4 * 0x100;
    let t2: int = s[2] + t3 * 0x100;
    let t1: int = s[1] + t2 * 0x100;
    let t0: int = s[0] + t1 * 0x100;
    assert(t0 == le_value(s));
    let x = le_value(s) as u64;
    lemma_shift_by_bytes(x);
    assert(x / 0x100 == t1);
    assert(x / 0x1_0000 == t2);
    assert(x / 0x100_0000 == t3);
    assert(x / 0x1_0000_0000 == t4);
    assert(x / 0x100_0000_0000 == t5);
    assert(x / 0x1_0000_0000_0000 == t6);
    assert(x / 0x100_0000_0000_0000 == t7);
    assert(le_bytes(x) =~= s);
}

/// Reading back the range that was just overwritten gives what was written.
pub proof fn lemma_overwrite_reads_back(s: Seq<u8>, off: int, part: Seq<u8>)
    requires
        0 <= off,
        off + part.len() <= s.len(),
    ensures
        overwrite(s, off, part).len() == s.len(),
        overwrite(s, off, part).subrange(off, off + part.len()) == part,
{
    assert(overwrite(s, off, part).subrange(off, off + part.len()) =~= part);
}

/// A range that does not meet the overwritten one reads as before.
pub proof fn lemma_overwrite_keeps_apart(s: Seq<u8>, off: int, part: Seq<u8>, lo: int, hi: int)
    requires
        0 <= off,
        off + part.len() <= s.len(),
        0 <= lo <= hi <= s.len(),
        hi <= off || off + part.len() <= lo,
    ensures
        overwrite(s, off, part).subrange(lo, hi) == s.subrange(lo, hi),
{
    assert(overwrite(s, off, part).subrange(lo, hi) =~= s.subrange(lo, hi));
}

/// Reads the unsigned 64-bit integer stored at `off`.
pub fn get_u64(data: &[u8], off: usize) -> (v: u64)
    requires
        off + 8 <= data@.len(),
    ensures
        v == le_value(data@.subrange(off as int, off + 8)),
{
    let b0: u64 = data[off] as u64;
    let b1: u64 = data[off + 1] as u64;
    let b2: u64 = data[off + 2] as u64;
    let b3: u64 = data[off + 3] as u64;
    let b4: u64 = data[off + 4] as u64;
    let b5: u64 = data[off + 5] as u64;
    let b6: u64 = data[off + 6] as u64;
    let b7: u64 = data[off + 7] as u64;
    b0 + b1 * 0x100 + b2 * 0x1_0000 + b3 * 0x100_0000 + b4 * 0x1_0000_0000 + b5 * 0x100_0000_0000
        + b6 * 0x1_0000_0000_0000 + b7 * 0x100_0000_0000_0000
}

/// Copies `src` over the bytes of `data` that start at `off`.
pub fn put_bytes(data: &mut [u8], off: usize, src: &[u8])
    requires
        off + src@.len() <= old(data)@.len(),
    ensures
        final(data)@ == overwrite(old(data)@, off as int, src@),
{
    let n: usize = src.len();
    let total: usize = data.len();
    let mut i: usize = 0;
    while i < n
        invariant
            n == src@.len(),
            i <= n,
            off + n <= total,
            data@.len() == total,
            old(data)@.len() == total,
            forall|k: int|
                0 <= k < data@.len() ==> data@[k] == if off <= k < off + i {
                    src@[k - off]
                } else {
                    old(data)@[k]
                },
        decreases n - i,
    {
        data[off + i] = src[i];
        i += 1;
    }
    assert(data@ =~= overwrite(old(data)@, off as int, src@));
}

/// Stores `v` in the eight bytes of `data` that start at `off`.
pub fn put_u64(data: &mut [u8], off: usize, v: u64)
    requires
        off + 8 <= old(data)@.len(),
    ensures
        final(data)@ == overwrite(old(data)@, off as int, le_bytes(v)),
{
    let b: [u8; 8] = [
        (v % 0x100) as u8,
        (v / 0x100 % 0x100) as u8,
        (v / 0x1_0000 % 0x100) as u8,
        (v / 0x100_0000 % 0x100) as u8,
        (v / 0x1_0000_0000 % 0x100) as u8,
        (v / 0x100_0000_0000 % 0x100) as u8,
        (v / 0x1_0000_0000_0000 % 0x100) as u8,
        (v / 0x100_0000_0000_0000 % 0x100) as u8,
    ];
    assert(b@ =~= le_bytes(v));
    put_bytes(data, off, b.as_slice());
}

/// Copies the 32 bytes of `data` that start at `off` into an array.
pub fn get_key(data: &[u8], off: usize) -> (key: [u8; 32])
    requires
        off + 32 <= data@.len(),
    ensures
        key@ == data@.subrange(off as int, off + 32),
{
    let total: usize = data.len();
    let mut key: [u8; 32] = [0u8; 32];
    let mut i: usize = 0;
    while i < 32
        invariant
            i <= 32,
            off + 32 <= total,
            data@.len() == total,
            forall|k: int| 0 <= k < i ==> key@[k] == data@[off + k],
        decreases 32 - i,
    {
        key[i] = data[off + i];
        i += 1;
    }
    assert(key@ =~= data@.subrange(off as int, off + 32));
    key
}

} // verus!
