//! Little-endian numbers in byte strings.

use vstd::prelude::*;

verus! {

/// The 32-bit number at position `i`, least significant byte first.
pub open spec fn le32_at(bytes: Seq<u8>, i: int) -> int {
    bytes[i] + 0x100 * bytes[i + 1] + 0x1_0000 * bytes[i + 2] + 0x100_0000 * bytes[i + 3]
}

/// The 64-bit number at position `i`, least significant byte first.
pub open spec fn le64_at(bytes: Seq<u8>, i: int) -> int {
    le32_at(bytes, i) + 0x1_0000_0000 * le32_at(bytes, i + 4)
}

/// The bytes of a number, least significant byte first.
pub open spec fn le_bytes(value: int, len: nat) -> Seq<u8>
    decreases len,
{
    if len == 0 {
        Seq::empty()
    } else {
        seq![(value % 256) as u8] + le_bytes(value / 256, (len - 1) as nat)
    }
}

/// A byte string in which `part` stands in the place of the bytes from `off` on.
pub open spec fn splice(bytes: Seq<u8>, off: int, part: Seq<u8>) -> Seq<u8> {
    Seq::new(
        bytes.len(),
        |i: int|
            if off <= i < off + part.len() {
                part[i - off]
            } else {
                bytes[i]
            },
    )
}

/// A byte string of zeroes.
pub open spec fn zero_bytes(len: nat) -> Seq<u8> {
    Seq::new(len, |i: int| 0u8)
}

pub fn get_le32(bytes: &[u8], i: usize) -> (ret: u32)
    requires
        i + 4 <= bytes@.len(),
    ensures
        ret == le32_at(bytes@, i as int),
{
    bytes[i] as u32 + 0x100 * bytes[i + 1] as u32 + 0x1_0000 * bytes[i + 2] as u32 + 0x100_0000
        * bytes[i + 3] as u32
}

pub fn get_le64(bytes: &[u8], i: usize) -> (ret: u64)
    requires
        i + 8 <= bytes@.len(),
    ensures
        ret == le64_at(bytes@, i as int),
{
    assert(i + 8 <= bytes.len());
    get_le32(bytes, i) as u64 + 0x1_0000_0000 * get_le32(bytes, i + 4) as u64
}

/// The number of given length has that many bytes.
pub proof fn le_bytes_len(value: int, len: nat)
    ensures
        le_bytes(value, len).len() == len,
    decreases len,
{
    if len > 0 {
        le_bytes_len(value / 256, (len - 1) as nat);
    }
}

/// The number whose bytes are written is the number that is read.
pub proof fn le_bytes_read_back(value: int)
    ensures
        0 <= value < 0x1_0000_0000 ==> le32_at(le_bytes(value, 4), 0) == value,
        0 <= value < 0x1_0000_0000_0000_0000 ==> le64_at(le_bytes(value, 8), 0) == value,
{
    reveal_with_fuel(le_bytes, 9);
    let v1 = value / 256;
    let v2 = v1 / 256;
    let v3 = v2 / 256;
    let v4 = v3 / 256;
    let v5 = v4 / 256;
    let v6 = v5 / 256;
    let v7 = v6 / 256;
    assert(le_bytes(value, 4) =~= seq![
        (value % 256) as u8,
        (v1 % 256) as u8,
        (v2 % 256) as u8,
        (v3 % 256) as u8,
    ]);
    assert(le_bytes(value, 8) =~= seq![
        (value % 256) as u8,
        (v1 % 256) as u8,
        (v2 % 256) as u8,
        (v3 % 256) as u8,
        (v4 % 256) as u8,
        (v5 % 256) as u8,
        (v6 % 256) as u8,
        (v7 % 256) as u8,
    ]);
}

/// Writes the `len` low bytes of a number.
pub fn put_le(bytes: &mut Vec<u8>, off: usize, value: u64, len: usize)
    requires
        off + len <= old(bytes)@.len(),
    ensures
        final(bytes)@ == splice(old(bytes)@, off as int, le_bytes(value as int, len as nat)),
{
    let mut i: usize = 0;
    let mut rest: u64 = value;
    let ghost all = le_bytes(value as int, len as nat);
    proof {
        le_bytes_len(value as int, len as nat);
    }
    assert(all.skip(0) =~= all);
    while i < len
        invariant
            i <= len,
            off + len <= bytes.len(),
            bytes@.len() == old(bytes)@.len(),
            all.len() == len,
            all.skip(i as int) == le_bytes(rest as int, (len - i) as nat),
            forall|k: int|
                0 <= k < bytes@.len() ==> #[trigger] bytes@[k] == if off <= k < off + i {
                    all[k - off]
                } else {
                    old(bytes)@[k]
                },
        decreases len - i,
    {
        let byte: u8 = (rest % 256) as u8;
        assert(all[i as int] == all.skip(i as int)[0]);
        bytes.set(off + i, byte);
        assert(all.skip(i + 1) =~= all.skip(i as int).drop_first());
        assert(all.skip(i as int).drop_first() =~= le_bytes(rest as int / 256, (len - i - 1) as nat));
        rest = rest / 256;
        i = i + 1;
    }
    assert(bytes@ =~= splice(old(bytes)@, off as int, all));
}

/// A byte string of zeroes.
pub fn zeroes(len: usize) -> (ret: Vec<u8>)
    ensures
        ret@ == zero_bytes(len as nat),
{
    let ret: Vec<u8> = vec![0u8; len];
    assert(ret@ =~= zero_bytes(len as nat));
    ret
}

/// The bytes `from .. from + len` of a byte string.
pub fn copy_bytes(bytes: &[u8], from: usize, len: usize) -> (ret: Vec<u8>)
    requires
        from + len <= bytes@.len(),
    ensures
        ret@ == bytes@.subrange(from as int, from + len),
{
    let mut ret: Vec<u8> = Vec::with_capacity(len);
    let mut i: usize = 0;
    while i < len
        invariant
            i <= len,
            from + len <= bytes.len(),
            ret@ =~= bytes@.subrange(from as int, from + i),
        decreases len - i,
    {
        ret.push(bytes[from + i]);
        i = i + 1;
    }
    ret
}

/// Overwrites the bytes from `off` on.
pub fn write_bytes(bytes: &mut Vec<u8>, off: usize, part: &[u8])
    requires
        off + part@.len() <= old(bytes)@.len(),
    ensures
        final(bytes)@ == splice(old(bytes)@, off as int, part@),
{
    let mut i: usize = 0;
    while i < part.len()
        invariant
            i <= part@.len(),
            off + part@.len() <= bytes.len(),
            bytes@.len() == old(bytes)@.len(),
            forall|k: int|
                0 <= k < bytes@.len() ==> #[trigger] bytes@[k] == if off <= k < off + i {
                    part@[k - off]
                } else {
                    old(bytes)@[k]
                },
        decreases part@.len() - i,
    {
        bytes.set(off + i, part[i]);
        i = i + 1;
    }
    assert(bytes@ =~= splice(old(bytes)@, off as int, part@));
}

/// The bytes of a number are its digits to the base 256, the least significant one first, and the
/// number at a position has the bytes from there on for its digits.
pub proof fn bytes_are_the_digits_of_a_number(value: int, bytes: Seq<u8>, i: int)
    requires
        0 <= value,
        0 <= i,
        i + 8 <= bytes.len(),
    ensures
        le_bytes(value, 4).len() == 4,
        le_bytes(value, 4)[0] == value % 0x100,
        le_bytes(value, 4)[1] == (value / 0x100) % 0x100,
        le_bytes(value, 4)[2] == (value / 0x1_0000) % 0x100,
        le_bytes(value, 4)[3] == (value / 0x100_0000) % 0x100,
        le32_at(bytes, i) % 0x100 == bytes[i],
        (le32_at(bytes, i) / 0x100) % 0x100 == bytes[i + 1],
        (le32_at(bytes, i) / 0x1_0000) % 0x100 == bytes[i + 2],
        le32_at(bytes, i) / 0x100_0000 == bytes[i + 3],
        le64_at(bytes, i) % 0x1_0000_0000 == le32_at(bytes, i),
        le64_at(bytes, i) / 0x1_0000_0000 == le32_at(bytes, i + 4),
{
    le_bytes_len(value, 4);
    reveal_with_fuel(le_bytes, 5);
    assert(value / 0x100 / 0x100 == value / 0x1_0000);
    assert(value / 0x1_0000 / 0x100 == value / 0x100_0000);
    let low = le32_at(bytes, i) as u32;
    let a = bytes[i] as u32;
    let b = bytes[i + 1] as u32;
    let c = bytes[i + 2] as u32;
    let d = bytes[i + 3] as u32;
    assert(low % 0x100 == a && (low / 0x100) % 0x100 == b && (low / 0x1_0000) % 0x100 == c && low
        / 0x100_0000 == d) by (bit_vector)
        requires
            low == a + 0x100 * b + 0x1_0000 * c + 0x100_0000 * d,
            a < 256,
            b < 256,
            c < 256,
            d < 256,
    ;
}

/// Storing bytes at a position changes those bytes and no others.
pub proof fn splice_changes_its_place(bytes: Seq<u8>, off: int, part: Seq<u8>, i: int)
    requires
        0 <= off,
        off + part.len() <= bytes.len(),
        0 <= i < bytes.len(),
    ensures
        splice(bytes, off, part).len() == bytes.len(),
        splice(bytes, off, part).subrange(off, off + part.len()) == part,
        i < off || off + part.len() <= i ==> splice(bytes, off, part)[i] == bytes[i],
        zero_bytes(bytes.len()).len() == bytes.len(),
        zero_bytes(bytes.len())[i] == 0,
{
    assert(splice(bytes, off, part).subrange(off, off + part.len()) =~= part);
}

} // verus!
