//! Fixed-width integers in byte buffers.

use vstd::prelude::*;

verus! {

/// The little-endian 16-bit number at byte `at`.
pub open spec fn le_u16(bytes: Seq<u8>, at: int) -> u16 {
    (bytes[at] + bytes[at + 1] * 0x100) as u16
}

/// The little-endian 32-bit number at byte `at`.
pub open spec fn le_u32(bytes: Seq<u8>, at: int) -> u32 {
    (bytes[at] + bytes[at + 1] * 0x100 + bytes[at + 2] * 0x1_0000 + bytes[at + 3]
        * 0x100_0000) as u32
}

/// The big-endian 16-bit number at byte `at`.
pub open spec fn be_u16(bytes: Seq<u8>, at: int) -> u16 {
    (bytes[at] * 0x100 + bytes[at + 1]) as u16
}

/// The big-endian 32-bit number at byte `at`.
pub open spec fn be_u32(bytes: Seq<u8>, at: int) -> u32 {
    (bytes[at] * 0x100_0000 + bytes[at + 1] * 0x1_0000 + bytes[at + 2] * 0x100 + bytes[at
        + 3]) as u32
}

/// Reads a little-endian `u16`.
pub fn read_le_u16(bytes: &[u8], at: usize) -> (value: u16)
    requires
        at + 2 <= bytes.len(),
    ensures
        value == le_u16(bytes@, at as int),
{
    bytes[at] as u16 + bytes[at + 1] as u16 * 0x100
}

/// Reads a little-endian `u32`.
pub fn read_le_u32(bytes: &[u8], at: usize) -> (value: u32)
    requires
        at + 4 <= bytes.len(),
    ensures
        value == le_u32(bytes@, at as int),
{
    bytes[at] as u32 + bytes[at + 1] as u32 * 0x100 + bytes[at + 2] as u32 * 0x1_0000 + bytes[at
        + 3] as u32 * 0x100_0000
}

/// Reads a big-endian `u16`.
pub fn read_be_u16(bytes: &[u8], at: usize) -> (value: u16)
    requires
        at + 2 <= bytes.len(),
    ensures
        value == be_u16(bytes@, at as int),
{
    bytes[at] as u16 * 0x100 + bytes[at + 1] as u16
}

/// Reads a big-endian `u32`.
pub fn read_be_u32(bytes: &[u8], at: usize) -> (value: u32)
    requires
        at + 4 <= bytes.len(),
    ensures
        value == be_u32(bytes@, at as int),
{
    bytes[at] as u32 * 0x100_0000 + bytes[at + 1] as u32 * 0x1_0000 + bytes[at + 2] as u32 * 0x100
        + bytes[at + 3] as u32
}

/// A 16-bit number, lowest byte first.
pub open spec fn le16(value: u16) -> Seq<u8> {
    seq![(value % 0x100) as u8, (value / 0x100) as u8]
}

/// A 32-bit number, lowest byte first.
pub open spec fn le32(value: u32) -> Seq<u8> {
    seq![
        (value % 0x100) as u8,
        (value / 0x100 % 0x100) as u8,
        (value / 0x1_0000 % 0x100) as u8,
        (value / 0x100_0000) as u8,
    ]
}

/// A 32-bit number, highest byte first.
pub open spec fn be32(value: u32) -> Seq<u8> {
    seq![
        (value / 0x100_0000) as u8,
        (value / 0x1_0000 % 0x100) as u8,
        (value / 0x100 % 0x100) as u8,
        (value % 0x100) as u8,
    ]
}

/// 16-bit numbers side by side, the highest byte of each first.
pub open spec fn be16s(values: Seq<u16>) -> Seq<u8> {
    Seq::new(
        values.len() * 2,
        |k: int|
            if k % 2 == 0 {
                (values[k / 2] / 0x100) as u8
            } else {
                (values[k / 2] % 0x100) as u8
            },
    )
}

/// Appends a number, lowest byte first.
pub fn push_le_u16(out: &mut Vec<u8>, value: u16)
    ensures
        final(out)@ == old(out)@ + le16(value),
{
    let ghost before = out@;
    out.push((value % 0x100) as u8);
    out.push((value / 0x100) as u8);
    assert(out@ =~= before + le16(value));
}

/// Appends a number, lowest byte first.
pub fn push_le_u32(out: &mut Vec<u8>, value: u32)
    ensures
        final(out)@ == old(out)@ + le32(value),
{
    let ghost before = out@;
    out.push((value % 0x100) as u8);
    out.push((value / 0x100 % 0x100) as u8);
    out.push((value / 0x1_0000 % 0x100) as u8);
    out.push((value / 0x100_0000) as u8);
    assert(out@ =~= before + le32(value));
}

/// Appends zeros.
pub fn push_zeros(out: &mut Vec<u8>, count: usize)
    ensures
        final(out)@ == old(out)@ + Seq::new(count as nat, |i: int| 0u8),
{
    let ghost before = out@;
    for i in 0..count
        invariant
            out@ == before + Seq::new(i as nat, |i: int| 0u8),
    {
        out.push(0);
        assert(out@ =~= before + Seq::new((i + 1) as nat, |i: int| 0u8));
    }
    assert(out@ =~= before + Seq::new(count as nat, |i: int| 0u8));
}

/// Reading a number gives back the one that was written.
pub proof fn written_numbers_read_back(before: Seq<u8>, wide: u32, narrow: u16, after: Seq<u8>)
    ensures
        le_u32(before + le32(wide) + after, before.len() as int) == wide,
        le_u16(before + le16(narrow) + after, before.len() as int) == narrow,
{
    let a = before + le32(wide) + after;
    let at = before.len() as int;
    assert(a[at] == le32(wide)[0] && a[at + 1] == le32(wide)[1] && a[at + 2] == le32(wide)[2]
        && a[at + 3] == le32(wide)[3]);
    assert(wide % 0x100 + wide / 0x100 % 0x100 * 0x100 + wide / 0x1_0000 % 0x100 * 0x1_0000 + wide
        / 0x100_0000 * 0x100_0000 == wide) by (bit_vector);
    let b = before + le16(narrow) + after;
    assert(b[at] == le16(narrow)[0] && b[at + 1] == le16(narrow)[1]);
}

/// Reading big-endian numbers gives back those that were written.
pub proof fn big_endian_numbers_read_back(before: Seq<u8>, wide: u32, after: Seq<u8>)
    ensures
        be_u32(before + be32(wide) + after, before.len() as int) == wide,
{
    let a = before + be32(wide) + after;
    let at = before.len() as int;
    assert(a[at] == be32(wide)[0] && a[at + 1] == be32(wide)[1] && a[at + 2] == be32(wide)[2]
        && a[at + 3] == be32(wide)[3]);
    assert(wide % 0x100 + wide / 0x100 % 0x100 * 0x100 + wide / 0x1_0000 % 0x100 * 0x1_0000 + wide
        / 0x100_0000 * 0x100_0000 == wide) by (bit_vector);
}

/// A number read with its lowest byte first has the bytes for its digits, the first for the
/// lowest.
pub proof fn low_bytes_come_first(bytes: &[u8], at: usize, narrow: u16, wide: u32)
    requires
        at + 4 <= bytes@.len(),
        call_ensures(read_le_u16, (bytes, at), narrow),
        call_ensures(read_le_u32, (bytes, at), wide),
    ensures
        narrow % 256 == bytes@[at as int],
        narrow / 256 == bytes@[at + 1],
        wide % 256 == bytes@[at as int],
        wide / 256 % 256 == bytes@[at + 1],
        wide / 65_536 % 256 == bytes@[at + 2],
        wide / 16_777_216 == bytes@[at + 3],
{
    lemma_digits(bytes@[at as int], bytes@[at + 1], bytes@[at + 2], bytes@[at + 3], wide);
}

/// A number read with its highest byte first has the bytes for its digits, the first for the
/// highest.
pub proof fn high_bytes_come_first(bytes: &[u8], at: usize, narrow: u16, wide: u32)
    requires
        at + 4 <= bytes@.len(),
        call_ensures(read_be_u16, (bytes, at), narrow),
        call_ensures(read_be_u32, (bytes, at), wide),
    ensures
        narrow / 256 == bytes@[at as int],
        narrow % 256 == bytes@[at + 1],
        wide / 16_777_216 == bytes@[at as int],
        wide / 65_536 % 256 == bytes@[at + 1],
        wide / 256 % 256 == bytes@[at + 2],
        wide % 256 == bytes@[at + 3],
{
    lemma_digits(bytes@[at + 3], bytes@[at + 2], bytes@[at + 1], bytes@[at as int], wide);
}

proof fn lemma_digits(a: u8, b: u8, c: u8, d: u8, value: u32)
    requires
        value == a + b * 0x100 + c * 0x1_0000 + d * 0x100_0000,
    ensures
        value % 256 == a,
        value / 256 % 256 == b,
        value / 65_536 % 256 == c,
        value / 16_777_216 == d,
{
    assert(value % 256 == a && value / 256 % 256 == b && value / 65_536 % 256 == c && value
        / 16_777_216 == d) by (bit_vector)
        requires
            value == a + b * 0x100 + c * 0x1_0000 + d * 0x100_0000,
    ;
}

} // verus!
