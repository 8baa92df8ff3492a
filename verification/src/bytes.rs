//! Integers and runs of bytes inside a packed kernel structure.
//!
//! The kernel reads and writes its structures in the byte order of the machine
//! it runs on, so every integer here is in native order. Which order that is
//! stays open: `vstd::endian::endianness()` stands for it, and every contract
//! holds for both.

use vstd::prelude::*;

verus! {

/// The two bytes of `x`, least significant first when `order` is little-endian.
pub open spec fn u16_bytes(order: vstd::endian::Endian, x: u16) -> Seq<u8> {
    let low = (x % 256) as u8;
    let high = (x / 256) as u8;
    match order {
        vstd::endian::Endian::Little => seq![low, high],
        vstd::endian::Endian::Big => seq![high, low],
    }
}

/// The four bytes of `x`, least significant first when `order` is
/// little-endian.
pub open spec fn u32_bytes(order: vstd::endian::Endian, x: u32) -> Seq<u8> {
    let b0 = (x % 256) as u8;
    let b1 = ((x / 256) % 256) as u8;
    let b2 = ((x / 65536) % 256) as u8;
    let b3 = (x / 16777216) as u8;
    match order {
        vstd::endian::Endian::Little => seq![b0, b1, b2, b3],
        vstd::endian::Endian::Big => seq![b3, b2, b1, b0],
    }
}

/// The integer that four bytes hold when they are read in `order`.
pub open spec fn u32_value(order: vstd::endian::Endian, b: Seq<u8>) -> int
    recommends
        b.len() == 4,
{
    match order {
        vstd::endian::Endian::Little => b[0] + 256 * b[1] + 65536 * b[2] + 16777216 * b[3],
        vstd::endian::Endian::Big => b[3] + 256 * b[2] + 65536 * b[1] + 16777216 * b[0],
    }
}

/// The bytes of a `__u16` field of a kernel structure.
pub open spec fn ne_u16(x: u16) -> Seq<u8> {
    u16_bytes(vstd::endian::endianness(), x)
}

/// The bytes of a `__u32` field of a kernel structure.
pub open spec fn ne_u32(x: u32) -> Seq<u8> {
    u32_bytes(vstd::endian::endianness(), x)
}

/// The value of a `__u32` field of a kernel structure.
pub open spec fn ne_value(b: Seq<u8>) -> int
    recommends
        b.len() == 4,
{
    u32_value(vstd::endian::endianness(), b)
}

/// `n` zero bytes.
pub open spec fn zeros(n: nat) -> Seq<u8> {
    Seq::new(n, |i: int| 0u8)
}

/// `base` with `bytes` written over it from `offset` on.
pub open spec fn overwrite(base: Seq<u8>, offset: int, bytes: Seq<u8>) -> Seq<u8>
    recommends
        0 <= offset,
        offset + bytes.len() <= base.len(),
{
    base.take(offset) + bytes + base.skip(offset + bytes.len())
}

/// Calls `u16::to_ne_bytes` of the standard library: the two bytes of `x` in
/// the byte order of the target, which `vstd::endian::endianness()` names.
#[verifier::external_body]
fn u16_to_ne_bytes(x: u16) -> (bytes: [u8; 2])
    ensures
        bytes@ == ne_u16(x),
{
    x.to_ne_bytes()
}

/// Calls `u32::to_ne_bytes` of the standard library: the four bytes of `x` in
/// the byte order of the target, which `vstd::endian::endianness()` names.
#[verifier::external_body]
fn u32_to_ne_bytes(x: u32) -> (bytes: [u8; 4])
    ensures
        bytes@ == ne_u32(x),
{
    x.to_ne_bytes()
}

/// Calls `u32::from_ne_bytes` of the standard library: the integer that the
/// four bytes hold in the byte order of the target, which
/// `vstd::endian::endianness()` names.
#[verifier::external_body]
fn u32_from_ne_bytes(bytes: [u8; 4]) -> (x: u32)
    ensures
        x == ne_value(bytes@),
{
    u32::from_ne_bytes(bytes)
}

/// Writes `bytes` over `buf` from `offset` on.
pub fn put_bytes(buf: &mut [u8], offset: usize, bytes: &[u8])
    requires
        offset + bytes@.len() <= old(buf)@.len(),
    ensures
        final(buf)@ == overwrite(old(buf)@, offset as int, bytes@),
{
    let room: usize = buf.len();
    let mut i: usize = 0;
    while i < bytes.len()
        invariant
            i <= bytes@.len(),
            offset + bytes@.len() <= room == old(buf)@.len(),
            buf@ == overwrite(old(buf)@, offset as int, bytes@.take(i as int)),
        decreases bytes@.len() - i,
    {
        let ghost before = buf@;
        buf[offset + i] = bytes[i];
        proof {
            assert(buf@ =~= before.update(offset + i, bytes@[i as int]));
            assert(buf@ =~= overwrite(old(buf)@, offset as int, bytes@.take(i + 1)));
        }
        i = i + 1;
    }
    assert(bytes@.take(i as int) =~= bytes@);
}

/// Writes `value` over two bytes of `buf` in native byte order.
pub fn put_u16(buf: &mut [u8], offset: usize, value: u16)
    requires
        offset + 2 <= old(buf)@.len(),
    ensures
        final(buf)@ == overwrite(old(buf)@, offset as int, ne_u16(value)),
{
    put_bytes(buf, offset, &u16_to_ne_bytes(value));
}

/// Writes `value` over four bytes of `buf` in native byte order.
pub fn put_u32(buf: &mut [u8], offset: usize, value: u32)
    requires
        offset + 4 <= old(buf)@.len(),
    ensures
        final(buf)@ == overwrite(old(buf)@, offset as int, ne_u32(value)),
{
    put_bytes(buf, offset, &u32_to_ne_bytes(value));
}

/// Reads four bytes of `buf` in native byte order.
pub fn get_u32(buf: &[u8], offset: usize) -> (value: u32)
    requires
        offset + 4 <= buf@.len(),
    ensures
        value == ne_value(buf@.subrange(offset as int, offset + 4)),
{
    let bytes: [u8; 4] = [buf[offset], buf[offset + 1], buf[offset + 2], buf[offset + 3]];
    assert(bytes@ =~= buf@.subrange(offset as int, offset + 4));
    u32_from_ne_bytes(bytes)
}

/// An integer read back from where it was written is the integer that was
/// written, whatever the machine's byte order.
pub proof fn law_u32_reads_back(x: u32)
    ensures
        ne_u32(x).len() == 4,
        ne_value(ne_u32(x)) == x,
{
    let b0 = (x % 256) as u8;
    let b1 = ((x / 256) % 256) as u8;
    let b2 = ((x / 65536) % 256) as u8;
    let b3 = (x / 16777216) as u8;
    let bytes = ne_u32(x);
    assert(x == x % 256 + 256 * ((x / 256) % 256) + 65536 * ((x / 65536) % 256) + 16777216 * (x
        / 16777216)) by (bit_vector);
    assert(b0 == x % 256 && b1 == (x / 256) % 256 && b2 == (x / 65536) % 256 && b3 == x
        / 16777216);
    match vstd::endian::endianness() {
        vstd::endian::Endian::Little => {
            assert(bytes == seq![b0, b1, b2, b3]);
            assert(bytes[0] == b0 && bytes[1] == b1 && bytes[2] == b2 && bytes[3] == b3);
        },
        vstd::endian::Endian::Big => {
            assert(bytes == seq![b3, b2, b1, b0]);
            assert(bytes[0] == b3 && bytes[1] == b2 && bytes[2] == b1 && bytes[3] == b0);
        },
    }
}

/// Bytes read back from where they were written are the bytes that were
/// written, and nothing around them moved.
pub proof fn law_overwrite_reads_back(base: Seq<u8>, offset: int, bytes: Seq<u8>)
    requires
        0 <= offset,
        offset + bytes.len() <= base.len(),
    ensures
        overwrite(base, offset, bytes).len() == base.len(),
        overwrite(base, offset, bytes).subrange(offset, offset + bytes.len()) == bytes,
        forall|i: int|
            0 <= i < base.len() && !(offset <= i < offset + bytes.len()) ==> #[trigger] overwrite(
                base,
                offset,
                bytes,
            )[i] == base[i],
{
    assert(overwrite(base, offset, bytes).subrange(offset, offset + bytes.len()) =~= bytes);
}

/// Writing right after `head`, into bytes that are still zero, appends to
/// `head`.
pub proof fn lemma_append(head: Seq<u8>, room: nat, bytes: Seq<u8>)
    requires
        bytes.len() <= room,
    ensures
        overwrite(head + zeros(room), head.len() as int, bytes) == head + bytes + zeros(
            (room - bytes.len()) as nat,
        ),
{
    assert(overwrite(head + zeros(room), head.len() as int, bytes) =~= head + bytes + zeros(
        (room - bytes.len()) as nat,
    ));
}

/// Every four bytes are those of the integer they hold, so no two integers share
/// their bytes and no four bytes are left over.
pub proof fn law_u32_writes_back(bytes: Seq<u8>)
    requires
        bytes.len() == 4,
    ensures
        0 <= ne_value(bytes) <= u32::MAX,
        ne_u32(ne_value(bytes) as u32) == bytes,
{
    let (b0, b1, b2, b3) = match vstd::endian::endianness() {
        vstd::endian::Endian::Little => (bytes[0], bytes[1], bytes[2], bytes[3]),
        vstd::endian::Endian::Big => (bytes[3], bytes[2], bytes[1], bytes[0]),
    };
    let x = ne_value(bytes) as u32;
    assert(x == b0 + 256 * b1 + 65536 * b2 + 16777216 * b3);
    assert(x % 256 == b0 && (x / 256) % 256 == b1 && (x / 65536) % 256 == b2 && x / 16777216
        == b3) by (bit_vector)
        requires
            x == b0 + 256 * b1 + 65536 * b2 + 16777216 * b3,
    ;
    assert(ne_u32(x) =~= bytes);
}

/// The two bytes of a `__u16` field give its value back: the low byte comes
/// first on a little-endian machine and last on a big-endian one.
pub proof fn law_u16_reads_back(x: u16)
    ensures
        ne_u16(x).len() == 2,
        match vstd::endian::endianness() {
            vstd::endian::Endian::Little => ne_u16(x)[0] + 256 * ne_u16(x)[1] == x,
            vstd::endian::Endian::Big => ne_u16(x)[1] + 256 * ne_u16(x)[0] == x,
        },
{
    assert(x == x % 256 + 256 * (x / 256)) by (bit_vector);
    assert((x % 256) as u8 == x % 256 && (x / 256) as u8 == x / 256);
}

} // verus!
