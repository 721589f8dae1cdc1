//! Bit-field extraction and little/big-endian word loads.

use vstd::prelude::*;

verus! {

pub const LITTLE_ENDIAN: u8 = 0x1;

pub const BIG_ENDIAN: u8 = 0x2;

pub const RWX_EXEC: u8 = 0x1;

pub const RWX_WRITE: u8 = 0x2;

pub const RWX_READ: u8 = 0x4;

/// Bits `[hi, lo]` (inclusive) of a 32-bit word, as an unsigned value.
pub open spec fn bits32(x: u32, hi: u32, lo: u32) -> u32 {
    (x >> lo) & (0xffff_ffffu32 >> ((31 - (hi - lo)) as u32))
}

/// Bits `[hi, lo]` (inclusive) of a 16-bit word, as an unsigned value.
pub open spec fn bits16(x: u16, hi: u32, lo: u32) -> u16 {
    (x >> (lo as u16)) & (0xffffu16 >> ((15 - (hi - lo)) as u16))
}

/// Bits `[hi, lo]` of a 32-bit word, sign-extended from bit `hi`.
pub open spec fn sbits32(x: i32, hi: u32, lo: u32) -> i32 {
    let f = bits32(x as u32, hi, lo);
    let mask = 0xffff_ffffu32 >> ((31 - (hi - lo)) as u32);
    if (f >> (hi - lo)) & 1 == 1 {
        (f | !mask) as i32
    } else {
        f as i32
    }
}

/// Bits `[hi, lo]` of a 16-bit word, sign-extended from bit `hi`.
pub open spec fn sbits16(x: i16, hi: u32, lo: u32) -> i16 {
    let f = bits16(x as u16, hi, lo);
    let mask = 0xffffu16 >> ((15 - (hi - lo)) as u16);
    if (f >> ((hi - lo) as u16)) & 1 == 1 {
        (f | !mask) as i16
    } else {
        f as i16
    }
}

/// Extraction of an inclusive bit range `[start, stop]` from a machine word.
pub trait BitExtr: Sized {
    /// Number of bits in the word.
    spec fn bit_width() -> u32;

    /// The field that `bextr` returns.
    spec fn field(self, start: u32, stop: u32) -> Self;

    fn bextr(self, start: u32, stop: u32) -> (r: Self)
        requires
            stop <= start,
            start < Self::bit_width(),
        ensures
            r == self.field(start, stop),
    ;
}

impl BitExtr for u32 {
    open spec fn bit_width() -> u32 {
        32
    }

    open spec fn field(self, start: u32, stop: u32) -> u32 {
        bits32(self, start, stop)
    }

    fn bextr(self, start: u32, stop: u32) -> (r: u32) {
        (self >> stop) & (0xffff_ffffu32 >> (31 - (start - stop)))
    }
}

impl BitExtr for u16 {
    open spec fn bit_width() -> u32 {
        16
    }

    open spec fn field(self, start: u32, stop: u32) -> u16 {
        bits16(self, start, stop)
    }

    fn bextr(self, start: u32, stop: u32) -> (r: u16) {
        (self >> (stop as u16)) & (0xffffu16 >> ((15 - (start - stop)) as u16))
    }
}

impl BitExtr for i32 {
    open spec fn bit_width() -> u32 {
        32
    }

    open spec fn field(self, start: u32, stop: u32) -> i32 {
        sbits32(self, start, stop)
    }

    fn bextr(self, start: u32, stop: u32) -> (r: i32) {
        let f = (self as u32).bextr(start, stop);
        let mask = 0xffff_ffffu32 >> (31 - (start - stop));
        if (f >> (start - stop)) & 1 == 1 {
            (f | !mask) as i32
        } else {
            f as i32
        }
    }
}

impl BitExtr for i16 {
    open spec fn bit_width() -> u32 {
        16
    }

    open spec fn field(self, start: u32, stop: u32) -> i16 {
        sbits16(self, start, stop)
    }

    fn bextr(self, start: u32, stop: u32) -> (r: i16) {
        let f = (self as u16).bextr(start, stop);
        let mask = 0xffffu16 >> ((15 - (start - stop)) as u16);
        if (f >> ((start - stop) as u16)) & 1 == 1 {
            (f | !mask) as i16
        } else {
            f as i16
        }
    }
}

/// For unsigned words, the field is the word shifted right by `lo` and masked
/// to `hi - lo + 1` bits.
pub proof fn lemma_bextr_shift_mask(x: u32, hi: u32, lo: u32)
    requires
        lo <= hi < 32,
    ensures
        bits32(x, hi, lo) as u64 == ((x as u64) >> (lo as u64)) & (((1u64 << ((hi - lo + 1) as u64))
            - 1) as u64),
{
    let n: u64 = (hi - lo + 1) as u64;
    let d: u32 = (hi - lo) as u32;
    assert(((x >> lo) & (0xffff_ffffu32 >> ((31 - d) as u32))) as u64 == ((x as u64) >> (lo as u64))
        & (((1u64 << ((d + 1) as u64)) - 1) as u64)) by (bit_vector)
        requires
            d < 32,
            lo < 32,
    ;
}

/// Unsigned value of the 2 bytes at `i`, least significant first.
pub open spec fn le16(b: Seq<u8>, i: int) -> nat {
    b[i] as nat + 256 * b[i + 1] as nat
}

/// Unsigned value of the 4 bytes at `i`, least significant first.
pub open spec fn le32(b: Seq<u8>, i: int) -> nat {
    le16(b, i) + 0x1_0000 * le16(b, i + 2)
}

/// Unsigned value of the 8 bytes at `i`, least significant first.
pub open spec fn le64(b: Seq<u8>, i: int) -> nat {
    le32(b, i) + 0x1_0000_0000 * le32(b, i + 4)
}

/// Unsigned value of the 2 bytes at `i`, most significant first.
pub open spec fn be16(b: Seq<u8>, i: int) -> nat {
    256 * b[i] as nat + b[i + 1] as nat
}

/// Unsigned value of the 4 bytes at `i`, most significant first.
pub open spec fn be32(b: Seq<u8>, i: int) -> nat {
    0x1_0000 * be16(b, i) + be16(b, i + 2)
}

/// Unsigned value of the 8 bytes at `i`, most significant first.
pub open spec fn be64(b: Seq<u8>, i: int) -> nat {
    0x1_0000_0000 * be32(b, i) + be32(b, i + 4)
}

/// The 16-bit word at `i` in the given byte order.
pub open spec fn word16(b: Seq<u8>, i: int, endianness: u8) -> nat {
    if endianness == LITTLE_ENDIAN {
        le16(b, i)
    } else {
        be16(b, i)
    }
}

/// The 32-bit word at `i` in the given byte order.
pub open spec fn word32(b: Seq<u8>, i: int, endianness: u8) -> nat {
    if endianness == LITTLE_ENDIAN {
        le32(b, i)
    } else {
        be32(b, i)
    }
}

/// The 64-bit word at `i` in the given byte order.
pub open spec fn word64(b: Seq<u8>, i: int, endianness: u8) -> nat {
    if endianness == LITTLE_ENDIAN {
        le64(b, i)
    } else {
        be64(b, i)
    }
}

/// Reads a 16-bit word at `start`.
pub fn read_u16_from_u8_vec(bytes: &Vec<u8>, start: usize, endianness: u8) -> (r: u16)
    requires
        start + 2 <= bytes@.len(),
        endianness == LITTLE_ENDIAN || endianness == BIG_ENDIAN,
    ensures
        r as nat == word16(bytes@, start as int, endianness),
{
    read_u16_from_slice(bytes.as_slice(), start, endianness)
}

/// Reads a 32-bit word at `start`.
pub fn read_u32_from_u8_vec(bytes: &Vec<u8>, start: usize, endianness: u8) -> (r: u32)
    requires
        start + 4 <= bytes@.len(),
        endianness == LITTLE_ENDIAN || endianness == BIG_ENDIAN,
    ensures
        r as nat == word32(bytes@, start as int, endianness),
{
    read_u32_from_slice(bytes.as_slice(), start, endianness)
}

/// Reads a 64-bit word at `start`.
pub fn read_u64_from_u8_vec(bytes: &Vec<u8>, start: usize, endianness: u8) -> (r: u64)
    requires
        start + 8 <= bytes@.len(),
        endianness == LITTLE_ENDIAN || endianness == BIG_ENDIAN,
    ensures
        r as nat == word64(bytes@, start as int, endianness),
{
    read_u64_from_slice(bytes.as_slice(), start, endianness)
}

/// Reads a 32-bit word at `start`, widened to 64 bits (the high half is zero).
pub fn read_u32_to_u64_from_u8_vec(bytes: &Vec<u8>, start: usize, endianness: u8) -> (r: u64)
    requires
        start + 4 <= bytes@.len(),
        endianness == LITTLE_ENDIAN || endianness == BIG_ENDIAN,
    ensures
        r as nat == word32(bytes@, start as int, endianness),
        r < 0x1_0000_0000,
{
    read_u32_to_u64_from_slice(bytes.as_slice(), start, endianness)
}

/// Reads a 16-bit word from a slice.
pub fn read_u16_from_slice(bytes: &[u8], start: usize, endianness: u8) -> (r: u16)
    requires
        start + 2 <= bytes@.len(),
    ensures
        r as nat == word16(bytes@, start as int, endianness),
{
    let b0 = bytes[start] as u16;
    let b1 = bytes[start + 1] as u16;
    if endianness == LITTLE_ENDIAN {
        b0 + 256 * b1
    } else {
        256 * b0 + b1
    }
}

/// Reads a 32-bit word from a slice.
pub fn read_u32_from_slice(bytes: &[u8], start: usize, endianness: u8) -> (r: u32)
    requires
        start + 4 <= bytes@.len(),
    ensures
        r as nat == word32(bytes@, start as int, endianness),
{
    let total = bytes.len();
    let a = read_u16_from_slice(bytes, start, endianness) as u32;
    let b = read_u16_from_slice(bytes, start + 2, endianness) as u32;
    if endianness == LITTLE_ENDIAN {
        a + 0x1_0000 * b
    } else {
        0x1_0000 * a + b
    }
}

/// Reads a 64-bit word from a slice.
pub fn read_u64_from_slice(bytes: &[u8], start: usize, endianness: u8) -> (r: u64)
    requires
        start + 8 <= bytes@.len(),
    ensures
        r as nat == word64(bytes@, start as int, endianness),
{
    let total = bytes.len();
    let a = read_u32_from_slice(bytes, start, endianness) as u64;
    let b = read_u32_from_slice(bytes, start + 4, endianness) as u64;
    if endianness == LITTLE_ENDIAN {
        a + 0x1_0000_0000 * b
    } else {
        0x1_0000_0000 * a + b
    }
}

/// Reads a 32-bit word from a slice, widened to 64 bits.
pub fn read_u32_to_u64_from_slice(bytes: &[u8], start: usize, endianness: u8) -> (r: u64)
    requires
        start + 4 <= bytes@.len(),
    ensures
        r as nat == word32(bytes@, start as int, endianness),
        r < 0x1_0000_0000,
{
    read_u32_from_slice(bytes, start, endianness) as u64
}

/// The sign character used when printing a displacement.
pub fn i32_sign(x: i32) -> (r: &'static str)
    ensures
        x < 0 ==> r@ == "-"@,
        x >= 0 ==> r@ == "+"@,
{
    if x < 0 {
        "-"
    } else {
        "+"
    }
}

} // verus!
