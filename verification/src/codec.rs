//! Word and byte order of 32-bit values (REAL and DINT) held in two
//! consecutive Modbus holding registers.
//!
//! The two registers, in address order, give four bytes `[a, b, c, d]`
//! (`a`/`b` the high/low byte of the first register, `c`/`d` of the second).
//! The big-endian byte sequence of the value is then
//! ABCD = `[a,b,c,d]`, CDAB = `[c,d,a,b]` (word swap), BADC = `[b,a,d,c]`
//! (byte swap), DCBA = `[d,c,b,a]` (little endian).

use vstd::prelude::*;
use crate::text::{ascii_upper_seq, ascii_upper_vec, chars_eq, trim, trim_chars};

verus! {

/// Order of the four bytes of a 32-bit value across two registers.
#[derive(Debug, Clone, Copy, PartialEq, Eq, Structural)]
pub enum ByteOrder {
    Abcd,
    Cdab,
    Badc,
    Dcba,
}

/// The byte order a configuration text selects: trimmed and compared without
/// regard to ASCII case; anything unknown selects CDAB, the common word order
/// of Xinje controllers.
pub open spec fn spec_parse_byte_order(s: Seq<char>) -> ByteOrder {
    let u = ascii_upper_seq(trim(s));
    if u == seq!['A', 'B', 'C', 'D'] {
        ByteOrder::Abcd
    } else if u == seq!['B', 'A', 'D', 'C'] {
        ByteOrder::Badc
    } else if u == seq!['D', 'C', 'B', 'A'] {
        ByteOrder::Dcba
    } else {
        ByteOrder::Cdab
    }
}

impl ByteOrder {
    /// Reads the byte order from its configuration text.
    pub fn parse(s: &str) -> (r: Self)
        ensures
            r == spec_parse_byte_order(s@),
    {
        let t = trim_chars(s);
        let u = ascii_upper_vec(&t);
        let abcd: [char; 4] = ['A', 'B', 'C', 'D'];
        let badc: [char; 4] = ['B', 'A', 'D', 'C'];
        let dcba: [char; 4] = ['D', 'C', 'B', 'A'];
        assert(abcd@ == seq!['A', 'B', 'C', 'D']);
        assert(badc@ == seq!['B', 'A', 'D', 'C']);
        assert(dcba@ == seq!['D', 'C', 'B', 'A']);
        if chars_eq(u.as_slice(), abcd.as_slice()) {
            ByteOrder::Abcd
        } else if chars_eq(u.as_slice(), badc.as_slice()) {
            ByteOrder::Badc
        } else if chars_eq(u.as_slice(), dcba.as_slice()) {
            ByteOrder::Dcba
        } else {
            ByteOrder::Cdab
        }
    }
}

/// High byte of a register.
pub open spec fn hi_byte(r: u16) -> u8 {
    (r / 256) as u8
}

/// Low byte of a register.
pub open spec fn lo_byte(r: u16) -> u8 {
    (r % 256) as u8
}

/// The big-endian bytes of the value held in registers `hi`, `lo` (in address order).
pub open spec fn spec_pair_bytes(hi: u16, lo: u16, order: ByteOrder) -> Seq<u8> {
    let a = hi_byte(hi);
    let b = lo_byte(hi);
    let c = hi_byte(lo);
    let d = lo_byte(lo);
    match order {
        ByteOrder::Abcd => seq![a, b, c, d],
        ByteOrder::Cdab => seq![c, d, a, b],
        ByteOrder::Badc => seq![b, a, d, c],
        ByteOrder::Dcba => seq![d, c, b, a],
    }
}

/// A register made of a high and a low byte.
pub open spec fn word(h: u8, l: u8) -> u16 {
    (h * 256 + l) as u16
}

/// The registers (in address order) that hold a value with big-endian bytes `bytes`.
pub open spec fn spec_bytes_pair(bytes: Seq<u8>, order: ByteOrder) -> (u16, u16) {
    let (w, x, y, z) = (bytes[0], bytes[1], bytes[2], bytes[3]);
    match order {
        ByteOrder::Abcd => (word(w, x), word(y, z)),
        ByteOrder::Cdab => (word(y, z), word(w, x)),
        ByteOrder::Badc => (word(x, w), word(z, y)),
        ByteOrder::Dcba => (word(z, y), word(x, w)),
    }
}

/// The unsigned value of four big-endian bytes.
pub open spec fn be_u32(b: Seq<u8>) -> int {
    b[0] * 16777216 + b[1] * 65536 + b[2] * 256 + b[3]
}

/// The signed (two's complement) value of four big-endian bytes.
pub open spec fn be_i32(b: Seq<u8>) -> int {
    let u = be_u32(b);
    if u >= 0x8000_0000 {
        u - 0x1_0000_0000
    } else {
        u
    }
}

/// The four big-endian bytes of a signed 32-bit value (two's complement).
pub open spec fn i32_be_bytes(v: i32) -> Seq<u8> {
    let u: int = if v < 0 {
        v + 0x1_0000_0000
    } else {
        v as int
    };
    seq![
        (u / 16777216) as u8,
        ((u / 65536) % 256) as u8,
        ((u / 256) % 256) as u8,
        (u % 256) as u8,
    ]
}

/// Splits a register into its high and low byte.
fn split_word(r: u16) -> (p: (u8, u8))
    ensures
        p.0 == hi_byte(r),
        p.1 == lo_byte(r),
{
    ((r / 256) as u8, (r % 256) as u8)
}

/// The big-endian bytes of the 32-bit value held in two registers.
pub fn pair_to_be_bytes(regs: [u16; 2], order: ByteOrder) -> (b: [u8; 4])
    ensures
        b@ == spec_pair_bytes(regs@[0], regs@[1], order),
{
    let (a, b) = split_word(regs[0]);
    let (c, d) = split_word(regs[1]);
    let out: [u8; 4] = match order {
        ByteOrder::Abcd => [a, b, c, d],
        ByteOrder::Cdab => [c, d, a, b],
        ByteOrder::Badc => [b, a, d, c],
        ByteOrder::Dcba => [d, c, b, a],
    };
    assert(out@ =~= spec_pair_bytes(regs@[0], regs@[1], order));
    out
}

/// A register from its high and low byte.
fn join_word(h: u8, l: u8) -> (r: u16)
    ensures
        r == word(h, l),
{
    (h as u16) * 256 + (l as u16)
}

/// The two registers that hold a 32-bit value given by its big-endian bytes.
pub fn be_bytes_to_pair(bytes: [u8; 4], order: ByteOrder) -> (r: [u16; 2])
    ensures
        (r@[0], r@[1]) == spec_bytes_pair(bytes@, order),
{
    let (w, x, y, z) = (bytes[0], bytes[1], bytes[2], bytes[3]);
    match order {
        ByteOrder::Abcd => [join_word(w, x), join_word(y, z)],
        ByteOrder::Cdab => [join_word(y, z), join_word(w, x)],
        ByteOrder::Badc => [join_word(x, w), join_word(z, y)],
        ByteOrder::Dcba => [join_word(z, y), join_word(x, w)],
    }
}

/// The DINT (signed 32-bit) value held in two registers.
pub fn decode_dint(regs: [u16; 2], order: ByteOrder) -> (v: i32)
    ensures
        v == be_i32(spec_pair_bytes(regs@[0], regs@[1], order)),
{
    let b = pair_to_be_bytes(regs, order);
    let u: u32 = (b[0] as u32) * 16777216 + (b[1] as u32) * 65536 + (b[2] as u32) * 256 + (
    b[3] as u32);
    if u >= 0x8000_0000 {
        let low: i32 = (u - 0x8000_0000) as i32;
        low + i32::MIN
    } else {
        u as i32
    }
}

/// The two registers that hold a DINT (signed 32-bit) value.
pub fn encode_dint(v: i32, order: ByteOrder) -> (r: [u16; 2])
    ensures
        (r@[0], r@[1]) == spec_bytes_pair(i32_be_bytes(v), order),
{
    let u: u32 = if v < 0 {
        ((v as i64) + 0x1_0000_0000i64) as u32
    } else {
        v as u32
    };
    let bytes: [u8; 4] = [
        (u / 16777216) as u8,
        ((u / 65536) % 256) as u8,
        ((u / 256) % 256) as u8,
        (u % 256) as u8,
    ];
    assert(bytes@ =~= i32_be_bytes(v));
    be_bytes_to_pair(bytes, order)
}

/// Reading the bytes back from the registers that were made from them gives
/// the same bytes, in every byte order.
pub proof fn lemma_bytes_pair_roundtrip(bytes: Seq<u8>, order: ByteOrder)
    requires
        bytes.len() == 4,
    ensures
        spec_pair_bytes(spec_bytes_pair(bytes, order).0, spec_bytes_pair(bytes, order).1, order)
            == bytes,
{
    assert forall|h: u8, l: u8| hi_byte(#[trigger] word(h, l)) == h && lo_byte(word(h, l)) == l by {
        assert(h * 256 + l < 65536) by (nonlinear_arith)
            requires
                h < 256,
                l < 256,
        ;
    }
    assert(spec_pair_bytes(spec_bytes_pair(bytes, order).0, spec_bytes_pair(bytes, order).1, order)
        =~= bytes);
}

/// Making registers from the bytes read out of two registers gives the same
/// registers back, in every byte order.
pub proof fn lemma_pair_bytes_roundtrip(hi: u16, lo: u16, order: ByteOrder)
    ensures
        spec_bytes_pair(spec_pair_bytes(hi, lo, order), order) == (hi, lo),
{
    assert forall|r: u16| #[trigger] word(hi_byte(r), lo_byte(r)) == r by {
    }
}

/// Encoding a DINT and decoding the registers gives the value back, in every
/// byte order.
pub proof fn lemma_dint_roundtrip(v: i32, order: ByteOrder)
    ensures
        be_i32(
            spec_pair_bytes(
                spec_bytes_pair(i32_be_bytes(v), order).0,
                spec_bytes_pair(i32_be_bytes(v), order).1,
                order,
            ),
        ) == v,
{
    lemma_bytes_pair_roundtrip(i32_be_bytes(v), order);
}

/// How the four byte orders relate: ABCD reads the two registers as one
/// big-endian number, first register high; CDAB is ABCD with the two registers
/// swapped; BADC is ABCD with the bytes of each register swapped; DCBA is ABCD
/// reversed.
pub proof fn lemma_byte_orders_relate(hi: u16, lo: u16)
    ensures
        be_u32(spec_pair_bytes(hi, lo, ByteOrder::Abcd)) == hi * 65536 + lo,
        spec_pair_bytes(hi, lo, ByteOrder::Cdab) == spec_pair_bytes(lo, hi, ByteOrder::Abcd),
        spec_pair_bytes(hi, lo, ByteOrder::Badc) == spec_pair_bytes(
            word(lo_byte(hi), hi_byte(hi)),
            word(lo_byte(lo), hi_byte(lo)),
            ByteOrder::Abcd,
        ),
        spec_pair_bytes(hi, lo, ByteOrder::Dcba) == spec_pair_bytes(hi, lo, ByteOrder::Abcd).reverse(),
{
    assert forall|h: u8, l: u8| hi_byte(#[trigger] word(h, l)) == h && lo_byte(word(h, l)) == l by {
        assert(h * 256 + l < 65536) by (nonlinear_arith)
            requires
                h < 256,
                l < 256,
        ;
    }
    let a = spec_pair_bytes(hi, lo, ByteOrder::Abcd);
    assert(spec_pair_bytes(hi, lo, ByteOrder::Dcba) =~= a.reverse());
    assert(spec_pair_bytes(hi, lo, ByteOrder::Badc) =~= spec_pair_bytes(
        word(lo_byte(hi), hi_byte(hi)),
        word(lo_byte(lo), hi_byte(lo)),
        ByteOrder::Abcd,
    ));
    assert(spec_pair_bytes(hi, lo, ByteOrder::Cdab) =~= spec_pair_bytes(lo, hi, ByteOrder::Abcd));
}

} // verus!
