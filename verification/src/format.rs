//! Register formats: how one to four 16-bit registers are read as a value,
//! with optional byte swapping inside each register and word swapping of
//! multi-register values.
use vstd::prelude::*;
use vstd::string::*;
use vstd::utf8::encode_utf8;
use crate::text::{
    bin_chars, concat, dec_chars, lemma_ascii_encoding, lemma_signed_text_reads_back,
    lemma_trim_noop, lemma_unsigned_text_reads_back, num_error_text, parse_int, parse_int_spec, parse_uint,
    parse_uint_spec, push_bits, push_char, str_eq, signed_dec_chars, to_decimal, to_signed_decimal, trim,
    trim_chars, NumError,
};

verus! {

/// Byte/word-swap configuration for register conversions.
#[derive(Clone, Copy, Debug, PartialEq, Eq, Structural)]
pub struct WordSwap {
    /// Word-swap multi-register integers.
    pub ints: bool,
    /// Word-swap multi-register floats.
    pub floats: bool,
    /// Word-swap all multi-register types (overrides `ints`/`floats`).
    pub words: bool,
    /// Byte-swap: reverse the bytes within each register (0xABCD -> 0xCDAB),
    /// for every register type.
    pub bytes: bool,
}

impl Default for WordSwap {
    fn default() -> (r: Self)
        ensures
            r == (WordSwap { ints: false, floats: false, words: false, bytes: false }),
    {
        WordSwap { ints: false, floats: false, words: false, bytes: false }
    }
}

/// Numeric interpretation of register values.
#[derive(Clone, Copy, Debug, PartialEq, Eq, Structural)]
pub enum NumFormat {
    Int16,
    Uint16,
    Int32,
    Uint32,
    Int64,
    Uint64,
    Float16,
    Float32,
    Float64,
    Bin16,
    Ascii,
}

impl Default for NumFormat {
    fn default() -> (r: Self)
        ensures
            r == NumFormat::Int16,
    {
        NumFormat::Int16
    }
}

/// The byte-swapped register: 0xABCD becomes 0xCDAB.
pub open spec fn swap16(v: u16) -> u16 {
    ((v % 256) * 256 + v / 256) as u16
}

/// Every register of `s` byte-swapped.
pub open spec fn byte_swapped(s: Seq<u16>) -> Seq<u16> {
    Seq::new(s.len(), |i: int| swap16(s[i]))
}

/// The two halves of `s` exchanged: [A, B] -> [B, A], [A, B, C, D] -> [C, D, A, B].
pub open spec fn rotate_half(s: Seq<u16>) -> Seq<u16> {
    let h = (s.len() / 2) as int;
    s.subrange(h, s.len() as int) + s.subrange(0, h)
}

/// Big-endian (high word first) value of one, two or four registers.
pub open spec fn words_value(r: Seq<u16>) -> nat {
    if r.len() == 1 {
        r[0] as nat
    } else if r.len() == 2 {
        (r[0] * 0x1_0000nat + r[1]) as nat
    } else {
        (r[0] * 0x1_0000_0000_0000nat + r[1] * 0x1_0000_0000nat + r[2] * 0x1_0000nat + r[3]) as nat
    }
}

/// The `k` (1, 2 or 4) registers of `v`, high word first.
pub open spec fn value_words(v: nat, k: nat) -> Seq<u16> {
    if k == 1 {
        seq![(v % 0x1_0000) as u16]
    } else if k == 2 {
        seq![((v / 0x1_0000) % 0x1_0000) as u16, (v % 0x1_0000) as u16]
    } else {
        seq![
            ((v / 0x1_0000_0000_0000) % 0x1_0000) as u16,
            ((v / 0x1_0000_0000) % 0x1_0000) as u16,
            ((v / 0x1_0000) % 0x1_0000) as u16,
            (v % 0x1_0000) as u16,
        ]
    }
}

/// The value of a `k`-bit two's complement pattern.
pub open spec fn to_signed(bits: nat, k: nat) -> int {
    if bits >= pow2_nat((k - 1) as nat) {
        bits - pow2_nat(k)
    } else {
        bits as int
    }
}

/// The `k`-bit two's complement pattern of `v`.
pub open spec fn to_unsigned(v: int, k: nat) -> nat {
    if v < 0 {
        (v + pow2_nat(k)) as nat
    } else {
        v as nat
    }
}

/// 2 to the power `k`, for the widths used here.
pub open spec fn pow2_nat(k: nat) -> nat {
    if k == 15 {
        0x8000
    } else if k == 16 {
        0x1_0000
    } else if k == 31 {
        0x8000_0000
    } else if k == 32 {
        0x1_0000_0000
    } else if k == 63 {
        0x8000_0000_0000_0000
    } else {
        0x1_0000_0000_0000_0000
    }
}

/// How a byte is shown in the ASCII format: printable characters and space
/// as themselves, anything else as `.`.
pub open spec fn ascii_display(b: nat) -> char {
    if 0x20 <= b <= 0x7E {
        b as char
    } else {
        '.'
    }
}

impl NumFormat {
    /// Number of registers this format spans.
    pub open spec fn regs(self) -> nat {
        match self {
            NumFormat::Int16 | NumFormat::Uint16 | NumFormat::Float16 | NumFormat::Bin16
            | NumFormat::Ascii => 1,
            NumFormat::Int32 | NumFormat::Uint32 | NumFormat::Float32 => 2,
            NumFormat::Int64 | NumFormat::Uint64 | NumFormat::Float64 => 4,
        }
    }

    /// Whether this is a floating-point format.
    pub open spec fn is_float(self) -> bool {
        self is Float16 || self is Float32 || self is Float64
    }

    /// Whether the register order of this format is swapped under `ws`.
    pub open spec fn swaps_words(self, ws: WordSwap) -> bool {
        if self.regs() < 2 {
            false
        } else if ws.words {
            true
        } else {
            match self {
                NumFormat::Int32 | NumFormat::Uint32 | NumFormat::Int64 | NumFormat::Uint64 => ws.ints,
                NumFormat::Float32 | NumFormat::Float64 => ws.floats,
                _ => false,
            }
        }
    }

    /// Wire registers to value registers (high word first): byte swap, then word swap.
    pub open spec fn wire_to_logical(self, regs: Seq<u16>, ws: WordSwap) -> Seq<u16> {
        let r = regs.take(self.regs() as int);
        let b = if ws.bytes {
            byte_swapped(r)
        } else {
            r
        };
        if self.swaps_words(ws) {
            rotate_half(b)
        } else {
            b
        }
    }

    /// Value registers to wire registers: word swap, then byte swap.
    pub open spec fn logical_to_wire(self, r: Seq<u16>, ws: WordSwap) -> Seq<u16> {
        let w = if self.swaps_words(ws) {
            rotate_half(r)
        } else {
            r
        };
        if ws.bytes {
            byte_swapped(w)
        } else {
            w
        }
    }

    /// The bit pattern that the wire registers hold under this format.
    pub open spec fn decoded_bits(self, regs: Seq<u16>, ws: WordSwap) -> nat {
        words_value(self.wire_to_logical(regs, ws))
    }

    /// The wire registers that carry the bit pattern `bits` under this format.
    pub open spec fn encoded_regs(self, bits: nat, ws: WordSwap) -> Seq<u16> {
        self.logical_to_wire(value_words(bits, self.regs()), ws)
    }

    /// The text shown for the bit pattern `bits` (formats other than floats).
    pub open spec fn display_text(self, bits: nat) -> Seq<char> {
        match self {
            NumFormat::Int16 => signed_dec_chars(to_signed(bits, 16)),
            NumFormat::Uint16 => dec_chars(bits),
            NumFormat::Bin16 => bin_chars(bits, 16),
            NumFormat::Ascii => seq![ascii_display(bits / 256), ascii_display(bits % 256)],
            NumFormat::Int32 => signed_dec_chars(to_signed(bits, 32)),
            NumFormat::Uint32 => dec_chars(bits),
            NumFormat::Int64 => signed_dec_chars(to_signed(bits, 64)),
            NumFormat::Uint64 => dec_chars(bits),
            _ => Seq::empty(),
        }
    }

    /// How many consecutive u16 registers this format consumes.
    pub fn width(self) -> (r: usize)
        ensures
            r == self.regs(),
    {
        match self {
            NumFormat::Int16 | NumFormat::Uint16 | NumFormat::Float16 | NumFormat::Bin16
            | NumFormat::Ascii => 1,
            NumFormat::Int32 | NumFormat::Uint32 | NumFormat::Float32 => 2,
            NumFormat::Int64 | NumFormat::Uint64 | NumFormat::Float64 => 4,
        }
    }

    /// Whether this format should have its words (register order) swapped.
    /// Only applies to multi-register types (width >= 2).
    pub fn should_swap(self, ws: &WordSwap) -> (r: bool)
        ensures
            r == self.swaps_words(*ws),
    {
        if self.width() < 2 {
            return false;
        }
        if ws.words {
            return true;
        }
        match self {
            NumFormat::Int32 | NumFormat::Uint32 | NumFormat::Int64 | NumFormat::Uint64 => ws.ints,
            NumFormat::Float32 | NumFormat::Float64 => ws.floats,
            _ => false,
        }
    }
}


/// `u16::swap_bytes`.
pub fn swap_bytes16(v: u16) -> (r: u16)
    ensures
        r == swap16(v),
{
    let r: u16 = ((v & 0xff) << 8) | (v >> 8);
    assert(r == (((v % 256) * 256 + v / 256) as u16)) by (bit_vector)
        requires
            r == ((v & 0xff) << 8) | (v >> 8),
    ;
    r
}

/// Every register byte-swapped.
fn byte_swap_all(regs: &Vec<u16>) -> (r: Vec<u16>)
    ensures
        r@ == byte_swapped(regs@),
{
    let mut out: Vec<u16> = Vec::new();
    let mut i: usize = 0;
    while i < regs.len()
        invariant
            i <= regs.len(),
            out@ =~= byte_swapped(regs@.take(i as int)),
        decreases regs.len() - i,
    {
        out.push(swap_bytes16(regs[i]));
        i += 1;
        assert(out@ =~= byte_swapped(regs@.take(i as int)));
    }
    assert(regs@.take(i as int) =~= regs@);
    out
}

/// The two halves of the registers exchanged.
fn rotate_halves(regs: &Vec<u16>) -> (r: Vec<u16>)
    ensures
        r@ == rotate_half(regs@),
{
    let n = regs.len();
    let h = n / 2;
    let mut out: Vec<u16> = Vec::new();
    let mut i: usize = h;
    while i < n
        invariant
            h <= i <= n,
            n == regs@.len(),
            h == n / 2,
            out@ =~= regs@.subrange(h as int, i as int),
        decreases n - i,
    {
        out.push(regs[i]);
        i += 1;
    }
    let mut j: usize = 0;
    while j < h
        invariant
            j <= h,
            h <= n,
            n == regs@.len(),
            h == n / 2,
            out@ =~= regs@.subrange(h as int, n as int) + regs@.subrange(0, j as int),
        decreases h - j,
    {
        out.push(regs[j]);
        j += 1;
    }
    out
}

/// Combine two registers (high word first) into a 32-bit value.
pub fn combine_u32(hi: u16, lo: u16) -> (r: u32)
    ensures
        r == hi * 0x1_0000nat + lo,
{
    (hi as u32) * 0x1_0000 + (lo as u32)
}

/// Combine four registers (high word first) into a 64-bit value.
pub fn combine_u64(w0: u16, w1: u16, w2: u16, w3: u16) -> (r: u64)
    ensures
        r == w0 * 0x1_0000_0000_0000nat + w1 * 0x1_0000_0000nat + w2 * 0x1_0000nat + w3,
{
    (w0 as u64) * 0x1_0000_0000_0000 + (w1 as u64) * 0x1_0000_0000 + (w2 as u64) * 0x1_0000 + (
    w3 as u64)
}

/// Split a 32-bit value into two registers, high word first.
pub fn split_u32(v: u32) -> (r: Vec<u16>)
    ensures
        r@ == value_words(v as nat, 2),
{
    vec![(v / 0x1_0000) as u16, (v % 0x1_0000) as u16]
}

/// Split a 64-bit value into four registers, high word first.
pub fn split_u64(v: u64) -> (r: Vec<u16>)
    ensures
        r@ == value_words(v as nat, 4),
{
    vec![
        ((v / 0x1_0000_0000_0000) % 0x1_0000) as u16,
        ((v / 0x1_0000_0000) % 0x1_0000) as u16,
        ((v / 0x1_0000) % 0x1_0000) as u16,
        (v % 0x1_0000) as u16,
    ]
}

/// The character shown for one byte in the ASCII format.
fn ascii_char(b: u8) -> (c: char)
    ensures
        c == ascii_display(b as nat),
{
    if 0x20 <= b && b <= 0x7E {
        b as char
    } else {
        '.'
    }
}

impl NumFormat {
    /// Whether this is one of the floating-point formats.
    pub fn is_float_format(self) -> (r: bool)
        ensures
            r == self.is_float(),
    {
        match self {
            NumFormat::Float16 | NumFormat::Float32 | NumFormat::Float64 => true,
            _ => false,
        }
    }

    /// Applies byte swap and word swap to the first `width` wire registers,
    /// giving the value registers high word first; `None` when there are
    /// fewer registers than the format spans.
    pub fn wire_to_value_regs(self, regs: &[u16], ws: &WordSwap) -> (r: Option<Vec<u16>>)
        ensures
            match r {
                Some(v) => regs@.len() >= self.regs() && v@ == self.wire_to_logical(regs@, *ws),
                None => regs@.len() < self.regs(),
            },
    {
        let w = self.width();
        if regs.len() < w {
            return None;
        }
        let mut r: Vec<u16> = Vec::new();
        let mut i: usize = 0;
        while i < w
            invariant
                i <= w,
                w <= regs@.len(),
                r@ =~= regs@.take(i as int),
            decreases w - i,
        {
            r.push(regs[i]);
            i += 1;
        }
        let b = if ws.bytes {
            byte_swap_all(&r)
        } else {
            r
        };
        if self.should_swap(ws) {
            Some(rotate_halves(&b))
        } else {
            Some(b)
        }
    }

    /// The bit pattern (value registers combined high word first) that the
    /// wire registers hold; `None` when there are too few registers.
    pub fn decode_bits(self, regs: &[u16], ws: &WordSwap) -> (r: Option<u64>)
        ensures
            match r {
                Some(b) => regs@.len() >= self.regs() && b == self.decoded_bits(regs@, *ws),
                None => regs@.len() < self.regs(),
            },
    {
        match self.wire_to_value_regs(regs, ws) {
            None => None,
            Some(v) => {
                let w = self.width();
                assert(v@.len() == w);
                if w == 1 {
                    Some(v[0] as u64)
                } else if w == 2 {
                    Some(combine_u32(v[0], v[1]) as u64)
                } else {
                    Some(combine_u64(v[0], v[1], v[2], v[3]))
                }
            },
        }
    }
}


impl NumFormat {
    /// The outcome of reading `input` as a value of this format (other than
    /// the floats) and encoding it into wire registers; the error is the
    /// message shown to the user.
    pub open spec fn parse_outcome(self, input: Seq<char>, ws: WordSwap) -> Result<
        Seq<u16>,
        Seq<char>,
    > {
        let t = encode_utf8(trim_chars(input));
        match self {
            NumFormat::Int16 => match parse_int_spec(t, -0x8000, 0x7FFF) {
                Ok(v) => Ok(self.encoded_regs(to_unsigned(v, 16), ws)),
                Err(e) => Err("Int16: "@ + num_error_text(e)),
            },
            NumFormat::Uint16 => match parse_uint_spec(t, 0xFFFF) {
                Ok(v) => Ok(self.encoded_regs(v as nat, ws)),
                Err(e) => Err("Uint16: "@ + num_error_text(e)),
            },
            NumFormat::Bin16 => match parse_uint_spec(t, 0xFFFF) {
                Ok(v) => Ok(self.encoded_regs(v as nat, ws)),
                Err(e) => Err("Bin16: "@ + num_error_text(e)),
            },
            NumFormat::Ascii => if t.len() == 2 {
                Ok(self.encoded_regs((t[0] * 256 + t[1]) as nat, ws))
            } else {
                Err("Ascii: expected exactly 2 characters"@)
            },
            NumFormat::Int32 => match parse_int_spec(t, -0x8000_0000, 0x7FFF_FFFF) {
                Ok(v) => Ok(self.encoded_regs(to_unsigned(v, 32), ws)),
                Err(e) => Err("Int32: "@ + num_error_text(e)),
            },
            NumFormat::Uint32 => match parse_uint_spec(t, 0xFFFF_FFFF) {
                Ok(v) => Ok(self.encoded_regs(v as nat, ws)),
                Err(e) => Err("Uint32: "@ + num_error_text(e)),
            },
            NumFormat::Int64 => match parse_int_spec(
                t,
                -0x8000_0000_0000_0000,
                0x7FFF_FFFF_FFFF_FFFF,
            ) {
                Ok(v) => Ok(self.encoded_regs(to_unsigned(v, 64), ws)),
                Err(e) => Err("Int64: "@ + num_error_text(e)),
            },
            NumFormat::Uint64 => match parse_uint_spec(t, 0xFFFF_FFFF_FFFF_FFFF) {
                Ok(v) => Ok(self.encoded_regs(v as nat, ws)),
                Err(e) => Err("Uint64: "@ + num_error_text(e)),
            },
            _ => Err(Seq::empty()),
        }
    }

    /// The wire registers that carry the lowest `16 * width` bits of `bits`:
    /// split high word first, then word swap, then byte swap.
    pub fn encode_bits(self, bits: u64, ws: &WordSwap) -> (r: Vec<u16>)
        ensures
            r@ == self.encoded_regs(bits as nat, *ws),
    {
        let w = self.width();
        let v: Vec<u16> = if w == 1 {
            vec![(bits % 0x1_0000) as u16]
        } else if w == 2 {
            let low = (bits % 0x1_0000_0000) as u32;
            let v = split_u32(low);
            assert(value_words(low as nat, 2) =~= value_words(bits as nat, 2));
            v
        } else {
            split_u64(bits)
        };
        let r = if self.should_swap(ws) {
            rotate_halves(&v)
        } else {
            v
        };
        if ws.bytes {
            byte_swap_all(&r)
        } else {
            r
        }
    }

    /// Convert a slice of registers to a display string (formats other than
    /// the floats). Bytes within each register are swapped first if byte
    /// swap is on; then the word order is swapped if it applies.
    pub fn format_value(self, regs: &[u16], ws: &WordSwap) -> (r: String)
        requires
            !self.is_float(),
        ensures
            regs@.len() < self.regs() ==> r@ == "?"@,
            regs@.len() >= self.regs() ==> r@ == self.display_text(self.decoded_bits(regs@, *ws)),
    {
        let bits = match self.decode_bits(regs, ws) {
            None => {
                return String::from_str("?");
            },
            Some(b) => b,
        };
        match self {
            NumFormat::Int16 => if bits >= 0x8000 {
                to_signed_decimal(true, 0x1_0000 - bits)
            } else {
                to_signed_decimal(false, bits)
            },
            NumFormat::Uint16 => to_decimal(bits),
            NumFormat::Bin16 => {
                let mut s = String::new();
                push_bits(&mut s, bits, 16);
                assert(s@ =~= bin_chars(bits as nat, 16));
                s
            },
            NumFormat::Ascii => {
                let mut s = String::new();
                push_char(&mut s, ascii_char((bits / 256) as u8));
                push_char(&mut s, ascii_char((bits % 256) as u8));
                assert(s@ =~= self.display_text(bits as nat));
                s
            },
            NumFormat::Int32 => if bits >= 0x8000_0000 {
                to_signed_decimal(true, 0x1_0000_0000 - bits)
            } else {
                to_signed_decimal(false, bits)
            },
            NumFormat::Uint32 => to_decimal(bits),
            NumFormat::Int64 => if bits >= 0x8000_0000_0000_0000 {
                to_signed_decimal(true, (0xFFFF_FFFF_FFFF_FFFF - bits) + 1)
            } else {
                to_signed_decimal(false, bits)
            },
            NumFormat::Uint64 => to_decimal(bits),
            _ => String::new(),
        }
    }

    /// Parse a user-provided string into wire registers (formats other than
    /// the floats). If word swap is active for this format the registers are
    /// reordered, then byte swap is applied, so they can be written directly
    /// to the device.
    pub fn parse_value(self, input: &str, ws: &WordSwap) -> (r: Result<Vec<u16>, String>)
        requires
            !self.is_float(),
        ensures
            match r {
                Ok(v) => self.parse_outcome(input@, *ws) == Ok::<Seq<u16>, Seq<char>>(v@),
                Err(e) => self.parse_outcome(input@, *ws) == Err::<Seq<u16>, Seq<char>>(e@),
            },
    {
        let trimmed = trim(input);
        let bytes = trimmed.as_bytes();
        assert(bytes@ == encode_utf8(trim_chars(input@)));
        match self {
            NumFormat::Int16 => match parse_int(bytes, -0x8000, 0x7FFF) {
                Ok(v) => {
                    let bits: u64 = if v < 0 {
                        (v + 0x1_0000) as u64
                    } else {
                        v as u64
                    };
                    Ok(self.encode_bits(bits, ws))
                },
                Err(e) => Err(concat("Int16: ", e.message().as_str())),
            },
            NumFormat::Uint16 => match parse_uint(bytes, 0xFFFF) {
                Ok(v) => Ok(self.encode_bits(v as u64, ws)),
                Err(e) => Err(concat("Uint16: ", e.message().as_str())),
            },
            NumFormat::Bin16 => match parse_uint(bytes, 0xFFFF) {
                Ok(v) => Ok(self.encode_bits(v as u64, ws)),
                Err(e) => Err(concat("Bin16: ", e.message().as_str())),
            },
            NumFormat::Ascii => if bytes.len() != 2 {
                Err(String::from_str("Ascii: expected exactly 2 characters"))
            } else {
                Ok(self.encode_bits((bytes[0] as u64) * 256 + (bytes[1] as u64), ws))
            },
            NumFormat::Int32 => match parse_int(bytes, -0x8000_0000, 0x7FFF_FFFF) {
                Ok(v) => {
                    let bits: u64 = if v < 0 {
                        (v + 0x1_0000_0000) as u64
                    } else {
                        v as u64
                    };
                    Ok(self.encode_bits(bits, ws))
                },
                Err(e) => Err(concat("Int32: ", e.message().as_str())),
            },
            NumFormat::Uint32 => match parse_uint(bytes, 0xFFFF_FFFF) {
                Ok(v) => Ok(self.encode_bits(v as u64, ws)),
                Err(e) => Err(concat("Uint32: ", e.message().as_str())),
            },
            NumFormat::Int64 => match parse_int(
                bytes,
                -0x8000_0000_0000_0000,
                0x7FFF_FFFF_FFFF_FFFF,
            ) {
                Ok(v) => {
                    let bits: u64 = if v < 0 {
                        (v + 0x1_0000_0000_0000_0000) as u64
                    } else {
                        v as u64
                    };
                    Ok(self.encode_bits(bits, ws))
                },
                Err(e) => Err(concat("Int64: ", e.message().as_str())),
            },
            NumFormat::Uint64 => match parse_uint(bytes, 0xFFFF_FFFF_FFFF_FFFF) {
                Ok(v) => Ok(self.encode_bits(v as u64, ws)),
                Err(e) => Err(concat("Uint64: ", e.message().as_str())),
            },
            _ => Err(String::new()),
        }
    }
}


// ---------------------------------------------------------------------------
// Laws of the register conversions
// ---------------------------------------------------------------------------

/// Byte-swapping every register twice gives the registers back.
pub proof fn lemma_byte_swap_involution(s: Seq<u16>)
    ensures
        byte_swapped(byte_swapped(s)) == s,
{
    assert forall|i: int| 0 <= i < s.len() implies #[trigger] swap16(swap16(s[i])) == s[i] by {
        let v = s[i];
        assert(swap16(swap16(v)) == v) by (nonlinear_arith);
    }
    assert(byte_swapped(byte_swapped(s)) =~= s);
}

/// Exchanging the halves of an even-length register sequence twice gives it back.
pub proof fn lemma_rotate_half_involution(s: Seq<u16>)
    requires
        s.len() % 2 == 0,
    ensures
        rotate_half(rotate_half(s)) == s,
{
    assert(rotate_half(rotate_half(s)) =~= s);
}

/// Splitting a value into `k` registers and combining them gives the value
/// modulo 2^(16k); combining registers and splitting gives the registers.
pub proof fn lemma_words_roundtrip(v: u64, r: Seq<u16>)
    ensures
        words_value(value_words(v as nat, 1)) == v % 0x1_0000,
        words_value(value_words(v as nat, 2)) == v % 0x1_0000_0000,
        words_value(value_words(v as nat, 4)) == v,
        r.len() == 1 || r.len() == 2 || r.len() == 4 ==> value_words(words_value(r), r.len())
            == r,
{
    let a = ((v / 0x1_0000_0000_0000) % 0x1_0000) as u16;
    let b = ((v / 0x1_0000_0000) % 0x1_0000) as u16;
    let c = ((v / 0x1_0000) % 0x1_0000) as u16;
    let d = (v % 0x1_0000) as u16;
    assert(d as u64 == v % 0x1_0000) by (nonlinear_arith)
        requires
            d == (v % 0x1_0000) as u16,
    ;
    assert((c as u64) * 0x1_0000 + (d as u64) == v % 0x1_0000_0000) by (nonlinear_arith)
        requires
            c == ((v / 0x1_0000) % 0x1_0000) as u16,
            d == (v % 0x1_0000) as u16,
    ;
    assert((a as u64) * 0x1_0000_0000_0000 + (b as u64) * 0x1_0000_0000 + (c as u64) * 0x1_0000
        + (d as u64) == v) by (nonlinear_arith)
        requires
            a == ((v / 0x1_0000_0000_0000) % 0x1_0000) as u16,
            b == ((v / 0x1_0000_0000) % 0x1_0000) as u16,
            c == ((v / 0x1_0000) % 0x1_0000) as u16,
            d == (v % 0x1_0000) as u16,
    ;
    if r.len() == 1 {
        assert(value_words(words_value(r), 1) =~= r);
    } else if r.len() == 2 {
        let (x, y) = (r[0], r[1]);
        let w = (x as u64) * 0x1_0000 + (y as u64);
        assert(((w / 0x1_0000) % 0x1_0000) as u16 == x && (w % 0x1_0000) as u16 == y)
            by (nonlinear_arith)
            requires
                w == (x as u64) * 0x1_0000 + (y as u64),
        ;
        assert(value_words(words_value(r), 2) =~= r);
    } else if r.len() == 4 {
        let (x, y, z, t) = (r[0], r[1], r[2], r[3]);
        let w = (x as u64) * 0x1_0000_0000_0000 + (y as u64) * 0x1_0000_0000 + (z as u64)
            * 0x1_0000 + (t as u64);
        assert(((w / 0x1_0000_0000_0000) % 0x1_0000) as u16 == x && ((w / 0x1_0000_0000)
            % 0x1_0000) as u16 == y && ((w / 0x1_0000) % 0x1_0000) as u16 == z && (w % 0x1_0000)
            as u16 == t) by (nonlinear_arith)
            requires
                w == (x as u64) * 0x1_0000_0000_0000 + (y as u64) * 0x1_0000_0000 + (z as u64)
                    * 0x1_0000 + (t as u64),
        ;
        assert(value_words(words_value(r), 4) =~= r);
    }
}

/// Reading wire registers and writing the result back are inverse: decoding
/// the registers an encoding produced gives the value modulo the format's
/// width, and encoding what was decoded gives the wire registers back.
pub proof fn lemma_decode_encode(nf: NumFormat, bits: u64, regs: Seq<u16>, ws: WordSwap)
    ensures
        nf.regs() == 1 ==> nf.decoded_bits(nf.encoded_regs(bits as nat, ws), ws) == bits
            % 0x1_0000,
        nf.regs() == 2 ==> nf.decoded_bits(nf.encoded_regs(bits as nat, ws), ws) == bits
            % 0x1_0000_0000,
        nf.regs() == 4 ==> nf.decoded_bits(nf.encoded_regs(bits as nat, ws), ws) == bits,
        regs.len() >= nf.regs() ==> nf.encoded_regs(nf.decoded_bits(regs, ws), ws) == regs.take(
            nf.regs() as int,
        ),
{
    let k = nf.regs();
    let words = value_words(bits as nat, k);
    lemma_words_roundtrip(bits, words);
    // Decoding an encoding.
    let wire = nf.logical_to_wire(words, ws);
    let swapped = if nf.swaps_words(ws) {
        rotate_half(words)
    } else {
        words
    };
    lemma_byte_swap_involution(swapped);
    assert(wire.take(k as int) =~= wire);
    if nf.swaps_words(ws) {
        lemma_rotate_half_involution(words);
    }
    assert(nf.wire_to_logical(wire, ws) =~= words);
    // Encoding a decoding.
    if regs.len() >= k {
        let logical = nf.wire_to_logical(regs, ws);
        let r = regs.take(k as int);
        let b = if ws.bytes {
            byte_swapped(r)
        } else {
            r
        };
        lemma_byte_swap_involution(r);
        if nf.swaps_words(ws) {
            lemma_rotate_half_involution(b);
        }
        lemma_words_roundtrip(0, logical);
        assert(nf.logical_to_wire(logical, ws) =~= r);
    }
}

/// Whether a byte is a printable ASCII character other than space.
pub open spec fn is_graphic(b: nat) -> bool {
    0x21 <= b <= 0x7E
}

impl NumFormat {
    /// Whether the text shown for `bits` reads back as the same value: always
    /// for the integer formats; for ASCII when both bytes are printable
    /// characters other than space (a space at either end is trimmed and other
    /// bytes are shown as `.`). Bin16 text has no `0b` prefix and is read as
    /// decimal; the floats are shown rounded.
    pub open spec fn reads_back(self, bits: nat) -> bool {
        match self {
            NumFormat::Int16 | NumFormat::Uint16 | NumFormat::Int32 | NumFormat::Uint32
            | NumFormat::Int64 | NumFormat::Uint64 => true,
            NumFormat::Ascii => is_graphic(bits / 256) && is_graphic(bits % 256),
            _ => false,
        }
    }
}

/// Formatting wire registers and parsing the text shown gives back the same
/// wire registers, under every swap configuration, for the integer formats
/// and for ASCII registers holding two printable characters.
pub proof fn lemma_format_then_parse(nf: NumFormat, regs: Seq<u16>, ws: WordSwap)
    requires
        regs.len() >= nf.regs(),
        nf.reads_back(nf.decoded_bits(regs, ws)),
    ensures
        nf.parse_outcome(nf.display_text(nf.decoded_bits(regs, ws)), ws) == Ok::<
            Seq<u16>,
            Seq<char>,
        >(regs.take(nf.regs() as int)),
{
    let bits = nf.decoded_bits(regs, ws);
    lemma_decode_encode(nf, 0, regs, ws);
    let k = nf.regs();
    let logical = nf.wire_to_logical(regs, ws);
    assert(logical.len() == k);
    match nf {
        NumFormat::Int16 => {
            lemma_signed_text_reads_back(to_signed(bits, 16), -0x8000, 0x7FFF);
        },
        NumFormat::Uint16 => {
            lemma_unsigned_text_reads_back(bits, 0xFFFF);
        },
        NumFormat::Int32 => {
            lemma_signed_text_reads_back(to_signed(bits, 32), -0x8000_0000, 0x7FFF_FFFF);
        },
        NumFormat::Uint32 => {
            lemma_unsigned_text_reads_back(bits, 0xFFFF_FFFF);
        },
        NumFormat::Int64 => {
            lemma_signed_text_reads_back(
                to_signed(bits, 64),
                -0x8000_0000_0000_0000,
                0x7FFF_FFFF_FFFF_FFFF,
            );
        },
        NumFormat::Uint64 => {
            lemma_unsigned_text_reads_back(bits, 0xFFFF_FFFF_FFFF_FFFF);
        },
        NumFormat::Ascii => {
            let text = nf.display_text(bits);
            let hi = bits / 256;
            let lo = bits % 256;
            assert(text[0] as u32 == hi && text[1] as u32 == lo);
            assert(text.last() == text[1]);
            lemma_trim_noop(text);
            lemma_ascii_encoding(text);
        },
        _ => {},
    }
}


/// Parsing the text shown for some registers and formatting what came out
/// gives that text again, under every swap configuration: a canonical
/// decimal of an integer format (or two printable ASCII characters)
/// survives a parse and a format unchanged.
pub proof fn lemma_parse_then_format(nf: NumFormat, regs: Seq<u16>, ws: WordSwap)
    requires
        regs.len() >= nf.regs(),
        nf.reads_back(nf.decoded_bits(regs, ws)),
    ensures
        nf.parse_outcome(nf.display_text(nf.decoded_bits(regs, ws)), ws) matches Ok(r) && r.len()
            >= nf.regs() && nf.display_text(nf.decoded_bits(r, ws)) == nf.display_text(
            nf.decoded_bits(regs, ws),
        ),
{
    lemma_format_then_parse(nf, regs, ws);
    let r = regs.take(nf.regs() as int);
    assert(r.take(nf.regs() as int) =~= r);
    assert(nf.wire_to_logical(r, ws) == nf.wire_to_logical(regs, ws));
}

/// The word-swap settings leave the one-register formats alone: what they
/// show depends on the byte swap only.
pub proof fn lemma_word_swap_single_register(nf: NumFormat, regs: Seq<u16>, ws: WordSwap)
    requires
        nf.regs() == 1,
    ensures
        nf.decoded_bits(regs, ws) == nf.decoded_bits(
            regs,
            (WordSwap { ints: false, floats: false, words: false, bytes: ws.bytes }),
        ),
        nf.display_text(nf.decoded_bits(regs, ws)) == nf.display_text(
            nf.decoded_bits(regs, (WordSwap { ints: false, floats: false, words: false, bytes: ws.bytes })),
        ),
{
}

/// What a short code says of the format it names: `ascii` names the
/// two-character format; any other code is a kind letter (`u` unsigned
/// integer, `i` signed integer, `f` floating point, `b` binary) followed by
/// the width in bits, sixteen for each register the format spans.
pub open spec fn code_describes(code: Seq<char>, nf: NumFormat) -> bool {
    if code == "ascii"@ {
        nf is Ascii
    } else {
        &&& code.len() >= 2
        &&& code.subrange(1, code.len() as int) == dec_chars(16 * nf.regs())
        &&& code[0] == 'u' <==> (nf is Uint16 || nf is Uint32 || nf is Uint64)
        &&& code[0] == 'i' <==> (nf is Int16 || nf is Int32 || nf is Int64)
        &&& code[0] == 'f' <==> nf.is_float()
        &&& code[0] == 'b' <==> nf is Bin16
    }
}

/// Every format code names the format it describes: the signedness or kind
/// of its letter and the width of its digits; no two codes name one format.
pub proof fn lemma_codes_name_their_formats(code: Seq<char>, other: Seq<char>)
    ensures
        format_of_code(code) matches Some(nf) ==> code_describes(code, nf),
        format_of_code(code) is Some && format_of_code(other) == format_of_code(code) ==> other
            == code,
{
    reveal_strlit("u16");
    reveal_strlit("i16");
    reveal_strlit("u32");
    reveal_strlit("i32");
    reveal_strlit("u64");
    reveal_strlit("i64");
    reveal_strlit("f32");
    reveal_strlit("f64");
    reveal_strlit("b16");
    reveal_strlit("ascii");
    assert(dec_chars(16) =~= seq!['1', '6']) by {
        reveal_with_fuel(dec_chars, 2);
    }
    assert(dec_chars(32) =~= seq!['3', '2']) by {
        reveal_with_fuel(dec_chars, 2);
    }
    assert(dec_chars(64) =~= seq!['6', '4']) by {
        reveal_with_fuel(dec_chars, 2);
    }
    if code == "u16"@ || code == "i16"@ || code == "b16"@ {
        assert(code.subrange(1, 3) =~= seq!['1', '6']);
    } else if code == "u32"@ || code == "i32"@ || code == "f32"@ {
        assert(code.subrange(1, 3) =~= seq!['3', '2']);
    } else if code == "u64"@ || code == "i64"@ || code == "f64"@ {
        assert(code.subrange(1, 3) =~= seq!['6', '4']);
    }
}

/// The error text for an unknown format code.
pub open spec fn unknown_format_text(code: Seq<char>) -> Seq<char> {
    "unknown format '"@ + code + "'; expected one of: u16, i16, u32, i32, u64, i64, f32, f64, b16, ascii"@
}

/// The format named by a short code (`u16`, `i16`, `u32`, `i32`, `u64`,
/// `i64`, `f32`, `f64`, `b16`, `ascii`).
pub open spec fn format_of_code(code: Seq<char>) -> Option<NumFormat> {
    if code == "u16"@ {
        Some(NumFormat::Uint16)
    }     else if code == "i16"@ {
        Some(NumFormat::Int16)
    }     else if code == "u32"@ {
        Some(NumFormat::Uint32)
    }     else if code == "i32"@ {
        Some(NumFormat::Int32)
    }     else if code == "u64"@ {
        Some(NumFormat::Uint64)
    }     else if code == "i64"@ {
        Some(NumFormat::Int64)
    }     else if code == "f32"@ {
        Some(NumFormat::Float32)
    }     else if code == "f64"@ {
        Some(NumFormat::Float64)
    }     else if code == "b16"@ {
        Some(NumFormat::Bin16)
    }     else if code == "ascii"@ {
        Some(NumFormat::Ascii)
    } else {
        None
    }
}

impl NumFormat {
    /// Number of formats.
    pub const COUNT: usize = 11;

    /// Position of this format in display order.
    pub open spec fn position_spec(self) -> nat {
        match self {
            NumFormat::Int16 => 0,
            NumFormat::Uint16 => 1,
            NumFormat::Int32 => 2,
            NumFormat::Uint32 => 3,
            NumFormat::Int64 => 4,
            NumFormat::Uint64 => 5,
            NumFormat::Float16 => 6,
            NumFormat::Float32 => 7,
            NumFormat::Float64 => 8,
            NumFormat::Bin16 => 9,
            NumFormat::Ascii => 10,
        }
    }

    /// Short label for the column header.
    pub open spec fn header_text(self) -> Seq<char> {
        match self {
            NumFormat::Int16 => "Int16"@,
            NumFormat::Uint16 => "Uint16"@,
            NumFormat::Int32 => "Int32"@,
            NumFormat::Uint32 => "Uint32"@,
            NumFormat::Int64 => "Int64"@,
            NumFormat::Uint64 => "Uint64"@,
            NumFormat::Float16 => "Float16"@,
            NumFormat::Float32 => "Float32"@,
            NumFormat::Float64 => "Float64"@,
            NumFormat::Bin16 => "Bin16"@,
            NumFormat::Ascii => "Ascii"@,
        }
    }

    /// Name padded to ten columns, a space, and a description.
    pub open spec fn description_text(self) -> Seq<char> {
        match self {
            NumFormat::Int16 => "Int16      Signed 16-bit integer (1 reg)"@,
            NumFormat::Uint16 => "Uint16     Unsigned 16-bit integer (1 reg)"@,
            NumFormat::Int32 => "Int32      Signed 32-bit integer (2 regs)"@,
            NumFormat::Uint32 => "Uint32     Unsigned 32-bit integer (2 regs)"@,
            NumFormat::Int64 => "Int64      Signed 64-bit integer (4 regs)"@,
            NumFormat::Uint64 => "Uint64     Unsigned 64-bit integer (4 regs)"@,
            NumFormat::Float16 => "Float16    IEEE 754 half-precision (1 reg)"@,
            NumFormat::Float32 => "Float32    IEEE 754 single-precision (2 regs)"@,
            NumFormat::Float64 => "Float64    IEEE 754 double-precision (4 regs)"@,
            NumFormat::Bin16 => "Bin16      Binary 16-bit (1 reg)"@,
            NumFormat::Ascii => "Ascii      ASCII string (2 chars/reg)"@,
        }
    }

    /// The format at position `i` in display order.
    pub fn nth(i: usize) -> (r: NumFormat)
        requires
            i < 11,
        ensures
            r.position_spec() == i,
    {
        if i == 0 {
            NumFormat::Int16
        } else if i == 1 {
            NumFormat::Uint16
        } else if i == 2 {
            NumFormat::Int32
        } else if i == 3 {
            NumFormat::Uint32
        } else if i == 4 {
            NumFormat::Int64
        } else if i == 5 {
            NumFormat::Uint64
        } else if i == 6 {
            NumFormat::Float16
        } else if i == 7 {
            NumFormat::Float32
        } else if i == 8 {
            NumFormat::Float64
        } else if i == 9 {
            NumFormat::Bin16
        } else {
            NumFormat::Ascii
        }
    }

    /// Position of this format in display order.
    pub fn position(self) -> (r: usize)
        ensures
            r == self.position_spec(),
            r < 11,
    {
        match self {
            NumFormat::Int16 => 0,
            NumFormat::Uint16 => 1,
            NumFormat::Int32 => 2,
            NumFormat::Uint32 => 3,
            NumFormat::Int64 => 4,
            NumFormat::Uint64 => 5,
            NumFormat::Float16 => 6,
            NumFormat::Float32 => 7,
            NumFormat::Float64 => 8,
            NumFormat::Bin16 => 9,
            NumFormat::Ascii => 10,
        }
    }

    /// Short label for the column header.
    pub fn column_header(self) -> (r: &'static str)
        ensures
            r@ == self.header_text(),
    {
        match self {
            NumFormat::Int16 => "Int16",
            NumFormat::Uint16 => "Uint16",
            NumFormat::Int32 => "Int32",
            NumFormat::Uint32 => "Uint32",
            NumFormat::Int64 => "Int64",
            NumFormat::Uint64 => "Uint64",
            NumFormat::Float16 => "Float16",
            NumFormat::Float32 => "Float32",
            NumFormat::Float64 => "Float64",
            NumFormat::Bin16 => "Bin16",
            NumFormat::Ascii => "Ascii",
        }
    }

    /// Name and description, as listed in the format chooser.
    pub fn description(self) -> (r: &'static str)
        ensures
            r@ == self.description_text(),
    {
        match self {
            NumFormat::Int16 => "Int16      Signed 16-bit integer (1 reg)",
            NumFormat::Uint16 => "Uint16     Unsigned 16-bit integer (1 reg)",
            NumFormat::Int32 => "Int32      Signed 32-bit integer (2 regs)",
            NumFormat::Uint32 => "Uint32     Unsigned 32-bit integer (2 regs)",
            NumFormat::Int64 => "Int64      Signed 64-bit integer (4 regs)",
            NumFormat::Uint64 => "Uint64     Unsigned 64-bit integer (4 regs)",
            NumFormat::Float16 => "Float16    IEEE 754 half-precision (1 reg)",
            NumFormat::Float32 => "Float32    IEEE 754 single-precision (2 regs)",
            NumFormat::Float64 => "Float64    IEEE 754 double-precision (4 regs)",
            NumFormat::Bin16 => "Bin16      Binary 16-bit (1 reg)",
            NumFormat::Ascii => "Ascii      ASCII string (2 chars/reg)",
        }
    }

    /// The format named by a short code, or the error text for an unknown code.
    pub fn from_code(code: &str) -> (r: Result<NumFormat, String>)
        ensures
            match r {
                Ok(nf) => format_of_code(code@) == Some(nf) && code_describes(code@, nf),
                Err(e) => format_of_code(code@) is None && e@ == unknown_format_text(code@),
            },
    {
        proof {
            lemma_codes_name_their_formats(code@, code@);
        }
        if str_eq(code, "u16") {
            Ok(NumFormat::Uint16)
        } else if str_eq(code, "i16") {
            Ok(NumFormat::Int16)
        } else if str_eq(code, "u32") {
            Ok(NumFormat::Uint32)
        } else if str_eq(code, "i32") {
            Ok(NumFormat::Int32)
        } else if str_eq(code, "u64") {
            Ok(NumFormat::Uint64)
        } else if str_eq(code, "i64") {
            Ok(NumFormat::Int64)
        } else if str_eq(code, "f32") {
            Ok(NumFormat::Float32)
        } else if str_eq(code, "f64") {
            Ok(NumFormat::Float64)
        } else if str_eq(code, "b16") {
            Ok(NumFormat::Bin16)
        } else if str_eq(code, "ascii") {
            Ok(NumFormat::Ascii)
        } else {
            let mut e = concat("unknown format '", code);
            e.append(
                "'; expected one of: u16, i16, u32, i32, u64, i64, f32, f64, b16, ascii",
            );
            Err(e)
        }
    }
}

impl std::str::FromStr for NumFormat {
    type Err = String;

    /// Reads a short format code (`u16`, `i16`, ..., `ascii`).
    fn from_str(s: &str) -> (r: Result<NumFormat, String>)
        ensures
            match r {
                Ok(nf) => format_of_code(s@) == Some(nf),
                Err(e) => format_of_code(s@) is None && e@ == unknown_format_text(s@),
            },
    {
        NumFormat::from_code(s)
    }
}

/// Every format lies at its own position in display order.
pub proof fn lemma_position_nth(nf: NumFormat, i: nat)
    requires
        i < 11,
        nf.position_spec() == i,
    ensures
        forall|g: NumFormat| g.position_spec() == i ==> g == nf,
{
}

} // verus!
