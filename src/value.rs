use vstd::prelude::*;
use vstd::pervasive::unreached;

verus! {

/// One decoded scalar, tagged with the decode type it came from.
///
/// The variant also serves as a decode-type selector: a port configured with
/// `U32(0)` decodes its payload as unsigned 32-bit words.
///
/// `F32` carries the IEEE-754 single-precision bit pattern of the value and
/// `I16F16` the two's-complement bits of a signed Q16.16 fixed-point number
/// (16 integer bits, 16 fractional bits), so both stay plain integers here.
#[derive(Clone, Copy, Debug, PartialEq, Eq, Structural)]
pub enum ITMPortConvType {
    CHAR(u8),
    U32(u32),
    I32(i32),
    F32(u32),
    I16F16(i32),
}

/// Number of payload bytes one value of this variant occupies.
pub open spec fn width_of(t: ITMPortConvType) -> nat {
    match t {
        ITMPortConvType::CHAR(_) => 1,
        _ => 4,
    }
}

/// Unsigned little-endian reading of the first four bytes of `b`.
pub open spec fn le_u32(b: Seq<u8>) -> int {
    b[0] as int + 0x100 * (b[1] as int) + 0x1_0000 * (b[2] as int) + 0x100_0000 * (b[3] as int)
}

/// Two's-complement reading of a 32-bit word.
pub open spec fn as_signed32(u: int) -> int {
    if u < 0x8000_0000 {
        u
    } else {
        u - 0x1_0000_0000
    }
}

/// The value of the same variant as `t` that the little-endian bytes `b` encode.
pub open spec fn decode_as(t: ITMPortConvType, b: Seq<u8>) -> ITMPortConvType {
    match t {
        ITMPortConvType::CHAR(_) => ITMPortConvType::CHAR(b[0]),
        ITMPortConvType::U32(_) => ITMPortConvType::U32(le_u32(b) as u32),
        ITMPortConvType::I32(_) => ITMPortConvType::I32(as_signed32(le_u32(b)) as i32),
        ITMPortConvType::F32(_) => ITMPortConvType::F32(le_u32(b) as u32),
        ITMPortConvType::I16F16(_) => ITMPortConvType::I16F16(as_signed32(le_u32(b)) as i32),
    }
}

/// Little-endian bytes of a 32-bit word.
pub open spec fn le_bytes_u32(u: u32) -> Seq<u8> {
    seq![
        (u & 0xffu32) as u8,
        ((u >> 8u32) & 0xffu32) as u8,
        ((u >> 16u32) & 0xffu32) as u8,
        ((u >> 24u32) & 0xffu32) as u8,
    ]
}

/// The little-endian encoding of a value, `width_of(v)` bytes long.
pub open spec fn le_bytes_of(v: ITMPortConvType) -> Seq<u8> {
    match v {
        ITMPortConvType::CHAR(c) => seq![c],
        ITMPortConvType::U32(u) => le_bytes_u32(u),
        ITMPortConvType::I32(i) => le_bytes_u32(i as u32),
        ITMPortConvType::F32(u) => le_bytes_u32(u),
        ITMPortConvType::I16F16(i) => le_bytes_u32(i as u32),
    }
}

proof fn lemma_le_u32_of_bytes(u: u32)
    ensures
        le_bytes_u32(u).len() == 4,
        le_u32(le_bytes_u32(u)) == u as int,
{
    let b0 = (u & 0xffu32) as u8;
    let b1 = ((u >> 8u32) & 0xffu32) as u8;
    let b2 = ((u >> 16u32) & 0xffu32) as u8;
    let b3 = ((u >> 24u32) & 0xffu32) as u8;
    assert(b0 as u32 + 0x100 * (b1 as u32) + 0x1_0000 * (b2 as u32) + 0x100_0000 * (b3 as u32)
        == u) by (bit_vector)
        requires
            b0 == (u & 0xffu32) as u8,
            b1 == ((u >> 8u32) & 0xffu32) as u8,
            b2 == ((u >> 16u32) & 0xffu32) as u8,
            b3 == ((u >> 24u32) & 0xffu32) as u8,
    ;
    assert(le_bytes_u32(u) == seq![b0, b1, b2, b3]);
}

proof fn lemma_signed_of_unsigned(i: i32)
    ensures
        as_signed32((i as u32) as int) == i as int,
{
    let u = i as u32;
    assert(u as i32 == i) by (bit_vector)
        requires
            u == i as u32,
    ;
    assert((u as i32) as int == if u < 0x8000_0000u32 {
        u as int
    } else {
        u as int - 0x1_0000_0000
    }) by (bit_vector);
}

/// Encoding any value to its little-endian bytes and decoding those bytes as
/// the same variant gives the value back.
pub proof fn lemma_round_trip(v: ITMPortConvType)
    ensures
        le_bytes_of(v).len() == width_of(v),
        decode_as(v, le_bytes_of(v)) == v,
{
    match v {
        ITMPortConvType::CHAR(c) => {},
        ITMPortConvType::U32(u) => lemma_le_u32_of_bytes(u),
        ITMPortConvType::I32(i) => {
            lemma_le_u32_of_bytes(i as u32);
            lemma_signed_of_unsigned(i);
        },
        ITMPortConvType::F32(u) => lemma_le_u32_of_bytes(u),
        ITMPortConvType::I16F16(i) => {
            lemma_le_u32_of_bytes(i as u32);
            lemma_signed_of_unsigned(i);
        },
    }
}

/// The character of a decimal digit `d < 10`.
pub open spec fn digit_char(d: nat) -> char {
    (48 + d) as char
}

/// Decimal digits of `n`, most significant first, without leading zeros.
pub open spec fn decimal(n: nat) -> Seq<char>
    decreases n,
{
    if n < 10 {
        seq![digit_char(n)]
    } else {
        decimal(n / 10).push(digit_char(n % 10))
    }
}

/// Decimal text of a signed integer, with a leading `-` when it is negative.
pub open spec fn signed_decimal(i: int) -> Seq<char> {
    if i < 0 {
        seq!['-'] + decimal((-i) as nat)
    } else {
        decimal(i as nat)
    }
}

/// The decimal text that the `fixed` crate prints for the Q16.16 number with
/// these bits.
pub uninterp spec fn i16f16_text(bits: i32) -> Seq<char>;

/// Text of a value of any variant but `F32`: a character as itself, an
/// integer in decimal, a Q16.16 number as its scaled decimal value.
pub open spec fn text_of(v: ITMPortConvType) -> Seq<char> {
    match v {
        ITMPortConvType::CHAR(c) => seq![c as char],
        ITMPortConvType::U32(u) => decimal(u as nat),
        ITMPortConvType::I32(i) => signed_decimal(i as int),
        ITMPortConvType::I16F16(bits) => i16f16_text(bits),
        ITMPortConvType::F32(_) => Seq::empty(),
    }
}

/// Relies on String::push: appends one character.
#[verifier::external_body]
fn push_char(s: &mut String, c: char)
    ensures
        final(s)@ == old(s)@.push(c),
{
    s.push(c);
}

/// Relies on the `Display` impl of fixed's `I16F16`, reached through
/// `to_string` on the value built from `bits`: the text depends on the bits alone.
#[verifier::external_body]
fn fixed_to_string(bits: i32) -> (r: String)
    ensures
        r@ == i16f16_text(bits),
{
    fixed::types::I16F16::from_bits(bits).to_string()
}

/// Appends the decimal digits of `n` to `s`.
fn push_decimal(s: &mut String, n: u64)
    ensures
        final(s)@ == old(s)@ + decimal(n as nat),
    decreases n,
{
    if n >= 10 {
        push_decimal(s, n / 10);
    }
    let d = (n % 10) as u8;
    push_char(s, (48u8 + d) as char);
    if n >= 10 {
        assert(final(s)@ =~= old(s)@ + decimal(n as nat));
    } else {
        assert(final(s)@ =~= old(s)@ + decimal(n as nat));
    }
}

/// Reads a little-endian unsigned word from four bytes.
fn read_le_u32(b0: u8, b1: u8, b2: u8, b3: u8) -> (r: u32)
    ensures
        r as int == le_u32(seq![b0, b1, b2, b3]),
{
    let r: u32 = (b0 as u32) | ((b1 as u32) << 8u32) | ((b2 as u32) << 16u32) | ((b3 as u32)
        << 24u32);
    assert(r == b0 as u32 + 0x100 * (b1 as u32) + 0x1_0000 * (b2 as u32) + 0x100_0000 * (
    b3 as u32)) by (bit_vector)
        requires
            r == (b0 as u32) | ((b1 as u32) << 8u32) | ((b2 as u32) << 16u32) | ((b3 as u32)
                << 24u32),
    ;
    r
}

/// Reinterprets the bits of an unsigned word as a signed one.
fn to_signed32(u: u32) -> (r: i32)
    ensures
        r as int == as_signed32(u as int),
{
    let r: i32 = u as i32;
    assert(r as int == if u < 0x8000_0000u32 {
        u as int
    } else {
        u as int - 0x1_0000_0000
    }) by (bit_vector)
        requires
            r == u as i32,
    ;
    r
}

impl ITMPortConvType {
    /// Number of payload bytes one value of this variant occupies.
    pub fn size(&self) -> (r: usize)
        ensures
            r as nat == width_of(*self),
    {
        match self {
            ITMPortConvType::CHAR(_) => 1,
            ITMPortConvType::U32(_) | ITMPortConvType::I32(_) | ITMPortConvType::F32(_)
            | ITMPortConvType::I16F16(_) => 4,
        }
    }

    /// A new value of the same variant, decoded from `bytes` as little-endian.
    pub fn with_data(&self, bytes: &[u8]) -> (r: Self)
        requires
            bytes@.len() == width_of(*self),
        ensures
            r == decode_as(*self, bytes@),
    {
        match self {
            ITMPortConvType::CHAR(_) => ITMPortConvType::CHAR(bytes[0]),
            ITMPortConvType::U32(_) => {
                let u = read_le_u32(bytes[0], bytes[1], bytes[2], bytes[3]);
                ITMPortConvType::U32(u)
            },
            ITMPortConvType::I32(_) => {
                let u = read_le_u32(bytes[0], bytes[1], bytes[2], bytes[3]);
                ITMPortConvType::I32(to_signed32(u))
            },
            ITMPortConvType::F32(_) => {
                let u = read_le_u32(bytes[0], bytes[1], bytes[2], bytes[3]);
                ITMPortConvType::F32(u)
            },
            ITMPortConvType::I16F16(_) => {
                let u = read_le_u32(bytes[0], bytes[1], bytes[2], bytes[3]);
                ITMPortConvType::I16F16(to_signed32(u))
            },
        }
    }
    /// Text of the value: a character as itself, an integer in decimal, a
    /// Q16.16 number as its scaled decimal value. `F32` values are rendered by
    /// the caller, since floating point stays outside this library.
    pub fn to_string(&self) -> (r: String)
        requires
            !(*self is F32),
        ensures
            r@ == text_of(*self),
    {
        match self {
            ITMPortConvType::CHAR(c) => {
                let mut s = String::new();
                push_char(&mut s, *c as char);
                assert(s@ =~= seq![*c as char]);
                s
            },
            ITMPortConvType::U32(u) => {
                let mut s = String::new();
                push_decimal(&mut s, *u as u64);
                assert(s@ =~= decimal(*u as nat));
                s
            },
            ITMPortConvType::I32(i) => {
                let mut s = String::new();
                if *i < 0 {
                    push_char(&mut s, '-');
                    push_decimal(&mut s, (-(*i as i64)) as u64);
                } else {
                    push_decimal(&mut s, *i as u64);
                }
                assert(s@ =~= signed_decimal(*i as int));
                s
            },
            ITMPortConvType::I16F16(bits) => fixed_to_string(*bits),
            ITMPortConvType::F32(_) => unreached(),
        }
    }

    /// The byte a `CHAR` value carries.
    pub fn to_u8(&self) -> (r: u8)
        requires
            *self is CHAR,
        ensures
            *self == ITMPortConvType::CHAR(r),
    {
        match self {
            ITMPortConvType::CHAR(c) => *c,
            _ => unreached(),
        }
    }
}

} // verus!
