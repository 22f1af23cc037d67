use vstd::prelude::*;

use crate::errors::InteropError;

verus! {

/// Wire-level representation of a fixed-point decimal value, binary-compatible
/// with the host runtime's 128-bit scaled-decimal layout: `lo` packs the low
/// and middle 32-bit mantissa words, `hi` is the high mantissa word, and
/// `sign_scale` carries the sign in bit 0 and the base-10 scale in bits 1-8.
#[derive(Clone, Copy, Debug, PartialEq, Eq, Structural)]
pub struct DecimalType {
    pub lo: u64,
    pub hi: u32,
    pub sign_scale: u32,
}

/// The low 32-bit mantissa word packed into `lo`.
pub open spec fn low_word(lo: u64) -> u32 {
    (lo & 0xFFFF_FFFF) as u32
}

/// The middle 32-bit mantissa word packed into `lo`.
pub open spec fn mid_word(lo: u64) -> u32 {
    ((lo >> 32) & 0xFFFF_FFFF) as u32
}

/// The base-10 scale carried in bits 1-8 of `sign_scale`.
pub open spec fn scale_of(sign_scale: u32) -> u32 {
    (sign_scale & 0x01FE) >> 1
}

/// The sign carried in bit 0 of `sign_scale`: set means negative.
pub open spec fn negative_of(sign_scale: u32) -> bool {
    sign_scale & 1 == 1
}

impl DecimalType {
    /// A scaled decimal is well formed when its scale is at most 28.
    pub open spec fn wf(self) -> bool {
        scale_of(self.sign_scale) <= 28
    }
}

/// The biased exponent field of an IEEE-754 double's bit pattern.
pub open spec fn exponent_bits(bits: u64) -> u64 {
    (bits >> 52) & 0x7FF
}

/// A double's bit pattern encodes a finite value (not NaN, not infinite)
/// exactly when its exponent field is not all ones.
pub open spec fn is_finite_bits(bits: u64) -> bool {
    exponent_bits(bits) != 0x7FF
}

/// The bit pattern of the double nearest to the decimal value formed from the
/// three mantissa words, sign and scale.
pub uninterp spec fn f64_bits_of_parts(
    low: u32,
    mid: u32,
    high: u32,
    negative: bool,
    scale: u32,
) -> u64;

/// The 16-byte decimal serialization of the double with the given bit
/// pattern, or nothing when the double is non-finite or its magnitude
/// overflows a 96-bit mantissa.
pub uninterp spec fn dec_bytes_of(bits: u64) -> Option<Seq<u8>>;

/// Relies on rust_decimal: `Decimal::from_parts` assembles the value from the
/// three mantissa words, sign and scale (it panics for a scale above 28, which
/// `requires` keeps out, and clears the sign when the mantissa is zero), and
/// `Decimal::as_f64` converts it to the nearest double, returning 0.0 for a
/// zero mantissa; std's `f64::to_bits` yields the bit pattern. The result is a
/// function of the arguments alone.
#[verifier::external_body]
fn parts_to_f64_bits(low: u32, mid: u32, high: u32, negative: bool, scale: u32) -> (r: u64)
    requires
        scale <= 28,
    ensures
        r == f64_bits_of_parts(low, mid, high, negative, scale),
        (low == 0 && mid == 0 && high == 0) ==> r == 0,
{
    rust_decimal::Decimal::from_parts(low, mid, high, negative, scale).as_f64().to_bits()
}

/// The serialization of the zero decimal: sixteen zero bytes.
pub open spec fn zero_bytes() -> Seq<u8> {
    Seq::new(16, |i: int| 0u8)
}

/// Relies on rust_decimal: `Decimal::from_f64` returns `None` exactly when the
/// double is non-finite or its magnitude overflows the 96-bit mantissa, and
/// otherwise the decimal nearest the double at the precision it can hold
/// (`0.0` becomes the all-zero decimal); `Decimal::serialize` lays the value
/// out as flags, lo, mid, hi words, each little-endian, where the flags hold
/// only a scale of at most 28 in bits 16-23 and the sign in bit 31; and
/// bytemuck's `cast`, which reinterprets the eight bytes of the bit pattern
/// as the double itself. The result is a function of the bit pattern alone.
#[verifier::external_body]
fn f64_bits_to_dec_bytes(bits: u64) -> (r: Option<Vec<u8>>)
    ensures
        r matches Some(v) ==> dec_bytes_of(bits) == Some(v@),
        r matches Some(v) ==> v@.len() == 16 && v@[0] == 0 && v@[1] == 0,
        r matches Some(v) ==> v@[2] <= 28 && (v@[3] == 0 || v@[3] == 0x80),
        r is None <==> dec_bytes_of(bits) is None,
        !is_finite_bits(bits) ==> r is None,
        bits == 0 ==> r is Some,
        r matches Some(v) ==> (bits == 0 ==> v@ == zero_bytes()),
{
    match <rust_decimal::Decimal as rust_decimal::prelude::FromPrimitive>::from_f64(
        bytemuck::cast(bits),
    ) {
        Some(d) => Some(d.serialize().to_vec()),
        None => None,
    }
}

/// The 32-bit word held little-endian at positions `i..i+4` of `b`.
pub open spec fn le_word_at(b: Seq<u8>, i: int) -> int
    recommends
        0 <= i,
        i + 4 <= b.len(),
{
    (b[i] as u32) + (b[i + 1] as u32) * 0x100 + (b[i + 2] as u32) * 0x1_0000 + (b[i + 3] as u32)
        * 0x100_0000
}

/// The `lo` field read from a 16-byte decimal serialization.
pub open spec fn unpacked_lo(b: Seq<u8>) -> int
    recommends
        b.len() == 16,
{
    le_word_at(b, 4) + le_word_at(b, 8) * 0x1_0000_0000
}

/// The `hi` field read from a 16-byte decimal serialization.
pub open spec fn unpacked_hi(b: Seq<u8>) -> int
    recommends
        b.len() == 16,
{
    le_word_at(b, 12)
}

/// The `sign_scale` field read from a 16-byte decimal serialization: the
/// scale byte shifted into bits 1-8, the sign bit of the flags in bit 0.
pub open spec fn unpacked_sign_scale(b: Seq<u8>) -> int
    recommends
        b.len() == 16,
{
    (b[2] as u32) * 2 + (b[3] as u32) / 0x80 % 2
}

/// Converts a scaled decimal to the bit pattern of the nearest double.
/// Mirrors the boundary operation that hands a decimal price across the
/// foreign-function boundary as a double.
pub fn to_f64(lo: u64, hi: u32, sign_scale: u32) -> (r: Result<u64, InteropError>)
    ensures
        scale_of(sign_scale) <= 28 ==> r == Ok::<u64, InteropError>(
            f64_bits_of_parts(
                low_word(lo),
                mid_word(lo),
                hi,
                negative_of(sign_scale),
                scale_of(sign_scale),
            ),
        ),
        scale_of(sign_scale) > 28 ==> r == Err::<u64, InteropError>(InteropError::UnsupportedScale),
        (scale_of(sign_scale) <= 28 && lo == 0 && hi == 0) ==> r == Ok::<u64, InteropError>(0u64),
{
    let scale: u32 = (sign_scale & 0x01FE) >> 1;
    if scale > 28 {
        return Err(InteropError::UnsupportedScale);
    }
    let negative: bool = sign_scale & 1 == 1;
    let low: u32 = (lo & 0xFFFF_FFFF) as u32;
    let mid: u32 = ((lo >> 32) & 0xFFFF_FFFF) as u32;
    proof {
        assert(lo == 0 ==> low_word(lo) == 0 && mid_word(lo) == 0) by (bit_vector);
    }
    Ok(parts_to_f64_bits(low, mid, hi, negative, scale))
}

/// Converts the bit pattern of a double to its scaled-decimal representation.
/// Rejects non-finite doubles, and doubles whose magnitude overflows the
/// 96-bit mantissa even at scale zero; the result is otherwise the unpacking
/// of the decimal serialization of the double, and is always well formed.
pub fn to_decimal(bits: u64) -> (r: Result<DecimalType, InteropError>)
    ensures
        !is_finite_bits(bits) ==> r == Err::<DecimalType, InteropError>(
            InteropError::NonFiniteInput,
        ),
        is_finite_bits(bits) ==> match dec_bytes_of(bits) {
            Some(b) => r matches Ok(d) && d.lo == unpacked_lo(b) && d.hi == unpacked_hi(b)
                && d.sign_scale == unpacked_sign_scale(b),
            None => r == Err::<DecimalType, InteropError>(InteropError::Overflow),
        },
        r matches Ok(d) ==> d.wf(),
        bits == 0 ==> r == Ok::<DecimalType, InteropError>(
            DecimalType { lo: 0, hi: 0, sign_scale: 0 },
        ),
{
    proof {
        assert((0u64 >> 52) & 0x7FF == 0) by (bit_vector);
    }
    let exponent: u64 = (bits >> 52) & 0x7FF;
    if exponent == 0x7FF {
        return Err(InteropError::NonFiniteInput);
    }
    match f64_bits_to_dec_bytes(bits) {
        None => Err(InteropError::Overflow),
        Some(v) => {
            let d = unpack_serialized(&v);
            proof {
                let b = v@;
                let c: u8 = b[2];
                let t: u8 = b[3];
                let ss: u32 = d.sign_scale;
                assert(scale_of(ss) == c) by (bit_vector)
                    requires
                        c <= 28,
                        t == 0 || t == 0x80,
                        ss == (c as u32) * 2 + (t as u32) / 0x80 % 2,
                ;
                if bits == 0 {
                    assert(b =~= zero_bytes());
                    assert(le_word_at(b, 4) == 0);
                    assert(le_word_at(b, 8) == 0);
                    assert(le_word_at(b, 12) == 0);
                }
            }
            Ok(d)
        },
    }
}

/// Reads the three wire fields out of a 16-byte decimal serialization laid
/// out as flags, lo, mid, hi words, each little-endian.
fn unpack_serialized(v: &Vec<u8>) -> (d: DecimalType)
    requires
        v@.len() == 16,
    ensures
        d.lo == unpacked_lo(v@),
        d.hi == unpacked_hi(v@),
        d.sign_scale == unpacked_sign_scale(v@),
{
    let low: u32 = read_le_word(v, 4);
    let mid: u32 = read_le_word(v, 8);
    let high: u32 = read_le_word(v, 12);
    let lo: u64 = low as u64 + (mid as u64) * 0x1_0000_0000;
    let sign: u32 = (v[3] as u32) / 0x80 % 2;
    let sign_scale: u32 = (v[2] as u32) * 2 + sign;
    DecimalType { lo, hi: high, sign_scale }
}

/// Reads the 32-bit word held little-endian at positions `i..i+4`.
fn read_le_word(v: &Vec<u8>, i: usize) -> (w: u32)
    requires
        v@.len() == 16,
        i + 4 <= 16,
    ensures
        w == le_word_at(v@, i as int),
{
    (v[i] as u32) + (v[i + 1] as u32) * 0x100 + (v[i + 2] as u32) * 0x1_0000 + (v[i + 3] as u32)
        * 0x100_0000
}

} // verus!
