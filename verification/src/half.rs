//! IEEE 754 half precision (float16) conversions, computed on bit patterns:
//! `f16_to_f32` widens exactly, `f32_to_f16` narrows by truncation toward zero.
use vstd::prelude::*;

verus! {

/// Sign bit of a half-precision pattern.
pub open spec fn h_sign(h: u16) -> u32 {
    (h >> 15u16) as u32
}

/// Biased exponent field (5 bits) of a half-precision pattern.
pub open spec fn h_exp(h: u16) -> u32 {
    ((h >> 10u16) & 0x1f) as u32
}

/// Fraction field (10 bits) of a half-precision pattern.
pub open spec fn h_frac(h: u16) -> u32 {
    (h & 0x3ff) as u32
}

/// Sign bit of a single-precision pattern.
pub open spec fn s_sign(b: u32) -> u32 {
    b >> 31u32
}

/// Biased exponent field (8 bits) of a single-precision pattern.
pub open spec fn s_exp(b: u32) -> u32 {
    (b >> 23u32) & 0xff
}

/// Fraction field (23 bits) of a single-precision pattern.
pub open spec fn s_frac(b: u32) -> u32 {
    b & 0x7f_ffff
}


/// `w` is the single-precision pattern of the same value as the half-precision
/// pattern `h`. Zeros, infinities and NaN payloads keep their fields (the
/// fraction moves to the top of the wider field); a normal value keeps its
/// fraction and rebiases its exponent from 15 to 127; a subnormal value
/// `frac * 2^-24` is normalized: the implicit leading 1 and the stored
/// fraction, shifted back by `113 - exponent`, give back `frac`.
pub open spec fn widens(h: u16, w: u32) -> bool {
    &&& s_sign(w) == h_sign(h)
    &&& h_exp(h) == 0 && h_frac(h) == 0 ==> s_exp(w) == 0 && s_frac(w) == 0
    &&& h_exp(h) == 0 && h_frac(h) != 0 ==> {
        &&& 103 <= s_exp(w) <= 112
        &&& s_frac(w) & 0x1fff == 0
        &&& h_frac(h) << (113 - s_exp(w)) == (s_frac(w) >> 13u32) | 0x400
    }
    &&& 1 <= h_exp(h) <= 30 ==> s_exp(w) == h_exp(h) + 112 && s_frac(w) == h_frac(h) << 13u32
    &&& h_exp(h) == 31 ==> s_exp(w) == 255 && s_frac(w) == h_frac(h) << 13u32
}

/// `h` is the single-precision pattern `b` truncated toward zero to half
/// precision. Infinities stay infinite and NaNs stay NaN (payload truncated,
/// at least 1); magnitudes of 2^16 and above become infinity, magnitudes
/// below 2^-24 become zero, magnitudes below 2^-14 become subnormal (the full
/// significand shifted right by `126 - exponent`), and the rest keep their
/// exponent (rebiased from 127 to 15) with the fraction truncated to 10 bits.
/// The sign is kept.
pub open spec fn narrows(b: u32, h: u16) -> bool {
    &&& h_sign(h) == s_sign(b)
    &&& s_exp(b) == 255 && s_frac(b) == 0 ==> h_exp(h) == 31 && h_frac(h) == 0
    &&& s_exp(b) == 255 && s_frac(b) != 0 ==> h_exp(h) == 31 && h_frac(h) == (if s_frac(b)
        >> 13u32 == 0 {
        1
    } else {
        s_frac(b) >> 13u32
    })
    &&& 143 <= s_exp(b) <= 254 ==> h_exp(h) == 31 && h_frac(h) == 0
    &&& s_exp(b) <= 102 ==> h_exp(h) == 0 && h_frac(h) == 0
    &&& 103 <= s_exp(b) <= 112 ==> h_exp(h) == 0 && h_frac(h) == (s_frac(b) | 0x80_0000) >> (126
        - s_exp(b))
    &&& 113 <= s_exp(b) <= 142 ==> h_exp(h) == s_exp(b) - 112 && h_frac(h) == s_frac(b) >> 13u32
}

proof fn lemma_h_fields(a: u16, b: u16)
    requires
        h_sign(a) == h_sign(b),
        h_exp(a) == h_exp(b),
        h_frac(a) == h_frac(b),
    ensures
        a == b,
{
    assert(a == b) by (bit_vector)
        requires
            (a >> 15u16) as u32 == (b >> 15u16) as u32,
            ((a >> 10u16) & 0x1f) as u32 == ((b >> 10u16) & 0x1f) as u32,
            (a & 0x3ff) as u32 == (b & 0x3ff) as u32,
    ;
}

/// Widening a half-precision pattern to single precision and narrowing it
/// back gives the same pattern, for every pattern (NaN payloads too).
pub proof fn lemma_widen_then_narrow(h: u16, w: u32, n: u16)
    requires
        widens(h, w),
        narrows(w, n),
    ensures
        n == h,
{
    let e = h_exp(h);
    let f = h_frac(h);
    assert(e <= 31 && f <= 0x3ff) by (bit_vector)
        requires
            e == ((h >> 10u16) & 0x1f) as u32,
            f == (h & 0x3ff) as u32,
    ;
    if e == 0 && f != 0 {
        let se = s_exp(w);
        let sf = s_frac(w);
        let k: u32 = (113 - se) as u32;
        let k2: u32 = (126 - se) as u32;
        assert(f << k == (sf >> 13u32) | 0x400);
        assert(sf <= 0x7f_ffff) by (bit_vector)
            requires
                sf == w & 0x7f_ffff,
        ;
        assert((sf | 0x80_0000) >> k2 == f) by (bit_vector)
            requires
                1 <= k <= 10,
                k2 == k + 13,
                sf & 0x1fff == 0,
                sf <= 0x7f_ffff,
                f << k == (sf >> 13u32) | 0x400,
                f <= 0x3ff,
        ;
    }
    if 1 <= e <= 31 {
        assert((f << 13u32) >> 13u32 == f && (f != 0 ==> f << 13u32 != 0) && (f == 0 ==> f
            << 13u32 == 0)) by (bit_vector)
            requires
                f <= 0x3ff,
        ;
    }
    lemma_h_fields(n, h);
}

/// Half-precision pattern to the single-precision pattern of the same value.
///
/// Zeros, infinities and NaN payloads keep their fields (the fraction moves
/// to the top of the wider field); a normal value keeps its fraction and
/// rebiases its exponent from 15 to 127; a subnormal value `frac * 2^-24` is
/// normalized: the implicit leading 1 and the stored fraction, shifted back by
/// `113 - exponent`, give back `frac`.
pub fn f16_to_f32(bits: u16) -> (r: u32)
    ensures
        widens(bits, r),
{
    let sign: u32 = ((bits >> 15u16) & 1) as u32;
    let exp: u32 = ((bits >> 10u16) & 0x1f) as u32;
    let frac: u32 = (bits & 0x3ff) as u32;
    assert(sign == h_sign(bits) && exp == h_exp(bits) && frac == h_frac(bits)) by (bit_vector)
        requires
            sign == ((bits >> 15u16) & 1) as u32,
            exp == ((bits >> 10u16) & 0x1f) as u32,
            frac == (bits & 0x3ff) as u32,
    ;
    assert(sign <= 1 && exp <= 31 && frac <= 0x3ff) by (bit_vector)
        requires
            sign == ((bits >> 15u16) & 1) as u32,
            exp == ((bits >> 10u16) & 0x1f) as u32,
            frac == (bits & 0x3ff) as u32,
    ;
    if exp == 0 {
        if frac == 0 {
            let r = sign << 31u32;
            assert(s_sign(r) == sign && s_exp(r) == 0 && s_frac(r) == 0) by (bit_vector)
                requires
                    r == sign << 31u32,
                    sign <= 1,
            ;
            r
        } else {
            let mut e: u32 = 0;
            let mut f: u32 = frac;
            assert(f == frac << 0u32) by (bit_vector)
                requires
                    f == frac,
            ;
            while (f & 0x400) == 0
                invariant
                    1 <= frac <= 0x3ff,
                    1 <= f < 0x800,
                    e <= 10,
                    f == frac << e,
                decreases 10 - e,
            {
                assert(f < 0x400 && e < 10) by (bit_vector)
                    requires
                        f & 0x400 == 0,
                        f < 0x800,
                        1 <= frac <= 0x3ff,
                        e <= 10,
                        f == frac << e,
                ;
                assert(f << 1u32 == frac << (e + 1) && f << 1u32 < 0x800 && f << 1u32 >= 1)
                    by (bit_vector)
                    requires
                        f < 0x400,
                        f >= 1,
                        e < 10,
                        f == frac << e,
                ;
                f = f << 1u32;
                e = e + 1;
            }
            assert(e >= 1) by (bit_vector)
                requires
                    f == frac << e,
                    frac <= 0x3ff,
                    f & 0x400 != 0,
                    e <= 10,
            ;
            let m = f & 0x3ff;
            let new_exp: u32 = 127 - 15 - e + 1;
            let r = (sign << 31u32) | (new_exp << 23u32) | (m << 13u32);
            assert({
                &&& s_sign(r) == sign
                &&& s_exp(r) == new_exp
                &&& s_frac(r) == m << 13u32
                &&& (m << 13u32) & 0x1fff == 0
                &&& ((m << 13u32) >> 13u32) | 0x400 == f
            }) by (bit_vector)
                requires
                    r == (sign << 31u32) | (new_exp << 23u32) | (m << 13u32),
                    sign <= 1,
                    103 <= new_exp <= 112,
                    m == f & 0x3ff,
                    f < 0x800,
                    f & 0x400 != 0,
            ;
            assert(113 - new_exp == e);
            r
        }
    } else if exp == 31 {
        // Infinity (fraction zero) or NaN (payload kept).
        let r = (sign << 31u32) | (0xffu32 << 23u32) | (frac << 13u32);
        assert(s_sign(r) == sign && s_exp(r) == 255 && s_frac(r) == frac << 13u32) by (bit_vector)
            requires
                r == (sign << 31u32) | (0xffu32 << 23u32) | (frac << 13u32),
                sign <= 1,
                frac <= 0x3ff,
        ;
        r
    } else {
        let new_exp = exp + 112;
        let r = (sign << 31u32) | (new_exp << 23u32) | (frac << 13u32);
        assert(s_sign(r) == sign && s_exp(r) == new_exp && s_frac(r) == frac << 13u32)
            by (bit_vector)
            requires
                r == (sign << 31u32) | (new_exp << 23u32) | (frac << 13u32),
                sign <= 1,
                113 <= new_exp <= 142,
                frac <= 0x3ff,
        ;
        r
    }
}

/// Single-precision pattern to half precision, truncating toward zero.
///
/// Infinities stay infinite and NaNs stay NaN (payload truncated, at least 1);
/// magnitudes of 2^16 and above become infinity, magnitudes below 2^-24 become
/// zero, magnitudes below 2^-14 become subnormal (the full significand shifted
/// right by `126 - exponent`), and the rest keep their exponent (rebiased from
/// 127 to 15) with the fraction truncated to 10 bits. The sign is kept.
pub fn f32_to_f16(bits: u32) -> (r: u16)
    ensures
        narrows(bits, r),
{
    let sign: u16 = ((bits >> 16u32) & 0x8000) as u16;
    let exp: u32 = (bits >> 23u32) & 0xff;
    let frac: u32 = bits & 0x7f_ffff;
    assert(h_sign(sign) == s_sign(bits) && sign & 0x7fff == 0 && exp == s_exp(bits) && frac
        == s_frac(bits) && exp <= 255 && frac <= 0x7f_ffff) by (bit_vector)
        requires
            sign == ((bits >> 16u32) & 0x8000) as u16,
            exp == (bits >> 23u32) & 0xff,
            frac == bits & 0x7f_ffff,
    ;
    if exp == 255 {
        let t = (frac >> 13u32) as u16;
        assert(t as u32 == frac >> 13u32 && t <= 0x3ff) by (bit_vector)
            requires
                t == (frac >> 13u32) as u16,
                frac <= 0x7f_ffff,
        ;
        let payload: u16 = if t == 0 {
            1
        } else {
            t
        };
        let r = sign | 0x7c00 | payload;
        assert(h_sign(r) == h_sign(sign) && h_exp(r) == 31 && h_frac(r) == payload) by (bit_vector)
            requires
                sign & 0x7fff == 0,
                r == sign | 0x7c00 | payload,
                payload <= 0x3ff,
        ;
        if frac == 0 {
            // Infinity: the payload is 0 for a zero fraction, so write 0x7c00 alone.
            let r0 = sign | 0x7c00;
            assert(h_sign(r0) == h_sign(sign) && h_exp(r0) == 31 && h_frac(r0) == 0)
                by (bit_vector)
                requires
                    sign & 0x7fff == 0,
                    r0 == sign | 0x7c00,
            ;
            return r0;
        }
        r
    } else if exp > 142 {
        let r = sign | 0x7c00;
        assert(h_sign(r) == h_sign(sign) && h_exp(r) == 31 && h_frac(r) == 0) by (bit_vector)
            requires
                sign & 0x7fff == 0,
                r == sign | 0x7c00,
        ;
        r
    } else if exp < 103 {
        assert(h_exp(sign) == 0 && h_frac(sign) == 0) by (bit_vector)
            requires
                sign & 0x7fff == 0,
        ;
        sign
    } else if exp < 113 {
        let shift: u32 = 126 - exp;
        let f = (frac | 0x80_0000) >> shift;
        let r = sign | (f as u16);
        assert(h_sign(r) == h_sign(sign) && h_exp(r) == 0 && h_frac(r) == f) by (bit_vector)
            requires
                sign & 0x7fff == 0,
                r == sign | (f as u16),
                f == (frac | 0x80_0000) >> shift,
                14 <= shift <= 23,
                frac <= 0x7f_ffff,
        ;
        r
    } else {
        let e = (exp - 112) as u16;
        let r = sign | (e << 10u16) | ((frac >> 13u32) as u16);
        assert(h_sign(r) == h_sign(sign) && h_exp(r) == e && h_frac(r) == frac >> 13u32)
            by (bit_vector)
            requires
                sign & 0x7fff == 0,
                r == sign | (e << 10u16) | ((frac >> 13u32) as u16),
                1 <= e <= 30,
                frac <= 0x7f_ffff,
        ;
        r
    }
}

} // verus!
