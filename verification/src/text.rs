//! Text helpers: decimal and binary rendering, whitespace trimming and
//! integer parsing with decimal, `0x` hexadecimal and `0b` binary prefixes.
use vstd::prelude::*;
use vstd::string::*;
use vstd::utf8::{encode_scalar, encode_utf8, leading_byte_width_1};

verus! {

/// The ASCII character of a decimal digit.
pub open spec fn digit_char(d: nat) -> char {
    (d + 48) as char
}

/// Decimal digits of `n`, most significant first, without leading zeros.
pub open spec fn dec_chars(n: nat) -> Seq<char>
    decreases n,
{
    if n < 10 {
        seq![digit_char(n)]
    } else {
        dec_chars(n / 10).push(digit_char(n % 10))
    }
}

/// Decimal text of a signed value: a leading `-` for negative values.
pub open spec fn signed_dec_chars(v: int) -> Seq<char> {
    if v < 0 {
        seq!['-'] + dec_chars((-v) as nat)
    } else {
        dec_chars(v as nat)
    }
}

/// The lowest `k` bits of `v` as `0`/`1` characters, most significant first.
pub open spec fn bin_chars(v: nat, k: nat) -> Seq<char>
    decreases k,
{
    if k == 0 {
        Seq::empty()
    } else {
        bin_chars(v / 2, (k - 1) as nat).push(if v % 2 == 1 { '1' } else { '0' })
    }
}

/// `String::push`: appends one character.
#[verifier::external_body]
pub(crate) fn push_char(s: &mut String, c: char)
    ensures
        final(s)@ == old(s)@.push(c),
{
    s.push(c);
}

/// Appends the decimal digits of `n`.
pub fn push_decimal(s: &mut String, n: u64)
    ensures
        final(s)@ == old(s)@ + dec_chars(n as nat),
    decreases n,
{
    if n >= 10 {
        push_decimal(s, n / 10);
    }
    let d = (n % 10) as u8;
    let c = (d + 48) as char;
    push_char(s, c);
    proof {
        assert(c == digit_char((n % 10) as nat));
        if n >= 10 {
            assert(dec_chars(n as nat) == dec_chars((n / 10) as nat).push(c));
        }
    }
}

/// Decimal text of an unsigned value.
pub fn to_decimal(n: u64) -> (r: String)
    ensures
        r@ == dec_chars(n as nat),
{
    let mut s = String::new();
    push_decimal(&mut s, n);
    assert(s@ =~= dec_chars(n as nat));
    s
}

/// Decimal text of a value given by its sign and magnitude.
pub fn to_signed_decimal(negative: bool, magnitude: u64) -> (r: String)
    ensures
        r@ == signed_dec_chars(if negative { -(magnitude as int) } else { magnitude as int }),
{
    let mut s = String::new();
    if negative && magnitude > 0 {
        push_char(&mut s, '-');
    }
    push_decimal(&mut s, magnitude);
    proof {
        if negative && magnitude > 0 {
            assert(s@ =~= seq!['-'] + dec_chars(magnitude as nat));
        } else {
            assert(s@ =~= dec_chars(magnitude as nat));
        }
    }
    s
}

/// Appends the lowest `k` bits of `v`, most significant first.
pub fn push_bits(s: &mut String, v: u64, k: u32)
    ensures
        final(s)@ == old(s)@ + bin_chars(v as nat, k as nat),
    decreases k,
{
    if k > 0 {
        push_bits(s, v / 2, k - 1);
        let c = if v % 2 == 1 { '1' } else { '0' };
        push_char(s, c);
        assert(bin_chars(v as nat, k as nat) == bin_chars((v / 2) as nat, (k - 1) as nat).push(c));
    } else {
        assert(old(s)@ + bin_chars(v as nat, k as nat) =~= old(s)@);
    }
}


/// Whether `c` has the Unicode `White_Space` property (the set that
/// `char::is_whitespace` and `str::trim` use).
pub open spec fn is_ws(c: char) -> bool {
    let u = c as u32;
    ||| 9 <= u <= 13
    ||| u == 32
    ||| u == 0x85
    ||| u == 0xA0
    ||| u == 0x1680
    ||| 0x2000 <= u <= 0x200A
    ||| u == 0x2028
    ||| u == 0x2029
    ||| u == 0x202F
    ||| u == 0x205F
    ||| u == 0x3000
}

/// `s` without its leading whitespace.
pub open spec fn trim_start(s: Seq<char>) -> Seq<char>
    decreases s.len(),
{
    if s.len() > 0 && is_ws(s[0]) {
        trim_start(s.drop_first())
    } else {
        s
    }
}

/// `s` without its trailing whitespace.
pub open spec fn trim_end(s: Seq<char>) -> Seq<char>
    decreases s.len(),
{
    if s.len() > 0 && is_ws(s.last()) {
        trim_end(s.drop_last())
    } else {
        s
    }
}

/// `s` without leading and trailing whitespace.
pub open spec fn trim_chars(s: Seq<char>) -> Seq<char> {
    trim_end(trim_start(s))
}

/// Whether `c` is a whitespace character.
pub fn is_whitespace_char(c: char) -> (b: bool)
    ensures
        b == is_ws(c),
{
    let u = c as u32;
    (9 <= u && u <= 13) || u == 32 || u == 0x85 || u == 0xA0 || u == 0x1680 || (0x2000 <= u && u
        <= 0x200A) || u == 0x2028 || u == 0x2029 || u == 0x202F || u == 0x205F || u == 0x3000
}

/// The input without leading and trailing whitespace.
pub fn trim(input: &str) -> (r: &str)
    ensures
        r@ == trim_chars(input@),
{
    let n = input.unicode_len();
    let mut i: usize = 0;
    assert(input@.subrange(0, n as int) =~= input@);
    while i < n && is_whitespace_char(input.get_char(i))
        invariant
            i <= n,
            n == input@.len(),
            trim_start(input@) == trim_start(input@.subrange(i as int, n as int)),
        decreases n - i,
    {
        assert(input@.subrange(i + 1, n as int) =~= input@.subrange(i as int, n as int).drop_first());
        i += 1;
    }
    assert(trim_start(input@) == input@.subrange(i as int, n as int));
    let mut j: usize = n;
    while j > i && is_whitespace_char(input.get_char(j - 1))
        invariant
            i <= j <= n,
            n == input@.len(),
            trim_end(input@.subrange(i as int, n as int)) == trim_end(
                input@.subrange(i as int, j as int),
            ),
        decreases j,
    {
        assert(input@.subrange(i as int, j - 1) =~= input@.subrange(i as int, j as int).drop_last());
        j -= 1;
    }
    assert(trim_end(input@.subrange(i as int, j as int)) == input@.subrange(i as int, j as int));
    input.substring_char(i, j)
}


/// Why a numeric text was refused: the kinds of `ParseIntError`, plus a
/// value that does not fit the target width.
#[derive(PartialEq, Eq, Structural, Clone, Copy, Debug)]
pub enum NumError {
    Empty,
    InvalidDigit,
    PosOverflow,
    NegOverflow,
    OutOfRange,
}

/// The value of the ASCII digit `b` in base `radix` (`0-9`, then `a-z` or `A-Z`).
pub open spec fn digit_of(b: u8, radix: nat) -> Option<nat> {
    let d: int = if 48 <= b <= 57 {
        b - 48
    } else if 97 <= b <= 122 {
        b - 87
    } else if 65 <= b <= 90 {
        b - 55
    } else {
        36
    };
    if d < radix {
        Some(d as nat)
    } else {
        None
    }
}

/// Whether `b` is a digit in base `radix`.
pub open spec fn is_digit(b: u8, radix: nat) -> bool {
    digit_of(b, radix) is Some
}

/// The value of a digit string, most significant digit first.
pub open spec fn digits_value(s: Seq<u8>, radix: nat) -> nat
    decreases s.len(),
{
    if s.len() == 0 {
        0
    } else {
        digits_value(s.drop_last(), radix) * radix + match digit_of(s.last(), radix) {
            Some(d) => d,
            None => 0,
        }
    }
}

/// Length of the longest prefix of `s` made of digits of base `radix`.
pub open spec fn digit_prefix_len(s: Seq<u8>, radix: nat) -> nat
    decreases s.len(),
{
    if s.len() == 0 {
        0
    } else {
        let p = digit_prefix_len(s.drop_last(), radix);
        if p == s.len() - 1 && is_digit(s.last(), radix) {
            s.len()
        } else {
            p
        }
    }
}

/// Largest magnitude accepted for the given sign: `pos` for non-negative
/// values, `neg` for negative ones.
pub open spec fn magnitude_bound(negative: bool, pos: nat, neg: nat) -> nat {
    if negative {
        neg
    } else {
        pos
    }
}

/// What `from_str_radix` of an integer type returns on the bytes `src`: an
/// optional `+` (or `-` when the type is `signed`), then digits; the digits
/// are read left to right and the first failure is reported, where the value
/// leaving the type's range (largest magnitude `pos`, or `neg` when
/// negative) counts before a later bad digit.
pub open spec fn radix_parse(src: Seq<u8>, radix: nat, signed: bool, pos: nat, neg: nat) -> Result<
    int,
    NumError,
> {
    if src.len() == 0 {
        Err(NumError::Empty)
    } else if src.len() == 1 && (src[0] == 43 || src[0] == 45) {
        Err(NumError::InvalidDigit)
    } else {
        let negative = signed && src[0] == 45;
        let digits = if src[0] == 43 || negative {
            src.drop_first()
        } else {
            src
        };
        let k = digit_prefix_len(digits, radix);
        let v = digits_value(digits.take(k as int), radix);
        if v > magnitude_bound(negative, pos, neg) {
            Err(
                if negative {
                    NumError::NegOverflow
                } else {
                    NumError::PosOverflow
                },
            )
        } else if k < digits.len() {
            Err(NumError::InvalidDigit)
        } else {
            Ok(
                if negative {
                    -v
                } else {
                    v as int
                },
            )
        }
    }
}

proof fn lemma_prefix_len(s: Seq<u8>, radix: nat)
    ensures
        digit_prefix_len(s, radix) <= s.len(),
        forall|j: int| 0 <= j < digit_prefix_len(s, radix) ==> is_digit(#[trigger] s[j], radix),
        digit_prefix_len(s, radix) < s.len() ==> !is_digit(s[digit_prefix_len(s, radix) as int], radix),
    decreases s.len(),
{
    if s.len() > 0 {
        let t = s.drop_last();
        lemma_prefix_len(t, radix);
        assert forall|j: int| 0 <= j < t.len() implies t[j] == s[j] by {}
    }
}

proof fn lemma_value_monotone(s: Seq<u8>, radix: nat, j: int)
    requires
        0 <= j <= s.len(),
        radix >= 1,
    ensures
        digits_value(s.take(j), radix) <= digits_value(s, radix),
    decreases s.len(),
{
    if j < s.len() {
        let t = s.drop_last();
        assert(t.take(j) =~= s.take(j));
        lemma_value_monotone(t, radix, j);
        let v = digits_value(t, radix);
        assert(v <= v * radix) by (nonlinear_arith)
            requires
                radix >= 1,
        ;
    } else {
        assert(s.take(j) =~= s);
    }
}

/// The value of the digit `b` in base `radix`, if it is one.
pub fn digit_value(b: u8, radix: u32) -> (r: Option<u32>)
    requires
        2 <= radix <= 36,
    ensures
        match r {
            Some(d) => digit_of(b, radix as nat) == Some(d as nat) && d < radix,
            None => digit_of(b, radix as nat) is None,
        },
{
    let d: u32 = if 48 <= b && b <= 57 {
        (b - 48) as u32
    } else if 97 <= b && b <= 122 {
        (b - 87) as u32
    } else if 65 <= b && b <= 90 {
        (b - 55) as u32
    } else {
        36
    };
    if d < radix {
        Some(d)
    } else {
        None
    }
}

/// `from_str_radix` over `src[start..]`, for a target type whose largest
/// magnitude is `pos` (non-negative values) or `neg` (negative values).
pub fn parse_radix(src: &[u8], start: usize, radix: u32, signed: bool, pos: u64, neg: u64) -> (r:
    Result<i128, NumError>)
    requires
        start <= src@.len(),
        2 <= radix <= 16,
    ensures
        match r {
            Ok(v) => radix_parse(src@.skip(start as int), radix as nat, signed, pos as nat, neg as nat)
                == Ok::<int, NumError>(v as int),
            Err(e) => radix_parse(src@.skip(start as int), radix as nat, signed, pos as nat, neg as nat)
                == Err::<int, NumError>(e),
        },
{
    let ghost s = src@.skip(start as int);
    let n = src.len();
    if start == n {
        return Err(NumError::Empty);
    }
    let first = src[start];
    if start + 1 == n && (first == 43 || first == 45) {
        return Err(NumError::InvalidDigit);
    }
    let negative = signed && first == 45;
    let d0: usize = if first == 43 || negative {
        start + 1
    } else {
        start
    };
    let ghost digits = src@.subrange(d0 as int, n as int);
    assert(digits =~= (if first == 43 || negative {
        s.drop_first()
    } else {
        s
    }));
    let bound: u128 = if negative {
        neg as u128
    } else {
        pos as u128
    };
    let mut acc: u128 = 0;
    let mut i: usize = d0;
    assert(src@.subrange(d0 as int, d0 as int) =~= Seq::<u8>::empty());
    while i < n
        invariant
            d0 <= i <= n,
            n == src@.len(),
            digits == src@.subrange(d0 as int, n as int),
            s == src@.skip(start as int),
            s.len() >= 1,
            !(s.len() == 1 && (s[0] == 43 || s[0] == 45)),
            negative == (signed && s[0] == 45),
            digits == (if s[0] == 43 || negative {
                s.drop_first()
            } else {
                s
            }),
            2 <= radix <= 16,
            bound as nat == magnitude_bound(negative, pos as nat, neg as nat),
            forall|j: int| d0 <= j < i ==> is_digit(#[trigger] src@[j], radix as nat),
            acc == digits_value(src@.subrange(d0 as int, i as int), radix as nat),
            acc <= bound,
        decreases n - i,
    {
        let ghost pre = src@.subrange(d0 as int, i as int);
        assert(pre =~= digits.take(i - d0));
        match digit_value(src[i], radix) {
            None => {
                proof {
                    lemma_prefix_len(digits, radix as nat);
                    let k = digit_prefix_len(digits, radix as nat);
                    if k < i - d0 {
                        assert(digits[k as int] == src@[d0 + k]);
                    }
                    if k > i - d0 {
                        assert(digits[i - d0] == src@[i as int]);
                    }
                    assert(k == i - d0);
                }
                return Err(NumError::InvalidDigit);
            },
            Some(d) => {
                let ghost post = src@.subrange(d0 as int, i + 1);
                assert(post.drop_last() =~= pre);
                assert(acc * (radix as u128) <= bound * 16) by (nonlinear_arith)
                    requires
                        acc <= bound,
                        radix <= 16,
                ;
                let next: u128 = acc * (radix as u128) + (d as u128);
                assert(next == digits_value(post, radix as nat));
                if next > bound {
                    proof {
                        lemma_prefix_len(digits, radix as nat);
                        let k = digit_prefix_len(digits, radix as nat);
                        if k < i + 1 - d0 {
                            assert(digits[k as int] == src@[d0 + k]);
                        }
                        let full = digits.take(k as int);
                        assert(full.take(i + 1 - d0) =~= post);
                        lemma_value_monotone(full, radix as nat, i + 1 - d0);
                    }
                    return Err(
                        if negative {
                            NumError::NegOverflow
                        } else {
                            NumError::PosOverflow
                        },
                    );
                }
                acc = next;
                i += 1;
            },
        }
    }
    proof {
        lemma_prefix_len(digits, radix as nat);
        let k = digit_prefix_len(digits, radix as nat);
        if k < digits.len() {
            assert(digits[k as int] == src@[d0 + k]);
        }
        assert(digits.take(k as int) =~= src@.subrange(d0 as int, n as int));
    }
    if negative {
        Ok(-(acc as i128))
    } else {
        Ok(acc as i128)
    }
}


/// Base of a number text: `0x`/`0X` hexadecimal, `0b`/`0B` binary, else decimal.
pub open spec fn radix_of(s: Seq<u8>) -> nat {
    if s.len() >= 2 && s[0] == 48 && (s[1] == 120 || s[1] == 88) {
        16
    } else if s.len() >= 2 && s[0] == 48 && (s[1] == 98 || s[1] == 66) {
        2
    } else {
        10
    }
}

/// Where the digits of a number text start (after a base prefix, if any).
pub open spec fn digits_start(s: Seq<u8>) -> int {
    if radix_of(s) == 10 {
        0
    } else {
        2
    }
}

/// A signed integer text (decimal, `0x` hex or `0b` binary) read as a
/// 64-bit value and then required to lie in `min..=max`.
pub open spec fn parse_int_spec(s: Seq<u8>, min: int, max: int) -> Result<int, NumError> {
    match radix_parse(
        s.skip(digits_start(s)),
        radix_of(s),
        true,
        0x7FFF_FFFF_FFFF_FFFF,
        0x8000_0000_0000_0000,
    ) {
        Ok(v) => if min <= v <= max {
            Ok(v)
        } else {
            Err(NumError::OutOfRange)
        },
        Err(e) => Err(e),
    }
}

/// An unsigned integer text read as a 64-bit value and then required to be at most `max`.
pub open spec fn parse_uint_spec(s: Seq<u8>, max: int) -> Result<int, NumError> {
    match radix_parse(s.skip(digits_start(s)), radix_of(s), false, 0xFFFF_FFFF_FFFF_FFFF, 0) {
        Ok(v) => if v <= max {
            Ok(v)
        } else {
            Err(NumError::OutOfRange)
        },
        Err(e) => Err(e),
    }
}

/// Reads the base prefix of a number text.
fn radix_and_start(s: &[u8]) -> (r: (u32, usize))
    ensures
        r.0 == radix_of(s@),
        r.1 == digits_start(s@),
{
    if s.len() >= 2 && s[0] == 48 && (s[1] == 120 || s[1] == 88) {
        (16, 2)
    } else if s.len() >= 2 && s[0] == 48 && (s[1] == 98 || s[1] == 66) {
        (2, 2)
    } else {
        (10, 0)
    }
}

/// Parses a signed integer text that must lie in `min..=max`.
pub fn parse_int(s: &[u8], min: i128, max: i128) -> (r: Result<i128, NumError>)
    ensures
        match r {
            Ok(v) => parse_int_spec(s@, min as int, max as int) == Ok::<int, NumError>(v as int),
            Err(e) => parse_int_spec(s@, min as int, max as int) == Err::<int, NumError>(e),
        },
{
    let (radix, start) = radix_and_start(s);
    match parse_radix(s, start, radix, true, 0x7FFF_FFFF_FFFF_FFFF, 0x8000_0000_0000_0000) {
        Ok(v) => if min <= v && v <= max {
            Ok(v)
        } else {
            Err(NumError::OutOfRange)
        },
        Err(e) => Err(e),
    }
}

/// Parses an unsigned integer text that must be at most `max`.
pub fn parse_uint(s: &[u8], max: i128) -> (r: Result<i128, NumError>)
    ensures
        match r {
            Ok(v) => parse_uint_spec(s@, max as int) == Ok::<int, NumError>(v as int),
            Err(e) => parse_uint_spec(s@, max as int) == Err::<int, NumError>(e),
        },
{
    let (radix, start) = radix_and_start(s);
    match parse_radix(s, start, radix, false, 0xFFFF_FFFF_FFFF_FFFF, 0) {
        Ok(v) => if v <= max {
            Ok(v)
        } else {
            Err(NumError::OutOfRange)
        },
        Err(e) => Err(e),
    }
}

/// The message shown for a refused number.
pub open spec fn num_error_text(e: NumError) -> Seq<char> {
    match e {
        NumError::Empty => "cannot parse integer from empty string"@,
        NumError::InvalidDigit => "invalid digit found in string"@,
        NumError::PosOverflow => "number too large to fit in target type"@,
        NumError::NegOverflow => "number too small to fit in target type"@,
        NumError::OutOfRange => "out of range: out of range integral type conversion attempted"@,
    }
}

impl NumError {
    /// The message shown for this error.
    pub fn message(self) -> (r: String)
        ensures
            r@ == num_error_text(self),
    {
        match self {
            NumError::Empty => String::from_str("cannot parse integer from empty string"),
            NumError::InvalidDigit => String::from_str("invalid digit found in string"),
            NumError::PosOverflow => String::from_str("number too large to fit in target type"),
            NumError::NegOverflow => String::from_str("number too small to fit in target type"),
            NumError::OutOfRange => String::from_str(
                "out of range: out of range integral type conversion attempted",
            ),
        }
    }
}

/// Whether two strings hold the same characters.
pub fn str_eq(a: &str, b: &str) -> (r: bool)
    ensures
        r == (a@ == b@),
{
    let n = a.unicode_len();
    let m = b.unicode_len();
    if n != m {
        return false;
    }
    let mut i: usize = 0;
    while i < n
        invariant
            i <= n,
            n == a@.len(),
            m == b@.len(),
            n == m,
            forall|j: int| 0 <= j < i ==> a@[j] == b@[j],
        decreases n - i,
    {
        if a.get_char(i) != b.get_char(i) {
            return false;
        }
        i += 1;
    }
    assert(a@ =~= b@);
    true
}

/// `prefix` followed by `rest`.
pub fn concat(prefix: &str, rest: &str) -> (r: String)
    ensures
        r@ == prefix@ + rest@,
{
    let mut s = String::from_str(prefix);
    s.append(rest);
    s
}


/// The upper-case hexadecimal digit character of `d` (below 16).
pub open spec fn hex_digit_char(d: nat) -> char {
    if d < 10 {
        (d + 48) as char
    } else {
        (d + 55) as char
    }
}

/// The lowest `k` hexadecimal digits of `v`, upper case, most significant first.
pub open spec fn hex_chars(v: nat, k: nat) -> Seq<char>
    decreases k,
{
    if k == 0 {
        Seq::empty()
    } else {
        hex_chars(v / 16, (k - 1) as nat).push(hex_digit_char(v % 16))
    }
}

/// Appends the lowest `k` upper-case hexadecimal digits of `v`.
pub fn push_hex(s: &mut String, v: u64, k: u32)
    ensures
        final(s)@ == old(s)@ + hex_chars(v as nat, k as nat),
    decreases k,
{
    if k > 0 {
        push_hex(s, v / 16, k - 1);
        let d = (v % 16) as u8;
        let c = if d < 10 {
            (d + 48) as char
        } else {
            (d + 55) as char
        };
        push_char(s, c);
        assert(hex_chars(v as nat, k as nat) == hex_chars((v / 16) as nat, (k - 1) as nat).push(c));
    } else {
        assert(old(s)@ + hex_chars(v as nat, k as nat) =~= old(s)@);
    }
}

/// `0x` and four upper-case hex digits of a 16-bit value (`0x{:04X}`).
pub open spec fn hex4_text(v: u16) -> Seq<char> {
    "0x"@ + hex_chars(v as nat, 4)
}

/// Renders `0x{:04X}`.
pub fn hex4(v: u16) -> (r: String)
    ensures
        r@ == hex4_text(v),
{
    let mut s = String::from_str("0x");
    push_hex(&mut s, v as u64, 4);
    s
}

/// The pieces of `s` between occurrences of `sep` (as `str::split` with a
/// character pattern gives them): always at least one piece.
pub open spec fn split_on(s: Seq<char>, sep: char) -> Seq<Seq<char>>
    decreases s.len(),
{
    if s.len() == 0 {
        seq![Seq::empty()]
    } else {
        let rest = split_on(s.drop_last(), sep);
        if s.last() == sep {
            rest.push(Seq::empty())
        } else {
            rest.update(rest.len() - 1, rest.last().push(s.last()))
        }
    }
}

proof fn lemma_split_nonempty(s: Seq<char>, sep: char)
    ensures
        split_on(s, sep).len() >= 1,
    decreases s.len(),
{
    if s.len() > 0 {
        lemma_split_nonempty(s.drop_last(), sep);
    }
}

/// Splits `s` at every occurrence of `sep`.
pub fn split_on_char(s: &str, sep: char) -> (r: Vec<String>)
    ensures
        r@.len() == split_on(s@, sep).len(),
        forall|i: int| 0 <= i < r@.len() ==> #[trigger] r@[i]@ == split_on(s@, sep)[i],
{
    let n = s.unicode_len();
    let mut parts: Vec<String> = Vec::new();
    let mut cur = String::new();
    let mut i: usize = 0;
    assert(s@.take(0) =~= Seq::<char>::empty());
    while i < n
        invariant
            i <= n,
            n == s@.len(),
            parts@.len() + 1 == split_on(s@.take(i as int), sep).len(),
            forall|j: int| 0 <= j < parts@.len() ==> #[trigger] parts@[j]@ == split_on(
                s@.take(i as int),
                sep,
            )[j],
            cur@ == split_on(s@.take(i as int), sep).last(),
        decreases n - i,
    {
        let c = s.get_char(i);
        let ghost prev = split_on(s@.take(i as int), sep);
        assert(s@.take(i + 1).drop_last() =~= s@.take(i as int));
        assert(s@.take(i + 1).last() == c);
        proof {
            lemma_split_nonempty(s@.take(i as int), sep);
        }
        if c == sep {
            parts.push(cur);
            cur = String::new();
            assert(cur@ =~= Seq::<char>::empty());
        } else {
            push_char(&mut cur, c);
        }
        i += 1;
    }
    assert(s@.take(n as int) =~= s@);
    parts.push(cur);
    parts
}

/// What `u16::from_str` returns on the bytes of a text.
pub open spec fn u16_parse_spec(b: Seq<u8>) -> Result<int, NumError> {
    radix_parse(b, 10, false, 0xFFFF, 0)
}

/// Parses a decimal `u16` as `str::parse::<u16>` does.
pub fn parse_u16(s: &str) -> (r: Result<u16, NumError>)
    ensures
        match r {
            Ok(v) => u16_parse_spec(encode_utf8(s@)) == Ok::<int, NumError>(v as int),
            Err(e) => u16_parse_spec(encode_utf8(s@)) == Err::<int, NumError>(e),
        },
{
    let b = s.as_bytes();
    assert(b@.skip(0) =~= b@);
    match parse_radix(b, 0, 10, false, 0xFFFF, 0) {
        Ok(v) => Ok(v as u16),
        Err(e) => Err(e),
    }
}

/// What `u64::from_str` returns on the bytes of a text.
pub open spec fn u64_parse_spec(b: Seq<u8>) -> Result<int, NumError> {
    radix_parse(b, 10, false, 0xFFFF_FFFF_FFFF_FFFF, 0)
}

/// Parses a decimal `u64` as `str::parse::<u64>` does.
pub fn parse_u64(s: &str) -> (r: Result<u64, NumError>)
    ensures
        match r {
            Ok(v) => u64_parse_spec(encode_utf8(s@)) == Ok::<int, NumError>(v as int),
            Err(e) => u64_parse_spec(encode_utf8(s@)) == Err::<int, NumError>(e),
        },
{
    let b = s.as_bytes();
    assert(b@.skip(0) =~= b@);
    match parse_radix(b, 0, 10, false, 0xFFFF_FFFF_FFFF_FFFF, 0) {
        Ok(v) => Ok(v as u64),
        Err(e) => Err(e),
    }
}

/// The words of `s`: the non-empty pieces between runs of whitespace (as
/// `str::split_whitespace` gives them).
pub open spec fn words(s: Seq<char>) -> Seq<Seq<char>>
    decreases s.len(),
{
    if s.len() == 0 {
        Seq::empty()
    } else {
        let rest = words(s.drop_last());
        let c = s.last();
        if is_ws(c) {
            rest
        } else if s.len() >= 2 && !is_ws(s[s.len() - 2]) {
            rest.update(rest.len() - 1, rest.last().push(c))
        } else {
            rest.push(seq![c])
        }
    }
}

/// Splits `s` into its words.
pub fn split_words(s: &str) -> (r: Vec<String>)
    ensures
        r@.len() == words(s@).len(),
        forall|i: int| 0 <= i < r@.len() ==> #[trigger] r@[i]@ == words(s@)[i],
{
    let n = s.unicode_len();
    let mut parts: Vec<String> = Vec::new();
    let mut cur = String::new();
    let mut in_word = false;
    let mut i: usize = 0;
    assert(s@.take(0) =~= Seq::<char>::empty());
    while i < n
        invariant
            i <= n,
            n == s@.len(),
            in_word ==> i > 0 && !is_ws(s@[i - 1]),
            !in_word ==> i == 0 || is_ws(s@[i - 1]),
            in_word ==> words(s@.take(i as int)).len() == parts@.len() + 1 && cur@ == words(
                s@.take(i as int),
            ).last(),
            !in_word ==> words(s@.take(i as int)).len() == parts@.len() && cur@.len() == 0,
            forall|j: int| 0 <= j < parts@.len() ==> #[trigger] parts@[j]@ == words(
                s@.take(i as int),
            )[j],
        decreases n - i,
    {
        let c = s.get_char(i);
        let ghost t = s@.take(i + 1);
        assert(t.drop_last() =~= s@.take(i as int));
        assert(t.last() == c);
        if is_whitespace_char(c) {
            if in_word {
                parts.push(cur);
                cur = String::new();
                in_word = false;
            }
        } else {
            if i > 0 {
                assert(t[t.len() - 2] == s@[i - 1]);
            }
            push_char(&mut cur, c);
            if !in_word {
                assert(cur@ =~= seq![c]);
            }
            in_word = true;
        }
        i += 1;
    }
    assert(s@.take(n as int) =~= s@);
    if in_word {
        parts.push(cur);
    }
    parts
}

/// The text without its last character (as `String::pop` leaves it).
pub open spec fn without_last(s: Seq<char>) -> Seq<char> {
    if s.len() > 0 {
        s.drop_last()
    } else {
        s
    }
}

/// A copy of `s` without its last character.
pub fn drop_last_char(s: &str) -> (r: String)
    ensures
        r@ == without_last(s@),
{
    let n = s.unicode_len();
    if n == 0 {
        String::new()
    } else {
        let t = s.substring_char(0, n - 1);
        assert(t@ =~= s@.drop_last());
        String::from_str(t)
    }
}

/// The values as `0x{:04X}`, separated by `, `.
pub open spec fn hex_list_text(vals: Seq<u16>) -> Seq<char>
    decreases vals.len(),
{
    if vals.len() == 0 {
        Seq::empty()
    } else if vals.len() == 1 {
        hex4_text(vals[0])
    } else {
        hex_list_text(vals.drop_last()) + ", "@ + hex4_text(vals.last())
    }
}

/// Renders the values as `0x{:04X}`, separated by `, `.
pub fn hex_list(vals: &[u16]) -> (r: String)
    ensures
        r@ == hex_list_text(vals@),
{
    let mut s = String::new();
    let mut i: usize = 0;
    assert(vals@.take(0) =~= Seq::<u16>::empty());
    while i < vals.len()
        invariant
            i <= vals@.len(),
            s@ == hex_list_text(vals@.take(i as int)),
        decreases vals@.len() - i,
    {
        assert(vals@.take(i + 1).drop_last() =~= vals@.take(i as int));
        if i > 0 {
            s.append(", ");
        }
        let h = hex4(vals[i]);
        s.append(h.as_str());
        i += 1;
    }
    assert(vals@.take(vals@.len() as int) =~= vals@);
    s
}

// ---------------------------------------------------------------------------
// Laws: rendered numbers read back
// ---------------------------------------------------------------------------

/// The bytes of an ASCII character sequence.
pub open spec fn ascii_bytes(s: Seq<char>) -> Seq<u8> {
    Seq::new(s.len(), |i: int| (s[i] as u32) as u8)
}

/// The UTF-8 encoding of characters below 128 is one byte per character.
pub proof fn lemma_ascii_encoding(s: Seq<char>)
    requires
        forall|i: int| 0 <= i < s.len() ==> (#[trigger] s[i] as u32) < 128,
    ensures
        encode_utf8(s) == ascii_bytes(s),
    decreases s.len(),
{
    if s.len() > 0 {
        let t = s.drop_first();
        assert forall|i: int| 0 <= i < t.len() implies (#[trigger] t[i] as u32) < 128 by {
            assert(t[i] == s[i + 1]);
        }
        lemma_ascii_encoding(t);
        let c = s[0] as u32;
        assert((c & 0x7F) == c) by (bit_vector)
            requires
                c < 128,
        ;
        assert(encode_scalar(c) =~= seq![c as u8]);
        assert(encode_utf8(s) == encode_scalar(c) + encode_utf8(t));
        assert(encode_utf8(s) =~= ascii_bytes(s));
    } else {
        assert(encode_utf8(s) =~= ascii_bytes(s));
    }
}

proof fn lemma_digit_char(d: nat)
    requires
        d < 10,
    ensures
        digit_char(d) as u32 == d + 48,
        digit_of((digit_char(d) as u32) as u8, 10) == Some(d),
{
}

/// The decimal text of `n` is made of ASCII digits, and its bytes read as
/// base-10 digits give back `n`.
pub proof fn lemma_dec_chars_value(n: nat)
    ensures
        dec_chars(n).len() >= 1,
        forall|i: int| 0 <= i < dec_chars(n).len() ==> 48 <= (#[trigger] dec_chars(n)[i] as u32)
            <= 57,
        digit_prefix_len(ascii_bytes(dec_chars(n)), 10) == dec_chars(n).len(),
        digits_value(ascii_bytes(dec_chars(n)), 10) == n,
    decreases n,
{
    let b = ascii_bytes(dec_chars(n));
    if n < 10 {
        lemma_digit_char(n);
        assert(b.drop_last() =~= Seq::<u8>::empty());
        assert(b.last() == (digit_char(n) as u32) as u8);
        assert(digits_value(b, 10) == digits_value(b.drop_last(), 10) * 10 + n);
        assert(is_digit(b.last(), 10));
        assert(digit_prefix_len(b.drop_last(), 10) == 0);
    } else {
        lemma_digit_char(n % 10);
        lemma_dec_chars_value(n / 10);
        let prev = dec_chars(n / 10);
        let c = digit_char(n % 10);
        assert(dec_chars(n) == prev.push(c));
        assert(b.drop_last() =~= ascii_bytes(prev));
        assert(b.last() == (c as u32) as u8);
        assert(digits_value(b, 10) == digits_value(b.drop_last(), 10) * 10 + (n % 10));
        assert(is_digit(b.last(), 10));
        assert forall|i: int| 0 <= i < dec_chars(n).len() implies 48 <= (
        #[trigger] dec_chars(n)[i] as u32) <= 57 by {
            if i < prev.len() {
                assert(dec_chars(n)[i] == prev[i]);
            }
        }
    }
}

/// Text without whitespace at either end is its own trim.
pub proof fn lemma_trim_noop(s: Seq<char>)
    requires
        s.len() > 0,
        !is_ws(s[0]),
        !is_ws(s.last()),
    ensures
        trim_chars(s) == s,
{
}

/// The bytes of the decimal text of `n` have no base prefix.
proof fn lemma_dec_radix(n: nat)
    ensures
        radix_of(ascii_bytes(dec_chars(n))) == 10,
        radix_of(ascii_bytes(seq!['-'] + dec_chars(n))) == 10,
{
    lemma_dec_chars_value(n);
    let d = dec_chars(n);
    if d.len() >= 2 {
        assert(48 <= (d[1] as u32) <= 57);
    }
}

/// Parsing the decimal text of `n` as an unsigned value at most `max` gives `n`.
pub proof fn lemma_unsigned_text_reads_back(n: nat, max: int)
    requires
        n <= max <= 0xFFFF_FFFF_FFFF_FFFF,
    ensures
        parse_uint_spec(encode_utf8(trim_chars(dec_chars(n))), max) == Ok::<int, NumError>(
            n as int,
        ),
{
    let d = dec_chars(n);
    lemma_dec_chars_value(n);
    assert(48 <= (d[0] as u32) <= 57);
    assert(48 <= (d.last() as u32) <= 57);
    lemma_trim_noop(d);
    lemma_ascii_encoding(d);
    lemma_dec_radix(n);
    let b = ascii_bytes(d);
    assert(b.skip(0) =~= b);
    assert(b.take(b.len() as int) =~= b);
}

/// Parsing the decimal text of `v` as a signed value in `min..=max` gives `v`.
pub proof fn lemma_signed_text_reads_back(v: int, min: int, max: int)
    requires
        -0x8000_0000_0000_0000 <= min <= v <= max <= 0x7FFF_FFFF_FFFF_FFFF,
    ensures
        parse_int_spec(encode_utf8(trim_chars(signed_dec_chars(v))), min, max) == Ok::<
            int,
            NumError,
        >(v),
{
    let m: nat = if v < 0 {
        (-v) as nat
    } else {
        v as nat
    };
    let d = dec_chars(m);
    lemma_dec_chars_value(m);
    lemma_dec_radix(m);
    let t = signed_dec_chars(v);
    assert(48 <= (d[0] as u32) <= 57);
    assert(48 <= (d.last() as u32) <= 57);
    if v < 0 {
        assert(t =~= seq!['-'] + d);
        assert(t.last() == d.last());
        assert forall|i: int| 0 <= i < t.len() implies (#[trigger] t[i] as u32) < 128 by {
            if i > 0 {
                assert(t[i] == d[i - 1]);
            }
        }
    } else {
        assert(t == d);
    }
    lemma_trim_noop(t);
    lemma_ascii_encoding(t);
    let b = ascii_bytes(t);
    assert(b.skip(0) =~= b);
    if v < 0 {
        assert(b.drop_first() =~= ascii_bytes(d));
        assert(ascii_bytes(d).take(d.len() as int) =~= ascii_bytes(d));
    } else {
        assert(b.take(b.len() as int) =~= b);
    }
}

} // verus!
