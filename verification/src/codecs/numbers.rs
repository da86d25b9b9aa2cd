use crate::codecs::utils::append_chars;
use vstd::prelude::*;
use vstd::string::StringExecFns;

verus! {

/// Why a piece of text is not the decimal form of an integer of the wanted type.
#[derive(Debug, PartialEq, Eq, Clone, Copy, Structural)]
pub enum NumberFault {
    /// The text is empty.
    Empty,
    /// A character is not a decimal digit, or a sign stands alone or in the wrong place.
    InvalidDigit,
    /// The number is too large for the type.
    PosOverflow,
    /// The number is too small for the type.
    NegOverflow,
}

impl NumberFault {
    /// The wording of the fault.
    pub open spec fn message(self) -> Seq<char> {
        match self {
            NumberFault::Empty => "cannot parse integer from empty string"@,
            NumberFault::InvalidDigit => "invalid digit found in string"@,
            NumberFault::PosOverflow => "number too large to fit in target type"@,
            NumberFault::NegOverflow => "number too small to fit in target type"@,
        }
    }

    /// The wording of the fault, as a string.
    pub fn to_string(&self) -> (s: String)
        ensures
            s@ == self.message(),
    {
        match self {
            NumberFault::Empty => String::from_str("cannot parse integer from empty string"),
            NumberFault::InvalidDigit => String::from_str("invalid digit found in string"),
            NumberFault::PosOverflow => String::from_str("number too large to fit in target type"),
            NumberFault::NegOverflow => String::from_str("number too small to fit in target type"),
        }
    }
}

/// Whether `c` is one of the ten decimal digits.
pub open spec fn is_digit(c: char) -> bool {
    0x30 <= c as u32 <= 0x39
}

/// The number that a decimal digit stands for.
pub open spec fn digit_value(c: char) -> nat {
    (c as u32 - 0x30) as nat
}

/// The character for a digit below sixteen: `0` to `9`, then `A` to `F`.
pub open spec fn digit_char(d: nat) -> char {
    if d < 10 {
        ((0x30 + d) as u8) as char
    } else {
        ((0x37 + d) as u8) as char
    }
}

/// The decimal form of `n`, without leading zeros.
pub open spec fn decimal(n: nat) -> Seq<char>
    decreases n,
{
    if n < 10 {
        seq![digit_char(n)]
    } else {
        decimal(n / 10).push(digit_char(n % 10))
    }
}

/// The decimal form of `n`, with a minus sign in front of a negative number.
pub open spec fn signed_decimal(n: int) -> Seq<char> {
    if n < 0 {
        seq!['-'] + decimal((-n) as nat)
    } else {
        decimal(n as nat)
    }
}

/// The number that a run of decimal digits stands for, read from left to right. The first
/// character that is no digit gives `InvalidDigit`; the first digit that takes the number
/// past `max` gives `overflow`.
pub open spec fn digits_value(s: Seq<char>, max: nat, overflow: NumberFault) -> Result<
    nat,
    NumberFault,
>
    decreases s.len(),
{
    if s.len() == 0 {
        Ok(0)
    } else {
        match digits_value(s.drop_last(), max, overflow) {
            Err(e) => Err(e),
            Ok(v) => if !is_digit(s.last()) {
                Err(NumberFault::InvalidDigit)
            } else if v * 10 + digit_value(s.last()) > max {
                Err(overflow)
            } else {
                Ok(v * 10 + digit_value(s.last()))
            },
        }
    }
}

/// Whether `s` is a sign and nothing else.
pub open spec fn is_lone_sign(s: Seq<char>) -> bool {
    s.len() == 1 && (s[0] == '+' || s[0] == '-')
}

/// The unsigned 64-bit integer that `s` is the decimal form of: an optional `+`, then digits only.
pub open spec fn parsed_u64(s: Seq<char>) -> Result<u64, NumberFault> {
    if s.len() == 0 {
        Err(NumberFault::Empty)
    } else if is_lone_sign(s) {
        Err(NumberFault::InvalidDigit)
    } else {
        let digits = if s[0] == '+' {
            s.drop_first()
        } else {
            s
        };
        match digits_value(digits, u64::MAX as nat, NumberFault::PosOverflow) {
            Ok(v) => Ok(v as u64),
            Err(e) => Err(e),
        }
    }
}

/// The signed 64-bit integer that `s` is the decimal form of: an optional `+` or `-`, then digits only.
pub open spec fn parsed_i64(s: Seq<char>) -> Result<i64, NumberFault> {
    if s.len() == 0 {
        Err(NumberFault::Empty)
    } else if is_lone_sign(s) {
        Err(NumberFault::InvalidDigit)
    } else if s[0] == '-' {
        match digits_value(s.drop_first(), 0x8000_0000_0000_0000, NumberFault::NegOverflow) {
            Ok(v) => Ok((-(v as int)) as i64),
            Err(e) => Err(e),
        }
    } else {
        let digits = if s[0] == '+' {
            s.drop_first()
        } else {
            s
        };
        match digits_value(digits, i64::MAX as nat, NumberFault::PosOverflow) {
            Ok(v) => Ok(v as i64),
            Err(e) => Err(e),
        }
    }
}

/// Reads the digits of `s` from `start` on, with `max` as the largest number accepted.
#[verifier::rlimit(50)]
fn scan_digits(s: &[char], start: usize, max: u64, overflow: NumberFault) -> (r: Result<
    u64,
    NumberFault,
>)
    requires
        start <= s@.len(),
    ensures
        match r {
            Ok(v) => digits_value(s@.skip(start as int), max as nat, overflow) == Ok::<
                nat,
                NumberFault,
            >(v as nat),
            Err(e) => digits_value(s@.skip(start as int), max as nat, overflow) == Err::<
                nat,
                NumberFault,
            >(e),
        },
{
    let mut value: u64 = 0;
    let mut i: usize = start;
    let ghost digits = s@.skip(start as int);
    while i < s.len()
        invariant
            start <= i <= s@.len(),
            digits == s@.skip(start as int),
            digits_value(digits.take(i - start), max as nat, overflow) == Ok::<nat, NumberFault>(
                value as nat,
            ),
            value <= max,
        decreases s@.len() - i,
    {
        let c: u32 = s[i] as u32;
        proof {
            assert(digits.take(i - start + 1).drop_last() =~= digits.take(i - start));
            assert(digits.take(i - start + 1).last() == s@[i as int]);
        }
        if c < 0x30 || c > 0x39 {
            proof {
                lemma_digits_value_fails(digits, i - start + 1, max as nat, overflow);
            }
            return Err(NumberFault::InvalidDigit);
        }
        let next: u128 = (value as u128) * 10 + ((c - 0x30) as u128);
        if next > max as u128 {
            proof {
                lemma_digits_value_fails(digits, i - start + 1, max as nat, overflow);
            }
            return Err(overflow);
        }
        value = next as u64;
        i += 1;
    }
    proof {
        assert(digits.take(i - start) =~= digits);
    }
    Ok(value)
}

/// Once a prefix of a digit run fails, the whole run fails in the same way.
pub proof fn lemma_digits_value_fails(s: Seq<char>, n: int, max: nat, overflow: NumberFault)
    requires
        0 <= n <= s.len(),
        digits_value(s.take(n), max, overflow) is Err,
    ensures
        digits_value(s, max, overflow) == digits_value(s.take(n), max, overflow),
    decreases s.len(),
{
    if n == s.len() {
        assert(s.take(n) =~= s);
    } else {
        assert(s.drop_last().take(n) =~= s.take(n));
        lemma_digits_value_fails(s.drop_last(), n, max, overflow);
    }
}

/// Reads an unsigned 64-bit integer from its decimal form.
pub fn parse_u64(s: &[char]) -> (r: Result<u64, NumberFault>)
    ensures
        r == parsed_u64(s@),
{
    let n: usize = s.len();
    if n == 0 {
        return Err(NumberFault::Empty);
    }
    if n == 1 && (s[0] == '+' || s[0] == '-') {
        return Err(NumberFault::InvalidDigit);
    }
    let start: usize = if s[0] == '+' {
        1
    } else {
        0
    };
    proof {
        assert(s@.skip(0) =~= s@);
        assert(s@.skip(1) =~= s@.drop_first());
    }
    match scan_digits(s, start, u64::MAX, NumberFault::PosOverflow) {
        Ok(v) => Ok(v),
        Err(e) => Err(e),
    }
}

/// Reads a signed 64-bit integer from its decimal form.
#[verifier::rlimit(50)]
pub fn parse_i64(s: &[char]) -> (r: Result<i64, NumberFault>)
    ensures
        r == parsed_i64(s@),
{
    let n: usize = s.len();
    if n == 0 {
        return Err(NumberFault::Empty);
    }
    if n == 1 && (s[0] == '+' || s[0] == '-') {
        return Err(NumberFault::InvalidDigit);
    }
    proof {
        assert(s@.skip(0) =~= s@);
        assert(s@.skip(1) =~= s@.drop_first());
    }
    if s[0] == '-' {
        match scan_digits(s, 1, 0x8000_0000_0000_0000, NumberFault::NegOverflow) {
            Ok(v) => if v == 0x8000_0000_0000_0000 {
                Ok(i64::MIN)
            } else {
                Ok(-(v as i64))
            },
            Err(e) => Err(e),
        }
    } else {
        let start: usize = if s[0] == '+' {
            1
        } else {
            0
        };
        match scan_digits(s, start, 0x7fff_ffff_ffff_ffff, NumberFault::PosOverflow) {
            Ok(v) => Ok(v as i64),
            Err(e) => Err(e),
        }
    }
}

/// The character for a digit below sixteen.
fn digit_to_char(d: u8) -> (c: char)
    requires
        d < 16,
    ensures
        c == digit_char(d as nat),
{
    if d < 10 {
        (0x30 + d) as char
    } else {
        (0x37 + d) as char
    }
}

/// Appends the decimal form of `n`.
pub fn push_decimal(out: &mut Vec<char>, n: u64)
    ensures
        final(out)@ == old(out)@ + decimal(n as nat),
    decreases n,
{
    if n >= 10 {
        push_decimal(out, n / 10);
    }
    out.push(digit_to_char((n % 10) as u8));
    proof {
        if n >= 10 {
            assert(out@ =~= old(out)@ + decimal(n as nat));
        } else {
            assert(out@ =~= old(out)@ + decimal(n as nat));
        }
    }
}

/// Appends the decimal form of `n` to a string.
pub fn append_u64(s: &mut String, n: u64)
    ensures
        final(s)@ == old(s)@ + decimal(n as nat),
{
    let mut digits: Vec<char> = Vec::new();
    push_decimal(&mut digits, n);
    assert(digits@ =~= decimal(n as nat));
    append_chars(s, digits.as_slice());
}

/// Appends the decimal form of `n`, with its sign if negative, to a string.
pub fn append_i64(s: &mut String, n: i64)
    ensures
        final(s)@ == old(s)@ + signed_decimal(n as int),
{
    if n < 0 {
        let magnitude: u64 = if n == i64::MIN {
            0x8000_0000_0000_0000
        } else {
            (-n) as u64
        };
        s.append("-");
        proof {
            reveal_strlit("-");
            assert("-"@ =~= seq!['-']);
        }
        append_u64(s, magnitude);
        proof {
            assert(s@ =~= old(s)@ + signed_decimal(n as int));
        }
    } else {
        append_u64(s, n as u64);
    }
}

/// The decimal form of an unsigned 64-bit integer.
pub fn u64_to_string(n: u64) -> (s: String)
    ensures
        s@ == decimal(n as nat),
{
    let mut s = String::new();
    append_u64(&mut s, n);
    assert(s@ =~= decimal(n as nat));
    s
}

/// The decimal form of a signed 64-bit integer.
pub fn i64_to_string(n: i64) -> (s: String)
    ensures
        s@ == signed_decimal(n as int),
{
    let mut s = String::new();
    append_i64(&mut s, n);
    assert(s@ =~= signed_decimal(n as int));
    s
}

/// Two upper-case hexadecimal digits for each byte, in order.
pub open spec fn hex_upper(bytes: Seq<u8>) -> Seq<char>
    decreases bytes.len(),
{
    if bytes.len() == 0 {
        Seq::empty()
    } else {
        hex_upper(bytes.drop_last()).push(digit_char((bytes.last() / 16) as nat)).push(
            digit_char((bytes.last() % 16) as nat),
        )
    }
}

/// Writes bytes as upper-case hexadecimal, two digits each.
pub fn bytes_to_hex(bytes: &[u8]) -> (s: String)
    ensures
        s@ == hex_upper(bytes@),
{
    let mut digits: Vec<char> = Vec::new();
    let mut i: usize = 0;
    while i < bytes.len()
        invariant
            i <= bytes@.len(),
            digits@ == hex_upper(bytes@.take(i as int)),
        decreases bytes@.len() - i,
    {
        let b: u8 = bytes[i];
        digits.push(digit_to_char(b / 16));
        digits.push(digit_to_char(b % 16));
        proof {
            assert(bytes@.take(i + 1).drop_last() =~= bytes@.take(i as int));
        }
        i += 1;
    }
    proof {
        assert(bytes@.take(bytes@.len() as int) =~= bytes@);
    }
    crate::codecs::utils::string_from_chars(digits.as_slice())
}

/// The number that bytes stand for when the first byte is the most significant.
pub open spec fn be_value(bytes: Seq<u8>) -> nat
    decreases bytes.len(),
{
    if bytes.len() == 0 {
        0
    } else {
        be_value(bytes.drop_last()) * 256 + bytes.last() as nat
    }
}

/// The `width` low-order bytes of `value`, most significant first.
pub open spec fn be_bytes(value: nat, width: nat) -> Seq<u8>
    decreases width,
{
    if width == 0 {
        Seq::empty()
    } else {
        be_bytes(value / 256, (width - 1) as nat).push((value % 256) as u8)
    }
}

/// 256 to the power of `n`.
pub open spec fn pow256(n: nat) -> nat
    decreases n,
{
    if n == 0 {
        1
    } else {
        256 * pow256((n - 1) as nat)
    }
}

/// The values of 256 to the powers that the frame fields use.
pub proof fn lemma_pow256_values()
    ensures
        pow256(0) == 1,
        pow256(1) == 0x100,
        pow256(4) == 0x1_0000_0000,
        pow256(8) == 0x1_0000_0000_0000_0000,
{
    reveal_with_fuel(pow256, 9);
}

/// `be_bytes` gives exactly `width` bytes.
pub proof fn lemma_be_bytes_len(value: nat, width: nat)
    ensures
        be_bytes(value, width).len() == width,
    decreases width,
{
    if width > 0 {
        lemma_be_bytes_len(value / 256, (width - 1) as nat);
    }
}

/// Bytes stand for a number below 256 to the power of their count.
pub proof fn lemma_be_value_bound(bytes: Seq<u8>)
    ensures
        be_value(bytes) < pow256(bytes.len()),
    decreases bytes.len(),
{
    if bytes.len() > 0 {
        lemma_be_value_bound(bytes.drop_last());
        let p = pow256((bytes.len() - 1) as nat);
        let v = be_value(bytes.drop_last());
        assert(v * 256 + 255 < p * 256) by (nonlinear_arith)
            requires
                v < p,
        ;
    }
}

/// Reading back the bytes of a number that fits in them gives the number.
pub proof fn lemma_be_value_of_bytes(value: nat, width: nat)
    requires
        value < pow256(width),
    ensures
        be_value(be_bytes(value, width)) == value,
    decreases width,
{
    if width > 0 {
        let rest = be_bytes(value / 256, (width - 1) as nat);
        let p = pow256((width - 1) as nat);
        assert(value / 256 < p) by (nonlinear_arith)
            requires
                value < 256 * p,
        ;
        lemma_be_value_of_bytes(value / 256, (width - 1) as nat);
        assert(be_bytes(value, width).drop_last() =~= rest);
    }
}

/// Writing out the number that bytes stand for gives the bytes.
pub proof fn lemma_be_bytes_of_value(bytes: Seq<u8>)
    ensures
        be_bytes(be_value(bytes), bytes.len()) == bytes,
    decreases bytes.len(),
{
    if bytes.len() > 0 {
        let v = be_value(bytes.drop_last());
        let b = bytes.last() as nat;
        lemma_be_bytes_of_value(bytes.drop_last());
        assert((v * 256 + b) / 256 == v && (v * 256 + b) % 256 == b) by (nonlinear_arith)
            requires
                b < 256,
        ;
        assert(be_bytes(be_value(bytes), bytes.len()) =~= bytes);
    }
}

/// The unsigned number with the same 64 bits as `value` in two's complement.
pub open spec fn i64_bits(value: i64) -> nat {
    if value >= 0 {
        value as nat
    } else {
        (value + 0x1_0000_0000_0000_0000) as nat
    }
}

/// The signed number whose two's complement form has the low 64 bits of `bits`.
pub open spec fn i64_of_bits(bits: nat) -> i64 {
    if bits < 0x8000_0000_0000_0000 {
        bits as i64
    } else {
        (bits - 0x1_0000_0000_0000_0000) as i64
    }
}

/// Reads `width` bytes at `at` as a number, most significant byte first.
pub fn read_be(bytes: &[u8], at: usize, width: usize) -> (value: u64)
    requires
        width <= 8,
        at + width <= bytes@.len(),
    ensures
        value == be_value(bytes@.subrange(at as int, at + width)),
{
    let mut value: u64 = 0;
    let mut i: usize = 0;
    let ghost field = bytes@.subrange(at as int, at + width);
    let n: usize = bytes.len();
    while i < width
        invariant
            i <= width <= 8,
            at + width <= n == bytes@.len(),
            field == bytes@.subrange(at as int, at + width),
            value == be_value(field.take(i as int)),
        decreases width - i,
    {
        proof {
            lemma_be_value_bound(field.take(i as int));
            lemma_pow256_bound(i as nat);
            assert(field.take(i + 1).drop_last() =~= field.take(i as int));
        }
        value = value * 256 + bytes[at + i] as u64;
        i += 1;
    }
    proof {
        assert(field.take(width as int) =~= field);
    }
    value
}

/// Up to seven bytes leave room for one more in 64 bits.
proof fn lemma_pow256_bound(n: nat)
    requires
        n <= 7,
    ensures
        pow256(n) <= 0x100_0000_0000_0000,
{
    reveal_with_fuel(pow256, 9);
}

/// Appends the `width` low-order bytes of `value`, most significant first.
pub fn push_be(out: &mut Vec<u8>, value: u64, width: usize)
    ensures
        final(out)@ == old(out)@ + be_bytes(value as nat, width as nat),
    decreases width,
{
    if width > 0 {
        push_be(out, value / 256, width - 1);
        out.push((value % 256) as u8);
    }
    proof {
        assert(out@ =~= old(out)@ + be_bytes(value as nat, width as nat));
    }
}

/// The two's complement bits of a signed 64-bit integer.
pub fn i64_to_bits(value: i64) -> (bits: u64)
    ensures
        bits == i64_bits(value),
{
    if value >= 0 {
        value as u64
    } else {
        u64::MAX - ((-(value + 1)) as u64)
    }
}

/// The signed 64-bit integer with the given two's complement bits.
pub fn i64_from_bits(bits: u64) -> (value: i64)
    ensures
        value == i64_of_bits(bits as nat),
        i64_bits(value) == bits,
{
    if bits < 0x8000_0000_0000_0000 {
        bits as i64
    } else {
        -((u64::MAX - bits) as i64) - 1
    }
}

/// A digit below ten is written as a decimal digit that stands for it.
pub proof fn lemma_digit_char(d: nat)
    requires
        d < 10,
    ensures
        is_digit(digit_char(d)),
        digit_value(digit_char(d)) == d,
        digit_char(d) as u32 == 0x30 + d,
{
}

/// The decimal form of a number is at least one character, all of them digits.
pub proof fn lemma_decimal_digits(n: nat)
    ensures
        decimal(n).len() >= 1,
        forall|i: int| 0 <= i < decimal(n).len() ==> is_digit(#[trigger] decimal(n)[i]),
    decreases n,
{
    if n < 10 {
        lemma_digit_char(n);
    } else {
        lemma_decimal_digits(n / 10);
        lemma_digit_char(n % 10);
    }
}

/// The digits of a number's decimal form stand for the number.
pub proof fn lemma_digits_value_decimal(n: nat, max: nat, overflow: NumberFault)
    requires
        n <= max,
    ensures
        digits_value(decimal(n), max, overflow) == Ok::<nat, NumberFault>(n),
    decreases n,
{
    if n < 10 {
        lemma_digit_char(n);
        assert(decimal(n).drop_last() =~= Seq::<char>::empty());
        assert(digits_value(decimal(n).drop_last(), max, overflow) == Ok::<nat, NumberFault>(0));
    } else {
        lemma_digit_char(n % 10);
        assert(decimal(n).drop_last() =~= decimal(n / 10));
        lemma_digits_value_decimal(n / 10, max, overflow);
    }
}

/// Reading the decimal form of an unsigned 64-bit integer gives the integer.
pub proof fn lemma_u64_round_trip(n: u64)
    ensures
        parsed_u64(decimal(n as nat)) == Ok::<u64, NumberFault>(n),
{
    lemma_decimal_digits(n as nat);
    lemma_digits_value_decimal(n as nat, u64::MAX as nat, NumberFault::PosOverflow);
    assert(is_digit(decimal(n as nat)[0]));
}

/// Reading the decimal form of a signed 64-bit integer gives the integer.
pub proof fn lemma_i64_round_trip(n: i64)
    ensures
        parsed_i64(signed_decimal(n as int)) == Ok::<i64, NumberFault>(n),
{
    if n < 0 {
        let magnitude = (-n) as nat;
        let text = signed_decimal(n as int);
        lemma_decimal_digits(magnitude);
        lemma_digits_value_decimal(magnitude, 0x8000_0000_0000_0000, NumberFault::NegOverflow);
        assert(text.drop_first() =~= decimal(magnitude));
        assert(text[0] == '-');
    } else {
        lemma_decimal_digits(n as nat);
        lemma_digits_value_decimal(n as nat, i64::MAX as nat, NumberFault::PosOverflow);
        assert(is_digit(decimal(n as nat)[0]));
    }
}

} // verus!
