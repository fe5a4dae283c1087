//! Integer widths, and the conversions between integers and their decimal
//! text that std performs.
use vstd::prelude::*;

verus! {

/// The width and signedness of an integer that a consumer asks for.
#[derive(Copy, Clone, Debug, PartialEq, Eq)]
pub enum IntKind {
    I8,
    I16,
    I32,
    I64,
    U8,
    U16,
    U32,
    U64,
}

pub open spec fn is_signed(k: IntKind) -> bool {
    matches!(k, IntKind::I8 | IntKind::I16 | IntKind::I32 | IntKind::I64)
}

pub open spec fn kind_min(k: IntKind) -> int {
    match k {
        IntKind::I8 => i8::MIN as int,
        IntKind::I16 => i16::MIN as int,
        IntKind::I32 => i32::MIN as int,
        IntKind::I64 => i64::MIN as int,
        _ => 0,
    }
}

pub open spec fn kind_max(k: IntKind) -> int {
    match k {
        IntKind::I8 => i8::MAX as int,
        IntKind::I16 => i16::MAX as int,
        IntKind::I32 => i32::MAX as int,
        IntKind::I64 => i64::MAX as int,
        IntKind::U8 => u8::MAX as int,
        IntKind::U16 => u16::MAX as int,
        IntKind::U32 => u32::MAX as int,
        IntKind::U64 => u64::MAX as int,
    }
}

pub open spec fn in_range(k: IntKind, n: int) -> bool {
    kind_min(k) <= n <= kind_max(k)
}

pub open spec fn is_digit(c: char) -> bool {
    '0' <= c <= '9'
}

pub open spec fn digit_value(c: char) -> int {
    c as int - '0' as int
}

pub open spec fn digit_char(d: int) -> char {
    if d == 0 { '0' } else if d == 1 { '1' } else if d == 2 { '2' } else if d == 3 { '3' }
    else if d == 4 { '4' } else if d == 5 { '5' } else if d == 6 { '6' } else if d == 7 { '7' }
    else if d == 8 { '8' } else { '9' }
}

/// The number that a string of decimal digits spells.
pub open spec fn digits_value(s: Seq<char>) -> int
    decreases s.len(),
{
    if s.len() == 0 {
        0
    } else {
        digits_value(s.drop_last()) * 10 + digit_value(s.last())
    }
}

/// The number that one or more decimal digits spell.
pub open spec fn unsigned_text_value(s: Seq<char>) -> Option<int> {
    if s.len() > 0 && forall|i: int| 0 <= i < s.len() ==> is_digit(#[trigger] s[i]) {
        Some(digits_value(s))
    } else {
        None
    }
}

/// The number that decimal text spells: an optional `+` (or, where a sign is
/// allowed, `-`) and then one or more digits, nothing else.
pub open spec fn decimal_value(s: Seq<char>, signed: bool) -> Option<int> {
    if s.len() > 0 && s[0] == '+' {
        unsigned_text_value(s.drop_first())
    } else if signed && s.len() > 0 && s[0] == '-' {
        match unsigned_text_value(s.drop_first()) {
            Some(n) => Some(-n),
            None => None,
        }
    } else {
        unsigned_text_value(s)
    }
}

/// The integer of kind `k` that `s` spells, if it spells one that fits.
pub open spec fn int_value(k: IntKind, s: Seq<char>) -> Option<int> {
    match decimal_value(s, is_signed(k)) {
        Some(n) => if in_range(k, n) { Some(n) } else { None },
        None => None,
    }
}

/// The decimal digits of a natural number, without leading zeros.
pub open spec fn digits_text(n: nat) -> Seq<char>
    decreases n,
{
    if n < 10 {
        seq![digit_char(n as int)]
    } else {
        digits_text(n / 10).push(digit_char((n % 10) as int))
    }
}

/// The decimal text of an integer: a `-` before the digits of a negative one.
pub open spec fn decimal_text(n: int) -> Seq<char> {
    if n < 0 {
        seq!['-'] + digits_text((-n) as nat)
    } else {
        digits_text(n as nat)
    }
}

/// The description of the fault that std's integer parsing gives for text
/// that does not spell an integer of kind `k`.
pub uninterp spec fn int_fault(k: IntKind, s: Seq<char>) -> Seq<char>;

/// Relies on `<i8 as FromStr>::from_str`: an optional sign and decimal digits,
/// a fault where they are malformed or out of range.
#[verifier::external_body]
fn parse_i8(s: &str) -> (r: Result<i8, String>)
    ensures
        match r {
            Ok(v) => int_value(IntKind::I8, s@) == Some(v as int),
            Err(m) => int_value(IntKind::I8, s@) is None && m@ == int_fault(IntKind::I8, s@),
        },
{
    s.parse::<i8>().map_err(|e| e.to_string())
}

/// Relies on `<i16 as FromStr>::from_str`, as for `i8`.
#[verifier::external_body]
fn parse_i16(s: &str) -> (r: Result<i16, String>)
    ensures
        match r {
            Ok(v) => int_value(IntKind::I16, s@) == Some(v as int),
            Err(m) => int_value(IntKind::I16, s@) is None && m@ == int_fault(IntKind::I16, s@),
        },
{
    s.parse::<i16>().map_err(|e| e.to_string())
}

/// Relies on `<i32 as FromStr>::from_str`, as for `i8`.
#[verifier::external_body]
fn parse_i32(s: &str) -> (r: Result<i32, String>)
    ensures
        match r {
            Ok(v) => int_value(IntKind::I32, s@) == Some(v as int),
            Err(m) => int_value(IntKind::I32, s@) is None && m@ == int_fault(IntKind::I32, s@),
        },
{
    s.parse::<i32>().map_err(|e| e.to_string())
}

/// Relies on `<i64 as FromStr>::from_str`, as for `i8`.
#[verifier::external_body]
fn parse_i64(s: &str) -> (r: Result<i64, String>)
    ensures
        match r {
            Ok(v) => int_value(IntKind::I64, s@) == Some(v as int),
            Err(m) => int_value(IntKind::I64, s@) is None && m@ == int_fault(IntKind::I64, s@),
        },
{
    s.parse::<i64>().map_err(|e| e.to_string())
}

/// Relies on `<u8 as FromStr>::from_str`: an optional `+` and decimal digits,
/// a fault where they are malformed or out of range.
#[verifier::external_body]
fn parse_u8(s: &str) -> (r: Result<u8, String>)
    ensures
        match r {
            Ok(v) => int_value(IntKind::U8, s@) == Some(v as int),
            Err(m) => int_value(IntKind::U8, s@) is None && m@ == int_fault(IntKind::U8, s@),
        },
{
    s.parse::<u8>().map_err(|e| e.to_string())
}

/// Relies on `<u16 as FromStr>::from_str`, as for `u8`.
#[verifier::external_body]
fn parse_u16(s: &str) -> (r: Result<u16, String>)
    ensures
        match r {
            Ok(v) => int_value(IntKind::U16, s@) == Some(v as int),
            Err(m) => int_value(IntKind::U16, s@) is None && m@ == int_fault(IntKind::U16, s@),
        },
{
    s.parse::<u16>().map_err(|e| e.to_string())
}

/// Relies on `<u32 as FromStr>::from_str`, as for `u8`.
#[verifier::external_body]
fn parse_u32(s: &str) -> (r: Result<u32, String>)
    ensures
        match r {
            Ok(v) => int_value(IntKind::U32, s@) == Some(v as int),
            Err(m) => int_value(IntKind::U32, s@) is None && m@ == int_fault(IntKind::U32, s@),
        },
{
    s.parse::<u32>().map_err(|e| e.to_string())
}

/// Relies on `<u64 as FromStr>::from_str`, as for `u8`.
#[verifier::external_body]
fn parse_u64(s: &str) -> (r: Result<u64, String>)
    ensures
        match r {
            Ok(v) => int_value(IntKind::U64, s@) == Some(v as int),
            Err(m) => int_value(IntKind::U64, s@) is None && m@ == int_fault(IntKind::U64, s@),
        },
{
    s.parse::<u64>().map_err(|e| e.to_string())
}

/// Reads decimal text as an integer of kind `k`, or describes why it is none.
pub fn parse_int(k: IntKind, s: &str) -> (r: Result<i128, String>)
    ensures
        match r {
            Ok(v) => int_value(k, s@) == Some(v as int),
            Err(m) => int_value(k, s@) is None && m@ == int_fault(k, s@),
        },
{
    match k {
        IntKind::I8 => match parse_i8(s) { Ok(v) => Ok(v as i128), Err(m) => Err(m) },
        IntKind::I16 => match parse_i16(s) { Ok(v) => Ok(v as i128), Err(m) => Err(m) },
        IntKind::I32 => match parse_i32(s) { Ok(v) => Ok(v as i128), Err(m) => Err(m) },
        IntKind::I64 => match parse_i64(s) { Ok(v) => Ok(v as i128), Err(m) => Err(m) },
        IntKind::U8 => match parse_u8(s) { Ok(v) => Ok(v as i128), Err(m) => Err(m) },
        IntKind::U16 => match parse_u16(s) { Ok(v) => Ok(v as i128), Err(m) => Err(m) },
        IntKind::U32 => match parse_u32(s) { Ok(v) => Ok(v as i128), Err(m) => Err(m) },
        IntKind::U64 => match parse_u64(s) { Ok(v) => Ok(v as i128), Err(m) => Err(m) },
    }
}

/// Relies on `<i128 as Display>`, through `to_string`: decimal digits without
/// leading zeros, after a `-` for a negative number.
#[verifier::external_body]
pub(crate) fn int_text(n: i128) -> (r: String)
    ensures
        r@ == decimal_text(n as int),
{
    n.to_string()
}

/// Relies on `<char as Display>`, through `to_string`: the character alone.
#[verifier::external_body]
pub(crate) fn char_text(c: char) -> (r: String)
    ensures
        r@ == seq![c],
{
    c.to_string()
}

proof fn lemma_digit_char(d: int)
    requires
        0 <= d < 10,
    ensures
        is_digit(digit_char(d)),
        digit_value(digit_char(d)) == d,
{
}

/// The digits of a number are decimal digits, and spell that number.
pub proof fn lemma_digits_text(n: nat)
    ensures
        digits_text(n).len() > 0,
        forall|i: int| 0 <= i < digits_text(n).len() ==> is_digit(#[trigger] digits_text(n)[i]),
        digits_value(digits_text(n)) == n,
    decreases n,
{
    if n < 10 {
        lemma_digit_char(n as int);
        assert(digits_text(n).drop_last() =~= Seq::<char>::empty());
        assert(digits_value(digits_text(n)) == digits_value(Seq::<char>::empty()) * 10 + digit_value(digit_char(n as int)));
    } else {
        lemma_digits_text(n / 10);
        lemma_digit_char((n % 10) as int);
        let s = digits_text(n);
        assert(s.drop_last() =~= digits_text(n / 10));
        assert(s.last() == digit_char((n % 10) as int));
        assert(n == (n / 10) * 10 + n % 10);
        assert(digits_value(s) == digits_value(s.drop_last()) * 10 + digit_value(s.last()));
        assert forall|i: int| 0 <= i < s.len() implies is_digit(#[trigger] s[i]) by {
            if i < s.len() - 1 {
                assert(s[i] == digits_text(n / 10)[i]);
            }
        }
    }
}

/// Reading back the decimal text of an integer that fits kind `k` gives that
/// integer.
pub proof fn lemma_int_text_round_trip(k: IntKind, n: int)
    requires
        in_range(k, n),
    ensures
        int_value(k, decimal_text(n)) == Some(n),
{
    if n < 0 {
        lemma_digits_text((-n) as nat);
        let s = decimal_text(n);
        assert(s.drop_first() =~= digits_text((-n) as nat));
        assert(is_signed(k));
    } else {
        lemma_digits_text(n as nat);
        let s = digits_text(n as nat);
        assert(is_digit(s[0]));
    }
}

} // verus!
