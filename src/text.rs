use vstd::prelude::*;

verus! {

/// `s` with every non-overlapping occurrence of `from`, scanned left to right,
/// replaced by `to`. An empty `from` leaves `s` as it is.
pub open spec fn replace_all(s: Seq<char>, from: Seq<char>, to: Seq<char>) -> Seq<char>
    decreases s.len(),
{
    if from.len() == 0 || s.len() < from.len() {
        s
    } else if s.subrange(0, from.len() as int) == from {
        to + replace_all(s.subrange(from.len() as int, s.len() as int), from, to)
    } else {
        seq![s[0]] + replace_all(s.subrange(1, s.len() as int), from, to)
    }
}

/// The decimal digit for `d` in `0..10`.
pub open spec fn digit_char(d: int) -> char {
    if d == 0 { '0' }
    else if d == 1 { '1' }
    else if d == 2 { '2' }
    else if d == 3 { '3' }
    else if d == 4 { '4' }
    else if d == 5 { '5' }
    else if d == 6 { '6' }
    else if d == 7 { '7' }
    else if d == 8 { '8' }
    else { '9' }
}

/// Decimal digits of a natural number, most significant first, without leading zeros.
pub open spec fn nat_digits(n: nat) -> Seq<char>
    decreases n,
{
    if n < 10 {
        seq![digit_char(n as int)]
    } else {
        nat_digits(n / 10) + seq![digit_char((n % 10) as int)]
    }
}

/// Decimal text of an integer: a minus sign for negative values, then the digits.
pub open spec fn decimal_of(n: int) -> Seq<char> {
    if n < 0 {
        seq!['-'] + nat_digits((-n) as nat)
    } else {
        nat_digits(n as nat)
    }
}

/// Whether `c` is an ASCII decimal digit.
pub open spec fn is_digit(c: char) -> bool {
    '0' <= c && c <= '9'
}

/// Value of a non-empty run of decimal digits.
pub open spec fn digits_value(s: Seq<char>) -> int
    decreases s.len(),
{
    if s.len() == 0 {
        0
    } else {
        digits_value(s.drop_last()) * 10 + ((s.last() as int) - ('0' as int))
    }
}

/// The integer that `s` writes in decimal: an optional `+` or `-`, then at least
/// one digit and nothing else. `None` where `s` has another shape.
pub open spec fn decimal_value(s: Seq<char>) -> Option<int> {
    let (neg, body) = if s.len() > 0 && s[0] == '-' {
        (true, s.drop_first())
    } else if s.len() > 0 && s[0] == '+' {
        (false, s.drop_first())
    } else {
        (false, s)
    };
    if body.len() > 0 && (forall|i: int| 0 <= i < body.len() ==> is_digit(#[trigger] body[i])) {
        Some(if neg { -digits_value(body) } else { digits_value(body) })
    } else {
        None
    }
}

/// What decoding `b` as UTF-8 gives: the text, or `None` where `b` is not UTF-8.
pub uninterp spec fn utf8_decode(b: Seq<u8>) -> Option<Seq<char>>;

/// Relies on `str::replace`: every non-overlapping match of a non-empty pattern,
/// from the left, is replaced by `to`.
#[verifier::external_body]
pub(crate) fn replace_str(s: &str, from: &str, to: &str) -> (r: String)
    requires
        from@.len() > 0,
    ensures
        r@ == replace_all(s@, from@, to@),
{
    s.replace(from, to)
}

/// Relies on `ToString` for `i64`: the decimal text of the value.
#[verifier::external_body]
pub(crate) fn i64_to_string(n: i64) -> (r: String)
    ensures
        r@ == decimal_of(n as int),
{
    n.to_string()
}

/// Relies on `str::parse::<i32>`: an optional sign and decimal digits whose value
/// fits in `i32`; anything else is an error.
#[verifier::external_body]
pub(crate) fn parse_i32(s: &str) -> (r: Option<i32>)
    ensures
        match r {
            Some(n) => decimal_value(s@) == Some(n as int),
            None => match decimal_value(s@) {
                Some(v) => v < i32::MIN || v > i32::MAX,
                None => true,
            },
        },
{
    s.parse::<i32>().ok()
}

/// Relies on `String::from_utf8`: the bytes as text where they are valid UTF-8.
#[verifier::external_body]
pub(crate) fn decode_utf8(b: Vec<u8>) -> (r: Option<String>)
    ensures
        match r {
            Some(s) => utf8_decode(b@) == Some(s@),
            None => utf8_decode(b@).is_none(),
        },
{
    String::from_utf8(b).ok()
}

/// The query offset as given by the transport: its decimal value where it is one
/// that fits in `i32`, else zero.
pub fn parse_offset(s: &str) -> (r: i32)
    ensures
        match decimal_value(s@) {
            Some(v) => r == if i32::MIN <= v <= i32::MAX { v } else { 0 },
            None => r == 0,
        },
{
    match parse_i32(s) {
        Some(n) => n,
        None => 0,
    }
}

/// Output bytes of an executable as text; `None` where they are not UTF-8.
pub fn decode_output(bytes: Vec<u8>) -> (r: Option<String>)
    ensures
        r.is_some() == utf8_decode(bytes@).is_some(),
        r.is_some() ==> utf8_decode(bytes@) == Some(r.unwrap()@),
{
    decode_utf8(bytes)
}

} // verus!
