use vstd::prelude::*;
use vstd::string::*;

verus! {

/// Rust's integer division: the quotient rounded toward zero.
pub open spec fn trunc_div(a: int, b: int) -> int
    recommends
        b != 0,
{
    if a >= 0 {
        a / b
    } else {
        -((-a) / b)
    }
}

/// `a / b`, or nothing for a zero divisor. The one quotient that overflows, `i32::MIN / -1`, is
/// left out.
pub fn divide(a: i32, b: i32) -> (r: Option<i32>)
    requires
        !(a == i32::MIN && b == -1),
    ensures
        b == 0 <==> r is None,
        b != 0 ==> r == Some(trunc_div(a as int, b as int) as i32),
{
    if b == 0 {
        None
    } else {
        Some(a / b)
    }
}

/// The message that `divide_safe` reports for a zero divisor.
pub open spec fn division_by_zero_text() -> Seq<char> {
    "Division by zero"@
}

/// `a / b`, or an error for a zero divisor.
pub fn divide_safe(a: i32, b: i32) -> (r: Result<i32, &'static str>)
    requires
        !(a == i32::MIN && b == -1),
    ensures
        b == 0 <==> r is Err,
        b == 0 ==> r->Err_0@ == division_by_zero_text(),
        b != 0 ==> r == Ok::<i32, &'static str>(trunc_div(a as int, b as int) as i32),
{
    if b == 0 {
        Err("Division by zero")
    } else {
        Ok(a / b)
    }
}

pub open spec fn is_digit(c: char) -> bool {
    '0' <= c && c <= '9'
}

/// A non-empty run of decimal digits.
pub open spec fn all_digits(d: Seq<char>) -> bool {
    d.len() > 0 && forall|i: int| 0 <= i < d.len() ==> is_digit(#[trigger] d[i])
}

/// The value of a run of decimal digits, most significant first.
pub open spec fn digits_value(d: Seq<char>) -> int
    decreases d.len(),
{
    if d.len() == 0 {
        0
    } else {
        digits_value(d.drop_last()) * 10 + (d.last() as int - '0' as int)
    }
}

/// The integer written in `s`: an optional `+` or `-` sign, then decimal digits.
pub open spec fn signed_decimal(s: Seq<char>) -> Option<int> {
    if s.len() > 0 && s[0] == '-' && all_digits(s.drop_first()) {
        Some(-digits_value(s.drop_first()))
    } else if s.len() > 0 && s[0] == '+' && all_digits(s.drop_first()) {
        Some(digits_value(s.drop_first()))
    } else if all_digits(s) {
        Some(digits_value(s))
    } else {
        None
    }
}

/// The `i32` that `s` denotes, if `s` is a signed decimal within the range of `i32`.
pub open spec fn parsed_i32(s: Seq<char>) -> Option<int> {
    match signed_decimal(s) {
        Some(v) => if i32::MIN <= v <= i32::MAX {
            Some(v)
        } else {
            None
        },
        None => None,
    }
}

/// The text of the error that parsing `s` as an `i32` reports.
pub uninterp spec fn int_parse_error_text(s: Seq<char>) -> Seq<char>;

/// Relies on `str::parse::<i32>` (`FromStr for i32`): it accepts an optional sign followed by
/// decimal digits whose value fits in `i32`, and rejects anything else; the error's text is that
/// of its `Display`, which depends on the input alone.
#[verifier::external_body]
fn parse_i32(s: &str) -> (r: Result<i32, String>)
    ensures
        match r {
            Ok(v) => parsed_i32(s@) == Some(v as int),
            Err(m) => parsed_i32(s@) is None && m@ == int_parse_error_text(s@),
        },
{
    match s.parse::<i32>() {
        Ok(v) => Ok(v),
        Err(e) => Err(e.to_string()),
    }
}

/// Doubling after halving: `v` rounded toward zero to an even number.
pub open spec fn halved_doubled(v: int) -> int {
    trunc_div(v, 2) * 2
}

/// Parses `s` as an `i32`, halves it and doubles the half; `s` must denote an `i32`.
pub fn parse_and_double(s: &str) -> (r: i32)
    requires
        parsed_i32(s@) is Some,
    ensures
        r as int == halved_doubled(parsed_i32(s@)->0),
{
    let num = parse_i32(s).unwrap();
    let doubled = divide(num, 2).unwrap();
    doubled * 2
}

pub open spec fn parse_error_prefix() -> Seq<char> {
    "Parse error: "@
}

/// The rest of `parse_and_double_safe` once the text is parsed: a parsed value is halved and
/// doubled, and a parse error is reported with its text behind a prefix.
pub fn double_parsed(parsed: Result<i32, String>) -> (r: Result<i32, String>)
    ensures
        parsed is Ok <==> r is Ok,
        parsed is Ok ==> r->Ok_0 as int == halved_doubled(parsed->Ok_0 as int),
        parsed is Err ==> r->Err_0@ == parse_error_prefix() + parsed->Err_0@,
{
    let num = match parsed {
        Ok(v) => v,
        Err(e) => {
            proof {
                reveal_strlit("Parse error: ");
            }
            return Err("Parse error: ".to_owned().concat(e.as_str()));
        },
    };
    match divide_safe(num, 2) {
        Ok(doubled) => Ok(doubled * 2),
        Err(e) => Err("Division error: ".to_owned().concat(e)),
    }
}

/// Parses `s` as an `i32`, halves it and doubles the half, or reports why `s` does not parse.
pub fn parse_and_double_safe(s: &str) -> (r: Result<i32, String>)
    ensures
        parsed_i32(s@) is Some <==> r is Ok,
        parsed_i32(s@) is Some ==> r->Ok_0 as int == halved_doubled(parsed_i32(s@)->0),
        parsed_i32(s@) is None ==> r->Err_0@ == parse_error_prefix() + int_parse_error_text(s@),
{
    double_parsed(parse_i32(s))
}

/// The value inside three layers of `Option`, all of which must be present.
pub fn get_nested_value(data: Option<Option<Option<i32>>>) -> (r: i32)
    requires
        data matches Some(Some(Some(_))),
    ensures
        data == Some(Some(Some(r))),
{
    data.unwrap().unwrap().unwrap()
}

/// The element at `index`, which must be in bounds.
pub fn get_element(vec: Vec<i32>, index: usize) -> (r: i32)
    requires
        index < vec.len(),
    ensures
        r == vec@[index as int],
{
    *vec.get(index).unwrap()
}

} // verus!
