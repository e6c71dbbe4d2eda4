//! The wire response.
//!
//! Every request is answered with exactly
//! `OK: '<echoed text>' (request #<count>)\n`, where the text is the decoded
//! input and the count is the value the increment just returned. The decimal
//! rendering of the count is written and proved here; `response_of` is the
//! specification of the whole line.
use vstd::prelude::*;

verus! {

/// The decimal digit character for a value below ten.
pub open spec fn digit_char(d: nat) -> char {
    if d == 0 {
        '0'
    } else if d == 1 {
        '1'
    } else if d == 2 {
        '2'
    } else if d == 3 {
        '3'
    } else if d == 4 {
        '4'
    } else if d == 5 {
        '5'
    } else if d == 6 {
        '6'
    } else if d == 7 {
        '7'
    } else if d == 8 {
        '8'
    } else {
        '9'
    }
}

/// The usual decimal rendering of a natural number: no sign, no leading
/// zeros except for the number zero itself.
pub open spec fn spec_decimal(n: nat) -> Seq<char>
    decreases n,
{
    if n < 10 {
        seq![digit_char(n)]
    } else {
        spec_decimal(n / 10).push(digit_char(n % 10))
    }
}

/// The exact response line for an echoed text and a request count.
pub open spec fn response_of(text: Seq<char>, count: nat) -> Seq<char> {
    "OK: '"@ + text + "' (request #"@ + spec_decimal(count) + ")\n"@
}

/// The digit character of a value below ten, as a one-character string.
fn digit_str(d: u32) -> (r: &'static str)
    requires
        d < 10,
    ensures
        r@ == seq![digit_char(d as nat)],
{
    let r: &'static str = if d == 0 {
        "0"
    } else if d == 1 {
        "1"
    } else if d == 2 {
        "2"
    } else if d == 3 {
        "3"
    } else if d == 4 {
        "4"
    } else if d == 5 {
        "5"
    } else if d == 6 {
        "6"
    } else if d == 7 {
        "7"
    } else if d == 8 {
        "8"
    } else {
        "9"
    };
    proof {
        reveal_strlit("0");
        reveal_strlit("1");
        reveal_strlit("2");
        reveal_strlit("3");
        reveal_strlit("4");
        reveal_strlit("5");
        reveal_strlit("6");
        reveal_strlit("7");
        reveal_strlit("8");
        reveal_strlit("9");
        assert(r@ =~= seq![digit_char(d as nat)]);
    }
    r
}

/// Renders a number in decimal.
pub fn decimal_string(n: u32) -> (r: String)
    ensures
        r@ == spec_decimal(n as nat),
    decreases n,
{
    if n < 10 {
        let d = digit_str(n);
        let r = String::from_str(d);
        r
    } else {
        let mut r = decimal_string(n / 10);
        let d = digit_str(n % 10);
        r.append(d);
        proof {
            assert(r@ =~= spec_decimal((n / 10) as nat).push(digit_char((n % 10) as nat)));
        }
        r
    }
}

/// Formats the response line `OK: '<text>' (request #<count>)\n`.
pub fn format_response(text: &str, count: i32) -> (r: String)
    requires
        count >= 0,
    ensures
        r@ == response_of(text@, count as nat),
{
    let mut r = String::from_str("OK: '");
    r.append(text);
    r.append("' (request #");
    let digits = decimal_string(count as u32);
    r.append(digits.as_str());
    r.append(")\n");
    proof {
        assert(r@ =~= response_of(text@, count as nat));
    }
    r
}

} // verus!
