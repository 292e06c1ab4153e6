//! Decimal and hexadecimal notation of numbers.
use vstd::prelude::*;

verus! {

/// The lower-case hexadecimal digit for a value below 16.
pub open spec fn hex_digit(d: nat) -> char {
    if d == 0 {
        '0'
    } else if d == 1 {
        '1'
    } else if d == 2 {
        '2'
    } else if d == 3 {
        '3'
    } else if d == 4 {
        '4'
    } else if d == 5 {
        '5'
    } else if d == 6 {
        '6'
    } else if d == 7 {
        '7'
    } else if d == 8 {
        '8'
    } else if d == 9 {
        '9'
    } else if d == 10 {
        'a'
    } else if d == 11 {
        'b'
    } else if d == 12 {
        'c'
    } else if d == 13 {
        'd'
    } else if d == 14 {
        'e'
    } else {
        'f'
    }
}

/// The hexadecimal notation of a number, in lower-case digits, without leading zeros ("0" for
/// zero).
pub open spec fn spec_hex(n: nat) -> Seq<char>
    decreases n,
{
    if n < 16 {
        seq![hex_digit(n)]
    } else {
        spec_hex(n / 16).push(hex_digit(n % 16))
    }
}

/// The digit for a value below 16, as a string.
fn digit_str(d: u64) -> (s: &'static str)
    requires
        d < 16,
    ensures
        s@ == seq![hex_digit(d as nat)],
{
    proof {
        reveal_strlit("0");
        reveal_strlit("1");
        reveal_strlit("2");
        reveal_strlit("3");
        reveal_strlit("4");
        reveal_strlit("5");
        reveal_strlit("6");
        reveal_strlit("7");
        reveal_strlit("8");
        reveal_strlit("9");
        reveal_strlit("a");
        reveal_strlit("b");
        reveal_strlit("c");
        reveal_strlit("d");
        reveal_strlit("e");
        reveal_strlit("f");
    }
    match d {
        0 => "0",
        1 => "1",
        2 => "2",
        3 => "3",
        4 => "4",
        5 => "5",
        6 => "6",
        7 => "7",
        8 => "8",
        9 => "9",
        10 => "a",
        11 => "b",
        12 => "c",
        13 => "d",
        14 => "e",
        _ => "f",
    }
}

/// The hexadecimal notation of a number, in lower-case digits, without leading zeros.
pub fn hex_string(n: u64) -> (s: String)
    ensures
        s@ == spec_hex(n as nat),
{
    if n == 0 {
        return String::from_str(digit_str(0));
    }
    let mut m: u64 = n;
    let mut s = String::new();
    while m > 0
        invariant
            m > 0 ==> spec_hex(n as nat) == spec_hex(m as nat) + s@,
            m == 0 ==> spec_hex(n as nat) == s@,
        decreases m,
    {
        let digit = String::from_str(digit_str(m % 16));
        let next = digit.concat(s.as_str());
        proof {
            if m >= 16 {
                assert(spec_hex(m as nat) == spec_hex((m / 16) as nat).push(hex_digit((m % 16) as nat)));
                assert(spec_hex((m / 16) as nat) + next@ == spec_hex(m as nat) + s@);
            } else {
                assert(spec_hex(m as nat) == seq![hex_digit(m as nat)]);
            }
        }
        s = next;
        m = m / 16;
    }
    s
}

/// The decimal digit for a value below 10.
pub open spec fn decimal_digit(d: nat) -> char {
    hex_digit(d)
}

/// The decimal notation of a number, without leading zeros ("0" for zero).
pub open spec fn spec_decimal(n: nat) -> Seq<char>
    decreases n,
{
    if n < 10 {
        seq![decimal_digit(n)]
    } else {
        spec_decimal(n / 10).push(decimal_digit(n % 10))
    }
}

/// The decimal notation of a number, without leading zeros.
pub fn decimal_string(n: u64) -> (s: String)
    ensures
        s@ == spec_decimal(n as nat),
{
    if n == 0 {
        return String::from_str(digit_str(0));
    }
    let mut m: u64 = n;
    let mut s = String::new();
    while m > 0
        invariant
            m > 0 ==> spec_decimal(n as nat) == spec_decimal(m as nat) + s@,
            m == 0 ==> spec_decimal(n as nat) == s@,
        decreases m,
    {
        let digit = String::from_str(digit_str(m % 10));
        let next = digit.concat(s.as_str());
        proof {
            if m >= 10 {
                assert(spec_decimal(m as nat) == spec_decimal((m / 10) as nat).push(
                    decimal_digit((m % 10) as nat),
                ));
                assert(spec_decimal((m / 10) as nat) + next@ == spec_decimal(m as nat) + s@);
            } else {
                assert(spec_decimal(m as nat) == seq![decimal_digit(m as nat)]);
            }
        }
        s = next;
        m = m / 10;
    }
    s
}

} // verus!
