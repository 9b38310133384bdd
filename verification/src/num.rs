//! Decimal numerals: the value of a digit string (used for probed duration
//! and bit-rate fields) and the digit string of a value (used for the encoder
//! thread count), with verified executable parsing and printing.

use vstd::prelude::*;

verus! {

/// Numeric value of a decimal digit character, `None` for any other character.
pub open spec fn digit_of(c: char) -> Option<nat> {
    match c {
        '0' => Some(0nat),
        '1' => Some(1nat),
        '2' => Some(2nat),
        '3' => Some(3nat),
        '4' => Some(4nat),
        '5' => Some(5nat),
        '6' => Some(6nat),
        '7' => Some(7nat),
        '8' => Some(8nat),
        '9' => Some(9nat),
        _ => None,
    }
}

pub open spec fn is_digit_char(c: char) -> bool {
    digit_of(c) is Some
}

pub open spec fn all_digits(s: Seq<char>) -> bool {
    forall|i: int| 0 <= i < s.len() ==> is_digit_char(s[i])
}

/// Value of a digit string read most-significant first; non-digits count as 0.
pub open spec fn dec_value(s: Seq<char>) -> nat
    decreases s.len(),
{
    if s.len() == 0 {
        0
    } else {
        dec_value(s.drop_last()) * 10 + (match digit_of(s.last()) {
            Some(d) => d,
            None => 0nat,
        })
    }
}

/// Saturation of an unbounded natural at the largest `u64`.
pub open spec fn sat_u64(n: nat) -> u64 {
    if n > u64::MAX {
        u64::MAX
    } else {
        n as u64
    }
}

/// Digit character of a value below ten.
pub open spec fn digit_char(d: nat) -> char {
    if d == 0 {
        '0'
    } else if d == 1 {
        '1'
    } else if d == 2 {
        '2'
    } else if d == 3 {
        '3'
    } else if d == 4 {
        '4'
    } else if d == 5 {
        '5'
    } else if d == 6 {
        '6'
    } else if d == 7 {
        '7'
    } else if d == 8 {
        '8'
    } else {
        '9'
    }
}

/// Decimal digit string of a natural number, without leading zeros.
pub open spec fn dec_str(n: nat) -> Seq<char>
    decreases n,
{
    if n < 10 {
        seq![digit_char(n)]
    } else {
        dec_str(n / 10) + seq![digit_char(n % 10)]
    }
}

/// Executable digit lookup.
pub fn digit_value(c: char) -> (r: Option<u64>)
    ensures
        match r {
            Some(v) => digit_of(c) == Some(v as nat),
            None => digit_of(c) is None,
        },
{
    match c {
        '0' => Some(0),
        '1' => Some(1),
        '2' => Some(2),
        '3' => Some(3),
        '4' => Some(4),
        '5' => Some(5),
        '6' => Some(6),
        '7' => Some(7),
        '8' => Some(8),
        '9' => Some(9),
        _ => None,
    }
}

/// Parses a plain decimal numeral. Returns `Some` exactly when the string is
/// non-empty and all digits; the result is the numeral's value, saturated at
/// the largest `u64`.
pub fn parse_decimal_saturating(s: &str) -> (r: Option<u64>)
    ensures
        r is Some <==> (s@.len() > 0 && all_digits(s@)),
        r matches Some(v) ==> v == sat_u64(dec_value(s@)),
{
    let n = s.unicode_len();
    if n == 0 {
        return None;
    }
    let mut acc: u64 = 0;
    let mut i: usize = 0;
    while i < n
        invariant
            n == s@.len(),
            i <= n,
            all_digits(s@.subrange(0, i as int)),
            acc == sat_u64(dec_value(s@.subrange(0, i as int))),
        decreases n - i,
    {
        let c = s.get_char(i);
        match digit_value(c) {
            None => {
                return None;
            },
            Some(d) => {
                proof {
                    let p = s@.subrange(0, i as int);
                    let pn = s@.subrange(0, i + 1);
                    assert(pn.drop_last() =~= p);
                    assert(pn.last() == s@[i as int]);
                    let v = dec_value(p);
                    assert(dec_value(pn) == v * 10 + d);
                    if v > u64::MAX {
                        assert(v * 10 >= v) by (nonlinear_arith)
                            requires
                                v >= 0,
                        ;
                    }
                    assert(acc * 10 + d > u64::MAX <==> acc > (u64::MAX - d) / 10)
                        by (nonlinear_arith)
                        requires
                            acc >= 0,
                            0 <= d < 10,
                    ;
                }
                if acc > (u64::MAX - d) / 10 {
                    acc = u64::MAX;
                } else {
                    acc = acc * 10 + d;
                }
                i = i + 1;
            },
        }
    }
    proof {
        assert(s@.subrange(0, n as int) =~= s@);
    }
    Some(acc)
}

/// Executable digit string of a value below ten, as a string slice.
pub fn digit_str(d: u64) -> (r: &'static str)
    requires
        d < 10,
    ensures
        r@ == seq![digit_char(d as nat)],
{
    proof {
        reveal_strlit("0");
        reveal_strlit("1");
        reveal_strlit("2");
        reveal_strlit("3");
        reveal_strlit("4");
        reveal_strlit("5");
        reveal_strlit("6");
        reveal_strlit("7");
        reveal_strlit("8");
        reveal_strlit("9");
    }
    let r: &'static str = if d == 0 {
        "0"
    } else if d == 1 {
        "1"
    } else if d == 2 {
        "2"
    } else if d == 3 {
        "3"
    } else if d == 4 {
        "4"
    } else if d == 5 {
        "5"
    } else if d == 6 {
        "6"
    } else if d == 7 {
        "7"
    } else if d == 8 {
        "8"
    } else {
        "9"
    };
    proof {
        assert(r@ =~= seq![digit_char(d as nat)]);
    }
    r
}

/// Decimal rendering of a `u64`.
pub fn u64_to_string(n: u64) -> (s: String)
    ensures
        s@ == dec_str(n as nat),
    decreases n,
{
    if n < 10 {
        String::from_str(digit_str(n))
    } else {
        let mut s = u64_to_string(n / 10);
        s.append(digit_str(n % 10));
        proof {
            assert(s@ =~= dec_str(n as nat));
        }
        s
    }
}

} // verus!
