//! Decimal rendering and parsing of the integer fields that the feed and the
//! EDI segments carry: plain decimal strings, sign handling, and the
//! truncating divisions that turn raw quantity and price fields into their
//! rendered values.

use crate::ParseError;
use vstd::prelude::*;

verus! {

/// A decimal digit character.
pub open spec fn is_digit_char(c: char) -> bool {
    48 <= c as int <= 57
}

/// The numeric value of a digit character.
pub open spec fn digit_val(c: char) -> int {
    c as int - 48
}

/// Every character of `s` is a decimal digit.
pub open spec fn all_digits(s: Seq<char>) -> bool {
    forall|i: int| 0 <= i < s.len() ==> is_digit_char(s[i])
}

/// The value of a sequence of digit characters, most significant first.
pub open spec fn dec_val(s: Seq<char>) -> int
    decreases s.len(),
{
    if s.len() == 0 {
        0
    } else {
        dec_val(s.drop_last()) * 10 + digit_val(s.last())
    }
}

/// The digit part of an integer literal: what follows an optional sign.
pub open spec fn int_digits(s: Seq<char>) -> Seq<char> {
    if s.len() > 0 && (s[0] == '-' || s[0] == '+') {
        s.skip(1)
    } else {
        s
    }
}

/// The literal carries a minus sign.
pub open spec fn int_negative(s: Seq<char>) -> bool {
    s.len() > 0 && s[0] == '-'
}

/// The signed value an integer literal denotes.
pub open spec fn int_value(s: Seq<char>) -> int {
    if int_negative(s) {
        -dec_val(int_digits(s))
    } else {
        dec_val(int_digits(s))
    }
}

/// The literal is an optional sign followed by at least one digit, and its
/// value fits a 32-bit signed integer.
pub open spec fn valid_i32_string(s: Seq<char>) -> bool {
    &&& int_digits(s).len() > 0
    &&& all_digits(int_digits(s))
    &&& i32::MIN <= int_value(s) <= i32::MAX
}

pub proof fn lemma_dec_val_nonneg(s: Seq<char>)
    requires
        all_digits(s),
    ensures
        dec_val(s) >= 0,
    decreases s.len(),
{
    if s.len() > 0 {
        assert(all_digits(s.drop_last()));
        lemma_dec_val_nonneg(s.drop_last());
    }
}

/// Appending further digits can only grow the value of a digit string.
pub proof fn lemma_dec_val_extend(p: Seq<char>, t: Seq<char>)
    requires
        dec_val(p) >= 0,
        all_digits(t),
    ensures
        dec_val(p + t) >= dec_val(p),
    decreases t.len(),
{
    if t.len() == 0 {
        assert(p + t =~= p);
    } else {
        assert(all_digits(t.drop_last()));
        lemma_dec_val_extend(p, t.drop_last());
        assert((p + t).drop_last() =~= p + t.drop_last());
        assert((p + t).last() == t.last());
    }
}

/// The decimal digit character for a value below ten.
pub open spec fn spec_digit(d: nat) -> char {
    if d == 0 {
        '0'
    } else if d == 1 {
        '1'
    } else if d == 2 {
        '2'
    } else if d == 3 {
        '3'
    } else if d == 4 {
        '4'
    } else if d == 5 {
        '5'
    } else if d == 6 {
        '6'
    } else if d == 7 {
        '7'
    } else if d == 8 {
        '8'
    } else {
        '9'
    }
}

/// The decimal rendering of a natural number, most significant digit first,
/// without leading zeros (`0` renders as `"0"`).
pub open spec fn dec_of(n: nat) -> Seq<char>
    decreases n,
{
    if n < 10 {
        seq![spec_digit(n)]
    } else {
        dec_of(n / 10) + seq![spec_digit(n % 10)]
    }
}

/// The decimal rendering of an integer: a leading `'-'` for negative values.
pub open spec fn dec_int(v: int) -> Seq<char> {
    if v < 0 {
        seq!['-'] + dec_of((-v) as nat)
    } else {
        dec_of(v as nat)
    }
}

/// Division truncating toward zero, as the `/` of the host language behaves
/// on signed integers.
pub open spec fn trunc_div(a: int, b: int) -> int
    recommends
        b > 0,
{
    if a >= 0 {
        a / b
    } else {
        -((-a) / b)
    }
}

fn digit_str(d: u8) -> (r: &'static str)
    requires
        d < 10,
    ensures
        r@ == seq![spec_digit(d as nat)],
{
    proof {
        reveal_strlit("0");
        reveal_strlit("1");
        reveal_strlit("2");
        reveal_strlit("3");
        reveal_strlit("4");
        reveal_strlit("5");
        reveal_strlit("6");
        reveal_strlit("7");
        reveal_strlit("8");
        reveal_strlit("9");
    }
    let r: &'static str = if d == 0 {
        "0"
    } else if d == 1 {
        "1"
    } else if d == 2 {
        "2"
    } else if d == 3 {
        "3"
    } else if d == 4 {
        "4"
    } else if d == 5 {
        "5"
    } else if d == 6 {
        "6"
    } else if d == 7 {
        "7"
    } else if d == 8 {
        "8"
    } else {
        "9"
    };
    proof {
        assert(r@ =~= seq![spec_digit(d as nat)]);
    }
    r
}

/// Renders an unsigned value as its decimal string.
pub fn u64_dec(n: u64) -> (r: String)
    ensures
        r@ == dec_of(n as nat),
    decreases n,
{
    if n < 10 {
        String::from_str(digit_str(n as u8))
    } else {
        let rest = u64_dec(n / 10);
        let r = rest.concat(digit_str((n % 10) as u8));
        proof {
            assert(r@ =~= dec_of(n as nat));
        }
        r
    }
}

/// Renders a signed value as its decimal string, with a leading `'-'` when
/// the value is negative.
pub fn i32_dec(v: i32) -> (r: String)
    ensures
        r@ == dec_int(v as int),
{
    if v >= 0 {
        u64_dec(v as u64)
    } else {
        let m: i64 = -(v as i64);
        assert(0 <= m <= u32::MAX);
        let rest = u64_dec(m as u64);
        proof {
            reveal_strlit("-");
        }
        let r = String::from_str("-").concat(rest.as_str());
        proof {
            assert(r@ =~= dec_int(v as int));
        }
        r
    }
}

/// Parses a signed 32-bit integer from its decimal literal, exactly when the
/// literal is an optional sign followed by digits and the value is in range.
pub fn parse_i32(s: &str) -> (r: Result<i32, ParseError>)
    ensures
        match r {
            Ok(v) => valid_i32_string(s@) && v as int == int_value(s@),
            Err(e) => !valid_i32_string(s@) && e == ParseError::InvalidNumber,
        },
{
    let n = s.unicode_len();
    let mut start: usize = 0;
    let mut neg = false;
    if n > 0 {
        let c0 = s.get_char(0);
        if c0 == '-' {
            neg = true;
            start = 1;
        } else if c0 == '+' {
            start = 1;
        }
    }
    proof {
        assert(int_digits(s@) =~= s@.skip(start as int));
    }
    if start >= n {
        return Err(ParseError::InvalidNumber);
    }
    let limit: u64 = if neg {
        2147483648
    } else {
        2147483647
    };
    let mut acc: u64 = 0;
    let mut i: usize = start;
    proof {
        assert(s@.subrange(start as int, start as int) =~= Seq::<char>::empty());
    }
    while i < n
        invariant
            start <= i <= n,
            n == s@.len(),
            start < n,
            int_digits(s@) == s@.skip(start as int),
            neg == int_negative(s@),
            limit == if neg { 2147483648u64 } else { 2147483647u64 },
            all_digits(s@.subrange(start as int, i as int)),
            acc as int == dec_val(s@.subrange(start as int, i as int)),
            acc <= limit,
        decreases n - i,
    {
        let c = s.get_char(i);
        let u = c as u32;
        if u < 48 || u > 57 {
            proof {
                assert(int_digits(s@)[i - start] == s@[i as int]);
            }
            return Err(ParseError::InvalidNumber);
        }
        let d = (u - 48) as u64;
        let next = acc * 10 + d;
        proof {
            assert(s@.subrange(start as int, i + 1).drop_last() =~= s@.subrange(
                start as int,
                i as int,
            ));
            assert(s@.subrange(start as int, i + 1).last() == s@[i as int]);
        }
        if next > limit {
            proof {
                let pre = s@.subrange(start as int, i + 1);
                let post = s@.subrange(i + 1, n as int);
                assert(int_digits(s@) =~= pre + post);
                if all_digits(int_digits(s@)) {
                    assert(all_digits(pre));
                    assert(all_digits(post)) by {
                        assert(forall|j: int|
                            0 <= j < post.len() ==> post[j] == int_digits(s@)[
                                j + pre.len()
                            ] && is_digit_char(int_digits(s@)[j + pre.len()]));
                    }
                    lemma_dec_val_nonneg(pre);
                    lemma_dec_val_extend(pre, post);
                }
            }
            return Err(ParseError::InvalidNumber);
        }
        acc = next;
        i = i + 1;
    }
    proof {
        assert(s@.subrange(start as int, n as int) =~= s@.skip(start as int));
    }
    if neg {
        let v: i64 = -(acc as i64);
        assert(i32::MIN <= v <= 0);
        Ok(v as i32)
    } else {
        Ok(acc as i32)
    }
}

/// `s` with its trailing `'0'` characters removed.
pub open spec fn trim_zeros(s: Seq<char>) -> Seq<char>
    decreases s.len(),
{
    if s.len() > 0 && s.last() == '0' {
        trim_zeros(s.drop_last())
    } else {
        s
    }
}

/// The five digits of a fractional part below `100000`, most significant
/// first, with leading zeros.
pub open spec fn frac5(fr: int) -> Seq<char>
    recommends
        0 <= fr < 100000,
{
    seq![
        spec_digit((fr / 10000) as nat),
        spec_digit(((fr / 1000) % 10) as nat),
        spec_digit(((fr / 100) % 10) as nat),
        spec_digit(((fr / 10) % 10) as nat),
        spec_digit((fr % 10) as nat),
    ]
}

/// The rendering of a raw unit price carrying five implied decimal digits:
/// the integer part, then a point and the fractional digits with trailing
/// zeros dropped, the point withheld when the fraction is zero.
pub open spec fn price_of(p: int) -> Seq<char> {
    let m = if p < 0 {
        -p
    } else {
        p
    };
    let sign: Seq<char> = if p < 0 {
        seq!['-']
    } else {
        Seq::<char>::empty()
    };
    if m % 100000 == 0 {
        sign + dec_of((m / 100000) as nat)
    } else {
        sign + dec_of((m / 100000) as nat) + seq!['.'] + trim_zeros(frac5(m % 100000))
    }
}

/// Renders a raw unit price with five implied decimal digits as its decimal
/// value.
pub fn price_string(p: i32) -> (r: String)
    ensures
        r@ == price_of(p as int),
{
    let m: u32 = if p < 0 {
        (-(p as i64)) as u32
    } else {
        p as u32
    };
    let ip: u32 = m / 100000;
    let fr: u32 = m % 100000;
    let mut r: String = if p < 0 {
        proof {
            reveal_strlit("-");
            assert("-"@ =~= seq!['-']);
        }
        String::from_str("-").concat(u64_dec(ip as u64).as_str())
    } else {
        u64_dec(ip as u64)
    };
    if fr == 0 {
        proof {
            assert(r@ =~= price_of(p as int));
        }
        return r;
    }
    r.push('.');
    let d4: u32 = fr / 10000;
    let d3: u32 = (fr / 1000) % 10;
    let d2: u32 = (fr / 100) % 10;
    let d1: u32 = (fr / 10) % 10;
    let d0: u32 = fr % 10;
    proof {
        assert(fr == 10000 * d4 + 1000 * d3 + 100 * d2 + 10 * d1 + d0) by (nonlinear_arith)
            requires
                fr < 100000,
                d4 == fr / 10000,
                d3 == (fr / 1000) % 10,
                d2 == (fr / 100) % 10,
                d1 == (fr / 10) % 10,
                d0 == fr % 10,
        ;
    }
    r.append(digit_str(d4 as u8));
    if d0 == 0 && d1 == 0 && d2 == 0 && d3 == 0 {
        proof {
            assert(d4 != 0);
            let f = frac5(fr as int);
            let f4 = seq![
                spec_digit(d4 as nat),
                spec_digit(d3 as nat),
                spec_digit(d2 as nat),
                spec_digit(d1 as nat),
            ];
            let f3 = seq![spec_digit(d4 as nat), spec_digit(d3 as nat), spec_digit(d2 as nat)];
            let f2 = seq![spec_digit(d4 as nat), spec_digit(d3 as nat)];
            let f1 = seq![spec_digit(d4 as nat)];
            assert(f.drop_last() =~= f4);
            assert(trim_zeros(f) == trim_zeros(f4));
            assert(f4.drop_last() =~= f3);
            assert(trim_zeros(f4) == trim_zeros(f3));
            assert(f3.drop_last() =~= f2);
            assert(trim_zeros(f3) == trim_zeros(f2));
            assert(f2.drop_last() =~= f1);
            assert(trim_zeros(f2) == trim_zeros(f1));
            assert(trim_zeros(f1) == f1);
            assert(r@ =~= price_of(p as int));
        }
        return r;
    }
    r.append(digit_str(d3 as u8));
    if d0 == 0 && d1 == 0 && d2 == 0 {
        proof {
            let f = frac5(fr as int);
            let f4 = seq![
                spec_digit(d4 as nat),
                spec_digit(d3 as nat),
                spec_digit(d2 as nat),
                spec_digit(d1 as nat),
            ];
            let f3 = seq![spec_digit(d4 as nat), spec_digit(d3 as nat), spec_digit(d2 as nat)];
            let f2 = seq![spec_digit(d4 as nat), spec_digit(d3 as nat)];
            assert(f.drop_last() =~= f4);
            assert(trim_zeros(f) == trim_zeros(f4));
            assert(f4.drop_last() =~= f3);
            assert(trim_zeros(f4) == trim_zeros(f3));
            assert(f3.drop_last() =~= f2);
            assert(trim_zeros(f3) == trim_zeros(f2));
            assert(trim_zeros(f2) == f2);
            assert(r@ =~= price_of(p as int));
        }
        return r;
    }
    r.append(digit_str(d2 as u8));
    if d0 == 0 && d1 == 0 {
        proof {
            let f = frac5(fr as int);
            let f4 = seq![
                spec_digit(d4 as nat),
                spec_digit(d3 as nat),
                spec_digit(d2 as nat),
                spec_digit(d1 as nat),
            ];
            let f3 = seq![spec_digit(d4 as nat), spec_digit(d3 as nat), spec_digit(d2 as nat)];
            assert(f.drop_last() =~= f4);
            assert(trim_zeros(f) == trim_zeros(f4));
            assert(f4.drop_last() =~= f3);
            assert(trim_zeros(f4) == trim_zeros(f3));
            assert(trim_zeros(f3) == f3);
            assert(r@ =~= price_of(p as int));
        }
        return r;
    }
    r.append(digit_str(d1 as u8));
    if d0 == 0 {
        proof {
            let f = frac5(fr as int);
            let f4 = seq![
                spec_digit(d4 as nat),
                spec_digit(d3 as nat),
                spec_digit(d2 as nat),
                spec_digit(d1 as nat),
            ];
            assert(f.drop_last() =~= f4);
            assert(trim_zeros(f) == trim_zeros(f4));
            assert(trim_zeros(f4) == f4);
            assert(r@ =~= price_of(p as int));
        }
        return r;
    }
    r.append(digit_str(d0 as u8));
    proof {
        assert(trim_zeros(frac5(fr as int)) =~= frac5(fr as int));
        assert(r@ =~= price_of(p as int));
    }
    r
}

/// A control-number string padded on the left with zeros to at least three
/// characters.
pub open spec fn pad3_spec(s: Seq<char>) -> Seq<char> {
    if s.len() >= 3 {
        s
    } else if s.len() == 2 {
        seq!['0'] + s
    } else if s.len() == 1 {
        seq!['0', '0'] + s
    } else {
        seq!['0', '0', '0']
    }
}

/// Pads a rendered control number on the left with zeros to width three.
pub fn pad3(s: &str) -> (r: String)
    ensures
        r@ == pad3_spec(s@),
{
    proof {
        reveal_strlit("0");
        reveal_strlit("00");
        reveal_strlit("000");
    }
    let n = s.unicode_len();
    let r: String = if n >= 3 {
        String::from_str(s)
    } else if n == 2 {
        String::from_str("0").concat(s)
    } else if n == 1 {
        String::from_str("00").concat(s)
    } else {
        String::from_str("000")
    };
    proof {
        assert(r@ =~= pad3_spec(s@));
    }
    r
}

} // verus!
