//! Number parsing and formatting on character sequences.

use vstd::prelude::*;

verus! {

/// Value of a digit character in a radix (`char::to_digit`).
pub open spec fn digit_value(c: char, radix: nat) -> Option<nat> {
    let v: int = if '0' <= c && c <= '9' {
        c as int - '0' as int
    } else if 'a' <= c && c <= 'z' {
        c as int - 'a' as int + 10
    } else if 'A' <= c && c <= 'Z' {
        c as int - 'A' as int + 10
    } else {
        radix as int
    };
    if v < radix {
        Some(v as nat)
    } else {
        None
    }
}

/// Whether every character of `d` is a digit of the radix.
pub open spec fn all_digits(d: Seq<char>, radix: nat) -> bool {
    forall|i: int| 0 <= i < d.len() ==> (#[trigger] digit_value(d[i], radix)) is Some
}

/// The number the digits `d` spell in the radix.
pub open spec fn digits_value(d: Seq<char>, radix: nat) -> nat
    decreases d.len(),
{
    if d.len() == 0 {
        0
    } else {
        digits_value(d.drop_last(), radix) * radix + match digit_value(d.last(), radix) {
            Some(v) => v,
            None => 0,
        }
    }
}

/// An unsigned integer written in a radix, as `from_str_radix` reads it:
/// an optional `+`, then at least one digit, with a value not above `max`.
pub open spec fn parse_uint(s: Seq<char>, radix: nat, max: nat) -> Option<nat> {
    if s.len() == 0 || (s[0] == '+' && s.len() == 1) {
        None
    } else {
        let d = if s[0] == '+' {
            s.drop_first()
        } else {
            s
        };
        if all_digits(d, radix) && digits_value(d, radix) <= max {
            Some(digits_value(d, radix))
        } else {
            None
        }
    }
}

proof fn lemma_digits_grow(d: Seq<char>, radix: nat, i: int, k: int)
    requires
        radix >= 1,
        0 <= i <= k <= d.len(),
    ensures
        digits_value(d.take(i), radix) <= digits_value(d.take(k), radix),
    decreases k - i,
{
    if i < k {
        lemma_digits_grow(d, radix, i, k - 1);
        assert(d.take(k).drop_last() =~= d.take(k - 1));
        let a = digits_value(d.take(k - 1), radix);
        assert(a * radix >= a) by (nonlinear_arith)
            requires
                radix >= 1,
        ;
    }
}

pub fn digit_value_exec(c: char, radix: u32) -> (r: Option<u32>)
    requires
        radix <= 36,
    ensures
        match r {
            Some(v) => digit_value(c, radix as nat) == Some(v as nat),
            None => digit_value(c, radix as nat) is None,
        },
{
    let v: u32 = if '0' <= c && c <= '9' {
        c as u32 - '0' as u32
    } else if 'a' <= c && c <= 'z' {
        c as u32 - 'a' as u32 + 10
    } else if 'A' <= c && c <= 'Z' {
        c as u32 - 'A' as u32 + 10
    } else {
        radix
    };
    if v < radix {
        Some(v)
    } else {
        None
    }
}

/// Reads an unsigned integer in a radix from `v[from..to]`.
pub fn parse_uint_exec(v: &Vec<char>, from: usize, to: usize, radix: u32, max: u64) -> (r: Option<
    u64,
>)
    requires
        from <= to <= v.len(),
        2 <= radix <= 36,
    ensures
        match r {
            Some(x) => parse_uint(v@.subrange(from as int, to as int), radix as nat, max as nat)
                == Some(x as nat),
            None => parse_uint(v@.subrange(from as int, to as int), radix as nat, max as nat) is None,
        },
{
    let ghost s = v@.subrange(from as int, to as int);
    if from == to || (v[from] == '+' && to - from == 1) {
        return None;
    }
    let start = if v[from] == '+' {
        from + 1
    } else {
        from
    };
    let ghost d = v@.subrange(start as int, to as int);
    proof {
        if v[from as int] == '+' {
            assert(d =~= s.drop_first());
        } else {
            assert(d =~= s);
        }
    }
    let mut acc: u64 = 0;
    let mut i = start;
    proof {
        assert(d.take(0) =~= Seq::<char>::empty());
    }
    while i < to
        invariant
            from <= start <= i <= to <= v.len(),
            2 <= radix <= 36,
            d == v@.subrange(start as int, to as int),
            s == v@.subrange(from as int, to as int),
            d == (if v@[from as int] == '+' {
                s.drop_first()
            } else {
                s
            }),
            s.len() > 0,
            !(s[0] == '+' && s.len() == 1),
            all_digits(d.take(i - start), radix as nat),
            acc as nat == digits_value(d.take(i - start), radix as nat),
            acc <= max,
        decreases to - i,
    {
        let k = i - start;
        proof {
            assert(d.take(k + 1).drop_last() =~= d.take(k as int));
            assert(d.take(k + 1).last() == v@[i as int]);
        }
        match digit_value_exec(v[i], radix) {
            None => {
                proof {
                    assert(!all_digits(d, radix as nat)) by {
                        assert(digit_value(d[k as int], radix as nat) is None);
                    }
                }
                return None;
            },
            Some(dv) => {
                if dv as u64 > max {
                    proof {
                        assert(acc * radix >= 0) by (nonlinear_arith)
                            requires
                                radix >= 2,
                        ;
                        lemma_digits_grow(d, radix as nat, k + 1, d.len() as int);
                        assert(d.take(d.len() as int) =~= d);
                    }
                    return None;
                }
                if acc > (max - dv as u64) / radix as u64 {
                    proof {
                        assert(acc * radix + dv > max) by (nonlinear_arith)
                            requires
                                acc > (max - dv) / (radix as int),
                                radix >= 2,
                                dv <= max,
                        ;
                        lemma_digits_grow(d, radix as nat, k + 1, d.len() as int);
                        assert(d.take(d.len() as int) =~= d);
                    }
                    return None;
                }
                proof {
                    assert(acc * radix + dv <= max) by (nonlinear_arith)
                        requires
                            acc <= (max - dv) / (radix as int),
                            radix >= 2,
                            dv <= max,
                    ;
                }
                acc = acc * radix as u64 + dv as u64;
                proof {
                    assert forall|j: int| 0 <= j < d.take(k + 1).len() implies (#[trigger] digit_value(
                        d.take(k + 1)[j],
                        radix as nat,
                    )) is Some by {
                        if j < k {
                            assert(d.take(k + 1)[j] == d.take(k as int)[j]);
                        }
                    }
                }
                i += 1;
            },
        }
    }
    proof {
        assert(d.take(d.len() as int) =~= d);
    }
    Some(acc)
}

/// Whether a number is a Unicode scalar value.
pub open spec fn is_scalar(code: u32) -> bool {
    code < 0xD800 || (0xE000 <= code && code <= 0x10FFFF)
}

/// The character with a code point (`char::from_u32`).
#[verifier::external_body]
pub fn char_from_u32(code: u32) -> (r: Option<char>)
    ensures
        match r {
            Some(c) => is_scalar(code) && c == code as char,
            None => !is_scalar(code),
        },
{
    char::from_u32(code)
}


/// The decimal digit character for `d < 10`.
pub open spec fn digit_char(d: nat) -> char {
    if d == 0 { '0' } else if d == 1 { '1' } else if d == 2 { '2' } else if d == 3 { '3' }
    else if d == 4 { '4' } else if d == 5 { '5' } else if d == 6 { '6' } else if d == 7 { '7' }
    else if d == 8 { '8' } else { '9' }
}

/// The decimal numeral of `n`, without leading zeros (`{}` on an integer).
pub open spec fn decimal(n: nat) -> Seq<char>
    decreases n,
{
    if n < 10 {
        seq![digit_char(n)]
    } else {
        decimal(n / 10).push(digit_char(n % 10))
    }
}

fn digit_char_exec(d: u64) -> (r: char)
    requires
        d < 10,
    ensures
        r == digit_char(d as nat),
{
    if d == 0 { '0' } else if d == 1 { '1' } else if d == 2 { '2' } else if d == 3 { '3' }
    else if d == 4 { '4' } else if d == 5 { '5' } else if d == 6 { '6' } else if d == 7 { '7' }
    else if d == 8 { '8' } else { '9' }
}

/// The decimal numeral of `n`.
pub fn decimal_string(n: u64) -> (r: String)
    ensures
        r@ == decimal(n as nat),
    decreases n,
{
    if n < 10 {
        let mut s = String::new();
        crate::text::push_char(&mut s, digit_char_exec(n));
        proof { assert(s@ =~= seq![digit_char(n as nat)]); }
        s
    } else {
        let mut s = decimal_string(n / 10);
        crate::text::push_char(&mut s, digit_char_exec(n % 10));
        s
    }
}

} // verus!
