//! Recognising a decimal price in attribute text.
//!
//! The accepted texts are those of std's floating-point grammar without its
//! `inf`, `infinity` and `nan` words: an optional sign, digits with at most one
//! decimal point (at least one digit in all), and an optional exponent made of
//! `e` or `E`, an optional sign and at least one digit.
//!
//! A price must also stay finite as a double-precision number: its magnitude
//! must be below 2^1024 - 2^970, half-way between the largest finite double and
//! 2^1024, from where reading rounds to infinity.

use vstd::prelude::*;

verus! {

/// The states of the recogniser.
pub const START: u8 = 0;
pub const SIGNED: u8 = 1;
pub const INTEGER: u8 = 2;
pub const POINT_AFTER_DIGITS: u8 = 3;
pub const POINT_FIRST: u8 = 4;
pub const FRACTION: u8 = 5;
pub const EXPONENT_MARK: u8 = 6;
pub const EXPONENT_SIGN: u8 = 7;
pub const EXPONENT: u8 = 8;
pub const REJECTED: u8 = 9;

pub open spec fn is_digit(c: char) -> bool {
    '0' <= c && c <= '9'
}

pub open spec fn is_sign(c: char) -> bool {
    c == '+' || c == '-'
}

pub open spec fn is_exponent_mark(c: char) -> bool {
    c == 'e' || c == 'E'
}

/// One transition of the recogniser.
pub open spec fn step(state: u8, c: char) -> u8 {
    if state == START || state == SIGNED {
        if is_sign(c) && state == START {
            SIGNED
        } else if is_digit(c) {
            INTEGER
        } else if c == '.' {
            POINT_FIRST
        } else {
            REJECTED
        }
    } else if state == INTEGER {
        if is_digit(c) {
            INTEGER
        } else if c == '.' {
            POINT_AFTER_DIGITS
        } else if is_exponent_mark(c) {
            EXPONENT_MARK
        } else {
            REJECTED
        }
    } else if state == POINT_AFTER_DIGITS || state == FRACTION {
        if is_digit(c) {
            FRACTION
        } else if is_exponent_mark(c) {
            EXPONENT_MARK
        } else {
            REJECTED
        }
    } else if state == POINT_FIRST {
        if is_digit(c) {
            FRACTION
        } else {
            REJECTED
        }
    } else if state == EXPONENT_MARK {
        if is_sign(c) {
            EXPONENT_SIGN
        } else if is_digit(c) {
            EXPONENT
        } else {
            REJECTED
        }
    } else if state == EXPONENT_SIGN || state == EXPONENT {
        if is_digit(c) {
            EXPONENT
        } else {
            REJECTED
        }
    } else {
        REJECTED
    }
}

/// The state reached after reading all of `s`.
pub open spec fn run(s: Seq<char>) -> u8
    decreases s.len(),
{
    if s.len() == 0 {
        START
    } else {
        step(run(s.drop_last()), s.last())
    }
}

pub open spec fn is_accepting(state: u8) -> bool {
    state == INTEGER || state == POINT_AFTER_DIGITS || state == FRACTION || state == EXPONENT
}

/// Whether `s` is a decimal number in the sense of this module.
pub open spec fn is_decimal_text(s: Seq<char>) -> bool {
    is_accepting(run(s))
}

fn next_state(state: u8, c: char) -> (r: u8)
    ensures
        r == step(state, c),
{
    let digit = '0' <= c && c <= '9';
    let sign = c == '+' || c == '-';
    let mark = c == 'e' || c == 'E';
    if state == START || state == SIGNED {
        if sign && state == START {
            SIGNED
        } else if digit {
            INTEGER
        } else if c == '.' {
            POINT_FIRST
        } else {
            REJECTED
        }
    } else if state == INTEGER {
        if digit {
            INTEGER
        } else if c == '.' {
            POINT_AFTER_DIGITS
        } else if mark {
            EXPONENT_MARK
        } else {
            REJECTED
        }
    } else if state == POINT_AFTER_DIGITS || state == FRACTION {
        if digit {
            FRACTION
        } else if mark {
            EXPONENT_MARK
        } else {
            REJECTED
        }
    } else if state == POINT_FIRST {
        if digit {
            FRACTION
        } else {
            REJECTED
        }
    } else if state == EXPONENT_MARK {
        if sign {
            EXPONENT_SIGN
        } else if digit {
            EXPONENT
        } else {
            REJECTED
        }
    } else if state == EXPONENT_SIGN || state == EXPONENT {
        if digit {
            EXPONENT
        } else {
            REJECTED
        }
    } else {
        REJECTED
    }
}

/// The decimal digits of 2^1024 - 2^970: a number reads as a finite double
/// exactly where its magnitude is below this.
pub const FINITE_LIMIT: &'static str = "179769313486231580793728971405303415079934132710037826936173778980444968292764750946649017977587207096330286416692887910946555547851940402630657488671505820681908902000708383676273854845817711531764475730270069855571366959622842914819860834936475292719074168444365510704342711559699508093042880177904174497792";

/// What a scan of a decimal text has gathered so far: the significant digits
/// of the mantissa (from its first non-zero digit on), the count of digits
/// after its point, and the exponent's value and sign.
pub struct Scan {
    pub digits: Seq<char>,
    pub fraction: int,
    pub exponent: int,
    pub negative_exponent: bool,
}

pub open spec fn digit_value(c: char) -> int {
    c as int - '0' as int
}

/// What a scan gathers from a decimal text, where `run` tells which part
/// each character belongs to.
pub open spec fn scan(s: Seq<char>) -> Scan
    decreases s.len(),
{
    if s.len() == 0 {
        Scan { digits: Seq::empty(), fraction: 0, exponent: 0, negative_exponent: false }
    } else {
        let m = scan(s.drop_last());
        let state = run(s);
        let c = s.last();
        if state == INTEGER || state == FRACTION {
            Scan {
                digits: if m.digits.len() > 0 || c != '0' {
                    m.digits.push(c)
                } else {
                    m.digits
                },
                fraction: if state == FRACTION {
                    m.fraction + 1
                } else {
                    m.fraction
                },
                ..m
            }
        } else if state == EXPONENT_SIGN {
            Scan { negative_exponent: c == '-', ..m }
        } else if state == EXPONENT {
            Scan { exponent: m.exponent * 10 + digit_value(c), ..m }
        } else {
            m
        }
    }
}

/// The exponent of a decimal text, with its sign.
pub open spec fn signed_exponent(m: Scan) -> int {
    if m.negative_exponent {
        -m.exponent
    } else {
        m.exponent
    }
}

/// The order of magnitude of a non-zero number: with `k` significant digits,
/// `f` digits after the point and exponent `e`, the number lies in
/// [10^(k - f + e - 1), 10^(k - f + e)).
pub open spec fn order(m: Scan) -> int {
    m.digits.len() - m.fraction + signed_exponent(m)
}

/// The `t`-th of the digits `d`, followed by zeros.
pub open spec fn padded_digit(d: Seq<char>, t: int) -> char {
    if t < d.len() {
        d[t]
    } else {
        '0'
    }
}

/// The digits `d`, padded with zeros to the length of the limit, come before
/// the limit's digits.
pub open spec fn digits_below_limit(d: Seq<char>) -> bool {
    exists|j: int|
        0 <= j < FINITE_LIMIT@.len() && (forall|t: int|
            0 <= t < j ==> padded_digit(d, t) == FINITE_LIMIT@[t]) && #[trigger] padded_digit(d, j)
            < FINITE_LIMIT@[j]
}

/// The number written by `s` is below the limit in magnitude: it is zero, it
/// has fewer integer places than the limit, or as many and smaller digits.
pub open spec fn is_below_limit(s: Seq<char>) -> bool {
    let m = scan(s);
    let places = FINITE_LIMIT@.len();
    m.digits.len() == 0 || order(m) < places || (order(m) == places && digits_below_limit(
        m.digits,
    ))
}

/// A price text: a decimal number that stays finite as a double.
pub open spec fn is_price_text(s: Seq<char>) -> bool {
    is_decimal_text(s) && is_below_limit(s)
}

proof fn lemma_below_at(d: Seq<char>, j: int)
    requires
        0 <= j < FINITE_LIMIT@.len(),
        forall|t: int| 0 <= t < j ==> padded_digit(d, t) == FINITE_LIMIT@[t],
        padded_digit(d, j) < FINITE_LIMIT@[j],
    ensures
        digits_below_limit(d),
{
}

proof fn lemma_not_below_at(d: Seq<char>, j: int)
    requires
        0 <= j < FINITE_LIMIT@.len(),
        forall|t: int| 0 <= t < j ==> padded_digit(d, t) == FINITE_LIMIT@[t],
        padded_digit(d, j) > FINITE_LIMIT@[j],
    ensures
        !digits_below_limit(d),
{
    if digits_below_limit(d) {
        let i = choose|i: int|
            0 <= i < FINITE_LIMIT@.len() && (forall|t: int|
                0 <= t < i ==> padded_digit(d, t) == FINITE_LIMIT@[t]) && #[trigger] padded_digit(
                d,
                i,
            ) < FINITE_LIMIT@[i];
        if i < j {
            assert(padded_digit(d, i) == FINITE_LIMIT@[i]);
        } else if i > j {
            assert(padded_digit(d, j) == FINITE_LIMIT@[j]);
        }
    }
}

proof fn lemma_not_below_equal(d: Seq<char>)
    requires
        forall|t: int| 0 <= t < FINITE_LIMIT@.len() ==> padded_digit(d, t) == FINITE_LIMIT@[t],
    ensures
        !digits_below_limit(d),
{
    if digits_below_limit(d) {
        let i = choose|i: int|
            0 <= i < FINITE_LIMIT@.len() && (forall|t: int|
                0 <= t < i ==> padded_digit(d, t) == FINITE_LIMIT@[t]) && #[trigger] padded_digit(
                d,
                i,
            ) < FINITE_LIMIT@[i];
        assert(padded_digit(d, i) == FINITE_LIMIT@[i]);
    }
}

/// Whether `s` is a price: a decimal number that stays finite as a double.
pub fn is_price(s: &str) -> (r: bool)
    ensures
        r == is_price_text(s@),
{
    let n = s.unicode_len();
    let places = FINITE_LIMIT.unicode_len();
    let cap: u128 = (n as u128) + (places as u128) + 1;
    let mut state: u8 = START;
    let mut significant: u64 = 0;
    let mut fraction: u64 = 0;
    let mut exponent: u128 = 0;
    let mut negative: bool = false;
    // How the significant digits read so far compare with the limit's:
    // 0 equal, 1 below, 2 above.
    let mut compared: u8 = 0;
    let mut i: usize = 0;
    while i < n
        invariant
            n == s@.len(),
            places == FINITE_LIMIT@.len(),
            cap == n + places + 1,
            i <= n,
            state == run(s@.subrange(0, i as int)),
            significant == scan(s@.subrange(0, i as int)).digits.len(),
            fraction == scan(s@.subrange(0, i as int)).fraction,
            significant <= i,
            fraction <= i,
            exponent <= cap,
            exponent == if scan(s@.subrange(0, i as int)).exponent < cap {
                scan(s@.subrange(0, i as int)).exponent
            } else {
                cap as int
            },
            scan(s@.subrange(0, i as int)).exponent >= 0,
            negative == scan(s@.subrange(0, i as int)).negative_exponent,
            compared <= 2,
            compared == 0 ==> forall|t: int|
                0 <= t < significant && t < places ==> scan(s@.subrange(0, i as int)).digits[t]
                    == FINITE_LIMIT@[t],
            compared != 0 ==> exists|j: int|
                0 <= j < significant && j < places && (forall|t: int|
                    0 <= t < j ==> scan(s@.subrange(0, i as int)).digits[t] == FINITE_LIMIT@[t])
                    && #[trigger] scan(s@.subrange(0, i as int)).digits[j] != FINITE_LIMIT@[j]
                    && (compared == 1 <==> scan(s@.subrange(0, i as int)).digits[j]
                    < FINITE_LIMIT@[j]),
        decreases n - i,
    {
        let c = s.get_char(i);
        let ghost prev = s@.subrange(0, i as int);
        let ghost next = s@.subrange(0, i + 1);
        let ghost old_compared = compared;
        proof {
            assert(next.drop_last() =~= prev);
            assert(next.last() == c);
        }
        state = next_state(state, c);
        proof {
            let dp = scan(prev).digits;
            let dn = scan(next).digits;
            assert(dn == dp || dn == dp.push(c));
            assert forall|t: int| 0 <= t < dp.len() implies dn[t] == dp[t] by {
                if dn != dp {
                    assert(dn == dp.push(c));
                }
            }
            if old_compared != 0 {
                let j = choose|j: int|
                    0 <= j < dp.len() && j < places && (forall|t: int|
                        0 <= t < j ==> dp[t] == FINITE_LIMIT@[t]) && #[trigger] dp[j]
                        != FINITE_LIMIT@[j] && (old_compared == 1 <==> dp[j] < FINITE_LIMIT@[j]);
                assert(dn[j] == dp[j]);
                assert forall|t: int| 0 <= t < j implies dn[t] == FINITE_LIMIT@[t] by {
                    assert(dn[t] == dp[t]);
                }
            }
        }
        if state == INTEGER || state == FRACTION {
            if significant > 0 || c != '0' {
                proof {
                    let d = scan(prev).digits;
                    let d2 = d.push(c);
                    assert(scan(next).digits == d2);
                    assert forall|t: int| 0 <= t < d.len() implies d2[t] == d[t] by {}
                }
                if compared == 0 && (significant as usize) < places {
                    let limit_digit = FINITE_LIMIT.get_char(significant as usize);
                    if c < limit_digit {
                        compared = 1;
                    } else if c > limit_digit {
                        compared = 2;
                    }
                    proof {
                        let dp = scan(prev).digits;
                        let dn = scan(next).digits;
                        let j = dp.len() as int;
                        assert(dn[j] == c);
                        assert forall|t: int| 0 <= t < j implies dn[t] == FINITE_LIMIT@[t] by {
                            assert(dn[t] == dp[t]);
                        }
                    }
                }
                significant = significant + 1;
            }
            if state == FRACTION {
                fraction = fraction + 1;
            }
        } else if state == EXPONENT_SIGN {
            negative = c == '-';
        } else if state == EXPONENT {
            let d = (c as u32 - '0' as u32) as u128;
            proof {
                assert(is_digit(c));
                let t = scan(prev).exponent;
                if t >= cap {
                    assert(t * 10 + digit_value(c) >= cap) by (nonlinear_arith)
                        requires
                            t >= cap,
                            digit_value(c) >= 0,
                    ;
                }
            }
            if exponent >= cap {
                exponent = cap;
            } else {
                let grown = exponent * 10 + d;
                exponent = if grown < cap {
                    grown
                } else {
                    cap
                };
            }
        }
        i = i + 1;
    }
    proof {
        assert(s@.subrange(0, n as int) =~= s@);
    }
    let ghost d = scan(s@).digits;
    let accepted = state == INTEGER || state == POINT_AFTER_DIGITS || state == FRACTION || state
        == EXPONENT;
    if !accepted {
        return false;
    }
    if significant == 0 {
        return true;
    }
    let base: i128 = significant as i128 - fraction as i128;
    let order: i128 = if negative {
        base - exponent as i128
    } else {
        base + exponent as i128
    };
    if order != places as i128 {
        return order < places as i128;
    }
    if compared != 0 {
        proof {
            let j = choose|j: int|
                0 <= j < significant && j < places && (forall|t: int|
                    0 <= t < j ==> d[t] == FINITE_LIMIT@[t]) && #[trigger] d[j] != FINITE_LIMIT@[j]
                    && (compared == 1 <==> d[j] < FINITE_LIMIT@[j]);
            assert(padded_digit(d, j) == d[j]);
            assert forall|t: int| 0 <= t < j implies padded_digit(d, t) == FINITE_LIMIT@[t] by {
                assert(d[t] == FINITE_LIMIT@[t]);
            }
            if compared == 1 {
                lemma_below_at(d, j);
            } else {
                lemma_not_below_at(d, j);
            }
        }
        return compared == 1;
    }
    if significant as usize >= places {
        proof {
            assert forall|u: int| 0 <= u < places implies padded_digit(d, u) == FINITE_LIMIT@[u] by {
                assert(d[u] == FINITE_LIMIT@[u]);
            }
            lemma_not_below_equal(d);
        }
        return false;
    }
    // The digits agree with the limit's as far as they go: the zeros that
    // pad them decide.
    let mut t: usize = significant as usize;
    while t < places && FINITE_LIMIT.get_char(t) == '0'
        invariant
            significant <= t <= places,
            places == FINITE_LIMIT@.len(),
            forall|u: int| significant <= u < t ==> FINITE_LIMIT@[u] == '0',
        decreases places - t,
    {
        t = t + 1;
    }
    proof {
        assert forall|u: int| 0 <= u < t implies padded_digit(d, u) == FINITE_LIMIT@[u] by {
            if u < significant {
                assert(d[u] == FINITE_LIMIT@[u]);
            }
        }
    }
    if t == places {
        proof {
            lemma_not_below_equal(d);
        }
        return false;
    }
    let limit_digit = FINITE_LIMIT.get_char(t);
    proof {
        assert(padded_digit(d, t as int) == '0');
        if '0' < limit_digit {
            lemma_below_at(d, t as int);
        } else {
            lemma_not_below_at(d, t as int);
        }
    }
    '0' < limit_digit
}

} // verus!
