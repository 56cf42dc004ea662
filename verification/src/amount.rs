//! The amount field: parsing a decimal-number text into whole cents and
//! formatting cents back with a decimal comma and exactly two fractional
//! digits.
//!
//! An amount text is an optional `+` or `-` sign followed by decimal
//! digits with at most one `.` among them, and at least one digit.
//! The value is rounded to whole cents half away from zero: the third
//! fractional digit decides, digits beyond it cannot change which side
//! of the halfway point the tail lies on.

use vstd::prelude::*;

use crate::TransformError;
use crate::text::digit_char;
use crate::text::digit_to_char;
use crate::text::digit_val;
use crate::text::digit_value;
use crate::text::first_at;
use crate::text::is_digit;
use crate::text::is_digit_char;
use crate::text::lemma_first_at;
use crate::text::lemma_first_at_from_scan;
use crate::text::push_char;

verus! {

/// A signed amount of money in whole cents.
///
/// `neg` records the sign as written in the input, so a small negative
/// amount that rounds to zero cents keeps its leading minus when
/// formatted, as the source text had one.
#[derive(Clone, Copy, Debug, PartialEq, Eq, Structural)]
pub struct Amount {
    pub neg: bool,
    pub cents: u64,
}

/// The largest units (whole currency) value accepted by the parser;
/// anything up to this many units converts to cents without overflow.
pub const MAX_UNITS: u64 = 10_000_000_000_000_000;

/// Whether the text starts with an explicit sign character.
pub open spec fn has_sign(s: Seq<char>) -> bool {
    s.len() > 0 && (s[0] == '-' || s[0] == '+')
}

/// The text with any leading sign removed.
pub open spec fn body_of(s: Seq<char>) -> Seq<char> {
    if has_sign(s) {
        s.drop_first()
    } else {
        s
    }
}

/// Whether the amount is written negative.
pub open spec fn amount_neg(s: Seq<char>) -> bool {
    s.len() > 0 && s[0] == '-'
}

/// Whether every character of `s` is a decimal digit.
pub open spec fn all_digits(s: Seq<char>) -> bool {
    forall|i: int| 0 <= i < s.len() ==> is_digit(s[i])
}

/// The digits before the first `.` of an unsigned amount body.
pub open spec fn int_digits(b: Seq<char>) -> Seq<char> {
    b.take(first_at(b, '.') as int)
}

/// The digits after the first `.` of an unsigned amount body; empty
/// when there is no `.`.
pub open spec fn frac_digits(b: Seq<char>) -> Seq<char> {
    if first_at(b, '.') < b.len() {
        b.skip(first_at(b, '.') as int + 1)
    } else {
        Seq::empty()
    }
}

/// Whether an unsigned amount body is a well-formed decimal number:
/// digits around at most one `.`, with at least one digit in all.
pub open spec fn body_valid(b: Seq<char>) -> bool {
    &&& all_digits(int_digits(b))
    &&& all_digits(frac_digits(b))
    &&& int_digits(b).len() + frac_digits(b).len() > 0
}

/// Whether the whole amount text is a well-formed decimal number.
pub open spec fn amount_valid(s: Seq<char>) -> bool {
    body_valid(body_of(s))
}

/// The number denoted by a string of decimal digits (most significant
/// first); the empty string denotes zero.
pub open spec fn digits_val(s: Seq<char>) -> nat
    decreases s.len(),
{
    if s.len() == 0 {
        0
    } else {
        digits_val(s.drop_last()) * 10 + digit_val(s.last())
    }
}

/// The units (whole currency) part of the amount text.
pub open spec fn amount_units(s: Seq<char>) -> nat {
    digits_val(int_digits(body_of(s)))
}

/// The `i`-th fractional digit of an unsigned body, zero when absent.
pub open spec fn frac_digit(b: Seq<char>, i: int) -> nat {
    if 0 <= i < frac_digits(b).len() {
        digit_val(frac_digits(b)[i])
    } else {
        0
    }
}

/// The magnitude of the amount text in whole cents, rounded half away
/// from zero: the third fractional digit, when five or more, rounds the
/// cent up.
pub open spec fn amount_cents(s: Seq<char>) -> nat {
    let b = body_of(s);
    digits_val(int_digits(b)) * 100 + frac_digit(b, 0) * 10 + frac_digit(b, 1) + (if frac_digit(
        b,
        2,
    ) >= 5 {
        1nat
    } else {
        0nat
    })
}

/// The value of a digit-string prefix never exceeds the value of the
/// whole string.
proof fn lemma_digits_val_prefix(s: Seq<char>, i: int)
    requires
        0 <= i <= s.len(),
    ensures
        digits_val(s.take(i)) <= digits_val(s),
    decreases s.len() - i,
{
    if i < s.len() {
        lemma_digits_val_prefix(s, i + 1);
        assert(s.take(i + 1).drop_last() =~= s.take(i));
        assert(digits_val(s.take(i + 1)) == digits_val(s.take(i)) * 10 + digit_val(
            s.take(i + 1).last(),
        ));
    } else {
        assert(s.take(i) =~= s);
    }
}

impl Amount {
    /// Parses an amount text into sign and whole cents.
    ///
    /// Succeeds exactly on well-formed decimal numbers whose units part
    /// is at most [`MAX_UNITS`]; a malformed text is an
    /// [`TransformError::InvalidAmount`], a well-formed but oversized
    /// one an [`TransformError::AmountTooLarge`].
    #[verifier::loop_isolation(false)]
    #[verifier::rlimit(60)]
    pub fn parse(s: &str) -> (r: Result<Amount, TransformError>)
        ensures
            ({
                let ok = amount_valid(s@) && amount_units(s@) <= MAX_UNITS;
                match r {
                    Ok(a) => ok && a.neg == amount_neg(s@) && a.cents == amount_cents(s@),
                    Err(TransformError::InvalidAmount) => !amount_valid(s@),
                    Err(TransformError::AmountTooLarge) => amount_valid(s@) && amount_units(s@)
                        > MAX_UNITS,
                    Err(TransformError::EmptyCategory) => false,
                }
            }),
    {
        let n = s.unicode_len();
        let signed = n > 0 && (s.get_char(0) == '-' || s.get_char(0) == '+');
        let start: usize = if signed {
            1
        } else {
            0
        };
        let ghost b = s@.skip(start as int);
        proof {
            assert(b =~= body_of(s@));
        }
        // First pass: find the dot and check the shape.
        let mut dot: usize = n;
        let mut digits: usize = 0;
        let mut i: usize = start;
        while i < n
            invariant
                n == s@.len(),
                start <= i <= n,
                b == s@.skip(start as int),
                dot == n || (start <= dot < i && s@[dot as int] == '.'),
                forall|j: int| start <= j < i && j != dot ==> is_digit(s@[j]),
                forall|j: int| start <= j < i && j != dot ==> s@[j] != '.',
                digits == i - start - (if dot < n {
                    1int
                } else {
                    0int
                }),
            decreases n - i,
        {
            let c = s.get_char(i);
            if c == '.' {
                if dot < n {
                    proof {
                        lemma_first_at_from_scan(b, '.', dot - start);
                        assert(frac_digits(b)[i - dot - 1] == s@[i as int]);
                        assert(!body_valid(b));
                    }
                    return Err(TransformError::InvalidAmount);
                }
                dot = i;
            } else if is_digit_char(c) {
                digits = digits + 1;
            } else {
                proof {
                    lemma_first_at(b, '.');
                    let f = first_at(b, '.') as int;
                    if dot < n {
                        lemma_first_at_from_scan(b, '.', dot - start);
                        assert(frac_digits(b)[i - dot - 1] == s@[i as int]);
                    } else {
                        // No dot seen yet, so the first dot of the body,
                        // if any, lies at or past this character, which
                        // therefore sits among the integer digits.
                        if f <= i - start {
                            assert(b[f] == '.');
                            assert(f == i - start);
                            assert(false);
                        }
                        assert(int_digits(b)[i - start] == s@[i as int]);
                    }
                    assert(!body_valid(b));
                }
                return Err(TransformError::InvalidAmount);
            }
            i = i + 1;
        }
        proof {
            if dot < n {
                lemma_first_at_from_scan(b, '.', dot - start);
            } else {
                lemma_first_at_from_scan(b, '.', (n - start) as int);
            }
        }
        if digits == 0 {
            proof {
                assert(int_digits(b).len() + frac_digits(b).len() == 0);
            }
            return Err(TransformError::InvalidAmount);
        }
        proof {
            assert(all_digits(int_digits(b)));
            assert(all_digits(frac_digits(b)));
            assert(body_valid(b));
        }
        // Second pass: the units value, watching the size bound.
        let int_end: usize = if dot < n {
            dot
        } else {
            n
        };
        let mut acc: u64 = 0;
        let mut j: usize = start;
        while j < int_end
            invariant
                n == s@.len(),
                start <= j <= int_end <= n,
                b == s@.skip(start as int),
                int_digits(b) =~= s@.subrange(start as int, int_end as int),
                all_digits(int_digits(b)),
                acc <= MAX_UNITS,
                acc == digits_val(int_digits(b).take(j - start)),
            decreases int_end - j,
        {
            let d = digit_value(s.get_char(j));
            let next = acc * 10 + d;
            proof {
                assert(int_digits(b).take(j - start + 1).drop_last() =~= int_digits(b).take(
                    j - start,
                ));
                assert(int_digits(b).take(j - start + 1).last() == s@[j as int]);
            }
            if next > MAX_UNITS {
                proof {
                    lemma_digits_val_prefix(int_digits(b), j - start + 1);
                }
                return Err(TransformError::AmountTooLarge);
            }
            acc = next;
            j = j + 1;
        }
        proof {
            assert(int_digits(b).take(int_end - start) =~= int_digits(b));
            assert(acc == amount_units(s@));
        }
        // Third pass: the first three fractional digits decide the cents.
        let f_start: usize = if dot < n {
            dot + 1
        } else {
            n
        };
        let f0 = if f_start < n {
            digit_value(s.get_char(f_start))
        } else {
            0
        };
        let f1 = if f_start < n && n - f_start >= 2 {
            digit_value(s.get_char(f_start + 1))
        } else {
            0
        };
        let f2 = if f_start < n && n - f_start >= 3 {
            digit_value(s.get_char(f_start + 2))
        } else {
            0
        };
        proof {
            assert(f0 == frac_digit(b, 0));
            assert(f1 == frac_digit(b, 1));
            assert(f2 == frac_digit(b, 2));
        }
        let round: u64 = if f2 >= 5 {
            1
        } else {
            0
        };
        let cents = acc * 100 + f0 * 10 + f1 + round;
        let neg = n > 0 && s.get_char(0) == '-';
        proof {
            assert(neg == amount_neg(s@));
        }
        Ok(Amount { neg, cents })
    }

    /// Formats the amount with a decimal comma and exactly two
    /// fractional digits; a negative amount carries a leading minus.
    #[verifier::loop_isolation(false)]
    pub fn format(&self) -> (r: String)
        ensures
            r@ == amount_text(self.neg, self.cents as nat),
    {
        let mut out = String::new();
        if self.neg {
            push_char(&mut out, '-');
        }
        let units = self.cents / 100;
        let mut rev: Vec<char> = Vec::new();
        let mut m = units;
        rev.push(digit_to_char(m % 10));
        proof {
            lemma_reverse_push(Seq::<char>::empty(), digit_char((m % 10) as nat));
            if units / 10 == 0 {
                assert(rev@.reverse() =~= dec_digits(units as nat));
            } else {
                assert(dec_digits(units as nat) =~= dec_digits((units / 10) as nat)
                    + rev@.reverse());
            }
        }
        m = m / 10;
        while m > 0
            invariant
                m == 0 ==> rev@.reverse() == dec_digits(units as nat),
                m > 0 ==> dec_digits(units as nat) == dec_digits(m as nat) + rev@.reverse(),
            decreases m,
        {
            let ghost old_rev = rev@;
            let d = m % 10;
            rev.push(digit_to_char(d));
            proof {
                lemma_reverse_push(old_rev, digit_char(d as nat));
                assert(dec_digits(m as nat) == dec_digits((m / 10) as nat).push(digit_char(
                    (m % 10) as nat,
                )) || m < 10);
                if m >= 10 {
                    assert(dec_digits((m / 10) as nat) + seq![digit_char(d as nat)] + old_rev.reverse()
                        =~= dec_digits((m / 10) as nat) + rev@.reverse());
                } else {
                    assert(dec_digits(m as nat) =~= seq![digit_char(d as nat)]);
                    assert(seq![digit_char(d as nat)] + old_rev.reverse() =~= rev@.reverse());
                }
            }
            m = m / 10;
        }
        let ghost sign_text = out@;
        let mut k = rev.len();
        while k > 0
            invariant
                k <= rev@.len(),
                rev@.reverse() == dec_digits(units as nat),
                out@ == sign_text + rev@.reverse().take(rev@.len() - k),
            decreases k,
        {
            k = k - 1;
            let c = rev[k];
            push_char(&mut out, c);
            proof {
                assert(rev@.reverse()[rev@.len() - k - 1] == rev@[k as int]);
                assert(sign_text + rev@.reverse().take(rev@.len() - k) =~= (sign_text
                    + rev@.reverse().take(rev@.len() - k - 1)).push(rev@[k as int]));
            }
        }
        proof {
            assert(rev@.reverse().take(rev@.len() as int) =~= rev@.reverse());
        }
        push_char(&mut out, ',');
        push_char(&mut out, digit_to_char((self.cents % 100) / 10));
        push_char(&mut out, digit_to_char(self.cents % 10));
        proof {
            assert(out@ =~= amount_text(self.neg, self.cents as nat));
        }
        out
    }
}

/// The decimal digit characters of `n`, most significant first.
pub open spec fn dec_digits(n: nat) -> Seq<char>
    decreases n,
{
    if n < 10 {
        seq![digit_char(n)]
    } else {
        dec_digits(n / 10).push(digit_char(n % 10))
    }
}

/// The formatted text of an amount of `cents` cents: an optional minus,
/// the units in decimal, a comma, and two fractional digit characters.
pub open spec fn amount_text(neg: bool, cents: nat) -> Seq<char> {
    (if neg {
        seq!['-']
    } else {
        Seq::<char>::empty()
    }) + dec_digits(cents / 100) + seq![',', digit_char((cents % 100) / 10), digit_char(cents % 10)]
}

/// Reversing after a push puts the pushed element in front.
proof fn lemma_reverse_push<A>(s: Seq<A>, x: A)
    ensures
        s.push(x).reverse() =~= seq![x] + s.reverse(),
{
}

} // verus!
