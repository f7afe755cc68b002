//! Base-10 integer literals: the grammar an input line must follow to count
//! as a number (an optional sign, then one or more digits), its value, and
//! verified parsers for signed 64-bit values and for 1-based list indices.

use vstd::prelude::*;
use vstd::arithmetic::div_mod::lemma_fundamental_div_mod;
use vstd::arithmetic::div_mod::lemma_mod_bound;

verus! {

/// An ASCII decimal digit.
pub open spec fn is_digit(c: char) -> bool {
    48 <= c as u32 <= 57
}

/// The value of one digit.
pub open spec fn digit_val(c: char) -> int {
    c as u32 - 48
}

/// Every character of `s` is a digit.
pub open spec fn all_digits(s: Seq<char>) -> bool {
    forall|i: int| 0 <= i < s.len() ==> is_digit(s[i])
}

/// The value of a digit string, most significant digit first.
pub open spec fn digits_val(s: Seq<char>) -> int
    decreases s.len(),
{
    if s.len() == 0 {
        0
    } else {
        digits_val(s.drop_last()) * 10 + digit_val(s.last())
    }
}

/// The value of `s` read as a base-10 integer literal: an optional `+` or `-`
/// sign followed by one or more digits, and nothing else. `None` when `s` is
/// not of that shape.
pub open spec fn int_literal(s: Seq<char>) -> Option<int> {
    if s.len() > 0 && (s[0] == '+' || s[0] == '-') {
        let ds = s.drop_first();
        if ds.len() > 0 && all_digits(ds) {
            if s[0] == '-' {
                Some(-digits_val(ds))
            } else {
                Some(digits_val(ds))
            }
        } else {
            None
        }
    } else if s.len() > 0 && all_digits(s) {
        Some(digits_val(s))
    } else {
        None
    }
}

pub proof fn lemma_digits_val_nonneg(s: Seq<char>)
    requires
        all_digits(s),
    ensures
        digits_val(s) >= 0,
    decreases s.len(),
{
    if s.len() > 0 {
        assert(all_digits(s.drop_last()));
        lemma_digits_val_nonneg(s.drop_last());
        assert(is_digit(s.last()));
    }
}

pub proof fn lemma_digits_val_prefix(s: Seq<char>, k: int)
    requires
        all_digits(s),
        0 <= k <= s.len(),
    ensures
        digits_val(s.take(k)) <= digits_val(s),
    decreases s.len() - k,
{
    if k == s.len() {
        assert(s.take(k) =~= s);
    } else {
        assert(s.take(k + 1).drop_last() =~= s.take(k));
        assert(all_digits(s.take(k)));
        lemma_digits_val_nonneg(s.take(k));
        assert(is_digit(s.take(k + 1).last()));
        assert(digits_val(s.take(k + 1)) == digits_val(s.take(k)) * 10 + digit_val(s[k]));
        lemma_digits_val_prefix(s, k + 1);
    }
}

/// `acc > (cap - d) / 10` forces the next accumulator step past `cap`.
proof fn lemma_step_overflows(acc: int, d: int, cap: int)
    requires
        0 <= d <= 9,
        d <= cap,
        acc > (cap - d) / 10,
    ensures
        acc * 10 + d > cap,
{
    lemma_fundamental_div_mod(cap - d, 10);
    lemma_mod_bound(cap - d, 10);
}

/// `acc <= (cap - d) / 10` keeps the next accumulator step within `cap`.
proof fn lemma_step_fits(acc: int, d: int, cap: int)
    requires
        0 <= d <= 9,
        d <= cap,
        0 <= acc <= (cap - d) / 10,
    ensures
        acc * 10 + d <= cap,
{
    lemma_fundamental_div_mod(cap - d, 10);
    lemma_mod_bound(cap - d, 10);
}

/// Reads the digit run `s[start..]` and returns its value, provided every
/// character is a digit, the run is non-empty, and the value is at most `cap`.
fn parse_magnitude(s: &str, start: usize, cap: u64) -> (r: Option<u64>)
    requires
        start as int <= s@.len(),
    ensures
        ({
            let ds = s@.skip(start as int);
            match r {
                Some(m) => ds.len() > 0 && all_digits(ds) && digits_val(ds) == m as int && m
                    <= cap,
                None => ds.len() == 0 || !all_digits(ds) || digits_val(ds) > cap,
            }
        }),
{
    let ghost ds = s@.skip(start as int);
    let n = s.unicode_len();
    if start == n {
        return None;
    }
    let mut acc: u64 = 0;
    let mut i: usize = start;
    while i < n
        invariant
            n == s@.len(),
            start <= i <= n,
            start < n,
            ds == s@.skip(start as int),
            forall|k: int| start <= k < i ==> is_digit(s@[k]),
            acc as int == digits_val(ds.take(i - start)),
            acc <= cap,
        decreases n - i,
    {
        let c = s.get_char(i);
        let u: u32 = c as u32;
        proof {
            assert(ds[i - start] == s@[i as int]);
        }
        if u < 48 || u > 57 {
            proof {
                assert(!is_digit(ds[i - start]));
            }
            return None;
        }
        let d: u64 = (u - 48) as u64;
        proof {
            assert(ds.take(i + 1 - start).drop_last() =~= ds.take(i - start));
            assert(ds.take(i + 1 - start).last() == s@[i as int]);
            assert(digits_val(ds.take(i + 1 - start)) == acc as int * 10 + d as int);
        }
        if d > cap || acc > (cap - d) / 10 {
            proof {
                if all_digits(ds) {
                    lemma_digits_val_prefix(ds, i + 1 - start);
                    if d > cap {
                        lemma_digits_val_nonneg(ds.take(i - start));
                    } else {
                        lemma_step_overflows(acc as int, d as int, cap as int);
                    }
                }
            }
            return None;
        }
        proof {
            lemma_step_fits(acc as int, d as int, cap as int);
        }
        acc = acc * 10 + d;
        i = i + 1;
    }
    proof {
        assert(ds.take(n - start) =~= ds);
    }
    Some(acc)
}

/// `int_literal` clipped to the signed 64-bit range: `None` where `s` is not
/// a literal or its value does not fit.
pub open spec fn parsed_i64(s: Seq<char>) -> Option<int> {
    match int_literal(s) {
        Some(v) => if i64::MIN <= v <= i64::MAX {
            Some(v)
        } else {
            None
        },
        None => None,
    }
}

/// Parses `s` as a base-10 signed 64-bit integer, exactly as `parsed_i64`
/// says: `None` on an empty string, a stray character, or a value out of
/// range.
pub fn parse_i64(s: &str) -> (r: Option<i64>)
    ensures
        match r {
            Some(v) => parsed_i64(s@) == Some(v as int),
            None => parsed_i64(s@) is None,
        },
{
    let n = s.unicode_len();
    if n == 0 {
        return None;
    }
    let c0 = s.get_char(0);
    let neg: bool = c0 == '-';
    let signed: bool = c0 == '-' || c0 == '+';
    let start: usize = if signed {
        1
    } else {
        0
    };
    let cap: u64 = if neg {
        9223372036854775808
    } else {
        9223372036854775807
    };
    let ghost ds = s@.skip(start as int);
    proof {
        if signed {
            assert(ds =~= s@.drop_first());
        } else {
            assert(ds =~= s@);
        }
    }
    let m = parse_magnitude(s, start, cap);
    match m {
        None => {
            proof {
                if ds.len() > 0 && all_digits(ds) {
                    lemma_digits_val_nonneg(ds);
                }
            }
            None
        },
        Some(mag) => {
            if neg {
                if mag <= 9223372036854775807 {
                    Some(-(mag as i64))
                } else {
                    Some(i64::MIN)
                }
            } else {
                Some(mag as i64)
            }
        },
    }
}

/// The zero-based index a line of input picks from a list of `n` choices:
/// the line must be an integer literal whose value lies in `[1, n]`; the
/// pick is that value minus one. `None` means the line picks nothing.
pub open spec fn choice_pick(s: Seq<char>, n: int) -> Option<int> {
    match int_literal(s) {
        Some(v) => if 1 <= v <= n {
            Some(v - 1)
        } else {
            None
        },
        None => None,
    }
}

/// Parses `s` as a 1-based index into a list of `len` choices, exactly as
/// `choice_pick` says, returning the zero-based position.
pub fn parse_choice_index(s: &str, len: usize) -> (r: Option<usize>)
    ensures
        match r {
            Some(k) => choice_pick(s@, len as int) == Some(k as int),
            None => choice_pick(s@, len as int) is None,
        },
{
    let n = s.unicode_len();
    if n == 0 {
        return None;
    }
    let c0 = s.get_char(0);
    let signed: bool = c0 == '-' || c0 == '+';
    let start: usize = if signed {
        1
    } else {
        0
    };
    let ghost ds = s@.skip(start as int);
    proof {
        if signed {
            assert(ds =~= s@.drop_first());
        } else {
            assert(ds =~= s@);
        }
    }
    let m = parse_magnitude(s, start, u64::MAX);
    match m {
        None => {
            proof {
                if ds.len() > 0 && all_digits(ds) {
                    assert(digits_val(ds) > u64::MAX);
                    assert(len as int <= u64::MAX);
                }
            }
            None
        },
        Some(mag) => {
            if c0 == '-' {
                proof {
                    lemma_digits_val_nonneg(ds);
                }
                None
            } else if 1 <= mag && mag <= len as u64 {
                Some((mag - 1) as usize)
            } else {
                None
            }
        },
    }
}

} // verus!
