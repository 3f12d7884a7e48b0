//! Parsing textual pairs: `"<width>x<height>"` pixel bounds and
//! `"<real>,<imag>"` complex points.
//!
//! Malformed input yields `None`, never a default: the contracts say
//! exactly which strings parse and to what.

use vstd::prelude::*;

use crate::complex::Complex;
use crate::float_ops::{f64_of_decimal, parse_f64};

verus! {

/// Whether `c` is a decimal digit.
pub open spec fn is_dec_digit(c: char) -> bool {
    '0' as int <= c as int && c as int <= '9' as int
}

/// The value of the digit `c`.
pub open spec fn digit_val(c: char) -> nat {
    (c as int - '0' as int) as nat
}

/// The value of the decimal numeral `s`, most significant digit first.
pub open spec fn dec_val(s: Seq<char>) -> nat
    decreases s.len(),
{
    if s.len() == 0 {
        0
    } else {
        dec_val(s.drop_last()) * 10 + digit_val(s.last())
    }
}

/// Whether every character of `s` is a decimal digit.
pub open spec fn all_dec_digits(s: Seq<char>) -> bool {
    forall|i: int| 0 <= i < s.len() ==> is_dec_digit(s[i])
}

/// The digit part of an unsigned numeral: std's `FromStr` for the
/// unsigned integer types accepts one optional leading `'+'`.
pub open spec fn numeral_digits(s: Seq<char>) -> Seq<char> {
    if s.len() > 0 && s[0] == '+' {
        s.subrange(1, s.len() as int)
    } else {
        s
    }
}

/// Whether `s` spells a `usize` value as std's `FromStr` accepts it: an
/// optional leading `'+'`, then at least one decimal digit and nothing
/// else, with a value that fits the type.
pub open spec fn is_usize_numeral(s: Seq<char>) -> bool {
    numeral_digits(s).len() > 0 && all_dec_digits(numeral_digits(s)) && dec_val(
        numeral_digits(s),
    ) <= usize::MAX
}

/// Reading one more digit multiplies the value read so far by ten and
/// adds the digit.
proof fn lemma_dec_val_extend(s: Seq<char>, start: int, i: int)
    requires
        0 <= start <= i < s.len(),
    ensures
        dec_val(s.subrange(start, i + 1)) == dec_val(s.subrange(start, i)) * 10 + digit_val(s[i]),
{
    let whole = s.subrange(start, i + 1);
    assert(whole.len() == i + 1 - start);
    assert(whole.drop_last() =~= s.subrange(start, i));
    assert(whole.last() == s[i]);
}

/// A numeral's value only grows as digits are appended: the value of a
/// prefix never exceeds the value of the whole.
proof fn lemma_dec_val_prefix(s: Seq<char>, i: int)
    requires
        0 <= i <= s.len(),
    ensures
        dec_val(s) >= dec_val(s.subrange(0, i)),
    decreases s.len() - i,
{
    if i == s.len() {
        assert(s.subrange(0, i) =~= s);
    } else {
        lemma_dec_val_prefix(s, i + 1);
        assert(s.subrange(0, i + 1).drop_last() =~= s.subrange(0, i));
    }
}

/// The position of the first occurrence of `sep` in `s`, if any.
pub open spec fn first_sep(s: Seq<char>, sep: char) -> Option<nat>
    decreases s.len(),
{
    if s.len() == 0 {
        None
    } else if s[0] == sep {
        Some(0)
    } else {
        match first_sep(s.subrange(1, s.len() as int), sep) {
            Some(i) => Some((i + 1) as nat),
            None => None,
        }
    }
}

/// What `first_sep` reports: the reported position holds `sep` and no
/// earlier position does; `None` means `sep` occurs nowhere.
pub proof fn lemma_first_sep_characterizes(s: Seq<char>, sep: char)
    ensures
        match first_sep(s, sep) {
            Some(i) => i < s.len() && s[i as int] == sep && forall|j: int|
                0 <= j < i ==> s[j] != sep,
            None => forall|j: int| 0 <= j < s.len() ==> s[j] != sep,
        },
    decreases s.len(),
{
    if s.len() > 0 && s[0] != sep {
        let tail = s.subrange(1, s.len() as int);
        lemma_first_sep_characterizes(tail, sep);
        match first_sep(tail, sep) {
            Some(i) => {
                assert(s[i as int + 1] == tail[i as int]);
                assert forall|j: int| 0 <= j < i + 1 implies s[j] != sep by {
                    if j > 0 {
                        assert(tail[j - 1] != sep);
                    }
                }
            },
            None => {
                assert forall|j: int| 0 <= j < s.len() implies s[j] != sep by {
                    if j > 0 {
                        assert(tail[j - 1] != sep);
                    }
                }
            },
        }
    }
}

/// A position that holds `sep`, with no earlier occurrence, is what
/// `first_sep` reports.
proof fn lemma_first_sep_of_witness(s: Seq<char>, sep: char, i: int)
    requires
        0 <= i < s.len(),
        s[i] == sep,
        forall|j: int| 0 <= j < i ==> s[j] != sep,
    ensures
        first_sep(s, sep) == Some(i as nat),
    decreases s.len(),
{
    if i > 0 {
        lemma_first_sep_of_witness(s.subrange(1, s.len() as int), sep, i - 1);
    }
}

/// Find the first occurrence of `sep` in `s`.
fn find_char(s: &str, sep: char) -> (r: Option<usize>)
    ensures
        match r {
            Some(i) => first_sep(s@, sep) == Some(i as nat),
            None => first_sep(s@, sep) is None,
        },
{
    let n = s.unicode_len();
    let mut i: usize = 0;
    while i < n
        invariant
            i <= n,
            n == s@.len(),
            forall|j: int| 0 <= j < i ==> s@[j] != sep,
        decreases n - i,
    {
        if s.get_char(i) == sep {
            proof {
                lemma_first_sep_of_witness(s@, sep, i as int);
            }
            return Some(i);
        }
        i = i + 1;
    }
    proof {
        lemma_first_sep_characterizes(s@, sep);
    }
    None
}

/// Parse `s` as a `usize`, accepting exactly what std's `FromStr` for the
/// unsigned integer types accepts: an optional leading `'+'`, then one or
/// more decimal digits spelling a value that fits the type.
pub fn parse_usize(s: &str) -> (r: Option<usize>)
    ensures
        match r {
            Some(v) => is_usize_numeral(s@) && v == dec_val(numeral_digits(s@)),
            None => !is_usize_numeral(s@),
        },
{
    let n = s.unicode_len();
    let mut i: usize = 0;
    if n > 0 && s.get_char(0) == '+' {
        i = 1;
    }
    let ghost start: int = i as int;
    proof {
        assert(numeral_digits(s@) =~= s@.subrange(start, n as int));
    }
    if i == n {
        return None;
    }
    let mut acc: usize = 0;
    while i < n
        invariant
            0 <= start <= i <= n,
            n == s@.len(),
            numeral_digits(s@) =~= s@.subrange(start, n as int),
            all_dec_digits(s@.subrange(start, i as int)),
            acc == dec_val(s@.subrange(start, i as int)),
        decreases n - i,
    {
        let c = s.get_char(i);
        let u: u32 = c as u32;
        proof {
            lemma_dec_val_extend(s@, start, i as int);
            assert(s@.subrange(start, i as int + 1).drop_last() =~= s@.subrange(start, i as int));
        }
        if u < 48 || u > 57 {
            proof {
                let d = numeral_digits(s@);
                assert(d[i - start] == s@[i as int]);
                assert(!is_dec_digit(d[i - start]));
            }
            return None;
        }
        let d: usize = (u - 48) as usize;
        if acc > (usize::MAX - d) / 10 {
            proof {
                let whole = numeral_digits(s@);
                assert(dec_val(s@.subrange(start, i as int + 1)) == acc * 10 + d);
                assert(acc * 10 + d > usize::MAX);
                lemma_dec_val_prefix(whole, i + 1 - start);
                assert(whole.subrange(0, i + 1 - start) =~= s@.subrange(start, i as int + 1));
                assert(dec_val(whole) > usize::MAX);
            }
            return None;
        }
        acc = acc * 10 + d;
        i = i + 1;
    }
    proof {
        assert(s@.subrange(start, n as int) =~= numeral_digits(s@));
    }
    Some(acc)
}

/// What parsing `"<a><separator><b>"` as a pair of `usize` values yields:
/// the text is split at the first occurrence of the separator, and both
/// sides must spell `usize` values.
pub open spec fn parse_pair_spec(s: Seq<char>, separator: char) -> Option<(usize, usize)> {
    match first_sep(s, separator) {
        None => None,
        Some(i) => {
            let left = s.subrange(0, i as int);
            let right = s.subrange(i as int + 1, s.len() as int);
            if is_usize_numeral(left) && is_usize_numeral(right) {
                Some(
                    (
                        dec_val(numeral_digits(left)) as usize,
                        dec_val(numeral_digits(right)) as usize,
                    ),
                )
            } else {
                None
            }
        },
    }
}

/// Parse a pair of pixel dimensions, written as two `usize` numerals with
/// `separator` between them. A string without the separator, or with a
/// side that is not a `usize` numeral, yields `None` — never a default.
pub fn parse_pair(s: &str, separator: char) -> (r: Option<(usize, usize)>)
    ensures
        r == parse_pair_spec(s@, separator),
{
    let n = s.unicode_len();
    match find_char(s, separator) {
        None => None,
        Some(i) => {
            proof {
                lemma_first_sep_characterizes(s@, separator);
            }
            let left = s.substring_char(0, i);
            let right = s.substring_char(i + 1, n);
            match (parse_usize(left), parse_usize(right)) {
                (Some(a), Some(b)) => Some((a, b)),
                _ => None,
            }
        },
    }
}

/// What parsing `"<real>,<imag>"` as a complex point yields: the text is
/// split at the first comma, and each side must be a decimal
/// floating-point literal.
pub open spec fn parse_complex_spec(s: Seq<char>) -> Option<Complex> {
    match first_sep(s, ',') {
        None => None,
        Some(i) => {
            let left = f64_of_decimal(s.subrange(0, i as int));
            let right = f64_of_decimal(s.subrange(i as int + 1, s.len() as int));
            if left is Some && right is Some {
                Some((Complex { re: left->Some_0, im: right->Some_0 }))
            } else {
                None
            }
        },
    }
}

/// Parse a complex point, written as its real and imaginary parts with a
/// comma between them. A string without a comma, or with a side that is
/// not a decimal floating-point literal, yields `None` — never a default.
pub fn parse_complex(s: &str) -> (r: Option<Complex>)
    ensures
        r == parse_complex_spec(s@),
{
    let n = s.unicode_len();
    match find_char(s, ',') {
        None => None,
        Some(i) => {
            proof {
                lemma_first_sep_characterizes(s@, ',');
            }
            let left = s.substring_char(0, i);
            let right = s.substring_char(i + 1, n);
            match (parse_f64(left), parse_f64(right)) {
                (Some(re), Some(im)) => Some(Complex { re, im }),
                _ => None,
            }
        },
    }
}

} // verus!
