//! Parsing of signed decimal numbers into exact thousandths.
//!
//! The driver reads forces in kilonewtons and lengths in metres, while the
//! library computes in newtons and millimetres: both are the entered number
//! times a thousand. Parsing the text straight into thousandths keeps the
//! conversion exact. The accepted form is an optional sign, digits, and at
//! most one decimal point with at least one digit somewhere, as in `150`,
//! `-3.5`, `+1.` or `.75`; decimals beyond the third are cut off. Anything
//! else is reported as not a number, and a well-formed number beyond the
//! given bound as out of range, so a caller can ask again.

use vstd::prelude::*;
use vstd::slice::slice_subrange;

verus! {

/// Why a line of input was rejected.
#[derive(Clone, Copy, Debug, PartialEq, Eq)]
pub enum InputParseError {
    /// The text is not a decimal number.
    NotANumber,
    /// The number is well formed but its magnitude is beyond the bound.
    OutOfRange,
}

/// The byte is an ASCII decimal digit.
pub open spec fn is_digit(b: u8) -> bool {
    48 <= b <= 57
}

/// The numeric value of an ASCII decimal digit.
pub open spec fn digit_val(b: u8) -> int {
    b - 48
}

/// Every byte of the sequence is an ASCII decimal digit.
pub open spec fn all_digits(s: Seq<u8>) -> bool {
    forall|i: int| 0 <= i < s.len() ==> is_digit(#[trigger] s[i])
}

/// The value of a sequence of digits read as a base-10 integer.
pub open spec fn int_value(s: Seq<u8>) -> int
    decreases s.len(),
{
    if s.len() == 0 {
        0
    } else {
        10 * int_value(s.drop_last()) + digit_val(s.last())
    }
}

/// The `i`th digit of the fractional part, 0 when the part is shorter.
pub open spec fn frac_digit(s: Seq<u8>, i: int) -> int {
    if i < s.len() {
        digit_val(s[i])
    } else {
        0
    }
}

/// The value of a fractional part in thousandths: its first three digits,
/// later ones cut off.
pub open spec fn frac_milli(s: Seq<u8>) -> int {
    100 * frac_digit(s, 0) + 10 * frac_digit(s, 1) + frac_digit(s, 2)
}

/// Position `k` splits an unsigned number: digits before it, either the end
/// of the text or a decimal point followed by digits at it, and at least one
/// digit somewhere.
pub open spec fn split_ok(s: Seq<u8>, k: int) -> bool {
    &&& 0 <= k <= s.len()
    &&& all_digits(s.take(k))
    &&& if k == s.len() {
        s.len() > 0
    } else {
        s[k] == 46 && s.len() > 1 && all_digits(s.skip(k + 1))
    }
}

/// The text is a well-formed unsigned decimal number.
pub open spec fn wf_unsigned(s: Seq<u8>) -> bool {
    exists|k: int| #[trigger] split_ok(s, k)
}

/// Value of a well-formed unsigned number in thousandths.
pub open spec fn unsigned_milli(s: Seq<u8>) -> int {
    let k = choose|k: int| split_ok(s, k);
    1000 * int_value(s.take(k)) + if k < s.len() {
        frac_milli(s.skip(k + 1))
    } else {
        0
    }
}

/// The text begins with an explicit sign.
pub open spec fn has_sign(s: Seq<u8>) -> bool {
    s.len() > 0 && (s[0] == 43 || s[0] == 45)
}

/// The text after its sign, if it carries one.
pub open spec fn body_of(s: Seq<u8>) -> Seq<u8> {
    if has_sign(s) {
        s.skip(1)
    } else {
        s
    }
}

/// The text begins with a minus sign.
pub open spec fn is_negative(s: Seq<u8>) -> bool {
    s.len() > 0 && s[0] == 45
}

/// The value of the text in thousandths, `None` when it is not a decimal
/// number.
pub open spec fn decimal_milli(s: Seq<u8>) -> Option<int> {
    if wf_unsigned(body_of(s)) {
        if is_negative(s) {
            Some(-unsigned_milli(body_of(s)))
        } else {
            Some(unsigned_milli(body_of(s)))
        }
    } else {
        None
    }
}

/// At most one position splits a number: the decimal point, or the end when
/// there is none.
proof fn lemma_split_unique(s: Seq<u8>, k1: int, k2: int)
    requires
        split_ok(s, k1),
        split_ok(s, k2),
    ensures
        k1 == k2,
{
    if k1 < k2 {
        assert(is_digit(s.take(k2)[k1]));
        assert(s[k1] == 46);
    } else if k2 < k1 {
        assert(is_digit(s.take(k1)[k2]));
        assert(s[k2] == 46);
    }
}

/// Reading one more digit multiplies the value so far by 10 and adds it.
proof fn lemma_int_value_step(s: Seq<u8>, i: int)
    requires
        0 <= i < s.len(),
    ensures
        int_value(s.take(i + 1)) == 10 * int_value(s.take(i)) + digit_val(s[i]),
{
    assert(s.take(i + 1).drop_last() =~= s.take(i));
    assert(s.take(i + 1).last() == s[i]);
}

/// Parses a signed decimal number into thousandths, exactly. Rejects text
/// that is not a number, and a number whose magnitude in thousandths is
/// beyond `limit_milli`, so that the result always fits its bound.
pub fn parse_decimal_milli(s: &[u8], limit_milli: i64) -> (out: Result<i64, InputParseError>)
    requires
        0 <= limit_milli <= 1_000_000_000_000_000_000,
    ensures
        match out {
            Ok(v) => decimal_milli(s@) == Some(v as int) && -limit_milli <= v <= limit_milli,
            Err(InputParseError::NotANumber) => decimal_milli(s@) is None,
            Err(InputParseError::OutOfRange) => match decimal_milli(s@) {
                Some(m) => m < -limit_milli || m > limit_milli,
                None => false,
            },
        },
{
    let n: usize = s.len();
    let signed: bool = n > 0 && (s[0] == 43 || s[0] == 45);
    let negative: bool = n > 0 && s[0] == 45;
    let start: usize = if signed {
        1
    } else {
        0
    };
    let body: &[u8] = slice_subrange(s, start, n);
    let ghost bv = body_of(s@);
    proof {
        assert(body@ =~= bv);
    }
    let m: usize = body.len();

    // First pass: the shape of the text. `dot` is the single decimal point,
    // `bad` that the text can be no number at all.
    let mut dot: Option<usize> = None;
    let mut has_digit: bool = false;
    let mut bad: bool = false;
    let mut i: usize = 0;
    while i < m
        invariant
            body@ == bv,
            m == bv.len(),
            i <= m,
            !bad ==> match dot {
                None => all_digits(bv.take(i as int)),
                Some(d) => d < i && bv[d as int] == 46 && all_digits(bv.take(d as int))
                    && all_digits(bv.subrange(d as int + 1, i as int)),
            },
            has_digit <==> exists|p: int| 0 <= p < i && is_digit(#[trigger] bv[p]),
            bad ==> !wf_unsigned(bv),
        decreases m - i,
    {
        let c: u8 = body[i];
        if c >= 48 && c <= 57 {
            has_digit = true;
        } else if c == 46 && dot.is_none() {
            dot = Some(i);
        } else if !bad {
            proof {
                assert forall|k: int| !split_ok(bv, k) by {
                    if split_ok(bv, k) {
                        if c != 46 {
                            // This byte is neither a digit nor a point, yet
                            // every position of a split is one or the other.
                            if k == bv.len() {
                                assert(is_digit(bv.take(k)[i as int]));
                            } else if (i as int) < k {
                                assert(is_digit(bv.take(k)[i as int]));
                            } else if (i as int) > k {
                                assert(is_digit(bv.skip(k + 1)[i - k - 1]));
                            }
                        } else {
                            // A second point: one of the two points escapes
                            // the split position and would have to be a digit.
                            let d = dot.unwrap() as int;
                            if k == bv.len() {
                                assert(is_digit(bv.take(k)[d]));
                            } else if d < k {
                                assert(is_digit(bv.take(k)[d]));
                            } else if d > k {
                                assert(is_digit(bv.skip(k + 1)[d - k - 1]));
                            } else {
                                assert(is_digit(bv.skip(k + 1)[i - k - 1]));
                            }
                        }
                    }
                }
            }
            bad = true;
        }
        i = i + 1;
    }
    if bad || !has_digit {
        proof {
            if !bad {
                // No digit at all: the text is empty or a lone point.
                assert forall|k: int| !split_ok(bv, k) by {
                    if split_ok(bv, k) {
                        match dot {
                            None => {
                                assert(bv.take(m as int) =~= bv);
                                if k == bv.len() {
                                    assert(is_digit(bv[0]));
                                } else {
                                    assert(is_digit(bv.take(k)[k])) by {
                                        assert(all_digits(bv));
                                    }
                                }
                            },
                            Some(d) => {
                                // Everything but the point would be a digit,
                                // so the text is the point alone.
                                if m > 1 {
                                    if d == 0 {
                                        assert(is_digit(bv.subrange(1, m as int)[0]));
                                    } else {
                                        assert(is_digit(bv.take(d as int)[0]));
                                    }
                                } else {
                                    if k == bv.len() {
                                        assert(is_digit(bv.take(k)[d as int]));
                                    }
                                }
                            },
                        }
                    }
                }
            }
        }
        return Err(InputParseError::NotANumber);
    }

    // The split position: the point, or the end when there is none.
    let int_end: usize = match dot {
        Some(d) => d,
        None => m,
    };
    let ghost k = int_end as int;
    proof {
        match dot {
            None => {
                assert(bv.take(k) =~= bv);
                let p = choose|p: int| 0 <= p < m && is_digit(bv[p]);
                assert(split_ok(bv, k));
            },
            Some(d) => {
                assert(bv.skip(d as int + 1) =~= bv.subrange(d as int + 1, m as int));
                let p = choose|p: int| 0 <= p < m && is_digit(bv[p]);
                assert(p != d as int);
                assert(split_ok(bv, k));
            },
        }
        assert(wf_unsigned(bv));
    }

    // Second pass: the integer part. Once its value can no longer stay under
    // the bound the exact value is beside the point; `huge` records it.
    let mut acc: u64 = 0;
    let mut huge: bool = false;
    let mut j: usize = 0;
    while j < int_end
        invariant
            body@ == bv,
            m == bv.len(),
            int_end <= m,
            j <= int_end,
            all_digits(bv.take(int_end as int)),
            !huge ==> acc == int_value(bv.take(j as int)) && acc < 1_000_000_000_000_000_000,
            huge ==> int_value(bv.take(j as int)) >= 100_000_000_000_000_000,
        decreases int_end - j,
    {
        let c: u8 = body[j];
        proof {
            assert(is_digit(bv.take(int_end as int)[j as int]));
            lemma_int_value_step(bv, j as int);
        }
        let d: u64 = (c - 48) as u64;
        if !huge {
            if acc >= 100_000_000_000_000_000 {
                huge = true;
            } else {
                acc = acc * 10 + d;
            }
        }
        j = j + 1;
    }

    // The fractional part: its first three digits, in thousandths.
    let mut frac: u64 = 0;
    match dot {
        Some(d) => {
            proof {
                assert(all_digits(bv.skip(d as int + 1)));
            }
            if d + 1 < m {
                proof {
                    assert(is_digit(bv.skip(d as int + 1)[0]));
                }
                frac = frac + 100 * ((body[d + 1] - 48) as u64);
                if d + 2 < m {
                    proof {
                        assert(is_digit(bv.skip(d as int + 1)[1]));
                    }
                    frac = frac + 10 * ((body[d + 2] - 48) as u64);
                    if d + 3 < m {
                        proof {
                            assert(is_digit(bv.skip(d as int + 1)[2]));
                        }
                        frac = frac + ((body[d + 3] - 48) as u64);
                    }
                }
            }
            proof {
                assert(frac == frac_milli(bv.skip(d as int + 1)));
            }
        },
        None => {},
    }
    let ghost um = unsigned_milli(bv);
    proof {
        let kc = choose|kk: int| split_ok(bv, kk);
        lemma_split_unique(bv, kc, k);
        assert(um == 1000 * int_value(bv.take(k)) + if k < bv.len() {
            frac_milli(bv.skip(k + 1))
        } else {
            0
        });
        assert(frac <= 999);
        if k < bv.len() {
            assert(frac_milli(bv.skip(k + 1)) >= 0) by {
                assert(all_digits(bv.skip(k + 1)));
                if 0 < bv.skip(k + 1).len() {
                    assert(is_digit(bv.skip(k + 1)[0]));
                }
                if 1 < bv.skip(k + 1).len() {
                    assert(is_digit(bv.skip(k + 1)[1]));
                }
                if 2 < bv.skip(k + 1).len() {
                    assert(is_digit(bv.skip(k + 1)[2]));
                }
            }
        }
        assert(decimal_milli(s@) == Some(if is_negative(s@) {
            -um
        } else {
            um
        }));
        assert(is_negative(s@) == negative);
    }
    if huge {
        proof {
            assert(um > limit_milli);
        }
        return Err(InputParseError::OutOfRange);
    }
    let total: u128 = (acc as u128) * 1000 + (frac as u128);
    proof {
        assert(total == um);
    }
    if total > limit_milli as u128 {
        return Err(InputParseError::OutOfRange);
    }
    let tv: i64 = total as i64;
    let v: i64 = if negative {
        -tv
    } else {
        tv
    };
    Ok(v)
}

} // verus!
