//! Parsing numeric payload fields.  A field is text in the payload bytes:
//! bytes that are not well-formed UTF-8 are an encoding error; text that is
//! not an optionally `+`-signed run of decimal digits, or whose value does
//! not fit in `usize`, is a numeric parse error.

use vstd::prelude::*;
use crate::error::Error;

verus! {

/// Whether `b` is an ASCII decimal digit.
pub open spec fn is_digit_byte(b: u8) -> bool {
    0x30 <= b <= 0x39
}

/// Whether `b` is a UTF-8 continuation byte.
pub open spec fn is_continuation(b: u8) -> bool {
    0x80 <= b <= 0xBF
}

/// Whether `s` is well-formed UTF-8: a sequence of one-byte ASCII units,
/// two- to four-byte units with the shortest encoding, and no codepoint in
/// the surrogate range or above 0x10FFFF.
pub open spec fn is_utf8(s: Seq<u8>) -> bool
    decreases s.len(),
{
    if s.len() == 0 {
        true
    } else {
        let b0 = s[0];
        if b0 < 0x80 {
            is_utf8(s.skip(1))
        } else if 0xC2 <= b0 <= 0xDF {
            s.len() >= 2 && is_continuation(s[1]) && is_utf8(s.skip(2))
        } else if b0 == 0xE0 {
            s.len() >= 3 && 0xA0 <= s[1] <= 0xBF && is_continuation(s[2]) && is_utf8(s.skip(3))
        } else if 0xE1 <= b0 <= 0xEC || 0xEE <= b0 <= 0xEF {
            s.len() >= 3 && is_continuation(s[1]) && is_continuation(s[2]) && is_utf8(s.skip(3))
        } else if b0 == 0xED {
            s.len() >= 3 && 0x80 <= s[1] <= 0x9F && is_continuation(s[2]) && is_utf8(s.skip(3))
        } else if b0 == 0xF0 {
            s.len() >= 4 && 0x90 <= s[1] <= 0xBF && is_continuation(s[2]) && is_continuation(s[3])
                && is_utf8(s.skip(4))
        } else if 0xF1 <= b0 <= 0xF3 {
            s.len() >= 4 && is_continuation(s[1]) && is_continuation(s[2]) && is_continuation(s[3])
                && is_utf8(s.skip(4))
        } else if b0 == 0xF4 {
            s.len() >= 4 && 0x80 <= s[1] <= 0x8F && is_continuation(s[2]) && is_continuation(s[3])
                && is_utf8(s.skip(4))
        } else {
            false
        }
    }
}

/// The digit bytes of a decimal string: everything after an optional leading
/// `+` sign.
pub open spec fn decimal_digits(s: Seq<u8>) -> Seq<u8> {
    if s.len() > 0 && s[0] == 0x2B {
        s.drop_first()
    } else {
        s
    }
}

/// Whether `s` is an optionally `+`-signed, non-empty run of decimal digits.
pub open spec fn is_decimal_string(s: Seq<u8>) -> bool {
    let d = decimal_digits(s);
    d.len() > 0 && forall|k: int| 0 <= k < d.len() ==> is_digit_byte(d[k])
}

/// The value of a run of decimal digits, most significant first.
pub open spec fn digits_value(s: Seq<u8>) -> int
    decreases s.len(),
{
    if s.len() == 0 {
        0
    } else {
        10 * digits_value(s.drop_last()) + (s.last() - 0x30)
    }
}

/// What parsing a payload field as a `usize` yields: an encoding error for
/// bytes that are not well-formed UTF-8, a numeric parse error for text that
/// is not an optionally `+`-signed run of digits whose value fits in
/// `usize`, and the value otherwise.
pub open spec fn parse_usize_spec(s: Seq<u8>) -> Result<usize, Error> {
    if !is_utf8(s) {
        Err(Error::Utf8)
    } else if !is_decimal_string(s) {
        Err(Error::ParseInt)
    } else if digits_value(decimal_digits(s)) > usize::MAX {
        Err(Error::ParseInt)
    } else {
        Ok(digits_value(decimal_digits(s)) as usize)
    }
}

/// Check that `s` is well-formed UTF-8.
pub fn is_utf8_bytes(s: &[u8]) -> (r: bool)
    ensures
        r == is_utf8(s@),
{
    let n = s.len();
    let mut i: usize = 0;
    proof {
        assert(s@.skip(0) =~= s@);
    }
    while i < n
        invariant
            0 <= i <= n,
            n == s@.len(),
            is_utf8(s@) == is_utf8(s@.skip(i as int)),
        decreases n - i,
    {
        let ghost rest = s@.skip(i as int);
        let b0 = s[i];
        proof {
            assert(rest[0] == s@[i as int]);
            assert(rest.len() == n - i);
        }
        let step: usize;
        if b0 < 0x80 {
            step = 1;
        } else if 0xC2 <= b0 && b0 <= 0xDF {
            if n - i < 2 || !(0x80 <= s[i + 1] && s[i + 1] <= 0xBF) {
                proof {
                    if n - i >= 2 {
                        assert(rest[1] == s@[i + 1]);
                    }
                }
                return false;
            }
            proof {
                assert(rest[1] == s@[i + 1]);
            }
            step = 2;
        } else if b0 == 0xE0 {
            if n - i < 3 || !(0xA0 <= s[i + 1] && s[i + 1] <= 0xBF) || !(0x80 <= s[i + 2] && s[i
                + 2] <= 0xBF) {
                proof {
                    if n - i >= 3 {
                        assert(rest[1] == s@[i + 1]);
                        assert(rest[2] == s@[i + 2]);
                    }
                }
                return false;
            }
            proof {
                assert(rest[1] == s@[i + 1]);
                assert(rest[2] == s@[i + 2]);
            }
            step = 3;
        } else if (0xE1 <= b0 && b0 <= 0xEC) || (0xEE <= b0 && b0 <= 0xEF) {
            if n - i < 3 || !(0x80 <= s[i + 1] && s[i + 1] <= 0xBF) || !(0x80 <= s[i + 2] && s[i
                + 2] <= 0xBF) {
                proof {
                    if n - i >= 3 {
                        assert(rest[1] == s@[i + 1]);
                        assert(rest[2] == s@[i + 2]);
                    }
                }
                return false;
            }
            proof {
                assert(rest[1] == s@[i + 1]);
                assert(rest[2] == s@[i + 2]);
            }
            step = 3;
        } else if b0 == 0xED {
            if n - i < 3 || !(0x80 <= s[i + 1] && s[i + 1] <= 0x9F) || !(0x80 <= s[i + 2] && s[i
                + 2] <= 0xBF) {
                proof {
                    if n - i >= 3 {
                        assert(rest[1] == s@[i + 1]);
                        assert(rest[2] == s@[i + 2]);
                    }
                }
                return false;
            }
            proof {
                assert(rest[1] == s@[i + 1]);
                assert(rest[2] == s@[i + 2]);
            }
            step = 3;
        } else if b0 == 0xF0 {
            if n - i < 4 || !(0x90 <= s[i + 1] && s[i + 1] <= 0xBF) || !(0x80 <= s[i + 2] && s[i
                + 2] <= 0xBF) || !(0x80 <= s[i + 3] && s[i + 3] <= 0xBF) {
                proof {
                    if n - i >= 4 {
                        assert(rest[1] == s@[i + 1]);
                        assert(rest[2] == s@[i + 2]);
                        assert(rest[3] == s@[i + 3]);
                    }
                }
                return false;
            }
            proof {
                assert(rest[1] == s@[i + 1]);
                assert(rest[2] == s@[i + 2]);
                assert(rest[3] == s@[i + 3]);
            }
            step = 4;
        } else if 0xF1 <= b0 && b0 <= 0xF3 {
            if n - i < 4 || !(0x80 <= s[i + 1] && s[i + 1] <= 0xBF) || !(0x80 <= s[i + 2] && s[i
                + 2] <= 0xBF) || !(0x80 <= s[i + 3] && s[i + 3] <= 0xBF) {
                proof {
                    if n - i >= 4 {
                        assert(rest[1] == s@[i + 1]);
                        assert(rest[2] == s@[i + 2]);
                        assert(rest[3] == s@[i + 3]);
                    }
                }
                return false;
            }
            proof {
                assert(rest[1] == s@[i + 1]);
                assert(rest[2] == s@[i + 2]);
                assert(rest[3] == s@[i + 3]);
            }
            step = 4;
        } else if b0 == 0xF4 {
            if n - i < 4 || !(0x80 <= s[i + 1] && s[i + 1] <= 0x8F) || !(0x80 <= s[i + 2] && s[i
                + 2] <= 0xBF) || !(0x80 <= s[i + 3] && s[i + 3] <= 0xBF) {
                proof {
                    if n - i >= 4 {
                        assert(rest[1] == s@[i + 1]);
                        assert(rest[2] == s@[i + 2]);
                        assert(rest[3] == s@[i + 3]);
                    }
                }
                return false;
            }
            proof {
                assert(rest[1] == s@[i + 1]);
                assert(rest[2] == s@[i + 2]);
                assert(rest[3] == s@[i + 3]);
            }
            step = 4;
        } else {
            return false;
        }
        proof {
            assert(rest.skip(step as int) =~= s@.skip(i + step));
        }
        i = i + step;
    }
    proof {
        assert(s@.skip(n as int) =~= Seq::<u8>::empty());
    }
    true
}

/// The value of a run of decimal digits is never negative.
proof fn lemma_digits_value_nonneg(s: Seq<u8>)
    requires
        forall|k: int| 0 <= k < s.len() ==> is_digit_byte(s[k]),
    ensures
        digits_value(s) >= 0,
    decreases s.len(),
{
    if s.len() != 0 {
        lemma_digits_value_nonneg(s.drop_last());
    }
}

/// The value of a prefix of a run of decimal digits never exceeds the value
/// of the whole run.
proof fn lemma_digits_value_prefix_le(s: Seq<u8>, m: int)
    requires
        0 <= m <= s.len(),
        forall|k: int| 0 <= k < s.len() ==> is_digit_byte(s[k]),
    ensures
        digits_value(s.take(m)) <= digits_value(s),
    decreases s.len() - m,
{
    if m < s.len() {
        lemma_digits_value_prefix_le(s, m + 1);
        assert(s.take(m + 1).drop_last() =~= s.take(m));
        assert(s.take(m + 1).last() == s[m]);
        lemma_digits_value_nonneg(s.take(m));
    } else {
        assert(s.take(m) =~= s);
    }
}

/// Parse a payload field as a `usize`, as `parse_usize_spec` prescribes.
pub fn parse_usize_bytes(s: &[u8]) -> (r: Result<usize, Error>)
    ensures
        r == parse_usize_spec(s@),
{
    if !is_utf8_bytes(s) {
        return Err(Error::Utf8);
    }
    let n = s.len();
    let start: usize = if n > 0 && s[0] == 0x2B {
        1
    } else {
        0
    };
    let ghost d = decimal_digits(s@);
    proof {
        assert(d =~= s@.skip(start as int));
    }
    if n == start {
        return Err(Error::ParseInt);
    }
    let mut acc: usize = 0;
    let mut i: usize = start;
    while i < n
        invariant
            start <= i <= n,
            n == s@.len(),
            is_utf8(s@),
            d == decimal_digits(s@),
            d == s@.skip(start as int),
            d.len() == n - start,
            forall|m: int| 0 <= m < i - start ==> is_digit_byte(d[m]),
            acc == digits_value(d.take(i - start)),
        decreases n - i,
    {
        let b = s[i];
        proof {
            assert(d[i - start] == s@[i as int]);
        }
        if b < 0x30 || b > 0x39 {
            proof {
                assert(!is_digit_byte(d[i - start]));
            }
            return Err(Error::ParseInt);
        }
        let digit = (b - 0x30) as usize;
        if acc > (usize::MAX - digit) / 10 {
            proof {
                let taken = d.take(i - start + 1);
                assert(taken.drop_last() =~= d.take(i - start));
                assert(taken.last() == d[i - start]);
                assert(digits_value(taken) == 10 * acc + digit);
                assert(10 * acc + digit > usize::MAX);
                if is_decimal_string(s@) {
                    lemma_digits_value_prefix_le(d, i - start + 1);
                }
            }
            return Err(Error::ParseInt);
        }
        proof {
            let taken = d.take(i - start + 1);
            assert(taken.drop_last() =~= d.take(i - start));
            assert(taken.last() == d[i - start]);
        }
        acc = acc * 10 + digit;
        i = i + 1;
    }
    proof {
        assert(d.take(n - start) =~= d);
    }
    Ok(acc)
}

} // verus!
