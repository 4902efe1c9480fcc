//! Decimal integer parsing for bit widths and exit codes.
use vstd::prelude::*;
use vstd::slice::slice_index_get;
use crate::bytes::is_digit;

verus! {

/// Value of a sequence of decimal digit bytes, most significant first.
pub open spec fn digits_val(s: Seq<u8>) -> int
    decreases s.len(),
{
    if s.len() == 0 {
        0
    } else {
        digits_val(s.drop_last()) * 10 + (s.last() - 48)
    }
}

/// All bytes of `s` are decimal digits.
pub open spec fn all_digits(s: Seq<u8>) -> bool {
    forall|k: int| 0 <= k < s.len() ==> is_digit(s[k])
}

pub proof fn digits_val_nonneg(s: Seq<u8>)
    requires
        all_digits(s),
    ensures
        digits_val(s) >= 0,
    decreases s.len(),
{
    if s.len() > 0 {
        assert(all_digits(s.drop_last()));
        digits_val_nonneg(s.drop_last());
        assert(is_digit(s.last()));
    }
}

/// A digit prefix never exceeds the value of the whole digit string.
pub proof fn digits_val_prefix_le(s: Seq<u8>, i: int)
    requires
        all_digits(s),
        0 <= i <= s.len(),
    ensures
        digits_val(s.take(i)) <= digits_val(s),
    decreases s.len(),
{
    if i == s.len() {
        assert(s.take(i) =~= s);
    } else {
        assert(s.take(i) =~= s.drop_last().take(i));
        assert(all_digits(s.drop_last()));
        digits_val_prefix_le(s.drop_last(), i);
        digits_val_nonneg(s.drop_last());
        assert(is_digit(s.last()));
    }
}

/// The value of a non-empty all-digit byte string, `None` otherwise.
pub open spec fn spec_parse_uint(s: Seq<u8>) -> Option<int> {
    if s.len() > 0 && all_digits(s) {
        Some(digits_val(s))
    } else {
        None
    }
}

/// What `u8::from_str` accepts: an optional `+`, then digits, value at most 255.
pub open spec fn spec_parse_u8(s: Seq<u8>) -> Option<u8> {
    let t = if s.len() > 0 && s[0] == 43 {
        s.skip(1)
    } else {
        s
    };
    match spec_parse_uint(t) {
        Some(v) => if v <= 255 {
            Some(v as u8)
        } else {
            None
        },
        None => None,
    }
}

/// What `i32::from_str` accepts: an optional sign, then digits, value in range.
pub open spec fn spec_parse_i32(s: Seq<u8>) -> Option<i32> {
    if s.len() > 0 && (s[0] == 43 || s[0] == 45) {
        match spec_parse_uint(s.skip(1)) {
            Some(v) => if s[0] == 45 {
                if v <= 2147483648 {
                    Some((-v) as i32)
                } else {
                    None
                }
            } else {
                if v <= 2147483647 {
                    Some(v as i32)
                } else {
                    None
                }
            },
            None => None,
        }
    } else {
        match spec_parse_uint(s) {
            Some(v) => if v <= 2147483647 {
                Some(v as i32)
            } else {
                None
            },
            None => None,
        }
    }
}

/// Reads the digits of `s[from..]`; `None` when the span is empty, holds a
/// non-digit, or its value exceeds `4294967295`.
fn parse_digits_from(s: &[u8], from: usize) -> (r: Option<u64>)
    requires
        from <= s@.len(),
    ensures
        ({
            let t = s@.skip(from as int);
            match spec_parse_uint(t) {
                None => r is None,
                Some(v) => v >= 0 && (if v <= 4294967295 {
                    r == Some(v as u64)
                } else {
                    r is None
                }),
            }
        }),
{
    proof {
        let t0 = s@.skip(from as int);
        if s@.len() - from > 0 && all_digits(t0) {
            digits_val_nonneg(t0);
        }
    }
    let ghost t = s@.skip(from as int);
    if from == s.len() {
        return None;
    }
    let mut acc: u64 = 0;
    let mut i: usize = from;
    while i < s.len()
        invariant
            from <= i <= s@.len(),
            t == s@.skip(from as int),
            from < s@.len(),
            all_digits(t.take(i - from)),
            acc == digits_val(t.take(i - from)),
            acc <= 4294967295,
        decreases s@.len() - i,
    {
        let b = *slice_index_get(s, i);
        if !(48 <= b && b <= 57) {
            proof {
                assert(t[i - from] == b);
                assert(!is_digit(t[i - from]));
            }
            return None;
        }
        let next: u64 = acc * 10 + ((b - 48) as u64);
        proof {
            assert(t.take(i - from + 1).drop_last() =~= t.take(i - from));
            assert(t.take(i - from + 1).last() == b);
            assert(digits_val(t.take(i - from + 1)) == acc * 10 + (b - 48));
            assert(all_digits(t.take(i - from + 1)));
        }
        if next > 4294967295 {
            proof {
                if all_digits(t) {
                    digits_val_prefix_le(t, i - from + 1);
                }
            }
            return None;
        }
        acc = next;
        i += 1;
    }
    proof {
        assert(t.take(s@.len() - from) =~= t);
    }
    Some(acc)
}

/// Parses an unsigned 8-bit decimal as `u8::from_str` does.
pub fn parse_u8(s: &[u8]) -> (r: Option<u8>)
    ensures
        r == spec_parse_u8(s@),
{
    let start: usize = if s.len() > 0 && s[0] == 43 {
        1
    } else {
        0
    };
    proof {
        if s@.len() > 0 && s@[0] == 43 {
            assert(s@.skip(1) == s@.skip(start as int));
        } else {
            assert(s@.skip(0) =~= s@);
        }
    }
    match parse_digits_from(s, start) {
        Some(v) => if v <= 255 {
            Some(v as u8)
        } else {
            None
        },
        None => None,
    }
}

/// Parses a signed 32-bit decimal as `i32::from_str` does.
pub fn parse_i32(s: &[u8]) -> (r: Option<i32>)
    ensures
        r == spec_parse_i32(s@),
{
    if s.len() > 0 && (s[0] == 43 || s[0] == 45) {
        let neg = s[0] == 45;
        match parse_digits_from(s, 1) {
            Some(v) => if neg {
                if v <= 2147483648 {
                    Some((-(v as i64)) as i32)
                } else {
                    None
                }
            } else {
                if v <= 2147483647 {
                    Some(v as i32)
                } else {
                    None
                }
            },
            None => None,
        }
    } else {
        proof {
            assert(s@.skip(0) =~= s@);
        }
        match parse_digits_from(s, 0) {
            Some(v) => if v <= 2147483647 {
                Some(v as i32)
            } else {
                None
            },
            None => None,
        }
    }
}

} // verus!
