use vstd::prelude::*;

verus! {

// ---------------------------------------------------------------------------
// What it means for a string to parse as an `i32`
// ---------------------------------------------------------------------------

/// An ASCII decimal digit.
pub open spec fn spec_is_digit(c: char) -> bool {
    48 <= c as u32 && c as u32 <= 57
}

/// The numeric value of a digit character.
pub open spec fn digit_val(c: char) -> int {
    c as u32 - 48
}

pub open spec fn all_digits(s: Seq<char>) -> bool {
    forall|i: int| 0 <= i < s.len() ==> spec_is_digit(#[trigger] s[i])
}

/// The value of a digit string read in base ten.
pub open spec fn digits_val(s: Seq<char>) -> int
    decreases s.len(),
{
    if s.len() == 0 {
        0
    } else {
        digits_val(s.drop_last()) * 10 + digit_val(s.last())
    }
}

/// The digit part of an integer literal: everything after an optional
/// leading sign.
pub open spec fn int_digits(s: Seq<char>) -> Seq<char> {
    if s.len() > 0 && (s[0] == '+' || s[0] == '-') {
        s.subrange(1, s.len() as int)
    } else {
        s
    }
}

pub open spec fn int_is_negative(s: Seq<char>) -> bool {
    s.len() > 0 && s[0] == '-'
}

/// The shape of an integer literal: an optional `+` or `-` sign followed by
/// one or more decimal digits, and nothing else.
pub open spec fn int_shape(s: Seq<char>) -> bool {
    int_digits(s).len() > 0 && all_digits(int_digits(s))
}

/// The mathematical value of an integer literal.
pub open spec fn int_value(s: Seq<char>) -> int {
    if int_is_negative(s) {
        -digits_val(int_digits(s))
    } else {
        digits_val(int_digits(s))
    }
}

/// A string parses as an `i32` when it is an integer literal whose value the
/// type can represent.
pub open spec fn parses_as_i32(s: Seq<char>) -> bool {
    int_shape(s) && -0x8000_0000 <= int_value(s) <= 0x7FFF_FFFF
}

// ---------------------------------------------------------------------------
// Lemmas
// ---------------------------------------------------------------------------

/// A digit string's value is non-negative, and at least the value of any of
/// its prefixes.
proof fn lemma_digits_val_prefix(s: Seq<char>, k: int)
    requires
        all_digits(s),
        0 <= k <= s.len(),
    ensures
        0 <= digits_val(s.take(k)) <= digits_val(s),
    decreases s.len(),
{
    if s.len() == 0 {
        assert(s.take(k) =~= s);
    } else if k == s.len() {
        assert(s.take(k) =~= s);
        assert(all_digits(s.drop_last()));
        lemma_digits_val_prefix(s.drop_last(), s.len() - 1);
    } else {
        assert(all_digits(s.drop_last()));
        assert(s.drop_last().take(k) =~= s.take(k));
        lemma_digits_val_prefix(s.drop_last(), k);
    }
}

// ---------------------------------------------------------------------------
// Executable parsing
// ---------------------------------------------------------------------------

/// Parse a string as an `i32`: an optional sign, one or more digits, and the
/// value within the type's range; anything else yields `None`.
pub fn parse_i32(s: &str) -> (r: Option<i32>)
    ensures
        r is Some <==> parses_as_i32(s@),
        r is Some ==> r->0 == int_value(s@),
{
    let n = s.unicode_len();
    if n == 0 {
        return None;
    }
    let c0 = s.get_char(0);
    let negative = c0 == '-';
    let start: usize = if c0 == '-' || c0 == '+' {
        1
    } else {
        0
    };
    if n == start {
        // A sign with no digits.
        return None;
    }
    let ghost digits = int_digits(s@);
    proof {
        assert(digits =~= s@.subrange(start as int, n as int));
    }
    let mut mag: u64 = 0;
    let mut i: usize = start;
    while i < n
        invariant
            start <= i <= n,
            n == s@.len(),
            start < n,
            digits == int_digits(s@),
            digits =~= s@.subrange(start as int, n as int),
            all_digits(digits.take(i - start)),
            mag == digits_val(digits.take(i - start)),
            mag <= 0x8000_0000,
        decreases n - i,
    {
        let c = s.get_char(i);
        let u = c as u32;
        if !(48 <= u && u <= 57) {
            assert(!spec_is_digit(digits[i - start]));
            return None;
        }
        proof {
            assert(digits.take(i - start + 1).drop_last() =~= digits.take(i - start));
            assert(digits.take(i - start + 1).last() == digits[i - start]);
        }
        mag = mag * 10 + ((u - 48) as u64);
        if mag > 0x8000_0000 {
            // The value of the whole digit string, if it is a digit string at
            // all, is at least the value of the prefix scanned so far, which
            // is already past what an `i32` can represent on either side.
            proof {
                if all_digits(digits) {
                    lemma_digits_val_prefix(digits, i - start + 1);
                }
            }
            return None;
        }
        i += 1;
    }
    proof {
        assert(digits.take(n - start) =~= digits);
    }
    if negative {
        proof {
            assert(int_shape(s@));
            assert(int_value(s@) == -(mag as int));
        }
        if mag == 0x8000_0000 {
            Some(i32::MIN)
        } else {
            Some(-(mag as i32))
        }
    } else {
        if mag > 0x7FFF_FFFF {
            proof {
                assert(int_value(s@) == mag as int);
            }
            None
        } else {
            Some(mag as i32)
        }
    }
}

} // verus!
