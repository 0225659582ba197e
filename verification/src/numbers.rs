//! Grammars of the numeric lexemes that appear on the wire.
//!
//! A JSON number is kept as its lexeme text, so the decoder needs to say
//! exactly which texts are numbers.  Sample values arrive as strings and,
//! when they are not one of the sentinel tokens, must be decimal floating
//! point text; `is_float_lexeme` is the set of texts the codec accepts.

use vstd::prelude::*;

verus! {

/// A decimal digit.
pub open spec fn is_digit(c: char) -> bool {
    '0' <= c && c <= '9'
}

/// Index of the first position at or after `i` that does not hold a digit.
pub open spec fn skip_digits(s: Seq<char>, i: int) -> int
    decreases s.len() - i,
{
    if i < s.len() && is_digit(s[i]) {
        skip_digits(s, i + 1)
    } else {
        i
    }
}

pub proof fn lemma_skip_digits(s: Seq<char>, i: int)
    requires
        0 <= i <= s.len(),
    ensures
        i <= skip_digits(s, i) <= s.len(),
        forall|k: int| i <= k < skip_digits(s, i) ==> is_digit(#[trigger] s[k]),
        skip_digits(s, i) < s.len() ==> !is_digit(s[skip_digits(s, i)]),
    decreases s.len() - i,
{
    if i < s.len() && is_digit(s[i]) {
        lemma_skip_digits(s, i + 1);
    }
}

/// The JSON number grammar: an optional minus sign, an integer part without
/// superfluous leading zeros, an optional fraction with at least one digit,
/// and an optional exponent with at least one digit.
pub open spec fn is_json_number(s: Seq<char>) -> bool {
    let i: int = if s.len() > 0 && s[0] == '-' {
        1
    } else {
        0
    };
    if i >= s.len() || !is_digit(s[i]) {
        false
    } else {
        let j: int = if s[i] == '0' {
            i + 1
        } else {
            skip_digits(s, i)
        };
        let k: int = if j < s.len() && s[j] == '.' {
            if skip_digits(s, j + 1) > j + 1 {
                skip_digits(s, j + 1)
            } else {
                -1
            }
        } else {
            j
        };
        if k < 0 {
            false
        } else {
            exponent_ends_at(s, k)
        }
    }
}

/// After position `k`, either the text ends or an exponent part runs to the
/// end: `e` or `E`, an optional sign, and at least one digit.
pub open spec fn exponent_ends_at(s: Seq<char>, k: int) -> bool {
    if k < s.len() && (s[k] == 'e' || s[k] == 'E') {
        let e: int = if k + 1 < s.len() && (s[k + 1] == '+' || s[k + 1] == '-') {
            k + 2
        } else {
            k + 1
        };
        skip_digits(s, e) > e && skip_digits(s, e) == s.len()
    } else {
        k == s.len()
    }
}

/// The decimal floating point texts the sample codec accepts in place of a
/// sentinel token: an optional sign, then digits with an optional fraction
/// (one side of the point may be empty, not both), then an optional
/// exponent with at least one digit.
pub open spec fn is_float_lexeme(s: Seq<char>) -> bool {
    let i: int = if s.len() > 0 && (s[0] == '-' || s[0] == '+') {
        1
    } else {
        0
    };
    let a: int = skip_digits(s, i);
    let b: int = if a > i {
        if a < s.len() && s[a] == '.' {
            skip_digits(s, a + 1)
        } else {
            a
        }
    } else {
        if a < s.len() && s[a] == '.' && skip_digits(s, a + 1) > a + 1 {
            skip_digits(s, a + 1)
        } else {
            -1
        }
    };
    if b < 0 {
        false
    } else {
        exponent_ends_at(s, b)
    }
}

/// The text after the float parser's optional leading sign.
pub open spec fn float_keyword_body(s: Seq<char>) -> Seq<char> {
    if s.len() > 0 && (s[0] == '-' || s[0] == '+') {
        s.subrange(1, s.len() as int)
    } else {
        s
    }
}

/// An infinity spelling of the float parser, sign aside: `inf` or
/// `infinity` in any letter case.
pub open spec fn is_inf_body(b: Seq<char>) -> bool {
    (b.len() == 3 && (b[0] == 'i' || b[0] == 'I') && (b[1] == 'n' || b[1] == 'N') && (b[2] == 'f'
        || b[2] == 'F')) || (b.len() == 8 && (b[0] == 'i' || b[0] == 'I') && (b[1] == 'n' || b[1]
        == 'N') && (b[2] == 'f' || b[2] == 'F') && (b[3] == 'i' || b[3] == 'I') && (b[4] == 'n'
        || b[4] == 'N') && (b[5] == 'i' || b[5] == 'I') && (b[6] == 't' || b[6] == 'T') && (b[7]
        == 'y' || b[7] == 'Y'))
}

/// A NaN spelling of the float parser, sign aside: `nan` in any letter
/// case.
pub open spec fn is_nan_body(b: Seq<char>) -> bool {
    b.len() == 3 && (b[0] == 'n' || b[0] == 'N') && (b[1] == 'a' || b[1] == 'A') && (b[2] == 'n'
        || b[2] == 'N')
}

/// An infinity spelling with its optional sign.
pub open spec fn is_inf_lexeme(s: Seq<char>) -> bool {
    is_inf_body(float_keyword_body(s))
}

/// A NaN spelling with its optional sign.
pub open spec fn is_nan_lexeme(s: Seq<char>) -> bool {
    is_nan_body(float_keyword_body(s))
}

/// Whether `t` spells an infinity in the float parser's keyword form.
pub fn check_inf_lexeme(t: &Vec<char>) -> (r: bool)
    ensures
        r == is_inf_lexeme(t@),
{
    let start: usize = if t.len() > 0 && (t[0] == '-' || t[0] == '+') {
        1
    } else {
        0
    };
    proof {
        if start == 1 {
            assert(float_keyword_body(t@) =~= t@.subrange(1, t@.len() as int));
        } else {
            assert(float_keyword_body(t@) =~= t@);
        }
    }
    let n = t.len() - start;
    if n == 3 {
        (t[start] == 'i' || t[start] == 'I') && (t[start + 1] == 'n' || t[start + 1] == 'N') && (
        t[start + 2] == 'f' || t[start + 2] == 'F')
    } else if n == 8 {
        (t[start] == 'i' || t[start] == 'I') && (t[start + 1] == 'n' || t[start + 1] == 'N') && (
        t[start + 2] == 'f' || t[start + 2] == 'F') && (t[start + 3] == 'i' || t[start + 3] == 'I')
            && (t[start + 4] == 'n' || t[start + 4] == 'N') && (t[start + 5] == 'i' || t[start + 5]
            == 'I') && (t[start + 6] == 't' || t[start + 6] == 'T') && (t[start + 7] == 'y' || t[
            start + 7] == 'Y')
    } else {
        false
    }
}

/// Whether `t` spells a NaN in the float parser's keyword form.
pub fn check_nan_lexeme(t: &Vec<char>) -> (r: bool)
    ensures
        r == is_nan_lexeme(t@),
{
    let start: usize = if t.len() > 0 && (t[0] == '-' || t[0] == '+') {
        1
    } else {
        0
    };
    proof {
        if start == 1 {
            assert(float_keyword_body(t@) =~= t@.subrange(1, t@.len() as int));
        } else {
            assert(float_keyword_body(t@) =~= t@);
        }
    }
    let n = t.len() - start;
    if n == 3 {
        (t[start] == 'n' || t[start] == 'N') && (t[start + 1] == 'a' || t[start + 1] == 'A') && (
        t[start + 2] == 'n' || t[start + 2] == 'N')
    } else {
        false
    }
}

/// Floating point text never spells a keyword: the two accepted sets
/// are disjoint, so the codec's branch order cannot change a result.
pub proof fn lemma_float_lexeme_not_keyword(s: Seq<char>)
    requires
        is_float_lexeme(s),
    ensures
        !is_inf_lexeme(s),
        !is_nan_lexeme(s),
{
    let i: int = if s.len() > 0 && (s[0] == '-' || s[0] == '+') {
        1
    } else {
        0
    };
    let b = float_keyword_body(s);
    if is_inf_body(b) || is_nan_body(b) {
        assert(s.len() >= i + 3);
        assert(b[0] == s[i]);
        let a = skip_digits(s, i);
        lemma_skip_digits(s, i);
        if a > i {
            assert(is_digit(s[i]));
        } else {
            assert(s[i] == '.');
        }
        assert(false);
    }
}

/// An integer lexeme: an optional minus sign and at least one digit.  The
/// wire's `interval` and `duration` fields must be such texts.
pub open spec fn is_int_lexeme(s: Seq<char>) -> bool {
    let i: int = if s.len() > 0 && s[0] == '-' {
        1
    } else {
        0
    };
    s.len() > i && skip_digits(s, i) == s.len()
}

/// Value of the digit run `s[i..j]` read as a base-10 numeral.
pub open spec fn digits_value(s: Seq<char>, i: int, j: int) -> int
    decreases j - i,
{
    if i < j {
        digits_value(s, i, j - 1) * 10 + (s[j - 1] as int - '0' as int)
    } else {
        0
    }
}

/// Value of an integer lexeme.
pub open spec fn int_lexeme_value(s: Seq<char>) -> int {
    if s.len() > 0 && s[0] == '-' {
        -digits_value(s, 1, s.len() as int)
    } else {
        digits_value(s, 0, s.len() as int)
    }
}

pub proof fn lemma_skip_digits_all(s: Seq<char>, i: int)
    requires
        0 <= i <= s.len(),
        forall|k: int| i <= k < s.len() ==> is_digit(#[trigger] s[k]),
    ensures
        skip_digits(s, i) == s.len(),
    decreases s.len() - i,
{
    if i < s.len() {
        lemma_skip_digits_all(s, i + 1);
    }
}

pub proof fn lemma_digits_value_nonneg(s: Seq<char>, i: int, j: int)
    requires
        forall|k: int| i <= k < j ==> is_digit(#[trigger] s[k]),
    ensures
        digits_value(s, i, j) >= 0,
    decreases j - i,
{
    if i < j {
        lemma_digits_value_nonneg(s, i, j - 1);
    }
}

/// Extending a digit run to the right can only grow its value.
pub proof fn lemma_digits_value_grows(s: Seq<char>, i: int, j: int, k: int)
    requires
        j <= k,
        forall|m: int| i <= m < k ==> is_digit(#[trigger] s[m]),
    ensures
        digits_value(s, i, j) <= digits_value(s, i, k),
    decreases k - j,
{
    if j < k {
        lemma_digits_value_grows(s, i, j, k - 1);
        lemma_digits_value_nonneg(s, i, k - 1);
    }
}

fn digit(c: char) -> (r: bool)
    ensures
        r == is_digit(c),
{
    '0' <= c && c <= '9'
}

/// First position at or after `from` that does not hold a digit.
pub fn scan_digits(t: &Vec<char>, from: usize) -> (r: usize)
    requires
        from <= t.len(),
    ensures
        from <= r <= t.len(),
        r == skip_digits(t@, from as int),
{
    let mut i = from;
    while i < t.len() && digit(t[i])
        invariant
            from <= i <= t.len(),
            skip_digits(t@, from as int) == skip_digits(t@, i as int),
        decreases t.len() - i,
    {
        i = i + 1;
    }
    i
}

/// Whether `t` is a JSON number lexeme.
pub fn check_json_number(t: &Vec<char>) -> (r: bool)
    ensures
        r == is_json_number(t@),
{
    let i: usize = if t.len() > 0 && t[0] == '-' {
        1
    } else {
        0
    };
    if i >= t.len() || !digit(t[i]) {
        return false;
    }
    let j: usize = if t[i] == '0' {
        i + 1
    } else {
        scan_digits(t, i)
    };
    let k: usize = if j < t.len() && t[j] == '.' {
        let k0 = scan_digits(t, j + 1);
        if k0 > j + 1 {
            k0
        } else {
            return false;
        }
    } else {
        j
    };
    check_exponent(t, k)
}

/// Whether `exponent_ends_at(t@, k)` holds.
fn check_exponent(t: &Vec<char>, k: usize) -> (r: bool)
    requires
        k <= t.len(),
    ensures
        r == exponent_ends_at(t@, k as int),
{
    if k < t.len() && (t[k] == 'e' || t[k] == 'E') {
        let e: usize = if k + 1 < t.len() && (t[k + 1] == '+' || t[k + 1] == '-') {
            k + 2
        } else {
            k + 1
        };
        let e1 = scan_digits(t, e);
        e1 > e && e1 == t.len()
    } else {
        k == t.len()
    }
}

/// Whether `t` is acceptable floating point text for a sample value.
pub fn check_float_lexeme(t: &Vec<char>) -> (r: bool)
    ensures
        r == is_float_lexeme(t@),
{
    let i: usize = if t.len() > 0 && (t[0] == '-' || t[0] == '+') {
        1
    } else {
        0
    };
    let a = scan_digits(t, i);
    let b: usize = if a > i {
        if a < t.len() && t[a] == '.' {
            scan_digits(t, a + 1)
        } else {
            a
        }
    } else {
        if a < t.len() && t[a] == '.' {
            let b0 = scan_digits(t, a + 1);
            if b0 > a + 1 {
                b0
            } else {
                return false;
            }
        } else {
            return false;
        }
    };
    check_exponent(t, b)
}

/// Reads `t` as an integer lexeme whose value fits an `i64`; yields nothing
/// on any other text.
pub fn parse_i64(t: &Vec<char>) -> (r: Option<i64>)
    ensures
        match r {
            Some(n) => is_int_lexeme(t@) && i64::MIN <= int_lexeme_value(t@) <= i64::MAX
                && n == int_lexeme_value(t@),
            None => !is_int_lexeme(t@) || int_lexeme_value(t@) < i64::MIN || int_lexeme_value(t@)
                > i64::MAX,
        },
{
    let neg = t.len() > 0 && t[0] == '-';
    let start: usize = if neg {
        1
    } else {
        0
    };
    if start >= t.len() {
        return None;
    }
    let limit: u64 = if neg {
        9223372036854775808
    } else {
        9223372036854775807
    };
    let mut i: usize = start;
    let mut mag: u64 = 0;
    while i < t.len()
        invariant
            start <= i <= t.len(),
            start < t.len(),
            neg == (t@.len() > 0 && t@[0] == '-'),
            start as int == if neg {
                1int
            } else {
                0int
            },
            limit == if neg {
                9223372036854775808u64
            } else {
                9223372036854775807u64
            },
            forall|k: int| start <= k < i ==> is_digit(#[trigger] t@[k]),
            mag == digits_value(t@, start as int, i as int),
            mag <= limit,
        decreases t.len() - i,
    {
        let c = t[i];
        if !digit(c) {
            proof {
                lemma_skip_digits(t@, start as int);
                if skip_digits(t@, start as int) == t@.len() {
                    assert(is_digit(t@[i as int]));
                    assert(false);
                }
            }
            return None;
        }
        proof {
            assert(is_digit(t@[i as int]));
            assert(c as u32 >= 48 && c as u32 <= 57);
        }
        let d: u64 = (c as u32 as u64) - 48;
        proof {
            assert(d <= 9);
            assert(d as int == t@[i as int] as int - '0' as int);
        }
        if mag > (limit - d) / 10 {
            proof {
                let l: int = (limit - d) as int;
                assert(l == (l / 10) * 10 + l % 10);
                assert(mag * 10 + d > limit);
                assert(digits_value(t@, start as int, i as int + 1) == mag * 10 + d);
                if is_int_lexeme(t@) {
                    lemma_skip_digits(t@, start as int);
                    lemma_digits_value_grows(t@, start as int, i as int + 1, t@.len() as int);
                }
            }
            return None;
        }
        mag = mag * 10 + d;
        i = i + 1;
    }
    proof {
        lemma_skip_digits_all(t@, start as int);
    }
    if neg {
        if mag == 9223372036854775808 {
            Some(i64::MIN)
        } else {
            Some(-(mag as i64))
        }
    } else {
        Some(mag as i64)
    }
}

} // verus!
