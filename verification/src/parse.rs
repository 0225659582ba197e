//! A recursive-descent JSON reader producing [`crate::json::JsonValue`].
//!
//! The grammar is stated as spec functions over the character sequence:
//! [`spec_parse_json`] names the JSON value a text denotes, or refuses
//! the text.  The executable reader is proved to return exactly that
//! value, and to refuse exactly the texts the grammar refuses.  Strings
//! carry the standard escapes, with astral characters as surrogate
//! `\uXXXX` pairs; numbers are strict JSON lexemes; object fields keep
//! wire order, duplicates included; nothing may follow the top value.
//!
//! The grammar functions refuse a sub-reading whose end position failed
//! to move right.  Readings never produce such positions — the reader's
//! contracts show its positions strictly advancing — so the branches
//! change nothing; they make every recursion visibly decreasing.

use vstd::prelude::*;

use crate::json::{arr_view, obj_view, wf_json, JsonV, JsonValue};
use crate::numbers::{check_json_number, is_json_number};
use crate::text::{char_code, chars_string};

verus! {

/// A refused input, with the character offset where reading stopped.
#[derive(Debug, PartialEq)]
pub struct ParseError {
    pub at: usize,
}

pub open spec fn is_ws(c: char) -> bool {
    c == ' ' || c == '\t' || c == '\n' || c == '\r'
}

/// Index of the first position at or after `i` that holds no
/// whitespace.
pub open spec fn spec_skip_ws(s: Seq<char>, i: int) -> int
    decreases s.len() - i,
{
    if 0 <= i < s.len() && is_ws(s[i]) {
        spec_skip_ws(s, i + 1)
    } else {
        i
    }
}

/// The characters a number lexeme may use; the collected run is then
/// held to the number grammar.
pub open spec fn is_numeric_char(c: char) -> bool {
    ('0' <= c && c <= '9') || c == '-' || c == '+' || c == '.' || c == 'e' || c == 'E'
}

/// Index of the first position at or after `i` that holds no numeric
/// character.
pub open spec fn spec_skip_numeric(s: Seq<char>, i: int) -> int
    decreases s.len() - i,
{
    if 0 <= i < s.len() && is_numeric_char(s[i]) {
        spec_skip_numeric(s, i + 1)
    } else {
        i
    }
}

/// The value of a hexadecimal digit; negative for any other character.
pub open spec fn spec_hex_val(c: char) -> int {
    if '0' <= c && c <= '9' {
        c as int - 48
    } else if 'a' <= c && c <= 'f' {
        c as int - 87
    } else if 'A' <= c && c <= 'F' {
        c as int - 55
    } else {
        -1
    }
}

/// Whether the four characters after the `\u` opener at `p` are all
/// hexadecimal digits.
pub open spec fn spec_esc_hexes_ok(s: Seq<char>, p: int) -> bool {
    spec_hex_val(s[p + 2]) >= 0 && spec_hex_val(s[p + 3]) >= 0 && spec_hex_val(s[p + 4]) >= 0
        && spec_hex_val(s[p + 5]) >= 0
}

/// The code the four digits after the `\u` opener at `p` spell.
pub open spec fn spec_esc_code(s: Seq<char>, p: int) -> int {
    ((spec_hex_val(s[p + 2]) * 16 + spec_hex_val(s[p + 3])) * 16 + spec_hex_val(s[p + 4])) * 16
        + spec_hex_val(s[p + 5])
}

/// A character's code point.
pub open spec fn char_int(c: char) -> int {
    c as int
}

/// The character with code point `x`; meaningful for valid scalar
/// values.
pub open spec fn code_char(x: int) -> char {
    choose|c: char| #[trigger] char_int(c) == x
}

proof fn lemma_code_char(ch: char, x: int)
    requires
        ch as int == x,
    ensures
        code_char(x) == ch,
{
    assert(exists|c: char| #[trigger] char_int(c) == x) by {
        assert(char_int(ch) == x);
    }
    let c0 = choose|c: char| #[trigger] char_int(c) == x;
    assert(c0 as int == ch as int);
}

/// A refusal, or the elements read so far prefixed onto a tail result.
pub open spec fn parse_prepend<T>(pre: Seq<T>, r: Option<(Seq<T>, int)>) -> Option<(Seq<T>, int)> {
    match r {
        None => None,
        Some((vs, q)) => Some((pre + vs, q)),
    }
}

proof fn lemma_prepend_empty<T>(r: Option<(Seq<T>, int)>)
    ensures
        parse_prepend(Seq::<T>::empty(), r) == r,
{
    match r {
        Some((vs, q)) => {
            assert(Seq::<T>::empty() + vs =~= vs);
        },
        None => {},
    }
}

proof fn lemma_prepend_push<T>(pre: Seq<T>, x: T, r: Option<(Seq<T>, int)>)
    ensures
        parse_prepend(pre, parse_prepend(seq![x], r)) == parse_prepend(pre.push(x), r),
{
    match r {
        Some((vs, q)) => {
            assert(pre + (seq![x] + vs) =~= pre.push(x) + vs);
        },
        None => {},
    }
}

/// The content of a string literal read from `p`: the decoded
/// characters up to the closing quote, and the position after it.
pub open spec fn spec_str_chars(s: Seq<char>, p: int) -> Option<(Seq<char>, int)>
    decreases s.len() - p,
{
    if p < 0 || p >= s.len() {
        None
    } else {
        let c = s[p];
        if c == '"' {
            Some((Seq::empty(), p + 1))
        } else if c == '\\' {
            if p + 1 >= s.len() {
                None
            } else {
                let e = s[p + 1];
                if e == '"' || e == '\\' || e == '/' {
                    parse_prepend(seq![e], spec_str_chars(s, p + 2))
                } else if e == 'n' {
                    parse_prepend(seq!['\n'], spec_str_chars(s, p + 2))
                } else if e == 't' {
                    parse_prepend(seq!['\t'], spec_str_chars(s, p + 2))
                } else if e == 'r' {
                    parse_prepend(seq!['\r'], spec_str_chars(s, p + 2))
                } else if e == 'b' {
                    parse_prepend(seq!['\u{0008}'], spec_str_chars(s, p + 2))
                } else if e == 'f' {
                    parse_prepend(seq!['\u{000C}'], spec_str_chars(s, p + 2))
                } else if e == 'u' {
                    if s.len() - p < 6 || !spec_esc_hexes_ok(s, p) {
                        None
                    } else {
                        let code = spec_esc_code(s, p);
                        if 0xD800 <= code < 0xDC00 {
                            // a high surrogate: a low-surrogate escape
                            // must follow, and the pair spells one
                            // astral character
                            if s.len() - p < 12 || s[p + 6] != '\\' || s[p + 7] != 'u'
                                || !spec_esc_hexes_ok(s, p + 6) {
                                None
                            } else {
                                let low = spec_esc_code(s, p + 6);
                                if 0xDC00 <= low < 0xE000 {
                                    parse_prepend(
                                        seq![
                                            code_char(
                                                0x10000 + (code - 0xD800) * 0x400 + (low - 0xDC00),
                                            ),
                                        ],
                                        spec_str_chars(s, p + 12),
                                    )
                                } else {
                                    None
                                }
                            }
                        } else if 0xDC00 <= code < 0xE000 {
                            None
                        } else {
                            parse_prepend(seq![code_char(code)], spec_str_chars(s, p + 6))
                        }
                    }
                } else {
                    None
                }
            }
        } else {
            parse_prepend(seq![c], spec_str_chars(s, p + 1))
        }
    }
}

/// The value read from `pos`, after optional whitespace, and the
/// position after it.
pub open spec fn spec_parse_value(s: Seq<char>, pos: int) -> Option<(JsonV, int)>
    decreases s.len() - pos, 0int,
{
    if pos < 0 {
        None
    } else {
        let i = spec_skip_ws(s, pos);
        if i < pos || i >= s.len() {
            None
        } else {
            let c = s[i];
            if c == 'n' {
                if s.len() - i >= 4 && s[i + 1] == 'u' && s[i + 2] == 'l' && s[i + 3] == 'l' {
                    Some((JsonV::Null, i + 4))
                } else {
                    None
                }
            } else if c == 't' {
                if s.len() - i >= 4 && s[i + 1] == 'r' && s[i + 2] == 'u' && s[i + 3] == 'e' {
                    Some((JsonV::Bool(true), i + 4))
                } else {
                    None
                }
            } else if c == 'f' {
                if s.len() - i >= 5 && s[i + 1] == 'a' && s[i + 2] == 'l' && s[i + 3] == 's' && s[i
                    + 4] == 'e' {
                    Some((JsonV::Bool(false), i + 5))
                } else {
                    None
                }
            } else if c == '"' {
                match spec_str_chars(s, i + 1) {
                    None => None,
                    Some((cs, q)) => Some((JsonV::Str(cs), q)),
                }
            } else if c == '[' {
                let p = spec_skip_ws(s, i + 1);
                if p < i + 1 || p > s.len() {
                    None
                } else if p < s.len() && s[p] == ']' {
                    Some((JsonV::Arr(Seq::empty()), p + 1))
                } else {
                    match spec_parse_items(s, p) {
                        None => None,
                        Some((vs, q)) => Some((JsonV::Arr(vs), q)),
                    }
                }
            } else if c == '{' {
                let p = spec_skip_ws(s, i + 1);
                if p < i + 1 || p > s.len() {
                    None
                } else if p < s.len() && s[p] == '}' {
                    Some((JsonV::Obj(Seq::empty()), p + 1))
                } else {
                    match spec_parse_fields(s, p) {
                        None => None,
                        Some((fs, q)) => Some((JsonV::Obj(fs), q)),
                    }
                }
            } else if is_numeric_char(c) {
                let j = spec_skip_numeric(s, i);
                if j <= i || j > s.len() {
                    None
                } else if is_json_number(s.subrange(i, j)) {
                    Some((JsonV::Num(s.subrange(i, j)), j))
                } else {
                    None
                }
            } else {
                None
            }
        }
    }
}

/// The remaining array items read from `p`: the first item, then a
/// comma and more items or the closing bracket.
pub open spec fn spec_parse_items(s: Seq<char>, p: int) -> Option<(Seq<JsonV>, int)>
    decreases s.len() - p, 1int,
{
    if p < 0 {
        None
    } else {
        match spec_parse_value(s, p) {
            None => None,
            Some((v, q)) => {
                if q <= p || q > s.len() {
                    None
                } else {
                    let r = spec_skip_ws(s, q);
                    if r < q {
                        None
                    } else if r < s.len() && s[r] == ',' {
                        let p2 = spec_skip_ws(s, r + 1);
                        if p2 < r + 1 || p2 > s.len() {
                            None
                        } else {
                            parse_prepend(seq![v], spec_parse_items(s, p2))
                        }
                    } else if r < s.len() && s[r] == ']' {
                        Some((seq![v], r + 1))
                    } else {
                        None
                    }
                }
            },
        }
    }
}

/// The remaining object fields read from `p`: a quoted key, a colon,
/// the value, then a comma and more fields or the closing brace.
pub open spec fn spec_parse_fields(s: Seq<char>, p: int) -> Option<(Seq<(Seq<char>, JsonV)>, int)>
    decreases s.len() - p, 1int,
{
    if p < 0 || p >= s.len() || s[p] != '"' {
        None
    } else {
        match spec_str_chars(s, p + 1) {
            None => None,
            Some((key, pk)) => {
                if pk <= p || pk > s.len() {
                    None
                } else {
                    let pc = spec_skip_ws(s, pk);
                    if pc < pk || !(pc < s.len() && s[pc] == ':') {
                        None
                    } else {
                        match spec_parse_value(s, pc + 1) {
                            None => None,
                            Some((v, q)) => {
                                if q <= pc + 1 || q > s.len() {
                                    None
                                } else {
                                    let r = spec_skip_ws(s, q);
                                    if r < q {
                                        None
                                    } else if r < s.len() && s[r] == ',' {
                                        let p2 = spec_skip_ws(s, r + 1);
                                        if p2 < r + 1 || p2 > s.len() {
                                            None
                                        } else {
                                            parse_prepend(
                                                seq![(key, v)],
                                                spec_parse_fields(s, p2),
                                            )
                                        }
                                    } else if r < s.len() && s[r] == '}' {
                                        Some((seq![(key, v)], r + 1))
                                    } else {
                                        None
                                    }
                                }
                            },
                        }
                    }
                }
            },
        }
    }
}

/// The JSON value a whole text denotes: one value, with nothing but
/// whitespace after it.
pub open spec fn spec_parse_json(s: Seq<char>) -> Option<JsonV> {
    match spec_parse_value(s, 0) {
        None => None,
        Some((v, p)) => {
            if spec_skip_ws(s, p) == s.len() {
                Some(v)
            } else {
                None
            }
        },
    }
}

/// Reads one JSON document from `s`: exactly the value
/// [`spec_parse_json`] gives `s`, refused exactly when the grammar
/// refuses `s`.
pub fn parse_json(s: &str) -> (r: Result<JsonValue, ParseError>)
    ensures
        match r {
            Ok(v) => wf_json(v) && spec_parse_json(s@) == Some(v@),
            Err(_) => spec_parse_json(s@) is None,
        },
{
    let t = crate::text::str_chars(s);
    let (v, p) = match parse_value(&t, 0) {
        Ok(x) => x,
        Err(e) => {
            return Err(e);
        },
    };
    let q = skip_ws(&t, p);
    if q != t.len() {
        return Err(ParseError { at: q });
    }
    Ok(v)
}

#[verifier::loop_isolation(false)]
fn skip_ws(t: &Vec<char>, from: usize) -> (r: usize)
    requires
        from <= t.len(),
    ensures
        from <= r <= t.len(),
        r == spec_skip_ws(t@, from as int),
{
    let mut i: usize = from;
    while i < t.len() && (t[i] == ' ' || t[i] == '\t' || t[i] == '\n' || t[i] == '\r')
        invariant
            from <= i <= t.len(),
            spec_skip_ws(t@, from as int) == spec_skip_ws(t@, i as int),
        decreases t.len() - i,
    {
        i = i + 1;
    }
    i
}

fn numeric_char(c: char) -> (r: bool)
    ensures
        r == is_numeric_char(c),
{
    ('0' <= c && c <= '9') || c == '-' || c == '+' || c == '.' || c == 'e' || c == 'E'
}

fn hex_digit(c: char) -> (r: Option<u32>)
    ensures
        match r {
            Some(v) => spec_hex_val(c) == v && v < 16,
            None => spec_hex_val(c) < 0,
        },
{
    let code = char_code(c);
    if '0' <= c && c <= '9' {
        Some(code - 48)
    } else if 'a' <= c && c <= 'f' {
        Some(code - 87)
    } else if 'A' <= c && c <= 'F' {
        Some(code - 55)
    } else {
        None
    }
}

/// Relies on char::from_u32: yields the scalar value with that code,
/// and nothing for surrogate codes or codes past the last scalar
/// value.
#[verifier::external_body]
fn char_from_u32(x: u32) -> (r: Option<char>)
    ensures
        match r {
            Some(c) => c as int == x,
            None => 0xD800 <= x < 0xE000 || x > 0x10FFFF,
        },
{
    char::from_u32(x)
}

/// Reads the value starting at `pos` (after optional whitespace): on
/// success exactly the value and end position [`spec_parse_value`]
/// gives, on refusal exactly when it refuses.
#[verifier::loop_isolation(false)]
fn parse_value(t: &Vec<char>, pos: usize) -> (r: Result<(JsonValue, usize), ParseError>)
    requires
        pos <= t.len(),
    ensures
        match r {
            Ok(vp) => wf_json(vp.0) && pos < vp.1 <= t.len() && spec_parse_value(t@, pos as int)
                == Some((vp.0@, vp.1 as int)),
            Err(_) => spec_parse_value(t@, pos as int) is None,
        },
    decreases t.len() - pos,
{
    let i = skip_ws(t, pos);
    if i >= t.len() {
        return Err(ParseError { at: i });
    }
    let c = t[i];
    if c == 'n' {
        if t.len() - i >= 4 && t[i + 1] == 'u' && t[i + 2] == 'l' && t[i + 3] == 'l' {
            Ok((JsonValue::Null, i + 4))
        } else {
            Err(ParseError { at: i })
        }
    } else if c == 't' {
        if t.len() - i >= 4 && t[i + 1] == 'r' && t[i + 2] == 'u' && t[i + 3] == 'e' {
            Ok((JsonValue::Bool(true), i + 4))
        } else {
            Err(ParseError { at: i })
        }
    } else if c == 'f' {
        if t.len() - i >= 5 && t[i + 1] == 'a' && t[i + 2] == 'l' && t[i + 3] == 's' && t[i + 4]
            == 'e' {
            Ok((JsonValue::Bool(false), i + 5))
        } else {
            Err(ParseError { at: i })
        }
    } else if c == '"' {
        match parse_string(t, i) {
            Ok((s, p)) => Ok((JsonValue::Str(s), p)),
            Err(e) => Err(e),
        }
    } else if c == '[' {
        let mut items: Vec<JsonValue> = Vec::new();
        let mut p: usize = skip_ws(t, i + 1);
        if p < t.len() && t[p] == ']' {
            return Ok((JsonValue::Arr(items), p + 1));
        }
        let ghost p0 = p as int;
        proof {
            lemma_prepend_empty(spec_parse_items(t@, p0));
        }
        loop
            invariant
                i < p <= t.len(),
                spec_parse_items(t@, p0) == parse_prepend(
                    arr_view(items@),
                    spec_parse_items(t@, p as int),
                ),
                forall|k: int| 0 <= k < items@.len() ==> wf_json(#[trigger] items@[k]),
            decreases t.len() - p,
        {
            let (v, p2) = match parse_value(t, p) {
                Ok(x) => x,
                Err(e) => {
                    return Err(e);
                },
            };
            let p3 = skip_ws(t, p2);
            if p3 < t.len() && t[p3] == ',' {
                let pn = skip_ws(t, p3 + 1);
                let ghost pre = items@;
                items.push(v);
                proof {
                    assert(spec_parse_items(t@, p as int) == parse_prepend(
                        seq![v@],
                        spec_parse_items(t@, pn as int),
                    ));
                    lemma_prepend_push(arr_view(pre), v@, spec_parse_items(t@, pn as int));
                    assert(items@.drop_last() =~= pre);
                    assert(arr_view(items@) == arr_view(pre).push(v@));
                }
                p = pn;
            } else if p3 < t.len() && t[p3] == ']' {
                let ghost pre = items@;
                items.push(v);
                proof {
                    assert(spec_parse_items(t@, p as int) == Some((seq![v@], p3 as int + 1)));
                    assert(items@.drop_last() =~= pre);
                    assert(arr_view(items@) == arr_view(pre).push(v@));
                    assert(arr_view(pre) + seq![v@] =~= arr_view(pre).push(v@));
                    assert(forall|k: int| 0 <= k < items@.len() ==> wf_json(#[trigger] items@[k]));
                }
                return Ok((JsonValue::Arr(items), p3 + 1));
            } else {
                proof {
                    assert(spec_parse_items(t@, p as int) is None);
                }
                return Err(ParseError { at: p3 });
            }
        }
    } else if c == '{' {
        let mut fields: Vec<(String, JsonValue)> = Vec::new();
        let mut p: usize = skip_ws(t, i + 1);
        if p < t.len() && t[p] == '}' {
            return Ok((JsonValue::Obj(fields), p + 1));
        }
        let ghost p0 = p as int;
        proof {
            lemma_prepend_empty(spec_parse_fields(t@, p0));
        }
        loop
            invariant
                i < p <= t.len(),
                spec_parse_fields(t@, p0) == parse_prepend(
                    obj_view(fields@),
                    spec_parse_fields(t@, p as int),
                ),
                forall|k: int| 0 <= k < fields@.len() ==> wf_json((#[trigger] fields@[k]).1),
            decreases t.len() - p,
        {
            if !(p < t.len() && t[p] == '"') {
                proof {
                    assert(spec_parse_fields(t@, p as int) is None);
                }
                return Err(ParseError { at: p });
            }
            let (key, pk) = match parse_string(t, p) {
                Ok(x) => x,
                Err(e) => {
                    return Err(e);
                },
            };
            let pc = skip_ws(t, pk);
            if !(pc < t.len() && t[pc] == ':') {
                proof {
                    assert(spec_parse_fields(t@, p as int) is None);
                }
                return Err(ParseError { at: pc });
            }
            let (v, p2) = match parse_value(t, pc + 1) {
                Ok(x) => x,
                Err(e) => {
                    return Err(e);
                },
            };
            let p3 = skip_ws(t, p2);
            if p3 < t.len() && t[p3] == ',' {
                let pn = skip_ws(t, p3 + 1);
                let ghost pre = fields@;
                fields.push((key, v));
                proof {
                    assert(spec_parse_fields(t@, p as int) == parse_prepend(
                        seq![(key@, v@)],
                        spec_parse_fields(t@, pn as int),
                    ));
                    lemma_prepend_push(
                        obj_view(pre),
                        (key@, v@),
                        spec_parse_fields(t@, pn as int),
                    );
                    assert(fields@.drop_last() =~= pre);
                    assert(obj_view(fields@) == obj_view(pre).push((key@, v@)));
                }
                p = pn;
            } else if p3 < t.len() && t[p3] == '}' {
                let ghost pre = fields@;
                fields.push((key, v));
                proof {
                    assert(spec_parse_fields(t@, p as int) == Some(
                        (seq![(key@, v@)], p3 as int + 1),
                    ));
                    assert(fields@.drop_last() =~= pre);
                    assert(obj_view(fields@) == obj_view(pre).push((key@, v@)));
                    assert(obj_view(pre) + seq![(key@, v@)] =~= obj_view(pre).push((key@, v@)));
                    assert(forall|k: int|
                        0 <= k < fields@.len() ==> wf_json((#[trigger] fields@[k]).1));
                }
                return Ok((JsonValue::Obj(fields), p3 + 1));
            } else {
                proof {
                    assert(spec_parse_fields(t@, p as int) is None);
                }
                return Err(ParseError { at: p3 });
            }
        }
    } else if numeric_char(c) {
        let mut j: usize = i;
        let mut lex: Vec<char> = Vec::new();
        while j < t.len() && numeric_char(t[j])
            invariant
                i <= j <= t.len(),
                lex@ == t@.subrange(i as int, j as int),
                spec_skip_numeric(t@, i as int) == spec_skip_numeric(t@, j as int),
            decreases t.len() - j,
        {
            lex.push(t[j]);
            proof {
                assert(t@.subrange(i as int, j as int + 1) =~= t@.subrange(i as int, j as int).push(
                    t@[j as int],
                ));
            }
            j = j + 1;
        }
        if check_json_number(&lex) {
            proof {
                assert(lex@.len() > 0);
            }
            Ok((JsonValue::Num(chars_string(&lex)), j))
        } else {
            Err(ParseError { at: i })
        }
    } else {
        Err(ParseError { at: i })
    }
}

/// Reads the string literal starting at the quote at `from`: on
/// success exactly the content and end position [`spec_str_chars`]
/// gives for `from + 1`, on refusal exactly when it refuses.
#[verifier::loop_isolation(false)]
fn parse_string(t: &Vec<char>, from: usize) -> (r: Result<(String, usize), ParseError>)
    requires
        from < t.len(),
        t@[from as int] == '"',
    ensures
        match r {
            Ok(sp) => from < sp.1 <= t.len() && spec_str_chars(t@, from as int + 1) == Some(
                (sp.0@, sp.1 as int),
            ),
            Err(_) => spec_str_chars(t@, from as int + 1) is None,
        },
{
    let mut buf: Vec<char> = Vec::new();
    let mut p: usize = from + 1;
    proof {
        lemma_prepend_empty(spec_str_chars(t@, from as int + 1));
    }
    loop
        invariant
            from < p <= t.len(),
            spec_str_chars(t@, from as int + 1) == parse_prepend(
                buf@,
                spec_str_chars(t@, p as int),
            ),
        decreases t.len() - p,
    {
        if p >= t.len() {
            return Err(ParseError { at: p });
        }
        let c = t[p];
        if c == '"' {
            proof {
                assert(buf@ + Seq::<char>::empty() =~= buf@);
            }
            return Ok((chars_string(&buf), p + 1));
        } else if c == '\\' {
            if p + 1 >= t.len() {
                return Err(ParseError { at: p });
            }
            let e = t[p + 1];
            if e == '"' || e == '\\' || e == '/' {
                push_decoded(t, &mut buf, e, p, p + 2);
                p = p + 2;
            } else if e == 'n' {
                push_decoded(t, &mut buf, '\n', p, p + 2);
                p = p + 2;
            } else if e == 't' {
                push_decoded(t, &mut buf, '\t', p, p + 2);
                p = p + 2;
            } else if e == 'r' {
                push_decoded(t, &mut buf, '\r', p, p + 2);
                p = p + 2;
            } else if e == 'b' {
                push_decoded(t, &mut buf, '\u{0008}', p, p + 2);
                p = p + 2;
            } else if e == 'f' {
                push_decoded(t, &mut buf, '\u{000C}', p, p + 2);
                p = p + 2;
            } else if e == 'u' {
                if t.len() - p < 6 {
                    return Err(ParseError { at: p });
                }
                let code: u32 = match read_hexes(t, p) {
                    Some(x) => x,
                    None => {
                        return Err(ParseError { at: p + 2 });
                    },
                };
                if 0xD800 <= code && code < 0xDC00 {
                    if t.len() - p < 12 {
                        return Err(ParseError { at: p });
                    }
                    if !(t[p + 6] == '\\' && t[p + 7] == 'u') {
                        return Err(ParseError { at: p + 6 });
                    }
                    let low: u32 = match read_hexes(t, p + 6) {
                        Some(x) => x,
                        None => {
                            return Err(ParseError { at: p + 8 });
                        },
                    };
                    if !(0xDC00 <= low && low < 0xE000) {
                        return Err(ParseError { at: p + 6 });
                    }
                    let scalar: u32 = 0x10000 + (code - 0xD800) * 0x400 + (low - 0xDC00);
                    let ch = match char_from_u32(scalar) {
                        Some(ch) => ch,
                        None => {
                            proof {
                                assert(false);
                            }
                            return Err(ParseError { at: p });
                        },
                    };
                    proof {
                        lemma_code_char(ch, scalar as int);
                    }
                    push_decoded(t, &mut buf, ch, p, p + 12);
                    p = p + 12;
                } else if 0xDC00 <= code && code < 0xE000 {
                    return Err(ParseError { at: p + 2 });
                } else {
                    let ch = match char_from_u32(code) {
                        Some(ch) => ch,
                        None => {
                            proof {
                                assert(false);
                            }
                            return Err(ParseError { at: p });
                        },
                    };
                    proof {
                        lemma_code_char(ch, code as int);
                    }
                    push_decoded(t, &mut buf, ch, p, p + 6);
                    p = p + 6;
                }
            } else {
                return Err(ParseError { at: p + 1 });
            }
        } else {
            push_decoded(t, &mut buf, c, p, p + 1);
            p = p + 1;
        }
    }
}

/// Appends one decoded character, carrying the reading relation from
/// position `p` to position `pnext`.
#[verifier::loop_isolation(false)]
fn push_decoded(t: &Vec<char>, buf: &mut Vec<char>, ch: char, p: usize, pnext: usize)
    requires
        spec_str_chars(t@, p as int) == parse_prepend(
            seq![ch],
            spec_str_chars(t@, pnext as int),
        ),
    ensures
        final(buf)@ == old(buf)@.push(ch),
        parse_prepend(old(buf)@, spec_str_chars(t@, p as int)) == parse_prepend(
            final(buf)@,
            spec_str_chars(t@, pnext as int),
        ),
{
    proof {
        lemma_prepend_push(buf@, ch, spec_str_chars(t@, pnext as int));
    }
    buf.push(ch);
}

/// Reads the four hexadecimal digits of the `\u` escape at `p`.
fn read_hexes(t: &Vec<char>, p: usize) -> (r: Option<u32>)
    requires
        p + 6 <= t.len(),
    ensures
        match r {
            Some(x) => spec_esc_hexes_ok(t@, p as int) && x == spec_esc_code(t@, p as int),
            None => !spec_esc_hexes_ok(t@, p as int),
        },
{
    let h0 = match hex_digit(t[p + 2]) {
        Some(h) => h,
        None => {
            return None;
        },
    };
    let h1 = match hex_digit(t[p + 3]) {
        Some(h) => h,
        None => {
            return None;
        },
    };
    let h2 = match hex_digit(t[p + 4]) {
        Some(h) => h,
        None => {
            return None;
        },
    };
    let h3 = match hex_digit(t[p + 5]) {
        Some(h) => h,
        None => {
            return None;
        },
    };
    Some(((h0 * 16 + h1) * 16 + h2) * 16 + h3)
}

} // verus!
