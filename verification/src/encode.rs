//! Encoding model values back into wire form.
//!
//! Each encoder builds the JSON value a model value denotes, and the
//! writer turns a JSON value into text: the exact character sequence is
//! specified, so what goes out is pinned down to the character.

use vstd::prelude::*;

use crate::json::{arr_view, lemma_arr_view, lemma_obj_view, obj_view, JsonV, JsonValue};
use crate::result_types::{
    ActiveTarget, Alert, AlertManager, AlertManagers, AlertState, ApiErr, ApiOk, ApiResult, Config,
    Data, DroppedTarget, Expression, Instant, LabelsOrValues, Metric, Range, Rule, RuleGroups,
    RuleType, Rules, Sample, SampleValue, Series, Snapshot, StringSample, TargetHealth, Targets,
};
use crate::string_map::StringMap;
use crate::text::{chars_string, push_lit};

verus! {

// The text a JSON value denotes.

/// The character for one hexadecimal digit.
pub open spec fn hex_char(d: int) -> char {
    if d == 0 {
        '0'
    } else if d == 1 {
        '1'
    } else if d == 2 {
        '2'
    } else if d == 3 {
        '3'
    } else if d == 4 {
        '4'
    } else if d == 5 {
        '5'
    } else if d == 6 {
        '6'
    } else if d == 7 {
        '7'
    } else if d == 8 {
        '8'
    } else if d == 9 {
        '9'
    } else if d == 10 {
        'a'
    } else if d == 11 {
        'b'
    } else if d == 12 {
        'c'
    } else if d == 13 {
        'd'
    } else if d == 14 {
        'e'
    } else {
        'f'
    }
}

/// Writes one hexadecimal digit.
fn hex_char_exec(d: u32) -> (r: char)
    ensures
        r == hex_char(d as int),
{
    if d == 0 {
        '0'
    } else if d == 1 {
        '1'
    } else if d == 2 {
        '2'
    } else if d == 3 {
        '3'
    } else if d == 4 {
        '4'
    } else if d == 5 {
        '5'
    } else if d == 6 {
        '6'
    } else if d == 7 {
        '7'
    } else if d == 8 {
        '8'
    } else if d == 9 {
        '9'
    } else if d == 10 {
        'a'
    } else if d == 11 {
        'b'
    } else if d == 12 {
        'c'
    } else if d == 13 {
        'd'
    } else if d == 14 {
        'e'
    } else {
        'f'
    }
}

/// How one character appears inside a string literal: the quote and the
/// backslash are escaped, the five control characters with short forms
/// use them, any other control character becomes a `\u00XX` escape,
/// and every remaining character stands for itself.
pub open spec fn esc_char(c: char) -> Seq<char> {
    if c == '"' {
        seq!['\\', '"']
    } else if c == '\\' {
        seq!['\\', '\\']
    } else if c == '\n' {
        seq!['\\', 'n']
    } else if c == '\t' {
        seq!['\\', 't']
    } else if c == '\r' {
        seq!['\\', 'r']
    } else if c == '\u{0008}' {
        seq!['\\', 'b']
    } else if c == '\u{000C}' {
        seq!['\\', 'f']
    } else if c <= '\u{001F}' {
        seq!['\\', 'u', '0', '0', hex_char(c as int / 16), hex_char(c as int % 16)]
    } else {
        seq![c]
    }
}

/// The first `i` characters of `s`, escaped.
pub open spec fn esc_text(s: Seq<char>, i: int) -> Seq<char>
    decreases i,
{
    if i <= 0 {
        Seq::empty()
    } else {
        esc_text(s, i - 1) + esc_char(s[i - 1])
    }
}

/// A string literal's text: quoted and escaped.
pub open spec fn str_text(s: Seq<char>) -> Seq<char> {
    seq!['"'] + esc_text(s, s.len() as int) + seq!['"']
}

/// The text of a JSON value.
pub open spec fn spec_json_text(v: JsonV) -> Seq<char>
    decreases v, 0int,
{
    match v {
        JsonV::Null => "null"@,
        JsonV::Bool(b) => {
            if b {
                "true"@
            } else {
                "false"@
            }
        },
        JsonV::Num(s) => s,
        JsonV::Str(s) => str_text(s),
        JsonV::Arr(a) => seq!['['] + items_text(a, a.len() as int) + seq![']'],
        JsonV::Obj(o) => seq!['{'] + fields_text(o, o.len() as int) + seq!['}'],
    }
}

/// The text of the first `i` array items, comma-separated.
pub open spec fn items_text(a: Seq<JsonV>, i: int) -> Seq<char>
    decreases a, i,
{
    if i <= 0 || i > a.len() {
        Seq::empty()
    } else if i == 1 {
        spec_json_text(a[0])
    } else {
        items_text(a, i - 1) + seq![','] + spec_json_text(a[i - 1])
    }
}

/// The text of the first `i` object fields, comma-separated.
pub open spec fn fields_text(o: Seq<(Seq<char>, JsonV)>, i: int) -> Seq<char>
    decreases o, i,
{
    if i <= 0 || i > o.len() {
        Seq::empty()
    } else if i == 1 {
        str_text(o[0].0) + seq![':'] + spec_json_text(o[0].1)
    } else {
        fields_text(o, i - 1) + seq![','] + str_text(o[i - 1].0) + seq![':'] + spec_json_text(
            o[i - 1].1,
        )
    }
}

/// Appends one string literal: quote, escaped characters, quote.
#[verifier::loop_isolation(false)]
fn write_str(s: &str, out: &mut Vec<char>)
    ensures
        final(out)@ == old(out)@ + str_text(s@),
{
    let t = crate::text::str_chars(s);
    out.push('"');
    let ghost base = out@;
    let mut i: usize = 0;
    while i < t.len()
        invariant
            i <= t@.len(),
            t@ == s@,
            out@ == base + esc_text(s@, i as int),
        decreases t.len() - i,
    {
        let c = t[i];
        if c == '"' {
            out.push('\\');
            out.push('"');
        } else if c == '\\' {
            out.push('\\');
            out.push('\\');
        } else if c == '\n' {
            out.push('\\');
            out.push('n');
        } else if c == '\t' {
            out.push('\\');
            out.push('t');
        } else if c == '\r' {
            out.push('\\');
            out.push('r');
        } else if c == '\u{0008}' {
            out.push('\\');
            out.push('b');
        } else if c == '\u{000C}' {
            out.push('\\');
            out.push('f');
        } else if c <= '\u{001F}' {
            out.push('\\');
            out.push('u');
            out.push('0');
            out.push('0');
            let code: u32 = crate::text::char_code(c);
            let hc = hex_char_exec(code / 16);
            let lc = hex_char_exec(code % 16);
            proof {
                assert(code / 16 == c as int / 16 && code % 16 == c as int % 16);
            }
            out.push(hc);
            out.push(lc);
        } else {
            out.push(c);
        }
        proof {
            assert(out@ =~= base + esc_text(s@, i as int) + esc_char(s@[i as int]));
        }
        i = i + 1;
    }
    out.push('"');
    proof {
        assert(out@ =~= old(out)@ + str_text(s@));
    }
}

/// Appends the text of a JSON value.
#[verifier::loop_isolation(false)]
pub fn write_value(v: &JsonValue, out: &mut Vec<char>)
    ensures
        final(out)@ == old(out)@ + spec_json_text(v@),
    decreases *v,
{
    match v {
        JsonValue::Null => {
            push_lit(out, "null");
        },
        JsonValue::Bool(b) => {
            if *b {
                push_lit(out, "true");
            } else {
                push_lit(out, "false");
            }
        },
        JsonValue::Num(s) => {
            push_lit(out, s.as_str());
        },
        JsonValue::Str(s) => {
            write_str(s.as_str(), out);
        },
        JsonValue::Arr(a) => {
            proof {
                lemma_arr_view(a@);
            }
            let ghost av = arr_view(a@);
            out.push('[');
            let ghost base = out@;
            let mut i: usize = 0;
            while i < a.len()
                invariant
                    i <= a@.len(),
                    av == arr_view(a@),
                    av.len() == a@.len(),
                    forall|k: int| 0 <= k < a@.len() ==> #[trigger] av[k] == a@[k]@,
                    out@ == base + items_text(av, i as int),
                decreases a.len() - i,
            {
                if i > 0 {
                    out.push(',');
                }
                write_value(&a[i], out);
                proof {
                    if i == 0 {
                        assert(out@ =~= base + items_text(av, 1));
                    } else {
                        assert(out@ =~= base + (items_text(av, i as int) + seq![',']
                            + spec_json_text(av[i as int])));
                    }
                }
                i = i + 1;
            }
            out.push(']');
            proof {
                assert(out@ =~= old(out)@ + spec_json_text(v@));
            }
        },
        JsonValue::Obj(o) => {
            proof {
                lemma_obj_view(o@);
            }
            let ghost ov = obj_view(o@);
            out.push('{');
            let ghost base = out@;
            let mut i: usize = 0;
            while i < o.len()
                invariant
                    i <= o@.len(),
                    ov == obj_view(o@),
                    ov.len() == o@.len(),
                    forall|k: int|
                        0 <= k < o@.len() ==> #[trigger] ov[k] == (o@[k].0@, o@[k].1@),
                    out@ == base + fields_text(ov, i as int),
                decreases o.len() - i,
            {
                if i > 0 {
                    out.push(',');
                }
                write_str(o[i].0.as_str(), out);
                out.push(':');
                write_value(&o[i].1, out);
                proof {
                    if i == 0 {
                        assert(out@ =~= base + fields_text(ov, 1));
                    } else {
                        assert(out@ =~= base + (fields_text(ov, i as int) + seq![','] + str_text(
                            ov[i as int].0,
                        ) + seq![':'] + spec_json_text(ov[i as int].1)));
                    }
                }
                i = i + 1;
            }
            out.push('}');
            proof {
                assert(out@ =~= old(out)@ + spec_json_text(v@));
            }
        },
    }
}

/// The text of a JSON value, as a string.
pub fn json_to_string(v: &JsonValue) -> (r: String)
    ensures
        r@ == spec_json_text(v@),
{
    let mut out: Vec<char> = Vec::new();
    write_value(v, &mut out);
    chars_string(&out)
}

// Decimal text of integers, for re-encoding interval and duration
// fields.

/// The decimal digit character for `d`.
pub open spec fn digit_char(d: int) -> char {
    ((d + 48) as u8) as char
}

/// The decimal text of `n`, most significant digit first.
pub open spec fn nat_text(n: int) -> Seq<char>
    decreases n,
{
    if n < 10 {
        seq![digit_char(if n < 0 {
            0
        } else {
            n
        })]
    } else {
        nat_text(n / 10).push(digit_char(n % 10))
    }
}

/// The decimal text of a 64-bit signed value.
pub open spec fn i64_text(n: i64) -> Seq<char> {
    if n < 0 {
        seq!['-'] + nat_text(-n as int)
    } else {
        nat_text(n as int)
    }
}

/// Writes the decimal text of `n`.
#[verifier::loop_isolation(false)]
pub fn i64_to_string(n: i64) -> (r: String)
    ensures
        r@ == i64_text(n),
{
    let mut out: Vec<char> = Vec::new();
    let mag: u64 = if n < 0 {
        out.push('-');
        ((-(n + 1)) as u64) + 1
    } else {
        n as u64
    };
    let ghost base = out@;
    let mut rev: Vec<char> = Vec::new();
    let mut m: u64 = mag;
    while m >= 10
        invariant
            nat_text(mag as int) == nat_text(m as int) + rev@.reverse(),
        decreases m,
    {
        let d: u8 = (m % 10) as u8;
        rev.push(((d + 48) as char));
        proof {
            assert(nat_text(m as int) =~= nat_text(m as int / 10).push(digit_char(m as int % 10)));
            assert(rev@.reverse() =~= seq![digit_char(m as int % 10)] + rev@.drop_last().reverse());
            assert(nat_text(m as int / 10) + rev@.reverse() =~= nat_text(mag as int));
        }
        m = m / 10;
    }
    let d: u8 = m as u8;
    rev.push(((d + 48) as char));
    proof {
        assert(nat_text(m as int) =~= seq![digit_char(m as int)]);
        assert(rev@.reverse() =~= nat_text(mag as int));
    }
    let mut j: usize = rev.len();
    while j > 0
        invariant
            j <= rev@.len(),
            out@ == base + rev@.reverse().take(rev@.len() - j),
        decreases j,
    {
        j = j - 1;
        out.push(rev[j]);
        proof {
            assert(rev@.reverse()[rev@.len() - j - 1] == rev@[j as int]);
            assert(out@ =~= base + rev@.reverse().take(rev@.len() - j));
        }
    }
    proof {
        assert(rev@.reverse().take(rev@.len() as int) =~= rev@.reverse());
        if n < 0 {
            assert(out@ =~= i64_text(n));
        } else {
            assert(out@ =~= i64_text(n));
        }
    }
    chars_string(&out)
}


// Entity encoders: each builds the JSON value a model value denotes.

/// The wire text of a sample value: a sentinel token, or the kept
/// floating point text.
pub open spec fn sample_value_text(v: SampleValue) -> Seq<char> {
    match v {
        SampleValue::PosInfinity => "Inf"@,
        SampleValue::NegInfinity => "-Inf"@,
        SampleValue::NotANumber => "NaN"@,
        SampleValue::Finite(t) => t@,
    }
}

/// Encode of a sample: the positional pair, the value as a string.
pub open spec fn spec_encode_sample(s: Sample) -> JsonV {
    JsonV::Arr(seq![JsonV::Num(s.epoch@), JsonV::Str(sample_value_text(s.value))])
}

/// Writes a sample in its positional wire form.
pub fn encode_sample(s: &Sample) -> (r: JsonValue)
    ensures
        r@ == spec_encode_sample(*s),
{
    let mut a: Vec<JsonValue> = Vec::new();
    a.push(JsonValue::Num(s.epoch.clone()));
    let vt: String = match &s.value {
        SampleValue::PosInfinity => String::from_str("Inf"),
        SampleValue::NegInfinity => String::from_str("-Inf"),
        SampleValue::NotANumber => String::from_str("NaN"),
        SampleValue::Finite(t) => t.clone(),
    };
    a.push(JsonValue::Str(vt));
    let ghost av = a@;
    proof {
        lemma_arr_view(av);
        assert(arr_view(av) =~= seq![
            JsonV::Num(s.epoch@),
            JsonV::Str(sample_value_text(s.value)),
        ]);
    }
    JsonValue::Arr(a)
}

/// Encode of a string sample: the positional pair, the value verbatim.
pub open spec fn spec_encode_string_sample(s: StringSample) -> JsonV {
    JsonV::Arr(seq![JsonV::Num(s.epoch@), JsonV::Str(s.value@)])
}

/// Writes a string sample in its positional wire form.
pub fn encode_string_sample(s: &StringSample) -> (r: JsonValue)
    ensures
        r@ == spec_encode_string_sample(*s),
{
    let mut a: Vec<JsonValue> = Vec::new();
    a.push(JsonValue::Num(s.epoch.clone()));
    a.push(JsonValue::Str(s.value.clone()));
    let ghost av = a@;
    proof {
        lemma_arr_view(av);
        assert(arr_view(av) =~= seq![JsonV::Num(s.epoch@), JsonV::Str(s.value@)]);
    }
    JsonValue::Arr(a)
}

/// Encode of a string map: one string field per binding, in the map's
/// insertion order.
pub open spec fn spec_encode_string_map(m: StringMap) -> JsonV {
    JsonV::Obj(
        Seq::new(
            m.entry_seq().len(),
            |i: int| (m.entry_seq()[i].0@, JsonV::Str(m.entry_seq()[i].1@)),
        ),
    )
}

/// Writes a string map as an object of strings.
#[verifier::loop_isolation(false)]
pub fn encode_string_map(m: &StringMap) -> (r: JsonValue)
    ensures
        r@ == spec_encode_string_map(*m),
{
    let mut fs: Vec<(String, JsonValue)> = Vec::new();
    let mut i: usize = 0;
    while i < m.entries.len()
        invariant
            i <= m.entry_seq().len(),
            fs@.len() == i,
            forall|k: int|
                0 <= k < i ==> (#[trigger] fs@[k]).0@ == m.entry_seq()[k].0@ && fs@[k].1@
                    == JsonV::Str(m.entry_seq()[k].1@),
        decreases m.entries.len() - i,
    {
        fs.push((m.entries[i].0.clone(), JsonValue::Str(m.entries[i].1.clone())));
        i = i + 1;
    }
    let ghost fsv = fs@;
    proof {
        lemma_obj_view(fsv);
        assert(obj_view(fsv) =~= Seq::new(
            m.entry_seq().len(),
            |k: int| (m.entry_seq()[k].0@, JsonV::Str(m.entry_seq()[k].1@)),
        ));
    }
    JsonValue::Obj(fs)
}

/// Encode of one instant-vector entry.
pub open spec fn spec_encode_instant(x: Instant) -> JsonV {
    JsonV::Obj(
        seq![
            ("metric"@, spec_encode_string_map(x.metric.labels)),
            ("value"@, spec_encode_sample(x.sample)),
        ],
    )
}

/// Writes one instant-vector entry.
pub fn encode_instant(x: &Instant) -> (r: JsonValue)
    ensures
        r@ == spec_encode_instant(*x),
{
    let mut fs: Vec<(String, JsonValue)> = Vec::new();
    fs.push((String::from_str("metric"), encode_string_map(&x.metric.labels)));
    fs.push((String::from_str("value"), encode_sample(&x.sample)));
    let ghost fsv = fs@;
    proof {
        lemma_obj_view(fsv);
        assert(obj_view(fsv) =~= seq![
            ("metric"@, spec_encode_string_map(x.metric.labels)),
            ("value"@, spec_encode_sample(x.sample)),
        ]);
    }
    JsonValue::Obj(fs)
}

/// Encode of one matrix entry.
pub open spec fn spec_encode_range(x: Range) -> JsonV {
    JsonV::Obj(
        seq![
            ("metric"@, spec_encode_string_map(x.metric.labels)),
            (
                "values"@,
                JsonV::Arr(Seq::new(x.samples@.len(), |i: int| spec_encode_sample(x.samples@[i]))),
            ),
        ],
    )
}

/// Writes an array of samples.
#[verifier::loop_isolation(false)]
pub fn encode_sample_arr(v: &Vec<Sample>) -> (r: JsonValue)
    ensures
        r@ == JsonV::Arr(Seq::new(v@.len(), |i: int| spec_encode_sample(v@[i]))),
{
    let mut a: Vec<JsonValue> = Vec::new();
    let mut i: usize = 0;
    while i < v.len()
        invariant
            i <= v@.len(),
            a@.len() == i,
            forall|k: int| 0 <= k < i ==> (#[trigger] a@[k])@ == spec_encode_sample(v@[k]),
        decreases v.len() - i,
    {
        let e = encode_sample(&v[i]);
        a.push(e);
        i = i + 1;
    }
    let ghost av = a@;
    proof {
        lemma_arr_view(av);
        assert(arr_view(av) =~= Seq::new(v@.len(), |k: int| spec_encode_sample(v@[k])));
    }
    JsonValue::Arr(a)
}

/// Writes one matrix entry.
pub fn encode_range(x: &Range) -> (r: JsonValue)
    ensures
        r@ == spec_encode_range(*x),
{
    let mut fs: Vec<(String, JsonValue)> = Vec::new();
    fs.push((String::from_str("metric"), encode_string_map(&x.metric.labels)));
    fs.push((String::from_str("values"), encode_sample_arr(&x.samples)));
    let ghost fsv = fs@;
    proof {
        lemma_obj_view(fsv);
        assert(obj_view(fsv) =~= seq![
            ("metric"@, spec_encode_string_map(x.metric.labels)),
            (
                "values"@,
                JsonV::Arr(Seq::new(x.samples@.len(), |i: int| spec_encode_sample(x.samples@[i]))),
            ),
        ]);
    }
    JsonValue::Obj(fs)
}

/// Encode of an expression result: the tag under `resultType` and the
/// matching payload under `result`.
pub open spec fn spec_encode_expression(e: Expression) -> JsonV {
    match e {
        Expression::Scalar(s) => JsonV::Obj(
            seq![("resultType"@, JsonV::Str("scalar"@)), ("result"@, spec_encode_sample(s))],
        ),
        Expression::StringResult(s) => JsonV::Obj(
            seq![
                ("resultType"@, JsonV::Str("string"@)),
                ("result"@, spec_encode_string_sample(s)),
            ],
        ),
        Expression::InstantVector(v) => JsonV::Obj(
            seq![
                ("resultType"@, JsonV::Str("vector"@)),
                ("result"@, JsonV::Arr(Seq::new(v@.len(), |i: int| spec_encode_instant(v@[i])))),
            ],
        ),
        Expression::RangeMatrix(v) => JsonV::Obj(
            seq![
                ("resultType"@, JsonV::Str("matrix"@)),
                ("result"@, JsonV::Arr(Seq::new(v@.len(), |i: int| spec_encode_range(v@[i])))),
            ],
        ),
    }
}

/// Writes an array of instant-vector entries.
#[verifier::loop_isolation(false)]
fn encode_instant_arr(v: &Vec<Instant>) -> (r: JsonValue)
    ensures
        r@ == JsonV::Arr(Seq::new(v@.len(), |i: int| spec_encode_instant(v@[i]))),
{
    let mut a: Vec<JsonValue> = Vec::new();
    let mut i: usize = 0;
    while i < v.len()
        invariant
            i <= v@.len(),
            a@.len() == i,
            forall|k: int| 0 <= k < i ==> (#[trigger] a@[k])@ == spec_encode_instant(v@[k]),
        decreases v.len() - i,
    {
        let e = encode_instant(&v[i]);
        a.push(e);
        i = i + 1;
    }
    let ghost av = a@;
    proof {
        lemma_arr_view(av);
        assert(arr_view(av) =~= Seq::new(v@.len(), |k: int| spec_encode_instant(v@[k])));
    }
    JsonValue::Arr(a)
}

/// Writes an array of matrix entries.
#[verifier::loop_isolation(false)]
fn encode_range_arr(v: &Vec<Range>) -> (r: JsonValue)
    ensures
        r@ == JsonV::Arr(Seq::new(v@.len(), |i: int| spec_encode_range(v@[i]))),
{
    let mut a: Vec<JsonValue> = Vec::new();
    let mut i: usize = 0;
    while i < v.len()
        invariant
            i <= v@.len(),
            a@.len() == i,
            forall|k: int| 0 <= k < i ==> (#[trigger] a@[k])@ == spec_encode_range(v@[k]),
        decreases v.len() - i,
    {
        let e = encode_range(&v[i]);
        a.push(e);
        i = i + 1;
    }
    let ghost av = a@;
    proof {
        lemma_arr_view(av);
        assert(arr_view(av) =~= Seq::new(v@.len(), |k: int| spec_encode_range(v@[k])));
    }
    JsonValue::Arr(a)
}

/// Writes an expression result.
pub fn encode_expression(e: &Expression) -> (r: JsonValue)
    ensures
        r@ == spec_encode_expression(*e),
{
    let mut fs: Vec<(String, JsonValue)> = Vec::new();
    match e {
        Expression::Scalar(s) => {
            fs.push((String::from_str("resultType"), JsonValue::Str(String::from_str("scalar"))));
            fs.push((String::from_str("result"), encode_sample(s)));
            let ghost fsv = fs@;
            proof {
                lemma_obj_view(fsv);
                assert(obj_view(fsv) =~= seq![
                    ("resultType"@, JsonV::Str("scalar"@)),
                    ("result"@, spec_encode_sample(*s)),
                ]);
            }
            JsonValue::Obj(fs)
        },
        Expression::StringResult(s) => {
            fs.push((String::from_str("resultType"), JsonValue::Str(String::from_str("string"))));
            fs.push((String::from_str("result"), encode_string_sample(s)));
            let ghost fsv = fs@;
            proof {
                lemma_obj_view(fsv);
                assert(obj_view(fsv) =~= seq![
                    ("resultType"@, JsonV::Str("string"@)),
                    ("result"@, spec_encode_string_sample(*s)),
                ]);
            }
            JsonValue::Obj(fs)
        },
        Expression::InstantVector(v) => {
            fs.push((String::from_str("resultType"), JsonValue::Str(String::from_str("vector"))));
            fs.push((String::from_str("result"), encode_instant_arr(v)));
            let ghost fsv = fs@;
            proof {
                lemma_obj_view(fsv);
                assert(obj_view(fsv) =~= seq![
                    ("resultType"@, JsonV::Str("vector"@)),
                    (
                        "result"@,
                        JsonV::Arr(Seq::new(v@.len(), |i: int| spec_encode_instant(v@[i]))),
                    ),
                ]);
            }
            JsonValue::Obj(fs)
        },
        Expression::RangeMatrix(v) => {
            fs.push((String::from_str("resultType"), JsonValue::Str(String::from_str("matrix"))));
            fs.push((String::from_str("result"), encode_range_arr(v)));
            let ghost fsv = fs@;
            proof {
                lemma_obj_view(fsv);
                assert(obj_view(fsv) =~= seq![
                    ("resultType"@, JsonV::Str("matrix"@)),
                    ("result"@, JsonV::Arr(Seq::new(v@.len(), |i: int| spec_encode_range(v@[i])))),
                ]);
            }
            JsonValue::Obj(fs)
        },
    }
}



/// The wire token of a target's health.
pub open spec fn health_text(h: TargetHealth) -> Seq<char> {
    match h {
        TargetHealth::Up => "up"@,
        TargetHealth::Down => "down"@,
        TargetHealth::Unknown => "unknown"@,
    }
}

/// The wire token of an alert's state.
pub open spec fn state_text(s: AlertState) -> Seq<char> {
    match s {
        AlertState::INACTIVE => "inactive"@,
        AlertState::PENDING => "pending"@,
        AlertState::FIRING => "firing"@,
    }
}

/// The wire token of a rule's kind.
pub open spec fn rule_type_text(t: RuleType) -> Seq<char> {
    match t {
        RuleType::RECORDING => "recording"@,
        RuleType::ALERTING => "alerting"@,
    }
}

/// Encode of an active target.  An absent last error goes out as the
/// empty string, never as null.
pub open spec fn spec_encode_active_target(t: ActiveTarget) -> JsonV {
    JsonV::Obj(
        seq![
            ("discoveredLabels"@, spec_encode_string_map(t.discovered_labels)),
            ("labels"@, spec_encode_string_map(t.labels)),
            ("scrapeUrl"@, JsonV::Str(t.scrape_url@)),
            (
                "lastError"@,
                JsonV::Str(
                    match t.last_error {
                        Some(e) => e@,
                        None => Seq::empty(),
                    },
                ),
            ),
            ("lastScrape"@, JsonV::Str(t.last_scrape@)),
            ("health"@, JsonV::Str(health_text(t.health))),
        ],
    )
}

/// Writes an active target.
pub fn encode_active_target(t: &ActiveTarget) -> (r: JsonValue)
    ensures
        r@ == spec_encode_active_target(*t),
{
    let mut fs: Vec<(String, JsonValue)> = Vec::new();
    fs.push((String::from_str("discoveredLabels"), encode_string_map(&t.discovered_labels)));
    fs.push((String::from_str("labels"), encode_string_map(&t.labels)));
    fs.push((String::from_str("scrapeUrl"), JsonValue::Str(t.scrape_url.clone())));
    let le: String = match &t.last_error {
        Some(e) => e.clone(),
        None => String::new(),
    };
    fs.push((String::from_str("lastError"), JsonValue::Str(le)));
    fs.push((String::from_str("lastScrape"), JsonValue::Str(t.last_scrape.clone())));
    let ht: String = match t.health {
        TargetHealth::Up => String::from_str("up"),
        TargetHealth::Down => String::from_str("down"),
        TargetHealth::Unknown => String::from_str("unknown"),
    };
    fs.push((String::from_str("health"), JsonValue::Str(ht)));
    let ghost fsv = fs@;
    proof {
        lemma_obj_view(fsv);
        assert(obj_view(fsv) =~= seq![
            ("discoveredLabels"@, spec_encode_string_map(t.discovered_labels)),
            ("labels"@, spec_encode_string_map(t.labels)),
            ("scrapeUrl"@, JsonV::Str(t.scrape_url@)),
            (
                "lastError"@,
                JsonV::Str(
                    match t.last_error {
                        Some(e) => e@,
                        None => Seq::empty(),
                    },
                ),
            ),
            ("lastScrape"@, JsonV::Str(t.last_scrape@)),
            ("health"@, JsonV::Str(health_text(t.health))),
        ]);
    }
    JsonValue::Obj(fs)
}

/// Encode of a dropped target.
pub open spec fn spec_encode_dropped_target(t: DroppedTarget) -> JsonV {
    JsonV::Obj(seq![("discoveredLabels"@, spec_encode_string_map(t.discovered_labels))])
}

/// Writes a dropped target.
pub fn encode_dropped_target(t: &DroppedTarget) -> (r: JsonValue)
    ensures
        r@ == spec_encode_dropped_target(*t),
{
    let mut fs: Vec<(String, JsonValue)> = Vec::new();
    fs.push((String::from_str("discoveredLabels"), encode_string_map(&t.discovered_labels)));
    let ghost fsv = fs@;
    proof {
        lemma_obj_view(fsv);
        assert(obj_view(fsv) =~= seq![
            ("discoveredLabels"@, spec_encode_string_map(t.discovered_labels)),
        ]);
    }
    JsonValue::Obj(fs)
}

/// Encode of the targets payload.
pub open spec fn spec_encode_targets(t: Targets) -> JsonV {
    JsonV::Obj(
        seq![
            (
                "activeTargets"@,
                JsonV::Arr(
                    Seq::new(t.active@.len(), |i: int| spec_encode_active_target(t.active@[i])),
                ),
            ),
            (
                "droppedTargets"@,
                JsonV::Arr(
                    Seq::new(t.dropped@.len(), |i: int| spec_encode_dropped_target(t.dropped@[i])),
                ),
            ),
        ],
    )
}

/// Writes the targets payload.
#[verifier::loop_isolation(false)]
pub fn encode_targets(t: &Targets) -> (r: JsonValue)
    ensures
        r@ == spec_encode_targets(*t),
{
    let mut aa: Vec<JsonValue> = Vec::new();
    let mut i: usize = 0;
    while i < t.active.len()
        invariant
            i <= t.active@.len(),
            aa@.len() == i,
            forall|k: int|
                0 <= k < i ==> (#[trigger] aa@[k])@ == spec_encode_active_target(t.active@[k]),
        decreases t.active.len() - i,
    {
        let e = encode_active_target(&t.active[i]);
        aa.push(e);
        i = i + 1;
    }
    let mut dd: Vec<JsonValue> = Vec::new();
    let mut j: usize = 0;
    while j < t.dropped.len()
        invariant
            j <= t.dropped@.len(),
            dd@.len() == j,
            forall|k: int|
                0 <= k < j ==> (#[trigger] dd@[k])@ == spec_encode_dropped_target(t.dropped@[k]),
        decreases t.dropped.len() - j,
    {
        let e = encode_dropped_target(&t.dropped[j]);
        dd.push(e);
        j = j + 1;
    }
    let ghost aav = aa@;
    let ghost ddv = dd@;
    proof {
        lemma_arr_view(aav);
        lemma_arr_view(ddv);
        assert(arr_view(aav) =~= Seq::new(
            t.active@.len(),
            |k: int| spec_encode_active_target(t.active@[k]),
        ));
        assert(arr_view(ddv) =~= Seq::new(
            t.dropped@.len(),
            |k: int| spec_encode_dropped_target(t.dropped@[k]),
        ));
    }
    let mut fs: Vec<(String, JsonValue)> = Vec::new();
    fs.push((String::from_str("activeTargets"), JsonValue::Arr(aa)));
    fs.push((String::from_str("droppedTargets"), JsonValue::Arr(dd)));
    let ghost fsv = fs@;
    proof {
        lemma_obj_view(fsv);
        assert(obj_view(fsv) =~= seq![
            ("activeTargets"@, JsonV::Arr(arr_view(aav))),
            ("droppedTargets"@, JsonV::Arr(arr_view(ddv))),
        ]);
    }
    JsonValue::Obj(fs)
}

/// Encode of one alert manager.
pub open spec fn spec_encode_alert_manager(m: AlertManager) -> JsonV {
    JsonV::Obj(seq![("url"@, JsonV::Str(m.url@))])
}

/// Writes one alert manager.
pub fn encode_alert_manager(m: &AlertManager) -> (r: JsonValue)
    ensures
        r@ == spec_encode_alert_manager(*m),
{
    let mut fs: Vec<(String, JsonValue)> = Vec::new();
    fs.push((String::from_str("url"), JsonValue::Str(m.url.clone())));
    let ghost fsv = fs@;
    proof {
        lemma_obj_view(fsv);
        assert(obj_view(fsv) =~= seq![("url"@, JsonV::Str(m.url@))]);
    }
    JsonValue::Obj(fs)
}

/// Encode of the alert managers payload.
pub open spec fn spec_encode_alert_managers(t: AlertManagers) -> JsonV {
    JsonV::Obj(
        seq![
            (
                "activeAlertmanagers"@,
                JsonV::Arr(
                    Seq::new(t.active@.len(), |i: int| spec_encode_alert_manager(t.active@[i])),
                ),
            ),
            (
                "droppedAlertmanagers"@,
                JsonV::Arr(
                    Seq::new(t.dropped@.len(), |i: int| spec_encode_alert_manager(t.dropped@[i])),
                ),
            ),
        ],
    )
}

/// Writes an array of alert managers.
#[verifier::loop_isolation(false)]
fn encode_alert_manager_arr(v: &Vec<AlertManager>) -> (r: JsonValue)
    ensures
        r@ == JsonV::Arr(Seq::new(v@.len(), |i: int| spec_encode_alert_manager(v@[i]))),
{
    let mut a: Vec<JsonValue> = Vec::new();
    let mut i: usize = 0;
    while i < v.len()
        invariant
            i <= v@.len(),
            a@.len() == i,
            forall|k: int| 0 <= k < i ==> (#[trigger] a@[k])@ == spec_encode_alert_manager(v@[k]),
        decreases v.len() - i,
    {
        let e = encode_alert_manager(&v[i]);
        a.push(e);
        i = i + 1;
    }
    let ghost av = a@;
    proof {
        lemma_arr_view(av);
        assert(arr_view(av) =~= Seq::new(v@.len(), |k: int| spec_encode_alert_manager(v@[k])));
    }
    JsonValue::Arr(a)
}

/// Writes the alert managers payload.
pub fn encode_alert_managers(t: &AlertManagers) -> (r: JsonValue)
    ensures
        r@ == spec_encode_alert_managers(*t),
{
    let mut fs: Vec<(String, JsonValue)> = Vec::new();
    fs.push((String::from_str("activeAlertmanagers"), encode_alert_manager_arr(&t.active)));
    fs.push((String::from_str("droppedAlertmanagers"), encode_alert_manager_arr(&t.dropped)));
    let ghost fsv = fs@;
    proof {
        lemma_obj_view(fsv);
        assert(obj_view(fsv) =~= seq![
            (
                "activeAlertmanagers"@,
                JsonV::Arr(
                    Seq::new(t.active@.len(), |i: int| spec_encode_alert_manager(t.active@[i])),
                ),
            ),
            (
                "droppedAlertmanagers"@,
                JsonV::Arr(
                    Seq::new(t.dropped@.len(), |i: int| spec_encode_alert_manager(t.dropped@[i])),
                ),
            ),
        ]);
    }
    JsonValue::Obj(fs)
}

/// An optional string map goes out as null when absent.
pub open spec fn opt_map_json(m: Option<StringMap>) -> JsonV {
    match m {
        Some(mm) => spec_encode_string_map(mm),
        None => JsonV::Null,
    }
}

/// Writes an optional string map.
fn encode_opt_map(m: &Option<StringMap>) -> (r: JsonValue)
    ensures
        r@ == opt_map_json(*m),
{
    match m {
        Some(mm) => encode_string_map(mm),
        None => JsonValue::Null,
    }
}

/// Encode of one alert.
pub open spec fn spec_encode_alert(x: Alert) -> JsonV {
    JsonV::Obj(
        seq![
            ("activeAt"@, JsonV::Str(x.active_at@)),
            ("annotations"@, opt_map_json(x.annotations)),
            ("labels"@, opt_map_json(x.labels)),
            ("state"@, JsonV::Str(state_text(x.state))),
            ("value"@, JsonV::Str(x.value@)),
        ],
    )
}

/// Writes one alert.
pub fn encode_alert(x: &Alert) -> (r: JsonValue)
    ensures
        r@ == spec_encode_alert(*x),
{
    let mut fs: Vec<(String, JsonValue)> = Vec::new();
    fs.push((String::from_str("activeAt"), JsonValue::Str(x.active_at.clone())));
    fs.push((String::from_str("annotations"), encode_opt_map(&x.annotations)));
    fs.push((String::from_str("labels"), encode_opt_map(&x.labels)));
    let st: String = match x.state {
        AlertState::INACTIVE => String::from_str("inactive"),
        AlertState::PENDING => String::from_str("pending"),
        AlertState::FIRING => String::from_str("firing"),
    };
    fs.push((String::from_str("state"), JsonValue::Str(st)));
    fs.push((String::from_str("value"), JsonValue::Str(x.value.clone())));
    let ghost fsv = fs@;
    proof {
        lemma_obj_view(fsv);
        assert(obj_view(fsv) =~= seq![
            ("activeAt"@, JsonV::Str(x.active_at@)),
            ("annotations"@, opt_map_json(x.annotations)),
            ("labels"@, opt_map_json(x.labels)),
            ("state"@, JsonV::Str(state_text(x.state))),
            ("value"@, JsonV::Str(x.value@)),
        ]);
    }
    JsonValue::Obj(fs)
}

/// Writes an array of alerts.
#[verifier::loop_isolation(false)]
fn encode_alert_arr(v: &Vec<Alert>) -> (r: JsonValue)
    ensures
        r@ == JsonV::Arr(Seq::new(v@.len(), |i: int| spec_encode_alert(v@[i]))),
{
    let mut a: Vec<JsonValue> = Vec::new();
    let mut i: usize = 0;
    while i < v.len()
        invariant
            i <= v@.len(),
            a@.len() == i,
            forall|k: int| 0 <= k < i ==> (#[trigger] a@[k])@ == spec_encode_alert(v@[k]),
        decreases v.len() - i,
    {
        let e = encode_alert(&v[i]);
        a.push(e);
        i = i + 1;
    }
    let ghost av = a@;
    proof {
        lemma_arr_view(av);
        assert(arr_view(av) =~= Seq::new(v@.len(), |k: int| spec_encode_alert(v@[k])));
    }
    JsonValue::Arr(a)
}

/// Encode of one rule.
pub open spec fn spec_encode_rule(x: Rule) -> JsonV {
    JsonV::Obj(
        seq![
            (
                "alerts"@,
                match x.alerts {
                    Some(v) => JsonV::Arr(Seq::new(v@.len(), |i: int| spec_encode_alert(v@[i]))),
                    None => JsonV::Null,
                },
            ),
            ("annotations"@, opt_map_json(x.annotations)),
            (
                "duration"@,
                match x.duration {
                    Some(n) => JsonV::Num(i64_text(n)),
                    None => JsonV::Null,
                },
            ),
            ("labels"@, opt_map_json(x.labels)),
            ("health"@, JsonV::Str(x.health@)),
            ("name"@, JsonV::Str(x.name@)),
            ("query"@, JsonV::Str(x.query@)),
            ("type"@, JsonV::Str(rule_type_text(x.rule_type))),
        ],
    )
}

/// Writes one rule.
pub fn encode_rule(x: &Rule) -> (r: JsonValue)
    ensures
        r@ == spec_encode_rule(*x),
{
    let mut fs: Vec<(String, JsonValue)> = Vec::new();
    let al: JsonValue = match &x.alerts {
        Some(v) => encode_alert_arr(v),
        None => JsonValue::Null,
    };
    fs.push((String::from_str("alerts"), al));
    fs.push((String::from_str("annotations"), encode_opt_map(&x.annotations)));
    let du: JsonValue = match x.duration {
        Some(n) => JsonValue::Num(i64_to_string(n)),
        None => JsonValue::Null,
    };
    fs.push((String::from_str("duration"), du));
    fs.push((String::from_str("labels"), encode_opt_map(&x.labels)));
    fs.push((String::from_str("health"), JsonValue::Str(x.health.clone())));
    fs.push((String::from_str("name"), JsonValue::Str(x.name.clone())));
    fs.push((String::from_str("query"), JsonValue::Str(x.query.clone())));
    let tt: String = match x.rule_type {
        RuleType::RECORDING => String::from_str("recording"),
        RuleType::ALERTING => String::from_str("alerting"),
    };
    fs.push((String::from_str("type"), JsonValue::Str(tt)));
    let ghost fsv = fs@;
    proof {
        lemma_obj_view(fsv);
        assert(obj_view(fsv) =~= seq![
            (
                "alerts"@,
                match x.alerts {
                    Some(v) => JsonV::Arr(Seq::new(v@.len(), |i: int| spec_encode_alert(v@[i]))),
                    None => JsonV::Null,
                },
            ),
            ("annotations"@, opt_map_json(x.annotations)),
            (
                "duration"@,
                match x.duration {
                    Some(n) => JsonV::Num(i64_text(n)),
                    None => JsonV::Null,
                },
            ),
            ("labels"@, opt_map_json(x.labels)),
            ("health"@, JsonV::Str(x.health@)),
            ("name"@, JsonV::Str(x.name@)),
            ("query"@, JsonV::Str(x.query@)),
            ("type"@, JsonV::Str(rule_type_text(x.rule_type))),
        ]);
    }
    JsonValue::Obj(fs)
}

/// Encode of one rule group.
pub open spec fn spec_encode_rule_group(x: RuleGroups) -> JsonV {
    JsonV::Obj(
        seq![
            ("rules"@, JsonV::Arr(Seq::new(x.rules@.len(), |i: int| spec_encode_rule(x.rules@[i])))),
            ("file"@, JsonV::Str(x.file@)),
            ("interval"@, JsonV::Num(i64_text(x.interval))),
            ("name"@, JsonV::Str(x.name@)),
        ],
    )
}

/// Writes one rule group.
#[verifier::loop_isolation(false)]
pub fn encode_rule_group(x: &RuleGroups) -> (r: JsonValue)
    ensures
        r@ == spec_encode_rule_group(*x),
{
    let mut a: Vec<JsonValue> = Vec::new();
    let mut i: usize = 0;
    while i < x.rules.len()
        invariant
            i <= x.rules@.len(),
            a@.len() == i,
            forall|k: int| 0 <= k < i ==> (#[trigger] a@[k])@ == spec_encode_rule(x.rules@[k]),
        decreases x.rules.len() - i,
    {
        let e = encode_rule(&x.rules[i]);
        a.push(e);
        i = i + 1;
    }
    let ghost av = a@;
    proof {
        lemma_arr_view(av);
        assert(arr_view(av) =~= Seq::new(x.rules@.len(), |k: int| spec_encode_rule(x.rules@[k])));
    }
    let mut fs: Vec<(String, JsonValue)> = Vec::new();
    fs.push((String::from_str("rules"), JsonValue::Arr(a)));
    fs.push((String::from_str("file"), JsonValue::Str(x.file.clone())));
    fs.push((String::from_str("interval"), JsonValue::Num(i64_to_string(x.interval))));
    fs.push((String::from_str("name"), JsonValue::Str(x.name.clone())));
    let ghost fsv = fs@;
    proof {
        lemma_obj_view(fsv);
        assert(obj_view(fsv) =~= seq![
            ("rules"@, JsonV::Arr(arr_view(av))),
            ("file"@, JsonV::Str(x.file@)),
            ("interval"@, JsonV::Num(i64_text(x.interval))),
            ("name"@, JsonV::Str(x.name@)),
        ]);
    }
    JsonValue::Obj(fs)
}

/// Encode of the rules payload.
pub open spec fn spec_encode_rules(x: Rules) -> JsonV {
    JsonV::Obj(
        seq![
            (
                "groups"@,
                JsonV::Arr(Seq::new(x.groups@.len(), |i: int| spec_encode_rule_group(x.groups@[i]))),
            ),
        ],
    )
}

/// Writes the rules payload.
#[verifier::loop_isolation(false)]
pub fn encode_rules(x: &Rules) -> (r: JsonValue)
    ensures
        r@ == spec_encode_rules(*x),
{
    let mut a: Vec<JsonValue> = Vec::new();
    let mut i: usize = 0;
    while i < x.groups.len()
        invariant
            i <= x.groups@.len(),
            a@.len() == i,
            forall|k: int|
                0 <= k < i ==> (#[trigger] a@[k])@ == spec_encode_rule_group(x.groups@[k]),
        decreases x.groups.len() - i,
    {
        let e = encode_rule_group(&x.groups[i]);
        a.push(e);
        i = i + 1;
    }
    let ghost av = a@;
    proof {
        lemma_arr_view(av);
        assert(arr_view(av) =~= Seq::new(
            x.groups@.len(),
            |k: int| spec_encode_rule_group(x.groups@[k]),
        ));
    }
    let mut fs: Vec<(String, JsonValue)> = Vec::new();
    fs.push((String::from_str("groups"), JsonValue::Arr(a)));
    let ghost fsv = fs@;
    proof {
        lemma_obj_view(fsv);
        assert(obj_view(fsv) =~= seq![("groups"@, JsonV::Arr(arr_view(av)))]);
    }
    JsonValue::Obj(fs)
}



/// Encode of the remaining simple payloads and of the payload itself.
pub open spec fn spec_encode_data(d: Data) -> JsonV {
    match d {
        Data::Expression(e) => spec_encode_expression(e),
        Data::Series(s) => JsonV::Arr(
            Seq::new(s.0@.len(), |i: int| spec_encode_string_map(s.0@[i].labels)),
        ),
        Data::LabelsOrValues(l) => JsonV::Arr(
            Seq::new(l.0@.len(), |i: int| JsonV::Str(l.0@[i]@)),
        ),
        Data::Targets(t) => spec_encode_targets(t),
        Data::Rules(r) => spec_encode_rules(r),
        Data::Alerts(a) => JsonV::Obj(
            seq![
                (
                    "alerts"@,
                    JsonV::Arr(Seq::new(a.alerts@.len(), |i: int| spec_encode_alert(a.alerts@[i]))),
                ),
            ],
        ),
        Data::AlertManagers(m) => spec_encode_alert_managers(m),
        Data::Config(c) => JsonV::Obj(seq![("yaml"@, JsonV::Str(c.yaml@))]),
        Data::Snapshot(s) => JsonV::Obj(seq![("name"@, JsonV::Str(s.name@))]),
        Data::Flags(f) => spec_encode_string_map(f),
    }
}

/// Writes the payload.
#[verifier::loop_isolation(false)]
pub fn encode_data(d: &Data) -> (r: JsonValue)
    ensures
        r@ == spec_encode_data(*d),
{
    match d {
        Data::Expression(e) => encode_expression(e),
        Data::Series(s) => {
            let mut a: Vec<JsonValue> = Vec::new();
            let mut i: usize = 0;
            while i < s.0.len()
                invariant
                    i <= s.0@.len(),
                    a@.len() == i,
                    forall|k: int|
                        0 <= k < i ==> (#[trigger] a@[k])@ == spec_encode_string_map(
                            s.0@[k].labels,
                        ),
                decreases s.0.len() - i,
            {
                let e = encode_string_map(&s.0[i].labels);
                a.push(e);
                i = i + 1;
            }
            let ghost av = a@;
            proof {
                lemma_arr_view(av);
                assert(arr_view(av) =~= Seq::new(
                    s.0@.len(),
                    |k: int| spec_encode_string_map(s.0@[k].labels),
                ));
            }
            JsonValue::Arr(a)
        },
        Data::LabelsOrValues(l) => {
            let mut a: Vec<JsonValue> = Vec::new();
            let mut i: usize = 0;
            while i < l.0.len()
                invariant
                    i <= l.0@.len(),
                    a@.len() == i,
                    forall|k: int| 0 <= k < i ==> (#[trigger] a@[k])@ == JsonV::Str(l.0@[k]@),
                decreases l.0.len() - i,
            {
                let e = JsonValue::Str(l.0[i].clone());
                a.push(e);
                i = i + 1;
            }
            let ghost av = a@;
            proof {
                lemma_arr_view(av);
                assert(arr_view(av) =~= Seq::new(l.0@.len(), |k: int| JsonV::Str(l.0@[k]@)));
            }
            JsonValue::Arr(a)
        },
        Data::Targets(t) => encode_targets(t),
        Data::Rules(r) => encode_rules(r),
        Data::Alerts(x) => {
            let arr = encode_alert_arr(&x.alerts);
            let mut fs: Vec<(String, JsonValue)> = Vec::new();
            fs.push((String::from_str("alerts"), arr));
            let ghost fsv = fs@;
            proof {
                lemma_obj_view(fsv);
                assert(obj_view(fsv) =~= seq![
                    (
                        "alerts"@,
                        JsonV::Arr(
                            Seq::new(x.alerts@.len(), |i: int| spec_encode_alert(x.alerts@[i])),
                        ),
                    ),
                ]);
            }
            JsonValue::Obj(fs)
        },
        Data::AlertManagers(m) => encode_alert_managers(m),
        Data::Config(c) => {
            let mut fs: Vec<(String, JsonValue)> = Vec::new();
            fs.push((String::from_str("yaml"), JsonValue::Str(c.yaml.clone())));
            let ghost fsv = fs@;
            proof {
                lemma_obj_view(fsv);
                assert(obj_view(fsv) =~= seq![("yaml"@, JsonV::Str(c.yaml@))]);
            }
            JsonValue::Obj(fs)
        },
        Data::Snapshot(s) => {
            let mut fs: Vec<(String, JsonValue)> = Vec::new();
            fs.push((String::from_str("name"), JsonValue::Str(s.name.clone())));
            let ghost fsv = fs@;
            proof {
                lemma_obj_view(fsv);
                assert(obj_view(fsv) =~= seq![("name"@, JsonV::Str(s.name@))]);
            }
            JsonValue::Obj(fs)
        },
        Data::Flags(f) => encode_string_map(f),
    }
}

/// An optional payload goes out as null when absent.
pub open spec fn opt_data_json(d: Option<Data>) -> JsonV {
    match d {
        Some(dd) => spec_encode_data(dd),
        None => JsonV::Null,
    }
}

/// Encode of the envelope: the status tag first, then the variant's
/// fields in a fixed order; an absent payload goes out as null and the
/// warnings always go out, empty or not.
pub open spec fn spec_encode_envelope(x: ApiResult) -> JsonV {
    match x {
        ApiResult::ApiOk(o) => JsonV::Obj(
            seq![
                ("status"@, JsonV::Str("success"@)),
                ("data"@, opt_data_json(o.data)),
                (
                    "warnings"@,
                    JsonV::Arr(Seq::new(o.warnings@.len(), |i: int| JsonV::Str(o.warnings@[i]@))),
                ),
            ],
        ),
        ApiResult::ApiErr(e) => JsonV::Obj(
            seq![
                ("status"@, JsonV::Str("error"@)),
                ("errorType"@, JsonV::Str(e.error_type@)),
                ("error"@, JsonV::Str(e.error_message@)),
                ("data"@, opt_data_json(e.data)),
                (
                    "warnings"@,
                    JsonV::Arr(Seq::new(e.warnings@.len(), |i: int| JsonV::Str(e.warnings@[i]@))),
                ),
            ],
        ),
    }
}

/// Writes an array of warning strings.
#[verifier::loop_isolation(false)]
fn encode_string_arr(v: &Vec<String>) -> (r: JsonValue)
    ensures
        r@ == JsonV::Arr(Seq::new(v@.len(), |i: int| JsonV::Str(v@[i]@))),
{
    let mut a: Vec<JsonValue> = Vec::new();
    let mut i: usize = 0;
    while i < v.len()
        invariant
            i <= v@.len(),
            a@.len() == i,
            forall|k: int| 0 <= k < i ==> (#[trigger] a@[k])@ == JsonV::Str(v@[k]@),
        decreases v.len() - i,
    {
        let e = JsonValue::Str(v[i].clone());
        a.push(e);
        i = i + 1;
    }
    let ghost av = a@;
    proof {
        lemma_arr_view(av);
        assert(arr_view(av) =~= Seq::new(v@.len(), |k: int| JsonV::Str(v@[k]@)));
    }
    JsonValue::Arr(a)
}

/// Writes an optional payload.
fn encode_opt_data(d: &Option<Data>) -> (r: JsonValue)
    ensures
        r@ == opt_data_json(*d),
{
    match d {
        Some(dd) => encode_data(dd),
        None => JsonValue::Null,
    }
}

/// Writes the envelope as a wire value.
pub fn encode_envelope(x: &ApiResult) -> (r: JsonValue)
    ensures
        r@ == spec_encode_envelope(*x),
{
    match x {
        ApiResult::ApiOk(o) => {
            let mut fs: Vec<(String, JsonValue)> = Vec::new();
            fs.push((String::from_str("status"), JsonValue::Str(String::from_str("success"))));
            fs.push((String::from_str("data"), encode_opt_data(&o.data)));
            fs.push((String::from_str("warnings"), encode_string_arr(&o.warnings)));
            let ghost fsv = fs@;
            proof {
                lemma_obj_view(fsv);
                assert(obj_view(fsv) =~= seq![
                    ("status"@, JsonV::Str("success"@)),
                    ("data"@, opt_data_json(o.data)),
                    (
                        "warnings"@,
                        JsonV::Arr(
                            Seq::new(o.warnings@.len(), |i: int| JsonV::Str(o.warnings@[i]@)),
                        ),
                    ),
                ]);
            }
            JsonValue::Obj(fs)
        },
        ApiResult::ApiErr(e) => {
            let mut fs: Vec<(String, JsonValue)> = Vec::new();
            fs.push((String::from_str("status"), JsonValue::Str(String::from_str("error"))));
            fs.push((String::from_str("errorType"), JsonValue::Str(e.error_type.clone())));
            fs.push((String::from_str("error"), JsonValue::Str(e.error_message.clone())));
            fs.push((String::from_str("data"), encode_opt_data(&e.data)));
            fs.push((String::from_str("warnings"), encode_string_arr(&e.warnings)));
            let ghost fsv = fs@;
            proof {
                lemma_obj_view(fsv);
                assert(obj_view(fsv) =~= seq![
                    ("status"@, JsonV::Str("error"@)),
                    ("errorType"@, JsonV::Str(e.error_type@)),
                    ("error"@, JsonV::Str(e.error_message@)),
                    ("data"@, opt_data_json(e.data)),
                    (
                        "warnings"@,
                        JsonV::Arr(
                            Seq::new(e.warnings@.len(), |i: int| JsonV::Str(e.warnings@[i]@)),
                        ),
                    ),
                ]);
            }
            JsonValue::Obj(fs)
        },
    }
}

/// Writes the envelope as response text.
pub fn encode_envelope_string(x: &ApiResult) -> (r: String)
    ensures
        r@ == spec_json_text(spec_encode_envelope(*x)),
{
    let v = encode_envelope(x);
    json_to_string(&v)
}


} // verus!
