//! The encode-then-decode round trip.
//!
//! A model value that goes out in wire form and is read back comes back
//! as the same value.  This holds for every value the decoder itself
//! can produce; the `faithful` predicates below state the conditions,
//! which also carve out the two genuine ambiguities of the
//! discriminator-free wire format: a one-field flag map whose key is
//! `yaml` or `name` reads back as the configuration or snapshot shape,
//! and an empty label listing reads back as an empty series listing.

use vstd::prelude::*;

use crate::decode::{
    dec_instant_fn, dec_range_fn, dec_sample_fn, decode_seq, decode_seq_from, first_where, key_is,
    lemma_first_where_is, spec_decode_expression, spec_decode_health, spec_decode_instant,
    spec_decode_metric, spec_decode_opt_map, spec_decode_range, spec_decode_rfc3339,
    spec_decode_rule_type, spec_decode_sample, spec_decode_state, spec_decode_string,
    spec_decode_string_sample, spec_decode_url, spec_get_field,
};
use crate::encode::{
    digit_char, health_text, i64_text, nat_text, opt_map_json, rule_type_text, sample_value_text,
    spec_encode_expression, spec_encode_instant, spec_encode_range, spec_encode_sample,
    spec_encode_string_map, spec_encode_string_sample, state_text,
};
use crate::errors::DecodeErrorV;
use crate::json::{lemma_arr_view, lemma_obj_view, JsonV, JsonValue};
use crate::laws::lemma_string_map_round_trip;
use crate::result_types::{
    views_of, ActiveTarget, ActiveTargetV, Alert, AlertManager, AlertManagers, AlertManagersV,
    AlertState, AlertV, Alerts, Config, DroppedTarget, Expression, ExpressionV, Instant, InstantV,
    Range, RangeV, Rule, RuleGroups, RuleGroupsV, RuleType, RuleV, Rules, RulesV, Sample, SampleV,
    SampleValue, Snapshot, StringSample, StringSampleV, TargetHealth, Targets, TargetsV,
};
use crate::string_map::StringMap;
use crate::validate::{rfc3339_ok, url_ok};
use crate::numbers::{
    digits_value, int_lexeme_value, is_digit, is_float_lexeme, is_int_lexeme,
    lemma_skip_digits_all, skip_digits,
};

verus! {

broadcast use vstd::string::group_string_axioms;

// What a view reveals about the value that has it.

proof fn lemma_view_null(x: JsonValue)
    requires
        x@ == JsonV::Null,
    ensures
        x is Null,
{
    match x {
        JsonValue::Null => {},
        JsonValue::Bool(_) => {
            assert(false);
        },
        JsonValue::Num(_) => {
            assert(false);
        },
        JsonValue::Str(_) => {
            assert(false);
        },
        JsonValue::Arr(_) => {
            assert(false);
        },
        JsonValue::Obj(_) => {
            assert(false);
        },
    }
}

proof fn lemma_view_num(x: JsonValue, t: Seq<char>)
    requires
        x@ == JsonV::Num(t),
    ensures
        x matches JsonValue::Num(s) && s@ == t,
{
    match x {
        JsonValue::Num(_) => {},
        JsonValue::Null => {
            assert(false);
        },
        JsonValue::Bool(_) => {
            assert(false);
        },
        JsonValue::Str(_) => {
            assert(false);
        },
        JsonValue::Arr(_) => {
            assert(false);
        },
        JsonValue::Obj(_) => {
            assert(false);
        },
    }
}

proof fn lemma_view_str(x: JsonValue, t: Seq<char>)
    requires
        x@ == JsonV::Str(t),
    ensures
        x matches JsonValue::Str(s) && s@ == t,
{
    match x {
        JsonValue::Str(_) => {},
        JsonValue::Null => {
            assert(false);
        },
        JsonValue::Bool(_) => {
            assert(false);
        },
        JsonValue::Num(_) => {
            assert(false);
        },
        JsonValue::Arr(_) => {
            assert(false);
        },
        JsonValue::Obj(_) => {
            assert(false);
        },
    }
}

proof fn lemma_view_arr(x: JsonValue, vs: Seq<JsonV>)
    requires
        x@ == JsonV::Arr(vs),
    ensures
        x matches JsonValue::Arr(a) && a@.len() == vs.len() && (forall|i: int|
            0 <= i < vs.len() ==> (#[trigger] a@[i])@ == vs[i]),
{
    match x {
        JsonValue::Arr(a) => {
            lemma_arr_view(a@);
        },
        JsonValue::Null => {
            assert(false);
        },
        JsonValue::Bool(_) => {
            assert(false);
        },
        JsonValue::Num(_) => {
            assert(false);
        },
        JsonValue::Str(_) => {
            assert(false);
        },
        JsonValue::Obj(_) => {
            assert(false);
        },
    }
}

proof fn lemma_view_obj(x: JsonValue, ps: Seq<(Seq<char>, JsonV)>)
    requires
        x@ == JsonV::Obj(ps),
    ensures
        x matches JsonValue::Obj(o) && o@.len() == ps.len() && (forall|i: int|
            0 <= i < ps.len() ==> (#[trigger] o@[i]).0@ == ps[i].0 && o@[i].1@ == ps[i].1),
{
    match x {
        JsonValue::Obj(o) => {
            lemma_obj_view(o@);
        },
        JsonValue::Null => {
            assert(false);
        },
        JsonValue::Bool(_) => {
            assert(false);
        },
        JsonValue::Num(_) => {
            assert(false);
        },
        JsonValue::Str(_) => {
            assert(false);
        },
        JsonValue::Arr(_) => {
            assert(false);
        },
    }
}

// Evaluating the field lookup on a known field list.

proof fn lemma_first_where<T>(s: Seq<T>, p: spec_fn(T) -> bool)
    ensures
        0 <= first_where(s, p) <= s.len(),
        forall|k: int| 0 <= k < first_where(s, p) ==> !p(#[trigger] s[k]),
        first_where(s, p) < s.len() ==> p(s[first_where(s, p)]),
    decreases s.len(),
{
    if s.len() > 0 && !p(s[0]) {
        let d = s.drop_first();
        lemma_first_where(d, p);
        assert(first_where(s, p) == 1 + first_where(d, p));
        assert forall|k: int| 0 <= k < first_where(s, p) implies !p(#[trigger] s[k]) by {
            if k > 0 {
                assert(d[k - 1] == s[k]);
                assert(!p(d[k - 1]));
            }
        }
        if first_where(s, p) < s.len() {
            assert(d[first_where(d, p)] == s[first_where(s, p)]);
        }
    }
}

/// The lookup of `name` on a list whose only binding for it is at `i`.
proof fn lemma_get_field_at(o: Seq<(String, JsonValue)>, name: Seq<char>, i: int)
    requires
        0 <= i < o.len(),
        o[i].0@ == name,
        forall|k: int| 0 <= k < o.len() && k != i ==> (#[trigger] o[k]).0@ != name,
    ensures
        spec_get_field(o, name) == Ok::<Option<JsonValue>, DecodeErrorV>(Some(o[i].1)),
{
    let p = key_is(name);
    lemma_first_where_is(o, p, i);
    let sk = o.skip(i + 1);
    assert(forall|k: int| 0 <= k < sk.len() ==> #[trigger] sk[k] == o[i + 1 + k]);
    lemma_first_where_is(sk, p, sk.len() as int);
}

/// The lookup of a name no field carries.
proof fn lemma_get_field_none(o: Seq<(String, JsonValue)>, name: Seq<char>)
    requires
        forall|k: int| 0 <= k < o.len() ==> (#[trigger] o[k]).0@ != name,
    ensures
        spec_get_field(o, name) == Ok::<Option<JsonValue>, DecodeErrorV>(None),
{
    lemma_first_where_is(o, key_is(name), o.len() as int);
}

/// What any field lookup can yield: the first binding, nothing, or a
/// duplicate refusal.
proof fn lemma_get_field_shape(o: Seq<(String, JsonValue)>, name: Seq<char>)
    ensures
        match spec_get_field(o, name) {
            Ok(Some(x)) => exists|i: int|
                0 <= i < o.len() && (#[trigger] o[i]).0@ == name && o[i].1 == x,
            Ok(None) => forall|i: int| 0 <= i < o.len() ==> (#[trigger] o[i]).0@ != name,
            Err(e) => e == (DecodeErrorV::DuplicateField { field: name }),
        },
{
    let p = key_is(name);
    lemma_first_where(o, p);
    let i = first_where(o, p);
    if i < o.len() {
        let sk = o.skip(i + 1);
        lemma_first_where(sk, p);
        if !(first_where(sk, p) < o.len() - i - 1) {
            assert(o[i].0@ == name && o[i].1 == o[i].1);
        }
    }
}

// The decimal text of an integer reads back as that integer.

proof fn lemma_digits_value_shift(s1: Seq<char>, s2: Seq<char>, off: int, i: int, j: int)
    requires
        forall|k: int| i <= k < j ==> s1[k + off] == #[trigger] s2[k],
    ensures
        digits_value(s1, i + off, j + off) == digits_value(s2, i, j),
    decreases j - i,
{
    if i < j {
        lemma_digits_value_shift(s1, s2, off, i, j - 1);
    }
}

proof fn lemma_nat_text(m: int)
    requires
        m >= 0,
    ensures
        nat_text(m).len() > 0,
        forall|i: int| 0 <= i < nat_text(m).len() ==> is_digit(#[trigger] nat_text(m)[i]),
        digits_value(nat_text(m), 0, nat_text(m).len() as int) == m,
    decreases m,
{
    if m < 10 {
        assert(digit_char(m) as int == m + 48);
        assert(digits_value(nat_text(m), 0, 1) == digits_value(nat_text(m), 0, 0) * 10 + m);
    } else {
        lemma_nat_text(m / 10);
        let pre = nat_text(m / 10);
        let s = nat_text(m);
        assert(s == pre.push(digit_char(m % 10)));
        let n = s.len() as int;
        assert(digit_char(m % 10) as int == m % 10 + 48);
        lemma_digits_value_shift(s, pre, 0, 0, n - 1);
        assert(digits_value(s, 0, n) == digits_value(s, 0, n - 1) * 10 + (s[n - 1] as int
            - '0' as int));
        assert(digits_value(s, 0, n) == (m / 10) * 10 + m % 10);
    }
}

/// The decimal text of a 64-bit value is an integer lexeme that reads
/// back as exactly that value.
pub proof fn lemma_i64_text_value(n: i64)
    ensures
        is_int_lexeme(i64_text(n)),
        int_lexeme_value(i64_text(n)) == n,
{
    if n >= 0 {
        let s = i64_text(n);
        lemma_nat_text(n as int);
        assert(!is_digit('-')) by {
            assert('-' as int == 45);
        }
        assert(s[0] != '-');
        lemma_skip_digits_all(s, 0);
    } else {
        let s = i64_text(n);
        let d = nat_text(-n as int);
        lemma_nat_text(-n as int);
        assert(s.len() == d.len() + 1);
        assert(forall|k: int| 0 <= k < d.len() ==> s[k + 1] == #[trigger] d[k]);
        assert(s[0] == '-');
        assert forall|k: int| 1 <= k < s.len() implies is_digit(#[trigger] s[k]) by {
            assert(s[k] == d[k - 1]);
        }
        lemma_skip_digits_all(s, 1);
        lemma_digits_value_shift(s, d, 1, 0, d.len() as int);
        assert(digits_value(s, 1, s.len() as int) == -n);
    }
}

// Floating point text is never a sentinel token.

/// The sentinel tokens are not floating point text, so a finite sample
/// value's text is never mistaken for a sentinel when read back.
pub proof fn lemma_float_lexeme_not_sentinel(t: Seq<char>)
    requires
        is_float_lexeme(t),
    ensures
        t != "Inf"@,
        t != "-Inf"@,
        t != "NaN"@,
{
    reveal_strlit("Inf");
    reveal_strlit("-Inf");
    reveal_strlit("NaN");
    if t == "Inf"@ {
        assert(skip_digits(t, 0) == 0) by {
            assert(!is_digit('I'));
        }
        assert(false);
    }
    if t == "-Inf"@ {
        assert(skip_digits(t, 1) == 1) by {
            assert(!is_digit('I'));
        }
        assert(false);
    }
    if t == "NaN"@ {
        assert(skip_digits(t, 0) == 0) by {
            assert(!is_digit('N'));
        }
        assert(false);
    }
}


// What a value must satisfy for its wire image to read back as itself.

/// A sample whose finite value carries floating point text, as every
/// decoded sample does.
pub open spec fn faithful_sample(s: Sample) -> bool {
    match s.value {
        SampleValue::Finite(t) => is_float_lexeme(t@),
        _ => true,
    }
}

pub open spec fn faithful_instant(x: Instant) -> bool {
    faithful_sample(x.sample)
}

pub open spec fn faithful_range(x: Range) -> bool {
    forall|i: int| 0 <= i < x.samples@.len() ==> faithful_sample(#[trigger] x.samples@[i])
}

pub open spec fn faithful_expression(e: Expression) -> bool {
    match e {
        Expression::Scalar(s) => faithful_sample(s),
        Expression::StringResult(_) => true,
        Expression::InstantVector(v) => forall|i: int|
            0 <= i < v@.len() ==> faithful_instant(#[trigger] v@[i]),
        Expression::RangeMatrix(v) => forall|i: int|
            0 <= i < v@.len() ==> faithful_range(#[trigger] v@[i]),
    }
}

// Decoding each encoded leaf.

proof fn lemma_sample_decode_encode(s: Sample, w: JsonValue)
    requires
        faithful_sample(s),
        w@ == spec_encode_sample(s),
    ensures
        spec_decode_sample(w) == Ok::<SampleV, DecodeErrorV>(s@),
{
    reveal_strlit("Inf");
    reveal_strlit("-Inf");
    reveal_strlit("NaN");
    lemma_view_arr(w, seq![JsonV::Num(s.epoch@), JsonV::Str(sample_value_text(s.value))]);
    match w {
        JsonValue::Arr(a) => {
            lemma_view_num(a@[0], s.epoch@);
            lemma_view_str(a@[1], sample_value_text(s.value));
            assert("Inf"@.len() == 3 && "-Inf"@.len() == 4 && "NaN"@.len() == 3);
            assert("NaN"@[0] == 'N' && "Inf"@[0] == 'I');
            match s.value {
                SampleValue::PosInfinity => {},
                SampleValue::NegInfinity => {},
                SampleValue::NotANumber => {},
                SampleValue::Finite(t) => {
                    lemma_float_lexeme_not_sentinel(t@);
                    crate::numbers::lemma_float_lexeme_not_keyword(t@);
                },
            }
        },
        _ => {
            assert(false);
        },
    }
}

proof fn lemma_string_sample_decode_encode(s: StringSample, w: JsonValue)
    requires
        w@ == spec_encode_string_sample(s),
    ensures
        spec_decode_string_sample(w) == Ok::<StringSampleV, DecodeErrorV>(s@),
{
    lemma_view_arr(w, seq![JsonV::Num(s.epoch@), JsonV::Str(s.value@)]);
    match w {
        JsonValue::Arr(a) => {
            lemma_view_num(a@[0], s.epoch@);
            lemma_view_str(a@[1], s.value@);
        },
        _ => {
            assert(false);
        },
    }
}

proof fn lemma_health_decode_encode(h: TargetHealth, x: JsonValue)
    requires
        x@ == JsonV::Str(health_text(h)),
    ensures
        spec_decode_health(x) == Ok::<TargetHealth, DecodeErrorV>(h),
{
    reveal_strlit("up");
    reveal_strlit("down");
    reveal_strlit("unknown");
    lemma_view_str(x, health_text(h));
    assert("up"@.len() == 2 && "down"@.len() == 4 && "unknown"@.len() == 7);
}

proof fn lemma_state_decode_encode(h: AlertState, x: JsonValue)
    requires
        x@ == JsonV::Str(state_text(h)),
    ensures
        spec_decode_state(x) == Ok::<AlertState, DecodeErrorV>(h),
{
    reveal_strlit("inactive");
    reveal_strlit("pending");
    reveal_strlit("firing");
    lemma_view_str(x, state_text(h));
    assert("inactive"@.len() == 8 && "pending"@.len() == 7 && "firing"@.len() == 6);
}

proof fn lemma_rule_type_decode_encode(h: RuleType, x: JsonValue)
    requires
        x@ == JsonV::Str(rule_type_text(h)),
    ensures
        spec_decode_rule_type(x) == Ok::<RuleType, DecodeErrorV>(h),
{
    reveal_strlit("recording");
    reveal_strlit("alerting");
    lemma_view_str(x, rule_type_text(h));
    assert("recording"@.len() == 9 && "alerting"@.len() == 8);
}

proof fn lemma_map_decode_encode(m: StringMap, x: JsonValue)
    requires
        x@ == spec_encode_string_map(m),
    ensures
        spec_decode_metric(x) == Ok::<Map<Seq<char>, Seq<char>>, DecodeErrorV>(m@),
        crate::decode::spec_decode_flags(x) == Ok::<Map<Seq<char>, Seq<char>>, DecodeErrorV>(m@),
        crate::decode::spec_decode_opt_map_required(x, "discoveredLabels"@) == Ok::<
            Map<Seq<char>, Seq<char>>,
            DecodeErrorV,
        >(m@),
        crate::decode::spec_decode_opt_map_required(x, "labels"@) == Ok::<
            Map<Seq<char>, Seq<char>>,
            DecodeErrorV,
        >(m@),
{
    let ps = Seq::new(
        m.entry_seq().len(),
        |i: int| (m.entry_seq()[i].0@, JsonV::Str(m.entry_seq()[i].1@)),
    );
    lemma_view_obj(x, ps);
    match x {
        JsonValue::Obj(o) => {
            lemma_string_map_round_trip(m, o@);
        },
        _ => {
            assert(false);
        },
    }
}

proof fn lemma_opt_map_decode_encode(m: Option<StringMap>, x: JsonValue, field: Seq<char>)
    requires
        x@ == opt_map_json(m),
    ensures
        spec_decode_opt_map(x, field) == Ok::<Option<Map<Seq<char>, Seq<char>>>, DecodeErrorV>(
            match m {
                Some(mm) => Some(mm@),
                None => None,
            },
        ),
{
    match m {
        Some(mm) => {
            let ps = Seq::new(
                mm.entry_seq().len(),
                |i: int| (mm.entry_seq()[i].0@, JsonV::Str(mm.entry_seq()[i].1@)),
            );
            lemma_view_obj(x, ps);
            match x {
                JsonValue::Obj(o) => {
                    lemma_string_map_round_trip(mm, o@);
                },
                _ => {
                    assert(false);
                },
            }
        },
        None => {
            lemma_view_null(x);
        },
    }
}

// Arrays whose every element decodes.

proof fn lemma_decode_seq_from_all_ok<T>(
    s: Seq<JsonValue>,
    f: spec_fn(JsonValue) -> Result<T, DecodeErrorV>,
    want: Seq<T>,
    i: int,
)
    requires
        0 <= i <= s.len(),
        s.len() == want.len(),
        forall|k: int| 0 <= k < s.len() ==> f(#[trigger] s[k]) == Ok::<T, DecodeErrorV>(want[k]),
    ensures
        decode_seq_from(s, f, i) == Ok::<Seq<T>, DecodeErrorV>(want.skip(i)),
    decreases s.len() - i,
{
    if i < s.len() {
        lemma_decode_seq_from_all_ok(s, f, want, i + 1);
        assert(Seq::empty().push(want[i]) + want.skip(i + 1) =~= want.skip(i));
    } else {
        assert(want.skip(i) =~= Seq::<T>::empty());
    }
}

proof fn lemma_decode_seq_all_ok<T>(
    s: Seq<JsonValue>,
    f: spec_fn(JsonValue) -> Result<T, DecodeErrorV>,
    want: Seq<T>,
)
    requires
        s.len() == want.len(),
        forall|k: int| 0 <= k < s.len() ==> f(#[trigger] s[k]) == Ok::<T, DecodeErrorV>(want[k]),
    ensures
        decode_seq(s, f) == Ok::<Seq<T>, DecodeErrorV>(want),
{
    lemma_decode_seq_from_all_ok(s, f, want, 0);
    assert(want.skip(0) =~= want);
}

// Instants, ranges and the expression result.

proof fn lemma_instant_decode_encode(x: Instant, w: JsonValue)
    requires
        faithful_instant(x),
        w@ == spec_encode_instant(x),
    ensures
        spec_decode_instant(w) == Ok::<InstantV, DecodeErrorV>(x@),
{
    reveal_strlit("metric");
    reveal_strlit("value");
    lemma_view_obj(
        w,
        seq![
            ("metric"@, spec_encode_string_map(x.metric.labels)),
            ("value"@, spec_encode_sample(x.sample)),
        ],
    );
    match w {
        JsonValue::Obj(o) => {
            assert("metric"@.len() == 6 && "value"@.len() == 5);
            lemma_get_field_at(o@, "metric"@, 0);
            lemma_map_decode_encode(x.metric.labels, o@[0].1);
            lemma_get_field_at(o@, "value"@, 1);
            lemma_sample_decode_encode(x.sample, o@[1].1);
        },
        _ => {
            assert(false);
        },
    }
}

proof fn lemma_range_decode_encode(x: Range, w: JsonValue)
    requires
        faithful_range(x),
        w@ == spec_encode_range(x),
    ensures
        spec_decode_range(w) == Ok::<RangeV, DecodeErrorV>(x@),
{
    reveal_strlit("metric");
    reveal_strlit("values");
    let samples_v = JsonV::Arr(
        Seq::new(x.samples@.len(), |i: int| spec_encode_sample(x.samples@[i])),
    );
    lemma_view_obj(
        w,
        seq![("metric"@, spec_encode_string_map(x.metric.labels)), ("values"@, samples_v)],
    );
    match w {
        JsonValue::Obj(o) => {
            assert("metric"@[0] == 'm' && "values"@[0] == 'v');
            lemma_get_field_at(o@, "metric"@, 0);
            lemma_map_decode_encode(x.metric.labels, o@[0].1);
            lemma_get_field_at(o@, "values"@, 1);
            lemma_view_arr(o@[1].1, Seq::new(x.samples@.len(), |i: int| spec_encode_sample(x.samples@[i])));
            match o@[1].1 {
                JsonValue::Arr(a) => {
                    assert forall|k: int| 0 <= k < a@.len() implies dec_sample_fn()(
                        #[trigger] a@[k],
                    ) == Ok::<SampleV, DecodeErrorV>(crate::result_types::views_of(x.samples@)[k])
                    by {
                        lemma_sample_decode_encode(x.samples@[k], a@[k]);
                    }
                    lemma_decode_seq_all_ok(
                        a@,
                        dec_sample_fn(),
                        crate::result_types::views_of(x.samples@),
                    );
                },
                _ => {
                    assert(false);
                },
            }
        },
        _ => {
            assert(false);
        },
    }
}

proof fn lemma_expression_decode_encode(e: Expression, w: JsonValue)
    requires
        faithful_expression(e),
        w@ == spec_encode_expression(e),
    ensures
        spec_decode_expression(w) == Ok::<ExpressionV, DecodeErrorV>(e@),
{
    reveal_strlit("resultType");
    reveal_strlit("result");
    reveal_strlit("scalar");
    reveal_strlit("string");
    reveal_strlit("vector");
    reveal_strlit("matrix");
    assert("resultType"@.len() == 10 && "result"@.len() == 6);
    assert("scalar"@[1] == 'c' && "string"@[1] == 't');
    assert("vector"@[0] == 'v' && "matrix"@[0] == 'm' && "scalar"@[0] == 's' && "string"@[0]
        == 's');
    match e {
        Expression::Scalar(s) => {
            lemma_view_obj(
                w,
                seq![("resultType"@, JsonV::Str("scalar"@)), ("result"@, spec_encode_sample(s))],
            );
            match w {
                JsonValue::Obj(o) => {
                    lemma_get_field_at(o@, "resultType"@, 0);
                    lemma_view_str(o@[0].1, "scalar"@);
                    lemma_get_field_at(o@, "result"@, 1);
                    lemma_sample_decode_encode(s, o@[1].1);
                },
                _ => {
                    assert(false);
                },
            }
        },
        Expression::StringResult(s) => {
            lemma_view_obj(
                w,
                seq![
                    ("resultType"@, JsonV::Str("string"@)),
                    ("result"@, spec_encode_string_sample(s)),
                ],
            );
            match w {
                JsonValue::Obj(o) => {
                    lemma_get_field_at(o@, "resultType"@, 0);
                    lemma_view_str(o@[0].1, "string"@);
                    lemma_get_field_at(o@, "result"@, 1);
                    lemma_string_sample_decode_encode(s, o@[1].1);
                },
                _ => {
                    assert(false);
                },
            }
        },
        Expression::InstantVector(v) => {
            let body = JsonV::Arr(Seq::new(v@.len(), |i: int| spec_encode_instant(v@[i])));
            lemma_view_obj(w, seq![("resultType"@, JsonV::Str("vector"@)), ("result"@, body)]);
            match w {
                JsonValue::Obj(o) => {
                    lemma_get_field_at(o@, "resultType"@, 0);
                    lemma_view_str(o@[0].1, "vector"@);
                    lemma_get_field_at(o@, "result"@, 1);
                    lemma_view_arr(o@[1].1, Seq::new(v@.len(), |i: int| spec_encode_instant(v@[i])));
                    match o@[1].1 {
                        JsonValue::Arr(a) => {
                            assert forall|k: int| 0 <= k < a@.len() implies dec_instant_fn()(
                                #[trigger] a@[k],
                            ) == Ok::<InstantV, DecodeErrorV>(
                                crate::result_types::views_of(v@)[k],
                            ) by {
                                lemma_instant_decode_encode(v@[k], a@[k]);
                            }
                            lemma_decode_seq_all_ok(
                                a@,
                                dec_instant_fn(),
                                crate::result_types::views_of(v@),
                            );
                        },
                        _ => {
                            assert(false);
                        },
                    }
                },
                _ => {
                    assert(false);
                },
            }
        },
        Expression::RangeMatrix(v) => {
            let body = JsonV::Arr(Seq::new(v@.len(), |i: int| spec_encode_range(v@[i])));
            lemma_view_obj(w, seq![("resultType"@, JsonV::Str("matrix"@)), ("result"@, body)]);
            match w {
                JsonValue::Obj(o) => {
                    lemma_get_field_at(o@, "resultType"@, 0);
                    lemma_view_str(o@[0].1, "matrix"@);
                    lemma_get_field_at(o@, "result"@, 1);
                    lemma_view_arr(o@[1].1, Seq::new(v@.len(), |i: int| spec_encode_range(v@[i])));
                    match o@[1].1 {
                        JsonValue::Arr(a) => {
                            assert forall|k: int| 0 <= k < a@.len() implies dec_range_fn()(
                                #[trigger] a@[k],
                            ) == Ok::<RangeV, DecodeErrorV>(
                                crate::result_types::views_of(v@)[k],
                            ) by {
                                lemma_range_decode_encode(v@[k], a@[k]);
                            }
                            lemma_decode_seq_all_ok(
                                a@,
                                dec_range_fn(),
                                crate::result_types::views_of(v@),
                            );
                        },
                        _ => {
                            assert(false);
                        },
                    }
                },
                _ => {
                    assert(false);
                },
            }
        },
    }
}



// Target entities.

/// An active target whose texts the decoder would accept: the scrape
/// address and scrape time pass their checkers, and a present last
/// error is not the empty string, which stands for absence.
pub open spec fn faithful_active_target(t: ActiveTarget) -> bool {
    &&& url_ok(t.scrape_url@)
    &&& rfc3339_ok(t.last_scrape@)
    &&& match t.last_error {
        Some(e) => e@.len() > 0,
        None => true,
    }
}

pub open spec fn faithful_targets(t: Targets) -> bool {
    forall|i: int| 0 <= i < t.active@.len() ==> faithful_active_target(#[trigger] t.active@[i])
}

proof fn lemma_active_target_decode_encode(t: ActiveTarget, w: JsonValue)
    requires
        faithful_active_target(t),
        w@ == crate::encode::spec_encode_active_target(t),
    ensures
        crate::decode::spec_decode_active_target(w) == Ok::<ActiveTargetV, DecodeErrorV>(t@),
{
    reveal_strlit("discoveredLabels");
    reveal_strlit("labels");
    reveal_strlit("scrapeUrl");
    reveal_strlit("lastError");
    reveal_strlit("lastScrape");
    reveal_strlit("health");
    let le_text: Seq<char> = match t.last_error {
        Some(e) => e@,
        None => Seq::empty(),
    };
    let ps = seq![
        ("discoveredLabels"@, spec_encode_string_map(t.discovered_labels)),
        ("labels"@, spec_encode_string_map(t.labels)),
        ("scrapeUrl"@, JsonV::Str(t.scrape_url@)),
        ("lastError"@, JsonV::Str(le_text)),
        ("lastScrape"@, JsonV::Str(t.last_scrape@)),
        ("health"@, JsonV::Str(health_text(t.health))),
    ];
    let qs = match w@ {
        JsonV::Obj(q) => q,
        _ => arbitrary(),
    };
    assert(qs.len() == 6 && qs[0] == ps[0] && qs[1] == ps[1] && qs[2] == ps[2] && qs[4] == ps[4]
        && qs[5] == ps[5]);
    match t.last_error {
        Some(_) => {
            assert(qs[3] == ps[3]);
        },
        None => {
            assert(qs[3] == ps[3]);
        },
    }
    assert(qs =~= ps);
    assert(w@ == JsonV::Obj(ps));
    lemma_view_obj(w, ps);
    match w {
        JsonValue::Obj(o) => {
            assert("discoveredLabels"@.len() == 16 && "labels"@.len() == 6 && "scrapeUrl"@.len()
                == 9 && "lastError"@.len() == 9 && "lastScrape"@.len() == 10 && "health"@.len()
                == 6);
            assert("scrapeUrl"@[0] == 's' && "lastError"@[0] == 'l');
            assert("labels"@[0] == 'l' && "health"@[0] == 'h');
            lemma_get_field_at(o@, "discoveredLabels"@, 0);
            lemma_map_decode_encode(t.discovered_labels, o@[0].1);
            lemma_get_field_at(o@, "labels"@, 1);
            lemma_map_decode_encode(t.labels, o@[1].1);
            lemma_get_field_at(o@, "scrapeUrl"@, 2);
            lemma_view_str(o@[2].1, t.scrape_url@);
            lemma_get_field_at(o@, "lastError"@, 3);
            lemma_view_str(o@[3].1, le_text);
            lemma_get_field_at(o@, "lastScrape"@, 4);
            lemma_view_str(o@[4].1, t.last_scrape@);
            lemma_get_field_at(o@, "health"@, 5);
            lemma_health_decode_encode(t.health, o@[5].1);
        },
        _ => {
            assert(false);
        },
    }
}

proof fn lemma_dropped_target_decode_encode(t: DroppedTarget, w: JsonValue)
    requires
        w@ == crate::encode::spec_encode_dropped_target(t),
    ensures
        crate::decode::spec_decode_dropped_target(w) == Ok::<Map<Seq<char>, Seq<char>>, DecodeErrorV>(
            t@,
        ),
{
    reveal_strlit("discoveredLabels");
    lemma_view_obj(w, seq![("discoveredLabels"@, spec_encode_string_map(t.discovered_labels))]);
    match w {
        JsonValue::Obj(o) => {
            lemma_get_field_at(o@, "discoveredLabels"@, 0);
            lemma_map_decode_encode(t.discovered_labels, o@[0].1);
        },
        _ => {
            assert(false);
        },
    }
}

proof fn lemma_targets_decode_encode(t: Targets, w: JsonValue)
    requires
        faithful_targets(t),
        w@ == crate::encode::spec_encode_targets(t),
    ensures
        crate::decode::spec_decode_targets(w) == Ok::<TargetsV, DecodeErrorV>(t@),
{
    reveal_strlit("activeTargets");
    reveal_strlit("droppedTargets");
    let av = Seq::new(t.active@.len(), |i: int| crate::encode::spec_encode_active_target(t.active@[i]));
    let dv = Seq::new(
        t.dropped@.len(),
        |i: int| crate::encode::spec_encode_dropped_target(t.dropped@[i]),
    );
    lemma_view_obj(
        w,
        seq![("activeTargets"@, JsonV::Arr(av)), ("droppedTargets"@, JsonV::Arr(dv))],
    );
    match w {
        JsonValue::Obj(o) => {
            assert("activeTargets"@.len() == 13 && "droppedTargets"@.len() == 14);
            lemma_first_where_is(
                o@,
                crate::decode::key_not_in("activeTargets"@, "droppedTargets"@),
                o@.len() as int,
            );
            lemma_get_field_at(o@, "activeTargets"@, 0);
            lemma_get_field_at(o@, "droppedTargets"@, 1);
            lemma_view_arr(o@[0].1, av);
            match o@[0].1 {
                JsonValue::Arr(a) => {
                    assert forall|k: int|
                        0 <= k < a@.len() implies crate::decode::dec_active_target_fn()(
                        #[trigger] a@[k],
                    ) == Ok::<ActiveTargetV, DecodeErrorV>(views_of(t.active@)[k]) by {
                        lemma_active_target_decode_encode(t.active@[k], a@[k]);
                    }
                    lemma_decode_seq_all_ok(
                        a@,
                        crate::decode::dec_active_target_fn(),
                        views_of(t.active@),
                    );
                },
                _ => {
                    assert(false);
                },
            }
            lemma_view_arr(o@[1].1, dv);
            match o@[1].1 {
                JsonValue::Arr(a) => {
                    assert forall|k: int|
                        0 <= k < a@.len() implies crate::decode::dec_dropped_target_fn()(
                        #[trigger] a@[k],
                    ) == Ok::<Map<Seq<char>, Seq<char>>, DecodeErrorV>(views_of(t.dropped@)[k]) by {
                        lemma_dropped_target_decode_encode(t.dropped@[k], a@[k]);
                    }
                    lemma_decode_seq_all_ok(
                        a@,
                        crate::decode::dec_dropped_target_fn(),
                        views_of(t.dropped@),
                    );
                },
                _ => {
                    assert(false);
                },
            }
        },
        _ => {
            assert(false);
        },
    }
}

// Alert managers.

pub open spec fn faithful_alert_manager(m: AlertManager) -> bool {
    url_ok(m.url@)
}

pub open spec fn faithful_alert_managers(t: AlertManagers) -> bool {
    &&& forall|i: int| 0 <= i < t.active@.len() ==> faithful_alert_manager(#[trigger] t.active@[i])
    &&& forall|i: int|
        0 <= i < t.dropped@.len() ==> faithful_alert_manager(#[trigger] t.dropped@[i])
}

proof fn lemma_alert_manager_decode_encode(m: AlertManager, w: JsonValue)
    requires
        faithful_alert_manager(m),
        w@ == crate::encode::spec_encode_alert_manager(m),
    ensures
        crate::decode::spec_decode_alert_manager(w) == Ok::<Seq<char>, DecodeErrorV>(m@),
{
    reveal_strlit("url");
    lemma_view_obj(w, seq![("url"@, JsonV::Str(m.url@))]);
    match w {
        JsonValue::Obj(o) => {
            lemma_first_where_is(o@, crate::decode::key_not_ci_url(), o@.len() as int);
            lemma_view_str(o@[0].1, m.url@);
        },
        _ => {
            assert(false);
        },
    }
}

proof fn lemma_alert_managers_decode_encode(t: AlertManagers, w: JsonValue)
    requires
        faithful_alert_managers(t),
        w@ == crate::encode::spec_encode_alert_managers(t),
    ensures
        crate::decode::spec_decode_alert_managers(w) == Ok::<AlertManagersV, DecodeErrorV>(t@),
{
    reveal_strlit("activeAlertmanagers");
    reveal_strlit("droppedAlertmanagers");
    let av = Seq::new(
        t.active@.len(),
        |i: int| crate::encode::spec_encode_alert_manager(t.active@[i]),
    );
    let dv = Seq::new(
        t.dropped@.len(),
        |i: int| crate::encode::spec_encode_alert_manager(t.dropped@[i]),
    );
    lemma_view_obj(
        w,
        seq![("activeAlertmanagers"@, JsonV::Arr(av)), ("droppedAlertmanagers"@, JsonV::Arr(dv))],
    );
    match w {
        JsonValue::Obj(o) => {
            assert("activeAlertmanagers"@.len() == 19 && "droppedAlertmanagers"@.len() == 20);
            lemma_first_where_is(
                o@,
                crate::decode::key_not_in("activeAlertmanagers"@, "droppedAlertmanagers"@),
                o@.len() as int,
            );
            lemma_get_field_at(o@, "activeAlertmanagers"@, 0);
            lemma_get_field_at(o@, "droppedAlertmanagers"@, 1);
            lemma_view_arr(o@[0].1, av);
            match o@[0].1 {
                JsonValue::Arr(a) => {
                    assert forall|k: int|
                        0 <= k < a@.len() implies crate::decode::dec_alert_manager_fn()(
                        #[trigger] a@[k],
                    ) == Ok::<Seq<char>, DecodeErrorV>(views_of(t.active@)[k]) by {
                        lemma_alert_manager_decode_encode(t.active@[k], a@[k]);
                    }
                    lemma_decode_seq_all_ok(
                        a@,
                        crate::decode::dec_alert_manager_fn(),
                        views_of(t.active@),
                    );
                },
                _ => {
                    assert(false);
                },
            }
            lemma_view_arr(o@[1].1, dv);
            match o@[1].1 {
                JsonValue::Arr(a) => {
                    assert forall|k: int|
                        0 <= k < a@.len() implies crate::decode::dec_alert_manager_fn()(
                        #[trigger] a@[k],
                    ) == Ok::<Seq<char>, DecodeErrorV>(views_of(t.dropped@)[k]) by {
                        lemma_alert_manager_decode_encode(t.dropped@[k], a@[k]);
                    }
                    lemma_decode_seq_all_ok(
                        a@,
                        crate::decode::dec_alert_manager_fn(),
                        views_of(t.dropped@),
                    );
                },
                _ => {
                    assert(false);
                },
            }
        },
        _ => {
            assert(false);
        },
    }
}

// Alerts and rules.

proof fn lemma_alert_decode_encode(x: Alert, w: JsonValue)
    requires
        w@ == crate::encode::spec_encode_alert(x),
    ensures
        crate::decode::spec_decode_alert(w) == Ok::<AlertV, DecodeErrorV>(x@),
{
    reveal_strlit("activeAt");
    reveal_strlit("annotations");
    reveal_strlit("labels");
    reveal_strlit("state");
    reveal_strlit("value");
    lemma_view_obj(
        w,
        seq![
            ("activeAt"@, JsonV::Str(x.active_at@)),
            ("annotations"@, opt_map_json(x.annotations)),
            ("labels"@, opt_map_json(x.labels)),
            ("state"@, JsonV::Str(state_text(x.state))),
            ("value"@, JsonV::Str(x.value@)),
        ],
    );
    match w {
        JsonValue::Obj(o) => {
            assert("activeAt"@.len() == 8 && "annotations"@.len() == 11 && "labels"@.len() == 6
                && "state"@.len() == 5 && "value"@.len() == 5);
            assert("state"@[0] == 's' && "value"@[0] == 'v');
            lemma_get_field_at(o@, "activeAt"@, 0);
            lemma_view_str(o@[0].1, x.active_at@);
            lemma_get_field_at(o@, "annotations"@, 1);
            lemma_opt_map_decode_encode(x.annotations, o@[1].1, "annotations"@);
            lemma_get_field_at(o@, "labels"@, 2);
            lemma_opt_map_decode_encode(x.labels, o@[2].1, "labels"@);
            lemma_get_field_at(o@, "state"@, 3);
            lemma_state_decode_encode(x.state, o@[3].1);
            lemma_get_field_at(o@, "value"@, 4);
            lemma_view_str(o@[4].1, x.value@);
        },
        _ => {
            assert(false);
        },
    }
}

proof fn lemma_rule_decode_encode(x: Rule, w: JsonValue)
    requires
        w@ == crate::encode::spec_encode_rule(x),
    ensures
        crate::decode::spec_decode_rule(w) == Ok::<RuleV, DecodeErrorV>(x@),
{
    reveal_strlit("alerts");
    reveal_strlit("annotations");
    reveal_strlit("duration");
    reveal_strlit("labels");
    reveal_strlit("health");
    reveal_strlit("name");
    reveal_strlit("query");
    reveal_strlit("type");
    let alerts_v: JsonV = match x.alerts {
        Some(v) => JsonV::Arr(
            Seq::new(v@.len(), |i: int| crate::encode::spec_encode_alert(v@[i])),
        ),
        None => JsonV::Null,
    };
    let duration_v: JsonV = match x.duration {
        Some(n) => JsonV::Num(i64_text(n)),
        None => JsonV::Null,
    };
    let ps = seq![
        ("alerts"@, alerts_v),
        ("annotations"@, opt_map_json(x.annotations)),
        ("duration"@, duration_v),
        ("labels"@, opt_map_json(x.labels)),
        ("health"@, JsonV::Str(x.health@)),
        ("name"@, JsonV::Str(x.name@)),
        ("query"@, JsonV::Str(x.query@)),
        ("type"@, JsonV::Str(rule_type_text(x.rule_type))),
    ];
    let qs = match w@ {
        JsonV::Obj(q) => q,
        _ => arbitrary(),
    };
    assert(qs.len() == 8 && qs[1] == ps[1] && qs[3] == ps[3] && qs[4] == ps[4] && qs[5] == ps[5]
        && qs[6] == ps[6] && qs[7] == ps[7]);
    match x.alerts {
        Some(_) => {
            assert(qs[0] == ps[0]);
        },
        None => {
            assert(qs[0] == ps[0]);
        },
    }
    match x.duration {
        Some(_) => {
            assert(qs[2] == ps[2]);
        },
        None => {
            assert(qs[2] == ps[2]);
        },
    }
    assert(qs =~= ps);
    assert(w@ == JsonV::Obj(ps));
    lemma_view_obj(w, ps);
    match w {
        JsonValue::Obj(o) => {
            assert("alerts"@.len() == 6 && "annotations"@.len() == 11 && "duration"@.len() == 8
                && "labels"@.len() == 6 && "health"@.len() == 6 && "name"@.len() == 4
                && "query"@.len() == 5 && "type"@.len() == 4);
            assert("alerts"@[0] == 'a' && "labels"@[0] == 'l' && "health"@[0] == 'h');
            assert("name"@[0] == 'n' && "type"@[0] == 't');
            lemma_get_field_at(o@, "alerts"@, 0);
            match x.alerts {
                Some(v) => {
                    lemma_view_arr(
                        o@[0].1,
                        Seq::new(v@.len(), |i: int| crate::encode::spec_encode_alert(v@[i])),
                    );
                    match o@[0].1 {
                        JsonValue::Arr(a) => {
                            assert forall|k: int|
                                0 <= k < a@.len() implies crate::decode::dec_alert_fn()(
                                #[trigger] a@[k],
                            ) == Ok::<AlertV, DecodeErrorV>(views_of(v@)[k]) by {
                                lemma_alert_decode_encode(v@[k], a@[k]);
                            }
                            lemma_decode_seq_all_ok(
                                a@,
                                crate::decode::dec_alert_fn(),
                                views_of(v@),
                            );
                        },
                        _ => {
                            assert(false);
                        },
                    }
                },
                None => {
                    lemma_view_null(o@[0].1);
                },
            }
            lemma_get_field_at(o@, "annotations"@, 1);
            lemma_opt_map_decode_encode(x.annotations, o@[1].1, "annotations"@);
            lemma_get_field_at(o@, "duration"@, 2);
            match x.duration {
                Some(n) => {
                    lemma_view_num(o@[2].1, i64_text(n));
                    lemma_i64_text_value(n);
                },
                None => {
                    lemma_view_null(o@[2].1);
                },
            }
            lemma_get_field_at(o@, "labels"@, 3);
            lemma_opt_map_decode_encode(x.labels, o@[3].1, "labels"@);
            lemma_get_field_at(o@, "health"@, 4);
            lemma_view_str(o@[4].1, x.health@);
            lemma_get_field_at(o@, "name"@, 5);
            lemma_view_str(o@[5].1, x.name@);
            lemma_get_field_at(o@, "query"@, 6);
            lemma_view_str(o@[6].1, x.query@);
            lemma_get_field_at(o@, "type"@, 7);
            lemma_rule_type_decode_encode(x.rule_type, o@[7].1);
        },
        _ => {
            assert(false);
        },
    }
}

proof fn lemma_rule_group_decode_encode(x: RuleGroups, w: JsonValue)
    requires
        w@ == crate::encode::spec_encode_rule_group(x),
    ensures
        crate::decode::spec_decode_rule_group(w) == Ok::<RuleGroupsV, DecodeErrorV>(x@),
{
    reveal_strlit("rules");
    reveal_strlit("file");
    reveal_strlit("interval");
    reveal_strlit("name");
    let rules_v = JsonV::Arr(
        Seq::new(x.rules@.len(), |i: int| crate::encode::spec_encode_rule(x.rules@[i])),
    );
    lemma_view_obj(
        w,
        seq![
            ("rules"@, rules_v),
            ("file"@, JsonV::Str(x.file@)),
            ("interval"@, JsonV::Num(i64_text(x.interval))),
            ("name"@, JsonV::Str(x.name@)),
        ],
    );
    match w {
        JsonValue::Obj(o) => {
            assert("rules"@.len() == 5 && "file"@.len() == 4 && "interval"@.len() == 8
                && "name"@.len() == 4);
            assert("file"@[0] == 'f' && "name"@[0] == 'n');
            lemma_get_field_at(o@, "rules"@, 0);
            lemma_view_arr(
                o@[0].1,
                Seq::new(x.rules@.len(), |i: int| crate::encode::spec_encode_rule(x.rules@[i])),
            );
            match o@[0].1 {
                JsonValue::Arr(a) => {
                    assert forall|k: int| 0 <= k < a@.len() implies crate::decode::dec_rule_fn()(
                        #[trigger] a@[k],
                    ) == Ok::<RuleV, DecodeErrorV>(views_of(x.rules@)[k]) by {
                        lemma_rule_decode_encode(x.rules@[k], a@[k]);
                    }
                    lemma_decode_seq_all_ok(a@, crate::decode::dec_rule_fn(), views_of(x.rules@));
                },
                _ => {
                    assert(false);
                },
            }
            lemma_get_field_at(o@, "file"@, 1);
            lemma_view_str(o@[1].1, x.file@);
            lemma_get_field_at(o@, "interval"@, 2);
            lemma_view_num(o@[2].1, i64_text(x.interval));
            lemma_i64_text_value(x.interval);
            lemma_get_field_at(o@, "name"@, 3);
            lemma_view_str(o@[3].1, x.name@);
        },
        _ => {
            assert(false);
        },
    }
}

proof fn lemma_rules_decode_encode(x: Rules, w: JsonValue)
    requires
        w@ == crate::encode::spec_encode_rules(x),
    ensures
        crate::decode::spec_decode_rules(w) == Ok::<RulesV, DecodeErrorV>(x@),
{
    reveal_strlit("groups");
    let groups_v = JsonV::Arr(
        Seq::new(x.groups@.len(), |i: int| crate::encode::spec_encode_rule_group(x.groups@[i])),
    );
    lemma_view_obj(w, seq![("groups"@, groups_v)]);
    match w {
        JsonValue::Obj(o) => {
            lemma_first_where_is(
                o@,
                crate::decode::key_not_in("groups"@, "groups"@),
                o@.len() as int,
            );
            lemma_get_field_at(o@, "groups"@, 0);
            lemma_view_arr(
                o@[0].1,
                Seq::new(
                    x.groups@.len(),
                    |i: int| crate::encode::spec_encode_rule_group(x.groups@[i]),
                ),
            );
            match o@[0].1 {
                JsonValue::Arr(a) => {
                    assert forall|k: int|
                        0 <= k < a@.len() implies crate::decode::dec_rule_group_fn()(
                        #[trigger] a@[k],
                    ) == Ok::<RuleGroupsV, DecodeErrorV>(views_of(x.groups@)[k]) by {
                        lemma_rule_group_decode_encode(x.groups@[k], a@[k]);
                    }
                    lemma_decode_seq_all_ok(
                        a@,
                        crate::decode::dec_rule_group_fn(),
                        views_of(x.groups@),
                    );
                },
                _ => {
                    assert(false);
                },
            }
        },
        _ => {
            assert(false);
        },
    }
}

proof fn lemma_alerts_decode_encode(x: Alerts, w: JsonValue)
    requires
        w@ == crate::encode::spec_encode_data(crate::result_types::Data::Alerts(x)),
    ensures
        crate::decode::spec_decode_alerts(w) == Ok::<Seq<AlertV>, DecodeErrorV>(x@),
{
    reveal_strlit("alerts");
    let alerts_v = JsonV::Arr(
        Seq::new(x.alerts@.len(), |i: int| crate::encode::spec_encode_alert(x.alerts@[i])),
    );
    lemma_view_obj(w, seq![("alerts"@, alerts_v)]);
    match w {
        JsonValue::Obj(o) => {
            lemma_first_where_is(
                o@,
                crate::decode::key_not_in("alerts"@, "alerts"@),
                o@.len() as int,
            );
            lemma_get_field_at(o@, "alerts"@, 0);
            lemma_view_arr(
                o@[0].1,
                Seq::new(x.alerts@.len(), |i: int| crate::encode::spec_encode_alert(x.alerts@[i])),
            );
            match o@[0].1 {
                JsonValue::Arr(a) => {
                    assert forall|k: int| 0 <= k < a@.len() implies crate::decode::dec_alert_fn()(
                        #[trigger] a@[k],
                    ) == Ok::<AlertV, DecodeErrorV>(views_of(x.alerts@)[k]) by {
                        lemma_alert_decode_encode(x.alerts@[k], a@[k]);
                    }
                    lemma_decode_seq_all_ok(a@, crate::decode::dec_alert_fn(), views_of(x.alerts@));
                },
                _ => {
                    assert(false);
                },
            }
        },
        _ => {
            assert(false);
        },
    }
}

proof fn lemma_config_decode_encode(x: Config, w: JsonValue)
    requires
        w@ == (JsonV::Obj(seq![("yaml"@, JsonV::Str(x.yaml@))])),
    ensures
        crate::decode::spec_decode_config(w) == Ok::<Seq<char>, DecodeErrorV>(x@),
{
    reveal_strlit("yaml");
    lemma_view_obj(w, seq![("yaml"@, JsonV::Str(x.yaml@))]);
    match w {
        JsonValue::Obj(o) => {
            lemma_first_where_is(o@, crate::decode::key_not_in("yaml"@, "yaml"@), o@.len() as int);
            lemma_get_field_at(o@, "yaml"@, 0);
            lemma_view_str(o@[0].1, x.yaml@);
        },
        _ => {
            assert(false);
        },
    }
}

proof fn lemma_snapshot_decode_encode(x: Snapshot, w: JsonValue)
    requires
        w@ == (JsonV::Obj(seq![("name"@, JsonV::Str(x.name@))])),
    ensures
        crate::decode::spec_decode_snapshot(w) == Ok::<Seq<char>, DecodeErrorV>(x@),
{
    reveal_strlit("name");
    lemma_view_obj(w, seq![("name"@, JsonV::Str(x.name@))]);
    match w {
        JsonValue::Obj(o) => {
            lemma_first_where_is(o@, crate::decode::key_not_in("name"@, "name"@), o@.len() as int);
            lemma_get_field_at(o@, "name"@, 0);
            lemma_view_str(o@[0].1, x.name@);
        },
        _ => {
            assert(false);
        },
    }
}



// Why no earlier shape matches an encoded payload: the resolver reaches
// the right decoder.

proof fn lemma_first_where_hit<T>(s: Seq<T>, p: spec_fn(T) -> bool, i: int)
    requires
        0 <= i < s.len(),
        p(s[i]),
    ensures
        first_where(s, p) < s.len(),
{
    lemma_first_where(s, p);
    if first_where(s, p) == s.len() {
        assert(!p(s[i]));
    }
}

proof fn lemma_expression_err_no_tag(w: JsonValue)
    requires
        w matches JsonValue::Obj(o) && (forall|k: int|
            0 <= k < o@.len() ==> (#[trigger] o@[k]).0@ != "resultType"@),
    ensures
        spec_decode_expression(w) is Err,
{
    match w {
        JsonValue::Obj(o) => {
            lemma_get_field_none(o@, "resultType"@);
        },
        _ => {
            assert(false);
        },
    }
}

proof fn lemma_expression_err_on_string_obj(w: JsonValue)
    requires
        w matches JsonValue::Obj(o) && (forall|k: int|
            0 <= k < o@.len() ==> (#[trigger] o@[k]).1 is Str),
    ensures
        spec_decode_expression(w) is Err,
{
    match w {
        JsonValue::Obj(o) => {
            lemma_get_field_shape(o@, "resultType"@);
            match spec_get_field(o@, "resultType"@) {
                Err(_) => {},
                Ok(None) => {},
                Ok(Some(tx)) => {
                    let i = choose|i: int|
                        0 <= i < o@.len() && (#[trigger] o@[i]).0@ == "resultType"@ && o@[i].1
                            == tx;
                    assert(tx is Str);
                    lemma_get_field_shape(o@, "result"@);
                    match spec_get_field(o@, "result"@) {
                        Err(_) => {},
                        Ok(None) => {},
                        Ok(Some(rx)) => {
                            let j = choose|j: int|
                                0 <= j < o@.len() && (#[trigger] o@[j]).0@ == "result"@ && o@[j].1
                                    == rx;
                            assert(rx is Str);
                        },
                    }
                },
            }
        },
        _ => {
            assert(false);
        },
    }
}

proof fn lemma_targets_err_on_string_obj(w: JsonValue)
    requires
        w matches JsonValue::Obj(o) && (forall|k: int|
            0 <= k < o@.len() ==> (#[trigger] o@[k]).1 is Str),
    ensures
        crate::decode::spec_decode_targets(w) is Err,
{
    match w {
        JsonValue::Obj(o) => {
            let p = crate::decode::key_not_in("activeTargets"@, "droppedTargets"@);
            lemma_first_where(o@, p);
            if first_where(o@, p) == o@.len() {
                lemma_get_field_shape(o@, "activeTargets"@);
                lemma_get_field_shape(o@, "droppedTargets"@);
                match spec_get_field(o@, "activeTargets"@) {
                    Err(_) => {},
                    Ok(ax) => match spec_get_field(o@, "droppedTargets"@) {
                        Err(_) => {},
                        Ok(dx) => {
                            match ax {
                                Some(x) => {
                                    let i = choose|i: int|
                                        0 <= i < o@.len() && (#[trigger] o@[i]).0@
                                            == "activeTargets"@ && o@[i].1 == x;
                                    assert(x is Str);
                                },
                                None => {
                                    match dx {
                                        Some(y) => {
                                            let j = choose|j: int|
                                                0 <= j < o@.len() && (#[trigger] o@[j]).0@
                                                    == "droppedTargets"@ && o@[j].1 == y;
                                            assert(y is Str);
                                        },
                                        None => {},
                                    }
                                },
                            }
                        },
                    },
                }
            }
        },
        _ => {
            assert(false);
        },
    }
}

proof fn lemma_alert_managers_err_on_string_obj(w: JsonValue)
    requires
        w matches JsonValue::Obj(o) && (forall|k: int|
            0 <= k < o@.len() ==> (#[trigger] o@[k]).1 is Str),
    ensures
        crate::decode::spec_decode_alert_managers(w) is Err,
{
    match w {
        JsonValue::Obj(o) => {
            let p = crate::decode::key_not_in("activeAlertmanagers"@, "droppedAlertmanagers"@);
            lemma_first_where(o@, p);
            if first_where(o@, p) == o@.len() {
                lemma_get_field_shape(o@, "activeAlertmanagers"@);
                lemma_get_field_shape(o@, "droppedAlertmanagers"@);
                match spec_get_field(o@, "activeAlertmanagers"@) {
                    Err(_) => {},
                    Ok(ax) => match spec_get_field(o@, "droppedAlertmanagers"@) {
                        Err(_) => {},
                        Ok(dx) => {
                            match ax {
                                Some(x) => {
                                    let i = choose|i: int|
                                        0 <= i < o@.len() && (#[trigger] o@[i]).0@
                                            == "activeAlertmanagers"@ && o@[i].1 == x;
                                    assert(x is Str);
                                },
                                None => {
                                    match dx {
                                        Some(y) => {
                                            let j = choose|j: int|
                                                0 <= j < o@.len() && (#[trigger] o@[j]).0@
                                                    == "droppedAlertmanagers"@ && o@[j].1 == y;
                                            assert(y is Str);
                                        },
                                        None => {},
                                    }
                                },
                            }
                        },
                    },
                }
            }
        },
        _ => {
            assert(false);
        },
    }
}

proof fn lemma_rules_err_on_string_obj(w: JsonValue)
    requires
        w matches JsonValue::Obj(o) && (forall|k: int|
            0 <= k < o@.len() ==> (#[trigger] o@[k]).1 is Str),
    ensures
        crate::decode::spec_decode_rules(w) is Err,
{
    match w {
        JsonValue::Obj(o) => {
            let p = crate::decode::key_not_in("groups"@, "groups"@);
            lemma_first_where(o@, p);
            if first_where(o@, p) == o@.len() {
                lemma_get_field_shape(o@, "groups"@);
                match spec_get_field(o@, "groups"@) {
                    Err(_) => {},
                    Ok(None) => {},
                    Ok(Some(x)) => {
                        let i = choose|i: int|
                            0 <= i < o@.len() && (#[trigger] o@[i]).0@ == "groups"@ && o@[i].1
                                == x;
                        assert(x is Str);
                    },
                }
            }
        },
        _ => {
            assert(false);
        },
    }
}

proof fn lemma_alerts_err_on_string_obj(w: JsonValue)
    requires
        w matches JsonValue::Obj(o) && (forall|k: int|
            0 <= k < o@.len() ==> (#[trigger] o@[k]).1 is Str),
    ensures
        crate::decode::spec_decode_alerts(w) is Err,
{
    match w {
        JsonValue::Obj(o) => {
            let p = crate::decode::key_not_in("alerts"@, "alerts"@);
            lemma_first_where(o@, p);
            if first_where(o@, p) == o@.len() {
                lemma_get_field_shape(o@, "alerts"@);
                match spec_get_field(o@, "alerts"@) {
                    Err(_) => {},
                    Ok(None) => {},
                    Ok(Some(x)) => {
                        let i = choose|i: int|
                            0 <= i < o@.len() && (#[trigger] o@[i]).0@ == "alerts"@ && o@[i].1
                                == x;
                        assert(x is Str);
                    },
                }
            }
        },
        _ => {
            assert(false);
        },
    }
}

/// A one-field flag map keyed `yaml` or `name` would read back as the
/// configuration or snapshot shape: the faithful flag maps exclude
/// exactly those.
pub open spec fn faithful_flags(f: StringMap) -> bool {
    !(f.entry_seq().len() == 1 && (f.entry_seq()[0].0@ == "yaml"@ || f.entry_seq()[0].0@
        == "name"@))
}

proof fn lemma_one_key_err_on_flags_obj(w: JsonValue, f: StringMap, name: Seq<char>)
    requires
        w matches JsonValue::Obj(o) && o@.len() == f.entry_seq().len() && (forall|k: int|
            0 <= k < o@.len() ==> (#[trigger] o@[k]).0@ == f.entry_seq()[k].0@),
        !(f.entry_seq().len() == 1 && f.entry_seq()[0].0@ == name),
    ensures
        (match w {
            JsonValue::Obj(o) => {
                let u = first_where(o@, crate::decode::key_not_in(name, name));
                u < o@.len() || (match spec_get_field(o@, name) {
                    Err(_) => true,
                    Ok(None) => true,
                    Ok(Some(_)) => false,
                })
            },
            _ => true,
        }),
{
    match w {
        JsonValue::Obj(o) => {
            let p = crate::decode::key_not_in(name, name);
            lemma_first_where(o@, p);
            if first_where(o@, p) == o@.len() {
                if o@.len() == 0 {
                    lemma_get_field_none(o@, name);
                } else if o@.len() == 1 {
                    assert(!p(o@[0]));
                    assert(false);
                } else {
                    assert(!p(o@[0]) && !p(o@[1]));
                    lemma_first_where_is(o@, key_is(name), 0);
                    let sk = o@.skip(1);
                    assert(sk[0] == o@[1]);
                    lemma_first_where_hit(sk, key_is(name), 0);
                }
            }
        },
        _ => {},
    }
}

// The resolver on each encoded payload.

/// A payload whose wire image reads back as itself: samples carry
/// floating point text, target and alert-manager addresses and times
/// pass their checkers, a label listing is not empty (an empty one
/// reads back as an empty series listing), and a flag map is not a
/// single binding keyed `yaml` or `name`.
pub open spec fn faithful_data(d: crate::result_types::Data) -> bool {
    match d {
        crate::result_types::Data::Expression(e) => faithful_expression(e),
        crate::result_types::Data::Series(_) => true,
        crate::result_types::Data::LabelsOrValues(l) => l.0@.len() > 0,
        crate::result_types::Data::Targets(t) => faithful_targets(t),
        crate::result_types::Data::Rules(_) => true,
        crate::result_types::Data::Alerts(_) => true,
        crate::result_types::Data::AlertManagers(m) => faithful_alert_managers(m),
        crate::result_types::Data::Config(_) => true,
        crate::result_types::Data::Snapshot(_) => true,
        crate::result_types::Data::Flags(f) => faithful_flags(f),
    }
}

#[verifier::rlimit(60)]
proof fn lemma_data_decode_encode(d: crate::result_types::Data, w: JsonValue)
    requires
        faithful_data(d),
        w@ == crate::encode::spec_encode_data(d),
    ensures
        crate::decode::spec_decode_data(w) == Ok::<crate::result_types::DataV, DecodeErrorV>(d@),
{
    reveal_strlit("resultType");
    reveal_strlit("activeTargets");
    reveal_strlit("droppedTargets");
    reveal_strlit("groups");
    reveal_strlit("alerts");
    reveal_strlit("activeAlertmanagers");
    reveal_strlit("droppedAlertmanagers");
    reveal_strlit("yaml");
    reveal_strlit("name");
    assert("resultType"@.len() == 10 && "activeTargets"@.len() == 13 && "droppedTargets"@.len()
        == 14 && "groups"@.len() == 6 && "alerts"@.len() == 6 && "activeAlertmanagers"@.len() == 19
        && "droppedAlertmanagers"@.len() == 20 && "yaml"@.len() == 4 && "name"@.len() == 4);
    assert("groups"@[0] == 'g' && "alerts"@[0] == 'a' && "yaml"@[0] == 'y' && "name"@[0] == 'n');
    match d {
        crate::result_types::Data::Expression(e) => {
            lemma_expression_decode_encode(e, w);
        },
        crate::result_types::Data::Series(s) => {
            let vs = Seq::new(
                s.0@.len(),
                |i: int| spec_encode_string_map(s.0@[i].labels),
            );
            lemma_view_arr(w, vs);
            match w {
                JsonValue::Arr(a) => {
                    assert forall|k: int| 0 <= k < a@.len() implies crate::decode::dec_metric_fn()(
                        #[trigger] a@[k],
                    ) == Ok::<Map<Seq<char>, Seq<char>>, DecodeErrorV>(views_of(s.0@)[k]) by {
                        lemma_map_decode_encode(s.0@[k].labels, a@[k]);
                    }
                    lemma_decode_seq_all_ok(a@, crate::decode::dec_metric_fn(), views_of(s.0@));
                },
                _ => {
                    assert(false);
                },
            }
        },
        crate::result_types::Data::LabelsOrValues(l) => {
            let vs = Seq::new(l.0@.len(), |i: int| JsonV::Str(l.0@[i]@));
            lemma_view_arr(w, vs);
            match w {
                JsonValue::Arr(a) => {
                    lemma_view_str(a@[0], l.0@[0]@);
                    assert(crate::decode::spec_decode_series(w) is Err);
                    assert forall|k: int|
                        0 <= k < a@.len() implies crate::decode::dec_string_fn("value"@)(
                        #[trigger] a@[k],
                    ) == Ok::<Seq<char>, DecodeErrorV>(views_of(l.0@)[k]) by {
                        lemma_view_str(a@[k], l.0@[k]@);
                    }
                    lemma_decode_seq_all_ok(
                        a@,
                        crate::decode::dec_string_fn("value"@),
                        views_of(l.0@),
                    );
                },
                _ => {
                    assert(false);
                },
            }
        },
        crate::result_types::Data::Targets(t) => {
            lemma_targets_decode_encode(t, w);
            lemma_view_obj(
                w,
                seq![
                    (
                        "activeTargets"@,
                        JsonV::Arr(
                            Seq::new(
                                t.active@.len(),
                                |i: int| crate::encode::spec_encode_active_target(t.active@[i]),
                            ),
                        ),
                    ),
                    (
                        "droppedTargets"@,
                        JsonV::Arr(
                            Seq::new(
                                t.dropped@.len(),
                                |i: int| crate::encode::spec_encode_dropped_target(t.dropped@[i]),
                            ),
                        ),
                    ),
                ],
            );
            match w {
                JsonValue::Obj(o) => {
                    lemma_expression_err_no_tag(w);
                },
                _ => {
                    assert(false);
                },
            }
        },
        crate::result_types::Data::Rules(r) => {
            lemma_rules_decode_encode(r, w);
            lemma_view_obj(
                w,
                seq![
                    (
                        "groups"@,
                        JsonV::Arr(
                            Seq::new(
                                r.groups@.len(),
                                |i: int| crate::encode::spec_encode_rule_group(r.groups@[i]),
                            ),
                        ),
                    ),
                ],
            );
            match w {
                JsonValue::Obj(o) => {
                    lemma_expression_err_no_tag(w);
                    lemma_first_where_hit(
                        o@,
                        crate::decode::key_not_in("activeTargets"@, "droppedTargets"@),
                        0,
                    );
                },
                _ => {
                    assert(false);
                },
            }
        },
        crate::result_types::Data::Alerts(x) => {
            lemma_alerts_decode_encode(x, w);
            lemma_view_obj(
                w,
                seq![
                    (
                        "alerts"@,
                        JsonV::Arr(
                            Seq::new(
                                x.alerts@.len(),
                                |i: int| crate::encode::spec_encode_alert(x.alerts@[i]),
                            ),
                        ),
                    ),
                ],
            );
            match w {
                JsonValue::Obj(o) => {
                    lemma_expression_err_no_tag(w);
                    lemma_first_where_hit(
                        o@,
                        crate::decode::key_not_in("activeTargets"@, "droppedTargets"@),
                        0,
                    );
                    lemma_first_where_hit(o@, crate::decode::key_not_in("groups"@, "groups"@), 0);
                },
                _ => {
                    assert(false);
                },
            }
        },
        crate::result_types::Data::AlertManagers(m) => {
            lemma_alert_managers_decode_encode(m, w);
            lemma_view_obj(
                w,
                seq![
                    (
                        "activeAlertmanagers"@,
                        JsonV::Arr(
                            Seq::new(
                                m.active@.len(),
                                |i: int| crate::encode::spec_encode_alert_manager(m.active@[i]),
                            ),
                        ),
                    ),
                    (
                        "droppedAlertmanagers"@,
                        JsonV::Arr(
                            Seq::new(
                                m.dropped@.len(),
                                |i: int| crate::encode::spec_encode_alert_manager(m.dropped@[i]),
                            ),
                        ),
                    ),
                ],
            );
            match w {
                JsonValue::Obj(o) => {
                    lemma_expression_err_no_tag(w);
                    lemma_first_where_hit(
                        o@,
                        crate::decode::key_not_in("activeTargets"@, "droppedTargets"@),
                        0,
                    );
                    lemma_first_where_hit(o@, crate::decode::key_not_in("groups"@, "groups"@), 0);
                    lemma_first_where_hit(o@, crate::decode::key_not_in("alerts"@, "alerts"@), 0);
                },
                _ => {
                    assert(false);
                },
            }
        },
        crate::result_types::Data::Config(c) => {
            lemma_config_decode_encode(c, w);
            lemma_view_obj(w, seq![("yaml"@, JsonV::Str(c.yaml@))]);
            match w {
                JsonValue::Obj(o) => {
                    lemma_expression_err_no_tag(w);
                    lemma_first_where_hit(
                        o@,
                        crate::decode::key_not_in("activeTargets"@, "droppedTargets"@),
                        0,
                    );
                    lemma_first_where_hit(o@, crate::decode::key_not_in("groups"@, "groups"@), 0);
                    lemma_first_where_hit(o@, crate::decode::key_not_in("alerts"@, "alerts"@), 0);
                    lemma_first_where_hit(
                        o@,
                        crate::decode::key_not_in(
                            "activeAlertmanagers"@,
                            "droppedAlertmanagers"@,
                        ),
                        0,
                    );
                },
                _ => {
                    assert(false);
                },
            }
        },
        crate::result_types::Data::Snapshot(s) => {
            lemma_snapshot_decode_encode(s, w);
            lemma_view_obj(w, seq![("name"@, JsonV::Str(s.name@))]);
            match w {
                JsonValue::Obj(o) => {
                    lemma_expression_err_no_tag(w);
                    lemma_first_where_hit(
                        o@,
                        crate::decode::key_not_in("activeTargets"@, "droppedTargets"@),
                        0,
                    );
                    lemma_first_where_hit(o@, crate::decode::key_not_in("groups"@, "groups"@), 0);
                    lemma_first_where_hit(o@, crate::decode::key_not_in("alerts"@, "alerts"@), 0);
                    lemma_first_where_hit(
                        o@,
                        crate::decode::key_not_in(
                            "activeAlertmanagers"@,
                            "droppedAlertmanagers"@,
                        ),
                        0,
                    );
                    lemma_first_where_hit(o@, crate::decode::key_not_in("yaml"@, "yaml"@), 0);
                },
                _ => {
                    assert(false);
                },
            }
        },
        crate::result_types::Data::Flags(f) => {
            let ps = Seq::new(
                f.entry_seq().len(),
                |i: int| (f.entry_seq()[i].0@, JsonV::Str(f.entry_seq()[i].1@)),
            );
            lemma_view_obj(w, ps);
            match w {
                JsonValue::Obj(o) => {
                    assert forall|k: int| 0 <= k < o@.len() implies (#[trigger] o@[k]).1
                        is Str by {
                        lemma_view_str(o@[k].1, f.entry_seq()[k].1@);
                    }
                    lemma_expression_err_on_string_obj(w);
                    lemma_targets_err_on_string_obj(w);
                    lemma_rules_err_on_string_obj(w);
                    lemma_alerts_err_on_string_obj(w);
                    lemma_alert_managers_err_on_string_obj(w);
                    lemma_one_key_err_on_flags_obj(w, f, "yaml"@);
                    lemma_one_key_err_on_flags_obj(w, f, "name"@);
                    lemma_map_decode_encode(f, w);
                },
                _ => {
                    assert(false);
                },
            }
        },
    }
}

// The envelope itself.

/// An envelope whose wire image reads back as itself: its payload, if
/// any, is faithful.
pub open spec fn faithful_envelope(x: crate::result_types::ApiResult) -> bool {
    match x {
        crate::result_types::ApiResult::ApiOk(o) => match o.data {
            Some(d) => faithful_data(d),
            None => true,
        },
        crate::result_types::ApiResult::ApiErr(e) => match e.data {
            Some(d) => faithful_data(d),
            None => true,
        },
    }
}

proof fn lemma_encode_data_not_null(d: crate::result_types::Data, x: JsonValue)
    requires
        x@ == crate::encode::spec_encode_data(d),
    ensures
        !(x is Null),
{
    if x is Null {
        match d {
            crate::result_types::Data::Expression(e) => {
                match e {
                    Expression::Scalar(_) => {},
                    Expression::StringResult(_) => {},
                    Expression::InstantVector(_) => {},
                    Expression::RangeMatrix(_) => {},
                }
            },
            _ => {},
        }
        assert(false);
    }
}

/// The round-trip law of the whole codec: an envelope written out in
/// wire form reads back as exactly the same envelope.  It holds of
/// every faithful envelope, in particular of everything the decoder
/// itself produces.
#[verifier::rlimit(60)]
pub proof fn lemma_envelope_round_trip(x: crate::result_types::ApiResult, w: JsonValue)
    requires
        faithful_envelope(x),
        w@ == crate::encode::spec_encode_envelope(x),
    ensures
        crate::decode::spec_decode_envelope(w) == Ok::<
            crate::result_types::ApiResultV,
            DecodeErrorV,
        >(x@),
{
    reveal_strlit("status");
    reveal_strlit("data");
    reveal_strlit("warnings");
    reveal_strlit("errorType");
    reveal_strlit("error");
    reveal_strlit("success");
    assert("status"@.len() == 6 && "data"@.len() == 4 && "warnings"@.len() == 8
        && "errorType"@.len() == 9 && "error"@.len() == 5 && "success"@.len() == 7);
    match x {
        crate::result_types::ApiResult::ApiOk(ok) => {
            let ps = seq![
                ("status"@, JsonV::Str("success"@)),
                ("data"@, crate::encode::opt_data_json(ok.data)),
                (
                    "warnings"@,
                    JsonV::Arr(
                        Seq::new(ok.warnings@.len(), |i: int| JsonV::Str(ok.warnings@[i]@)),
                    ),
                ),
            ];
            let qs = match w@ {
                JsonV::Obj(q) => q,
                _ => arbitrary(),
            };
            assert(qs.len() == 3 && qs[0] == ps[0] && qs[2] == ps[2]);
            match ok.data {
                Some(_) => {
                    assert(qs[1] == ps[1]);
                },
                None => {
                    assert(qs[1] == ps[1]);
                },
            }
            assert(qs =~= ps);
            assert(w@ == JsonV::Obj(ps));
            lemma_view_obj(w, ps);
            match w {
                JsonValue::Obj(o) => {
                    lemma_get_field_at(o@, "status"@, 0);
                    lemma_view_str(o@[0].1, "success"@);
                    lemma_get_field_at(o@, "data"@, 1);
                    match ok.data {
                        Some(d) => {
                            lemma_encode_data_not_null(d, o@[1].1);
                            lemma_data_decode_encode(d, o@[1].1);
                        },
                        None => {
                            lemma_view_null(o@[1].1);
                        },
                    }
                    lemma_get_field_at(o@, "warnings"@, 2);
                    lemma_view_arr(
                        o@[2].1,
                        Seq::new(ok.warnings@.len(), |i: int| JsonV::Str(ok.warnings@[i]@)),
                    );
                    match o@[2].1 {
                        JsonValue::Arr(a) => {
                            assert forall|k: int|
                                0 <= k < a@.len() implies crate::decode::dec_string_fn(
                                "warnings"@,
                            )(#[trigger] a@[k]) == Ok::<Seq<char>, DecodeErrorV>(
                                views_of(ok.warnings@)[k],
                            ) by {
                                lemma_view_str(a@[k], ok.warnings@[k]@);
                            }
                            lemma_decode_seq_all_ok(
                                a@,
                                crate::decode::dec_string_fn("warnings"@),
                                views_of(ok.warnings@),
                            );
                        },
                        _ => {
                            assert(false);
                        },
                    }
                },
                _ => {
                    assert(false);
                },
            }
        },
        crate::result_types::ApiResult::ApiErr(er) => {
            let ps = seq![
                ("status"@, JsonV::Str("error"@)),
                ("errorType"@, JsonV::Str(er.error_type@)),
                ("error"@, JsonV::Str(er.error_message@)),
                ("data"@, crate::encode::opt_data_json(er.data)),
                (
                    "warnings"@,
                    JsonV::Arr(
                        Seq::new(er.warnings@.len(), |i: int| JsonV::Str(er.warnings@[i]@)),
                    ),
                ),
            ];
            let qs = match w@ {
                JsonV::Obj(q) => q,
                _ => arbitrary(),
            };
            assert(qs.len() == 5 && qs[0] == ps[0] && qs[1] == ps[1] && qs[2] == ps[2] && qs[4]
                == ps[4]);
            match er.data {
                Some(_) => {
                    assert(qs[3] == ps[3]);
                },
                None => {
                    assert(qs[3] == ps[3]);
                },
            }
            assert(qs =~= ps);
            assert(w@ == JsonV::Obj(ps));
            lemma_view_obj(w, ps);
            match w {
                JsonValue::Obj(o) => {
                    lemma_get_field_at(o@, "status"@, 0);
                    lemma_view_str(o@[0].1, "error"@);
                    lemma_get_field_at(o@, "errorType"@, 1);
                    lemma_view_str(o@[1].1, er.error_type@);
                    lemma_get_field_at(o@, "error"@, 2);
                    lemma_view_str(o@[2].1, er.error_message@);
                    lemma_get_field_at(o@, "data"@, 3);
                    match er.data {
                        Some(d) => {
                            lemma_encode_data_not_null(d, o@[3].1);
                            lemma_data_decode_encode(d, o@[3].1);
                        },
                        None => {
                            lemma_view_null(o@[3].1);
                        },
                    }
                    lemma_get_field_at(o@, "warnings"@, 4);
                    lemma_view_arr(
                        o@[4].1,
                        Seq::new(er.warnings@.len(), |i: int| JsonV::Str(er.warnings@[i]@)),
                    );
                    match o@[4].1 {
                        JsonValue::Arr(a) => {
                            assert forall|k: int|
                                0 <= k < a@.len() implies crate::decode::dec_string_fn(
                                "warnings"@,
                            )(#[trigger] a@[k]) == Ok::<Seq<char>, DecodeErrorV>(
                                views_of(er.warnings@)[k],
                            ) by {
                                lemma_view_str(a@[k], er.warnings@[k]@);
                            }
                            lemma_decode_seq_all_ok(
                                a@,
                                crate::decode::dec_string_fn("warnings"@),
                                views_of(er.warnings@),
                            );
                        },
                        _ => {
                            assert(false);
                        },
                    }
                },
                _ => {
                    assert(false);
                },
            }
        },
    }
}


} // verus!
