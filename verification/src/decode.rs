//! Decoding wire values into the result model.
//!
//! Every decoder is total over [`JsonValue`] and is specified exactly: a
//! spec-level decoder states the result for every input, and the
//! executable decoder is proved to match it.  Object decoders work in
//! fixed phases: a closed decoder first refuses the first unknown field
//! in wire order; then each known field, in declaration order, is
//! refused if bound twice; then field values are read in declaration
//! order.
//!
//! The payload resolver tries the shapes in a fixed order and takes the
//! first that decodes; the flag map, which any string-to-string object
//! matches, is tried last so that it cannot swallow the specific shapes.

use vstd::prelude::*;

use crate::errors::{shape_names, DecodeError, DecodeErrorV};
use crate::json::{JsonV, JsonValue};
use crate::numbers::{
    check_float_lexeme, check_inf_lexeme, check_nan_lexeme, is_float_lexeme, is_inf_lexeme,
    is_nan_lexeme,
};
use crate::result_types::{
    views_of, ActiveTarget, ActiveTargetV, Alert, AlertManager, AlertManagers, AlertManagersV,
    AlertState, AlertV, Alerts, ApiErr, ApiErrV, ApiOk, ApiOkV, ApiResult, ApiResultV, Config,
    Data, DataV, DroppedTarget, Expression, ExpressionV, Instant, InstantV, LabelsOrValues,
    Metric, Range, RangeV, Rule, RuleGroups, RuleGroupsV, RuleType, RuleV, Rules, RulesV, Sample,
    SampleV, SampleValue, SampleValueV, Series, Snapshot, StringSample, StringSampleV,
    TargetHealth, Targets, TargetsV,
};
use crate::string_map::StringMap;
use crate::text::str_eq;

verus! {

/// The payload of a successful decode; unspecified for a failed one.
pub open spec fn ok_val<T>(r: Result<T, DecodeErrorV>) -> T {
    match r {
        Ok(t) => t,
        Err(_) => arbitrary(),
    }
}

/// Index of the first element satisfying `p`, or the length if none.
pub open spec fn first_where<T>(s: Seq<T>, p: spec_fn(T) -> bool) -> int
    decreases s.len(),
{
    if s.len() == 0 {
        0
    } else if p(s[0]) {
        0
    } else {
        1 + first_where(s.drop_first(), p)
    }
}

pub proof fn lemma_first_where_is<T>(s: Seq<T>, p: spec_fn(T) -> bool, i: int)
    requires
        0 <= i <= s.len(),
        forall|k: int| 0 <= k < i ==> !p(#[trigger] s[k]),
        i < s.len() ==> p(s[i]),
    ensures
        first_where(s, p) == i,
    decreases s.len(),
{
    if s.len() > 0 && i > 0 {
        let d = s.drop_first();
        assert(forall|k: int| 0 <= k < d.len() ==> #[trigger] d[k] == s[k + 1]);
        lemma_first_where_is(d, p, i - 1);
    }
}

/// The key equals `name`.
pub open spec fn key_is(name: Seq<char>) -> spec_fn((String, JsonValue)) -> bool {
    |e: (String, JsonValue)| e.0@ == name
}

/// The value is not a string.
pub open spec fn val_not_str() -> spec_fn((String, JsonValue)) -> bool {
    |e: (String, JsonValue)| !(e.1 is Str)
}

/// The key is neither `n1` nor `n2`; with `n1 == n2` this is "not `n1`".
pub open spec fn key_not_in(n1: Seq<char>, n2: Seq<char>) -> spec_fn((String, JsonValue)) -> bool {
    |e: (String, JsonValue)| e.0@ != n1 && e.0@ != n2
}

/// The only field binding for `name`, if any: the first binding, unless a
/// second exists, which is refused.
pub open spec fn spec_get_field(o: Seq<(String, JsonValue)>, name: Seq<char>) -> Result<
    Option<JsonValue>,
    DecodeErrorV,
> {
    let i = first_where(o, key_is(name));
    if i == o.len() {
        Ok(None)
    } else if first_where(o.skip(i + 1), key_is(name)) < o.len() - i - 1 {
        Err(DecodeErrorV::DuplicateField { field: name })
    } else {
        Ok(Some(o[i].1))
    }
}

/// Looks `name` up in the field list, refusing a duplicate binding.
#[verifier::loop_isolation(false)]
pub fn get_field<'a>(o: &'a Vec<(String, JsonValue)>, name: &str) -> (r: Result<
    Option<&'a JsonValue>,
    DecodeError,
>)
    ensures
        match (r, spec_get_field(o@, name@)) {
            (Ok(Some(x)), Ok(Some(y))) => *x == y,
            (Ok(None), Ok(None)) => true,
            (Err(e), Err(ev)) => e@ == ev,
            _ => false,
        },
{
    let ghost p = key_is(name@);
    let mut i: usize = 0;
    let mut found: Option<usize> = None;
    while i < o.len()
        invariant
            i <= o@.len(),
            match found {
                None => forall|k: int| 0 <= k < i ==> !p(#[trigger] o@[k]),
                Some(j) => {
                    &&& 0 <= j < i
                    &&& p(o@[j as int])
                    &&& forall|k: int| 0 <= k < j ==> !p(#[trigger] o@[k])
                    &&& forall|k: int| j < k < i ==> !p(#[trigger] o@[k])
                },
            },
        decreases o.len() - i,
    {
        if str_eq(o[i].0.as_str(), name) {
            proof {
                assert(p(o@[i as int]));
            }
            match found {
                Some(j) => {
                    proof {
                        lemma_first_where_is(o@, p, j as int);
                        let sk = o@.skip(j as int + 1);
                        assert(forall|k: int|
                            0 <= k < sk.len() ==> #[trigger] sk[k] == o@[j as int + 1 + k]);
                        lemma_first_where_is(sk, p, i as int - j as int - 1);
                    }
                    return Err(DecodeError::DuplicateField { field: String::from_str(name) });
                },
                None => {
                    found = Some(i);
                },
            }
        } else {
            proof {
                assert(!p(o@[i as int]));
            }
        }
        i = i + 1;
    }
    match found {
        Some(j) => {
            proof {
                lemma_first_where_is(o@, p, j as int);
                let sk = o@.skip(j as int + 1);
                assert(forall|k: int| 0 <= k < sk.len() ==> #[trigger] sk[k] == o@[j as int + 1 + k]);
                lemma_first_where_is(sk, p, sk.len() as int);
            }
            Ok(Some(&o[j].1))
        },
        None => {
            proof {
                lemma_first_where_is(o@, p, o@.len() as int);
            }
            Ok(None)
        },
    }
}

/// Decodes the elements from index `i` on, stopping at the first refusal.
pub open spec fn decode_seq_from<T>(
    s: Seq<JsonValue>,
    f: spec_fn(JsonValue) -> Result<T, DecodeErrorV>,
    i: int,
) -> Result<Seq<T>, DecodeErrorV>
    decreases s.len() - i,
{
    if i < 0 || i >= s.len() {
        Ok(Seq::empty())
    } else {
        match f(s[i]) {
            Err(e) => Err(e),
            Ok(t) => match decode_seq_from(s, f, i + 1) {
                Err(e) => Err(e),
                Ok(ts) => Ok(Seq::empty().push(t) + ts),
            },
        }
    }
}

/// Decodes every element, stopping at the first refusal.
pub open spec fn decode_seq<T>(
    s: Seq<JsonValue>,
    f: spec_fn(JsonValue) -> Result<T, DecodeErrorV>,
) -> Result<Seq<T>, DecodeErrorV> {
    decode_seq_from(s, f, 0)
}

pub proof fn lemma_decode_seq_prefix<T>(
    s: Seq<JsonValue>,
    f: spec_fn(JsonValue) -> Result<T, DecodeErrorV>,
    i: int,
)
    requires
        0 <= i <= s.len(),
        forall|k: int| 0 <= k < i ==> (#[trigger] f(s[k])) is Ok,
    ensures
        decode_seq(s, f) == (match decode_seq_from(s, f, i) {
            Err(e) => Err::<Seq<T>, DecodeErrorV>(e),
            Ok(ts) => Ok(Seq::new(i as nat, |k: int| ok_val(f(s[k]))) + ts),
        }),
    decreases i,
{
    if i == 0 {
        match decode_seq_from(s, f, 0) {
            Err(e) => {},
            Ok(ts) => {
                assert(Seq::new(0, |k: int| ok_val(f(s[k]))) + ts =~= ts);
            },
        }
    } else {
        lemma_decode_seq_prefix(s, f, i - 1);
        match decode_seq_from(s, f, i) {
            Err(e) => {},
            Ok(ts) => {
                let t = ok_val(f(s[i - 1]));
                assert(decode_seq_from(s, f, i - 1) == Ok::<Seq<T>, DecodeErrorV>(
                    Seq::empty().push(t) + ts,
                ));
                assert(Seq::new((i - 1) as nat, |k: int| ok_val(f(s[k]))) + (Seq::empty().push(t)
                    + ts) =~= Seq::new(i as nat, |k: int| ok_val(f(s[k]))) + ts);
            },
        }
    }
}

// Error constructors.

fn err_invalid(field: &str, value: &JsonValue) -> (e: DecodeError)
    ensures
        e@ == (DecodeErrorV::InvalidValue { field: field@, value: value@ }),
{
    DecodeError::InvalidValue { field: String::from_str(field), value: value.clone_value() }
}

fn err_missing(field: &str) -> (e: DecodeError)
    ensures
        e@ == (DecodeErrorV::MissingField { field: field@ }),
{
    DecodeError::MissingField { field: String::from_str(field) }
}

fn err_unknown(key: &String) -> (e: DecodeError)
    ensures
        e@ == (DecodeErrorV::UnknownField { field: key@ }),
{
    DecodeError::UnknownField { field: key.clone() }
}

// Strings.

/// A string field's text; anything else is refused naming `field`.
pub open spec fn spec_decode_string(x: JsonValue, field: Seq<char>) -> Result<
    Seq<char>,
    DecodeErrorV,
> {
    match x {
        JsonValue::Str(s) => Ok(s@),
        _ => Err(DecodeErrorV::InvalidValue { field, value: x@ }),
    }
}

fn decode_string(x: &JsonValue, field: &str) -> (r: Result<String, DecodeError>)
    ensures
        match (r, spec_decode_string(*x, field@)) {
            (Ok(s), Ok(sv)) => s@ == sv,
            (Err(e), Err(ev)) => e@ == ev,
            _ => false,
        },
{
    match x {
        JsonValue::Str(s) => Ok(s.clone()),
        _ => Err(err_invalid(field, x)),
    }
}

// The numeric sample codec.

/// Decode of the positional sample pair `[epoch, value text]`: the epoch
/// must be a number, the value a string holding a sentinel token, one
/// of the float parser's other NaN and infinity spellings, or floating
/// point text.
pub open spec fn spec_decode_sample(v: JsonValue) -> Result<SampleV, DecodeErrorV> {
    match v {
        JsonValue::Arr(a) => {
            if a@.len() == 0 {
                Err(DecodeErrorV::MissingField { field: "sample time"@ })
            } else if !(a@[0] is Num) {
                Err(DecodeErrorV::InvalidValue { field: "sample time"@, value: a@[0]@ })
            } else if a@.len() == 1 {
                Err(DecodeErrorV::MissingField { field: "sample value"@ })
            } else {
                match a@[1] {
                    JsonValue::Str(sv) => {
                        if a@.len() > 2 {
                            Err(DecodeErrorV::InvalidValue { field: "sample"@, value: v@ })
                        } else {
                            match spec_decode_sample_value(sv@) {
                                Some(w) => Ok(
                                    SampleV { epoch: spec_num_text(a@[0]), value: w },
                                ),
                                None => Err(
                                    DecodeErrorV::InvalidValue {
                                        field: "sample value"@,
                                        value: a@[1]@,
                                    },
                                ),
                            }
                        }
                    },
                    _ => Err(DecodeErrorV::InvalidValue { field: "sample value"@, value: a@[1]@ }),
                }
            }
        },
        _ => Err(DecodeErrorV::InvalidValue { field: "sample"@, value: v@ }),
    }
}

/// The lexeme text of a number value; unspecified otherwise.
pub open spec fn spec_num_text(x: JsonValue) -> Seq<char> {
    match x {
        JsonValue::Num(s) => s@,
        _ => arbitrary(),
    }
}

/// The sentinel lookup, then the fallback of standard float parsing:
/// the float parser's remaining NaN and infinity spellings (`nan`,
/// `inf`, `infinity`, any letter case, optional sign) map to the same
/// non-finite markers, and floating point text is kept verbatim; any
/// other text is refused.
pub open spec fn spec_decode_sample_value(s: Seq<char>) -> Option<SampleValueV> {
    if s == "Inf"@ {
        Some(SampleValueV::PosInfinity)
    } else if s == "-Inf"@ {
        Some(SampleValueV::NegInfinity)
    } else if s == "NaN"@ {
        Some(SampleValueV::NotANumber)
    } else if is_nan_lexeme(s) {
        Some(SampleValueV::NotANumber)
    } else if is_inf_lexeme(s) {
        if s.len() > 0 && s[0] == '-' {
            Some(SampleValueV::NegInfinity)
        } else {
            Some(SampleValueV::PosInfinity)
        }
    } else if is_float_lexeme(s) {
        Some(SampleValueV::Finite(s))
    } else {
        None
    }
}

/// Reads a sample from its positional wire form.
pub fn decode_sample(v: &JsonValue) -> (r: Result<Sample, DecodeError>)
    ensures
        match (r, spec_decode_sample(*v)) {
            (Ok(s), Ok(sv)) => s@ == sv,
            (Err(e), Err(ev)) => e@ == ev,
            _ => false,
        },
{
    match v {
        JsonValue::Arr(a) => {
            if a.len() == 0 {
                return Err(err_missing("sample time"));
            }
            let epoch: String = match &a[0] {
                JsonValue::Num(s) => s.clone(),
                _ => {
                    return Err(err_invalid("sample time", &a[0]));
                },
            };
            if a.len() == 1 {
                return Err(err_missing("sample value"));
            }
            match &a[1] {
                JsonValue::Str(sv) => {
                    if a.len() > 2 {
                        return Err(err_invalid("sample", v));
                    }
                    match decode_sample_value(sv) {
                        Some(w) => Ok(Sample { epoch, value: w }),
                        None => Err(err_invalid("sample value", &a[1])),
                    }
                },
                _ => Err(err_invalid("sample value", &a[1])),
            }
        },
        _ => Err(err_invalid("sample", v)),
    }
}

/// Reads a sample value's text: a sentinel token, one of the float
/// parser's other NaN and infinity spellings, or floating point text.
pub fn decode_sample_value(s: &String) -> (r: Option<SampleValue>)
    ensures
        match (r, spec_decode_sample_value(s@)) {
            (Some(w), Some(wv)) => w@ == wv,
            (None, None) => true,
            _ => false,
        },
{
    if str_eq(s.as_str(), "Inf") {
        Some(SampleValue::PosInfinity)
    } else if str_eq(s.as_str(), "-Inf") {
        Some(SampleValue::NegInfinity)
    } else if str_eq(s.as_str(), "NaN") {
        Some(SampleValue::NotANumber)
    } else {
        let t = crate::text::str_chars(s.as_str());
        if check_nan_lexeme(&t) {
            Some(SampleValue::NotANumber)
        } else if check_inf_lexeme(&t) {
            if t.len() > 0 && t[0] == '-' {
                Some(SampleValue::NegInfinity)
            } else {
                Some(SampleValue::PosInfinity)
            }
        } else if check_float_lexeme(&t) {
            Some(SampleValue::Finite(s.clone()))
        } else {
            None
        }
    }
}

// The string sample codec.

/// Decode of the positional pair with the value taken verbatim.
pub open spec fn spec_decode_string_sample(v: JsonValue) -> Result<StringSampleV, DecodeErrorV> {
    match v {
        JsonValue::Arr(a) => {
            if a@.len() == 0 {
                Err(DecodeErrorV::MissingField { field: "sample time"@ })
            } else if !(a@[0] is Num) {
                Err(DecodeErrorV::InvalidValue { field: "sample time"@, value: a@[0]@ })
            } else if a@.len() == 1 {
                Err(DecodeErrorV::MissingField { field: "sample value"@ })
            } else {
                match a@[1] {
                    JsonValue::Str(sv) => {
                        if a@.len() > 2 {
                            Err(DecodeErrorV::InvalidValue { field: "sample"@, value: v@ })
                        } else {
                            Ok(StringSampleV { epoch: spec_num_text(a@[0]), value: sv@ })
                        }
                    },
                    _ => Err(DecodeErrorV::InvalidValue { field: "sample value"@, value: a@[1]@ }),
                }
            }
        },
        _ => Err(DecodeErrorV::InvalidValue { field: "sample"@, value: v@ }),
    }
}

/// Reads a string sample from its positional wire form.
pub fn decode_string_sample(v: &JsonValue) -> (r: Result<StringSample, DecodeError>)
    ensures
        match (r, spec_decode_string_sample(*v)) {
            (Ok(s), Ok(sv)) => s@ == sv,
            (Err(e), Err(ev)) => e@ == ev,
            _ => false,
        },
{
    match v {
        JsonValue::Arr(a) => {
            if a.len() == 0 {
                return Err(err_missing("sample time"));
            }
            let epoch: String = match &a[0] {
                JsonValue::Num(s) => s.clone(),
                _ => {
                    return Err(err_invalid("sample time", &a[0]));
                },
            };
            if a.len() == 1 {
                return Err(err_missing("sample value"));
            }
            match &a[1] {
                JsonValue::Str(sv) => {
                    if a.len() > 2 {
                        return Err(err_invalid("sample", v));
                    }
                    Ok(StringSample { epoch, value: sv.clone() })
                },
                _ => Err(err_invalid("sample value", &a[1])),
            }
        },
        _ => Err(err_invalid("sample", v)),
    }
}


// String maps.

/// The text of a string value; unspecified otherwise.
pub open spec fn spec_str_text(x: JsonValue) -> Seq<char> {
    match x {
        JsonValue::Str(s) => s@,
        _ => arbitrary(),
    }
}

/// The map an all-string object denotes, a later binding for the same
/// key winning.
pub open spec fn string_json_map_of(o: Seq<(String, JsonValue)>) -> Map<Seq<char>, Seq<char>>
    decreases o.len(),
{
    if o.len() == 0 {
        Map::empty()
    } else {
        string_json_map_of(o.drop_last()).insert(o.last().0@, spec_str_text(o.last().1))
    }
}

/// Decode of a string-to-string object: the first non-string value, in
/// wire order, is refused naming its key.
pub open spec fn spec_decode_string_map(o: Seq<(String, JsonValue)>) -> Result<
    Map<Seq<char>, Seq<char>>,
    DecodeErrorV,
> {
    let b = first_where(o, val_not_str());
    if b < o.len() {
        Err(DecodeErrorV::InvalidValue { field: o[b].0@, value: o[b].1@ })
    } else {
        Ok(string_json_map_of(o))
    }
}

/// Reads a string-to-string object into a map.
#[verifier::loop_isolation(false)]
pub fn decode_string_map(o: &Vec<(String, JsonValue)>) -> (r: Result<StringMap, DecodeError>)
    ensures
        match (r, spec_decode_string_map(o@)) {
            (Ok(m), Ok(mv)) => m@ == mv && m.wf(),
            (Err(e), Err(ev)) => e@ == ev,
            _ => false,
        },
{
    let ghost p = val_not_str();
    let mut m = StringMap::new();
    let mut i: usize = 0;
    while i < o.len()
        invariant
            i <= o@.len(),
            m.wf(),
            m@ == string_json_map_of(o@.take(i as int)),
            forall|k: int| 0 <= k < i ==> !p(#[trigger] o@[k]),
        decreases o.len() - i,
    {
        match &o[i].1 {
            JsonValue::Str(s) => {
                let key = o[i].0.clone();
                let val = s.clone();
                m.insert(key, val);
                proof {
                    assert(!p(o@[i as int]));
                    assert(o@.take(i as int + 1).drop_last() =~= o@.take(i as int));
                    assert(o@.take(i as int + 1).last() == o@[i as int]);
                }
            },
            _ => {
                proof {
                    assert(p(o@[i as int]));
                    lemma_first_where_is(o@, p, i as int);
                }
                return Err(err_invalid(o[i].0.as_str(), &o[i].1));
            },
        }
        i = i + 1;
    }
    proof {
        lemma_first_where_is(o@, p, o@.len() as int);
        assert(o@.take(o@.len() as int) =~= o@);
    }
    Ok(m)
}

/// Decode of a label set: any object whose values are all strings.
pub open spec fn spec_decode_metric(v: JsonValue) -> Result<Map<Seq<char>, Seq<char>>, DecodeErrorV> {
    match v {
        JsonValue::Obj(o) => spec_decode_string_map(o@),
        _ => Err(DecodeErrorV::InvalidValue { field: "metric"@, value: v@ }),
    }
}

/// Reads a label set.
pub fn decode_metric(v: &JsonValue) -> (r: Result<Metric, DecodeError>)
    ensures
        match (r, spec_decode_metric(*v)) {
            (Ok(m), Ok(mv)) => m@ == mv && m.labels.wf(),
            (Err(e), Err(ev)) => e@ == ev,
            _ => false,
        },
{
    match v {
        JsonValue::Obj(o) => match decode_string_map(o) {
            Ok(m) => Ok(Metric { labels: m }),
            Err(e) => Err(e),
        },
        _ => Err(err_invalid("metric", v)),
    }
}

// Element decoders for sequences, as named spec functions.

pub open spec fn dec_string_fn(field: Seq<char>) -> spec_fn(JsonValue) -> Result<
    Seq<char>,
    DecodeErrorV,
> {
    |x: JsonValue| spec_decode_string(x, field)
}

pub open spec fn dec_metric_fn() -> spec_fn(JsonValue) -> Result<
    Map<Seq<char>, Seq<char>>,
    DecodeErrorV,
> {
    |x: JsonValue| spec_decode_metric(x)
}

pub open spec fn dec_sample_fn() -> spec_fn(JsonValue) -> Result<SampleV, DecodeErrorV> {
    |x: JsonValue| spec_decode_sample(x)
}

pub open spec fn dec_instant_fn() -> spec_fn(JsonValue) -> Result<InstantV, DecodeErrorV> {
    |x: JsonValue| spec_decode_instant(x)
}

pub open spec fn dec_range_fn() -> spec_fn(JsonValue) -> Result<RangeV, DecodeErrorV> {
    |x: JsonValue| spec_decode_range(x)
}

/// Reads an array of strings; elements that are not strings are refused
/// naming `field`.
#[verifier::loop_isolation(false)]
pub fn decode_string_vec(a: &Vec<JsonValue>, field: &str) -> (r: Result<Vec<String>, DecodeError>)
    ensures
        match (r, decode_seq(a@, dec_string_fn(field@))) {
            (Ok(v), Ok(sv)) => views_of(v@) == sv,
            (Err(e), Err(ev)) => e@ == ev,
            _ => false,
        },
{
    let ghost f = dec_string_fn(field@);
    let mut out: Vec<String> = Vec::new();
    let mut i: usize = 0;
    while i < a.len()
        invariant
            i <= a@.len(),
            out@.len() == i,
            forall|k: int| 0 <= k < i ==> (#[trigger] f(a@[k])) is Ok,
            forall|k: int| 0 <= k < i ==> (#[trigger] out@[k])@ == ok_val(f(a@[k])),
        decreases a.len() - i,
    {
        match decode_string(&a[i], field) {
            Ok(s) => {
                out.push(s);
            },
            Err(e) => {
                proof {
                    lemma_decode_seq_prefix(a@, f, i as int);
                }
                return Err(e);
            },
        }
        i = i + 1;
    }
    proof {
        lemma_decode_seq_prefix(a@, f, a@.len() as int);
        assert(views_of(out@) =~= Seq::new(a@.len(), |k: int| ok_val(f(a@[k]))) + Seq::empty());
    }
    Ok(out)
}

/// Reads an array of label sets.
#[verifier::loop_isolation(false)]
pub fn decode_metric_vec(a: &Vec<JsonValue>) -> (r: Result<Vec<Metric>, DecodeError>)
    ensures
        match (r, decode_seq(a@, dec_metric_fn())) {
            (Ok(v), Ok(sv)) => views_of(v@) == sv,
            (Err(e), Err(ev)) => e@ == ev,
            _ => false,
        },
{
    let ghost f = dec_metric_fn();
    let mut out: Vec<Metric> = Vec::new();
    let mut i: usize = 0;
    while i < a.len()
        invariant
            i <= a@.len(),
            out@.len() == i,
            forall|k: int| 0 <= k < i ==> (#[trigger] f(a@[k])) is Ok,
            forall|k: int| 0 <= k < i ==> (#[trigger] out@[k])@ == ok_val(f(a@[k])),
        decreases a.len() - i,
    {
        match decode_metric(&a[i]) {
            Ok(m) => {
                out.push(m);
            },
            Err(e) => {
                proof {
                    lemma_decode_seq_prefix(a@, f, i as int);
                }
                return Err(e);
            },
        }
        i = i + 1;
    }
    proof {
        lemma_decode_seq_prefix(a@, f, a@.len() as int);
        assert(views_of(out@) =~= Seq::new(a@.len(), |k: int| ok_val(f(a@[k]))) + Seq::empty());
    }
    Ok(out)
}

/// Reads an array of samples.
#[verifier::loop_isolation(false)]
pub fn decode_sample_vec(a: &Vec<JsonValue>) -> (r: Result<Vec<Sample>, DecodeError>)
    ensures
        match (r, decode_seq(a@, dec_sample_fn())) {
            (Ok(v), Ok(sv)) => views_of(v@) == sv,
            (Err(e), Err(ev)) => e@ == ev,
            _ => false,
        },
{
    let ghost f = dec_sample_fn();
    let mut out: Vec<Sample> = Vec::new();
    let mut i: usize = 0;
    while i < a.len()
        invariant
            i <= a@.len(),
            out@.len() == i,
            forall|k: int| 0 <= k < i ==> (#[trigger] f(a@[k])) is Ok,
            forall|k: int| 0 <= k < i ==> (#[trigger] out@[k])@ == ok_val(f(a@[k])),
        decreases a.len() - i,
    {
        match decode_sample(&a[i]) {
            Ok(s) => {
                out.push(s);
            },
            Err(e) => {
                proof {
                    lemma_decode_seq_prefix(a@, f, i as int);
                }
                return Err(e);
            },
        }
        i = i + 1;
    }
    proof {
        lemma_decode_seq_prefix(a@, f, a@.len() as int);
        assert(views_of(out@) =~= Seq::new(a@.len(), |k: int| ok_val(f(a@[k]))) + Seq::empty());
    }
    Ok(out)
}

// Instants and ranges.

/// Decode of one instant-vector entry: a label set and one sample.
pub open spec fn spec_decode_instant(v: JsonValue) -> Result<InstantV, DecodeErrorV> {
    match v {
        JsonValue::Obj(o) => match spec_get_field(o@, "metric"@) {
            Err(e) => Err(e),
            Ok(None) => Err(DecodeErrorV::MissingField { field: "metric"@ }),
            Ok(Some(mx)) => match spec_decode_metric(mx) {
                Err(e) => Err(e),
                Ok(m) => match spec_get_field(o@, "value"@) {
                    Err(e) => Err(e),
                    Ok(None) => Err(DecodeErrorV::MissingField { field: "value"@ }),
                    Ok(Some(sx)) => match spec_decode_sample(sx) {
                        Err(e) => Err(e),
                        Ok(s) => Ok(InstantV { metric: m, sample: s }),
                    },
                },
            },
        },
        _ => Err(DecodeErrorV::InvalidValue { field: "instant"@, value: v@ }),
    }
}

/// Reads one instant-vector entry.
pub fn decode_instant(v: &JsonValue) -> (r: Result<Instant, DecodeError>)
    ensures
        match (r, spec_decode_instant(*v)) {
            (Ok(x), Ok(xv)) => x@ == xv,
            (Err(e), Err(ev)) => e@ == ev,
            _ => false,
        },
{
    match v {
        JsonValue::Obj(o) => {
            let mx = match get_field(o, "metric") {
                Err(e) => {
                    return Err(e);
                },
                Ok(None) => {
                    return Err(err_missing("metric"));
                },
                Ok(Some(x)) => x,
            };
            let m = match decode_metric(mx) {
                Err(e) => {
                    return Err(e);
                },
                Ok(m) => m,
            };
            let sx = match get_field(o, "value") {
                Err(e) => {
                    return Err(e);
                },
                Ok(None) => {
                    return Err(err_missing("value"));
                },
                Ok(Some(x)) => x,
            };
            match decode_sample(sx) {
                Err(e) => Err(e),
                Ok(s) => Ok(Instant { metric: m, sample: s }),
            }
        },
        _ => Err(err_invalid("instant", v)),
    }
}

/// Decode of one matrix entry: a label set and the samples over a range.
pub open spec fn spec_decode_range(v: JsonValue) -> Result<RangeV, DecodeErrorV> {
    match v {
        JsonValue::Obj(o) => match spec_get_field(o@, "metric"@) {
            Err(e) => Err(e),
            Ok(None) => Err(DecodeErrorV::MissingField { field: "metric"@ }),
            Ok(Some(mx)) => match spec_decode_metric(mx) {
                Err(e) => Err(e),
                Ok(m) => match spec_get_field(o@, "values"@) {
                    Err(e) => Err(e),
                    Ok(None) => Err(DecodeErrorV::MissingField { field: "values"@ }),
                    Ok(Some(sx)) => match sx {
                        JsonValue::Arr(a) => match decode_seq(a@, dec_sample_fn()) {
                            Err(e) => Err(e),
                            Ok(ss) => Ok(RangeV { metric: m, samples: ss }),
                        },
                        _ => Err(DecodeErrorV::InvalidValue { field: "values"@, value: sx@ }),
                    },
                },
            },
        },
        _ => Err(DecodeErrorV::InvalidValue { field: "range"@, value: v@ }),
    }
}

/// Reads one matrix entry.
pub fn decode_range(v: &JsonValue) -> (r: Result<Range, DecodeError>)
    ensures
        match (r, spec_decode_range(*v)) {
            (Ok(x), Ok(xv)) => x@ == xv,
            (Err(e), Err(ev)) => e@ == ev,
            _ => false,
        },
{
    match v {
        JsonValue::Obj(o) => {
            let mx = match get_field(o, "metric") {
                Err(e) => {
                    return Err(e);
                },
                Ok(None) => {
                    return Err(err_missing("metric"));
                },
                Ok(Some(x)) => x,
            };
            let m = match decode_metric(mx) {
                Err(e) => {
                    return Err(e);
                },
                Ok(m) => m,
            };
            let sx = match get_field(o, "values") {
                Err(e) => {
                    return Err(e);
                },
                Ok(None) => {
                    return Err(err_missing("values"));
                },
                Ok(Some(x)) => x,
            };
            match sx {
                JsonValue::Arr(a) => match decode_sample_vec(a) {
                    Err(e) => Err(e),
                    Ok(ss) => Ok(Range { metric: m, samples: ss }),
                },
                _ => Err(err_invalid("values", sx)),
            }
        },
        _ => Err(err_invalid("range", v)),
    }
}

/// Reads an array of instant-vector entries.
#[verifier::loop_isolation(false)]
pub fn decode_instant_vec(a: &Vec<JsonValue>) -> (r: Result<Vec<Instant>, DecodeError>)
    ensures
        match (r, decode_seq(a@, dec_instant_fn())) {
            (Ok(v), Ok(sv)) => views_of(v@) == sv,
            (Err(e), Err(ev)) => e@ == ev,
            _ => false,
        },
{
    let ghost f = dec_instant_fn();
    let mut out: Vec<Instant> = Vec::new();
    let mut i: usize = 0;
    while i < a.len()
        invariant
            i <= a@.len(),
            out@.len() == i,
            forall|k: int| 0 <= k < i ==> (#[trigger] f(a@[k])) is Ok,
            forall|k: int| 0 <= k < i ==> (#[trigger] out@[k])@ == ok_val(f(a@[k])),
        decreases a.len() - i,
    {
        match decode_instant(&a[i]) {
            Ok(x) => {
                out.push(x);
            },
            Err(e) => {
                proof {
                    lemma_decode_seq_prefix(a@, f, i as int);
                }
                return Err(e);
            },
        }
        i = i + 1;
    }
    proof {
        lemma_decode_seq_prefix(a@, f, a@.len() as int);
        assert(views_of(out@) =~= Seq::new(a@.len(), |k: int| ok_val(f(a@[k]))) + Seq::empty());
    }
    Ok(out)
}

/// Reads an array of matrix entries.
#[verifier::loop_isolation(false)]
pub fn decode_range_vec(a: &Vec<JsonValue>) -> (r: Result<Vec<Range>, DecodeError>)
    ensures
        match (r, decode_seq(a@, dec_range_fn())) {
            (Ok(v), Ok(sv)) => views_of(v@) == sv,
            (Err(e), Err(ev)) => e@ == ev,
            _ => false,
        },
{
    let ghost f = dec_range_fn();
    let mut out: Vec<Range> = Vec::new();
    let mut i: usize = 0;
    while i < a.len()
        invariant
            i <= a@.len(),
            out@.len() == i,
            forall|k: int| 0 <= k < i ==> (#[trigger] f(a@[k])) is Ok,
            forall|k: int| 0 <= k < i ==> (#[trigger] out@[k])@ == ok_val(f(a@[k])),
        decreases a.len() - i,
    {
        match decode_range(&a[i]) {
            Ok(x) => {
                out.push(x);
            },
            Err(e) => {
                proof {
                    lemma_decode_seq_prefix(a@, f, i as int);
                }
                return Err(e);
            },
        }
        i = i + 1;
    }
    proof {
        lemma_decode_seq_prefix(a@, f, a@.len() as int);
        assert(views_of(out@) =~= Seq::new(a@.len(), |k: int| ok_val(f(a@[k]))) + Seq::empty());
    }
    Ok(out)
}

// The expression result.

/// Decode of an expression result: the explicit result type tag selects
/// the decoder for the result field; an unrecognized tag is refused
/// naming it.
pub open spec fn spec_decode_expression(v: JsonValue) -> Result<ExpressionV, DecodeErrorV> {
    match v {
        JsonValue::Obj(o) => match spec_get_field(o@, "resultType"@) {
            Err(e) => Err(e),
            Ok(None) => Err(DecodeErrorV::MissingField { field: "resultType"@ }),
            Ok(Some(tx)) => match tx {
                JsonValue::Str(tag) => match spec_get_field(o@, "result"@) {
                    Err(e) => Err(e),
                    Ok(None) => Err(DecodeErrorV::MissingField { field: "result"@ }),
                    Ok(Some(rx)) => {
                        if tag@ == "scalar"@ {
                            match spec_decode_sample(rx) {
                                Err(e) => Err(e),
                                Ok(s) => Ok(ExpressionV::Scalar(s)),
                            }
                        } else if tag@ == "string"@ {
                            match spec_decode_string_sample(rx) {
                                Err(e) => Err(e),
                                Ok(s) => Ok(ExpressionV::StringResult(s)),
                            }
                        } else if tag@ == "vector"@ {
                            match rx {
                                JsonValue::Arr(a) => match decode_seq(a@, dec_instant_fn()) {
                                    Err(e) => Err(e),
                                    Ok(xs) => Ok(ExpressionV::InstantVector(xs)),
                                },
                                _ => Err(
                                    DecodeErrorV::InvalidValue { field: "result"@, value: rx@ },
                                ),
                            }
                        } else if tag@ == "matrix"@ {
                            match rx {
                                JsonValue::Arr(a) => match decode_seq(a@, dec_range_fn()) {
                                    Err(e) => Err(e),
                                    Ok(xs) => Ok(ExpressionV::RangeMatrix(xs)),
                                },
                                _ => Err(
                                    DecodeErrorV::InvalidValue { field: "result"@, value: rx@ },
                                ),
                            }
                        } else {
                            Err(DecodeErrorV::InvalidValue { field: "resultType"@, value: tx@ })
                        }
                    },
                },
                _ => Err(DecodeErrorV::InvalidValue { field: "resultType"@, value: tx@ }),
            },
        },
        _ => Err(DecodeErrorV::InvalidValue { field: "expression"@, value: v@ }),
    }
}

/// Reads an expression result.
pub fn decode_expression(v: &JsonValue) -> (r: Result<Expression, DecodeError>)
    ensures
        match (r, spec_decode_expression(*v)) {
            (Ok(x), Ok(xv)) => x@ == xv,
            (Err(e), Err(ev)) => e@ == ev,
            _ => false,
        },
{
    match v {
        JsonValue::Obj(o) => {
            let tx = match get_field(o, "resultType") {
                Err(e) => {
                    return Err(e);
                },
                Ok(None) => {
                    return Err(err_missing("resultType"));
                },
                Ok(Some(x)) => x,
            };
            let tag = match tx {
                JsonValue::Str(tag) => tag,
                _ => {
                    return Err(err_invalid("resultType", tx));
                },
            };
            let rx = match get_field(o, "result") {
                Err(e) => {
                    return Err(e);
                },
                Ok(None) => {
                    return Err(err_missing("result"));
                },
                Ok(Some(x)) => x,
            };
            if str_eq(tag.as_str(), "scalar") {
                match decode_sample(rx) {
                    Err(e) => Err(e),
                    Ok(s) => Ok(Expression::Scalar(s)),
                }
            } else if str_eq(tag.as_str(), "string") {
                match decode_string_sample(rx) {
                    Err(e) => Err(e),
                    Ok(s) => Ok(Expression::StringResult(s)),
                }
            } else if str_eq(tag.as_str(), "vector") {
                match rx {
                    JsonValue::Arr(a) => match decode_instant_vec(a) {
                        Err(e) => Err(e),
                        Ok(xs) => Ok(Expression::InstantVector(xs)),
                    },
                    _ => Err(err_invalid("result", rx)),
                }
            } else if str_eq(tag.as_str(), "matrix") {
                match rx {
                    JsonValue::Arr(a) => match decode_range_vec(a) {
                        Err(e) => Err(e),
                        Ok(xs) => Ok(Expression::RangeMatrix(xs)),
                    },
                    _ => Err(err_invalid("result", rx)),
                }
            } else {
                Err(err_invalid("resultType", tx))
            }
        },
        _ => Err(err_invalid("expression", v)),
    }
}



// Field-level coercions of the entity decoders.

/// Decode of a target's health: absent on the wire as null decodes to
/// `Unknown`, as do unrecognized tokens; only a non-string, non-null
/// value is refused.
pub open spec fn spec_decode_health(x: JsonValue) -> Result<TargetHealth, DecodeErrorV> {
    match x {
        JsonValue::Null => Ok(TargetHealth::Unknown),
        JsonValue::Str(s) => {
            if s@ == "up"@ {
                Ok(TargetHealth::Up)
            } else if s@ == "down"@ {
                Ok(TargetHealth::Down)
            } else {
                Ok(TargetHealth::Unknown)
            }
        },
        _ => Err(DecodeErrorV::InvalidValue { field: "health"@, value: x@ }),
    }
}

/// Reads a target's health token.
pub fn decode_health(x: &JsonValue) -> (r: Result<TargetHealth, DecodeError>)
    ensures
        match (r, spec_decode_health(*x)) {
            (Ok(h), Ok(hv)) => h == hv,
            (Err(e), Err(ev)) => e@ == ev,
            _ => false,
        },
{
    match x {
        JsonValue::Null => Ok(TargetHealth::Unknown),
        JsonValue::Str(s) => {
            if str_eq(s.as_str(), "up") {
                Ok(TargetHealth::Up)
            } else if str_eq(s.as_str(), "down") {
                Ok(TargetHealth::Down)
            } else {
                Ok(TargetHealth::Unknown)
            }
        },
        _ => Err(err_invalid("health", x)),
    }
}

/// Decode of an alert's state: strictly one of the three tokens; unlike
/// health there is no lenient fallback.
pub open spec fn spec_decode_state(x: JsonValue) -> Result<AlertState, DecodeErrorV> {
    match x {
        JsonValue::Str(s) => {
            if s@ == "inactive"@ {
                Ok(AlertState::INACTIVE)
            } else if s@ == "pending"@ {
                Ok(AlertState::PENDING)
            } else if s@ == "firing"@ {
                Ok(AlertState::FIRING)
            } else {
                Err(DecodeErrorV::InvalidValue { field: "state"@, value: x@ })
            }
        },
        _ => Err(DecodeErrorV::InvalidValue { field: "state"@, value: x@ }),
    }
}

/// Reads an alert's state token.
pub fn decode_state(x: &JsonValue) -> (r: Result<AlertState, DecodeError>)
    ensures
        match (r, spec_decode_state(*x)) {
            (Ok(h), Ok(hv)) => h == hv,
            (Err(e), Err(ev)) => e@ == ev,
            _ => false,
        },
{
    match x {
        JsonValue::Str(s) => {
            if str_eq(s.as_str(), "inactive") {
                Ok(AlertState::INACTIVE)
            } else if str_eq(s.as_str(), "pending") {
                Ok(AlertState::PENDING)
            } else if str_eq(s.as_str(), "firing") {
                Ok(AlertState::FIRING)
            } else {
                Err(err_invalid("state", x))
            }
        },
        _ => Err(err_invalid("state", x)),
    }
}

/// Decode of a rule's kind: strictly recording or alerting.
pub open spec fn spec_decode_rule_type(x: JsonValue) -> Result<RuleType, DecodeErrorV> {
    match x {
        JsonValue::Str(s) => {
            if s@ == "recording"@ {
                Ok(RuleType::RECORDING)
            } else if s@ == "alerting"@ {
                Ok(RuleType::ALERTING)
            } else {
                Err(DecodeErrorV::InvalidValue { field: "type"@, value: x@ })
            }
        },
        _ => Err(DecodeErrorV::InvalidValue { field: "type"@, value: x@ }),
    }
}

/// Reads a rule's kind token.
pub fn decode_rule_type(x: &JsonValue) -> (r: Result<RuleType, DecodeError>)
    ensures
        match (r, spec_decode_rule_type(*x)) {
            (Ok(h), Ok(hv)) => h == hv,
            (Err(e), Err(ev)) => e@ == ev,
            _ => false,
        },
{
    match x {
        JsonValue::Str(s) => {
            if str_eq(s.as_str(), "recording") {
                Ok(RuleType::RECORDING)
            } else if str_eq(s.as_str(), "alerting") {
                Ok(RuleType::ALERTING)
            } else {
                Err(err_invalid("type", x))
            }
        },
        _ => Err(err_invalid("type", x)),
    }
}

/// Decode of an integer field: a number whose lexeme is an integer that
/// fits a 64-bit signed value.
pub open spec fn spec_decode_i64(x: JsonValue, field: Seq<char>) -> Result<i64, DecodeErrorV> {
    match x {
        JsonValue::Num(s) => {
            if crate::numbers::is_int_lexeme(s@) && i64::MIN <= crate::numbers::int_lexeme_value(s@)
                <= i64::MAX {
                Ok(crate::numbers::int_lexeme_value(s@) as i64)
            } else {
                Err(DecodeErrorV::InvalidValue { field, value: x@ })
            }
        },
        _ => Err(DecodeErrorV::InvalidValue { field, value: x@ }),
    }
}

/// Reads an integer field.
pub fn decode_i64(x: &JsonValue, field: &str) -> (r: Result<i64, DecodeError>)
    ensures
        match (r, spec_decode_i64(*x, field@)) {
            (Ok(n), Ok(nv)) => n == nv,
            (Err(e), Err(ev)) => e@ == ev,
            _ => false,
        },
{
    match x {
        JsonValue::Num(s) => {
            let t = crate::text::str_chars(s.as_str());
            match crate::numbers::parse_i64(&t) {
                Some(n) => Ok(n),
                None => Err(err_invalid(field, x)),
            }
        },
        _ => Err(err_invalid(field, x)),
    }
}

/// Decode of a last-error field: the empty string and null both mean
/// absent.
pub open spec fn spec_decode_last_error(x: JsonValue) -> Result<Option<Seq<char>>, DecodeErrorV> {
    match x {
        JsonValue::Null => Ok(None),
        JsonValue::Str(s) => {
            if s@.len() == 0 {
                Ok(None)
            } else {
                Ok(Some(s@))
            }
        },
        _ => Err(DecodeErrorV::InvalidValue { field: "lastError"@, value: x@ }),
    }
}

/// Reads a last-error field.
pub fn decode_last_error(x: &JsonValue) -> (r: Result<Option<String>, DecodeError>)
    ensures
        match (r, spec_decode_last_error(*x)) {
            (Ok(Some(s)), Ok(Some(sv))) => s@ == sv,
            (Ok(None), Ok(None)) => true,
            (Err(e), Err(ev)) => e@ == ev,
            _ => false,
        },
{
    match x {
        JsonValue::Null => Ok(None),
        JsonValue::Str(s) => {
            if s.as_str().is_empty() {
                Ok(None)
            } else {
                Ok(Some(s.clone()))
            }
        },
        _ => Err(err_invalid("lastError", x)),
    }
}

/// Decode of an optional string-map field: null means absent.
pub open spec fn spec_decode_opt_map(x: JsonValue, field: Seq<char>) -> Result<
    Option<Map<Seq<char>, Seq<char>>>,
    DecodeErrorV,
> {
    match x {
        JsonValue::Null => Ok(None),
        JsonValue::Obj(o) => match spec_decode_string_map(o@) {
            Err(e) => Err(e),
            Ok(m) => Ok(Some(m)),
        },
        _ => Err(DecodeErrorV::InvalidValue { field, value: x@ }),
    }
}

/// Reads an optional string-map field.
pub fn decode_opt_map(x: &JsonValue, field: &str) -> (r: Result<Option<StringMap>, DecodeError>)
    ensures
        match (r, spec_decode_opt_map(*x, field@)) {
            (Ok(Some(m)), Ok(Some(mv))) => m@ == mv,
            (Ok(None), Ok(None)) => true,
            (Err(e), Err(ev)) => e@ == ev,
            _ => false,
        },
{
    match x {
        JsonValue::Null => Ok(None),
        JsonValue::Obj(o) => match decode_string_map(o) {
            Err(e) => Err(e),
            Ok(m) => Ok(Some(m)),
        },
        _ => Err(err_invalid(field, x)),
    }
}

// Target entities.

/// Decode of an active target: its two label sets, a scrape address the
/// URL checker accepts, the empty-as-absent last error, an RFC 3339
/// scrape time and the lenient health token.
pub open spec fn spec_decode_active_target(v: JsonValue) -> Result<ActiveTargetV, DecodeErrorV> {
    match v {
        JsonValue::Obj(o) => match spec_get_field(o@, "discoveredLabels"@) {
            Err(e) => Err(e),
            Ok(None) => Err(DecodeErrorV::MissingField { field: "discoveredLabels"@ }),
            Ok(Some(dx)) => match spec_decode_opt_map_required(dx, "discoveredLabels"@) {
                Err(e) => Err(e),
                Ok(dl) => match spec_get_field(o@, "labels"@) {
                    Err(e) => Err(e),
                    Ok(None) => Err(DecodeErrorV::MissingField { field: "labels"@ }),
                    Ok(Some(lx)) => match spec_decode_opt_map_required(lx, "labels"@) {
                        Err(e) => Err(e),
                        Ok(lb) => match spec_get_field(o@, "scrapeUrl"@) {
                            Err(e) => Err(e),
                            Ok(None) => Err(DecodeErrorV::MissingField { field: "scrapeUrl"@ }),
                            Ok(Some(ux)) => match spec_decode_url(ux, "scrapeUrl"@) {
                                Err(e) => Err(e),
                                Ok(u) => match spec_get_field(o@, "lastError"@) {
                                    Err(e) => Err(e),
                                    Ok(None) => Err(
                                        DecodeErrorV::MissingField { field: "lastError"@ },
                                    ),
                                    Ok(Some(ex)) => match spec_decode_last_error(ex) {
                                        Err(e) => Err(e),
                                        Ok(le) => match spec_get_field(o@, "lastScrape"@) {
                                            Err(e) => Err(e),
                                            Ok(None) => Err(
                                                DecodeErrorV::MissingField {
                                                    field: "lastScrape"@,
                                                },
                                            ),
                                            Ok(Some(sx)) => match spec_decode_rfc3339(
                                                sx,
                                                "lastScrape"@,
                                            ) {
                                                Err(e) => Err(e),
                                                Ok(ls) => match spec_get_field(o@, "health"@) {
                                                    Err(e) => Err(e),
                                                    Ok(None) => Err(
                                                        DecodeErrorV::MissingField {
                                                            field: "health"@,
                                                        },
                                                    ),
                                                    Ok(Some(hx)) => match spec_decode_health(hx) {
                                                        Err(e) => Err(e),
                                                        Ok(h) => Ok(
                                                            ActiveTargetV {
                                                                discovered_labels: dl,
                                                                labels: lb,
                                                                scrape_url: u,
                                                                last_error: le,
                                                                last_scrape: ls,
                                                                health: h,
                                                            },
                                                        ),
                                                    },
                                                },
                                            },
                                        },
                                    },
                                },
                            },
                        },
                    },
                },
            },
        },
        _ => Err(DecodeErrorV::InvalidValue { field: "activeTargets"@, value: v@ }),
    }
}

/// A label-set field that must be present as an object of strings.
pub open spec fn spec_decode_opt_map_required(x: JsonValue, field: Seq<char>) -> Result<
    Map<Seq<char>, Seq<char>>,
    DecodeErrorV,
> {
    match x {
        JsonValue::Obj(o) => spec_decode_string_map(o@),
        _ => Err(DecodeErrorV::InvalidValue { field, value: x@ }),
    }
}

/// Reads a label-set field.
pub fn decode_map_field(x: &JsonValue, field: &str) -> (r: Result<StringMap, DecodeError>)
    ensures
        match (r, spec_decode_opt_map_required(*x, field@)) {
            (Ok(m), Ok(mv)) => m@ == mv,
            (Err(e), Err(ev)) => e@ == ev,
            _ => false,
        },
{
    match x {
        JsonValue::Obj(o) => decode_string_map(o),
        _ => Err(err_invalid(field, x)),
    }
}

/// Decode of a URL field: a string the URL checker accepts, kept as its
/// text.
pub open spec fn spec_decode_url(x: JsonValue, field: Seq<char>) -> Result<
    Seq<char>,
    DecodeErrorV,
> {
    match x {
        JsonValue::Str(s) => {
            if crate::validate::url_ok(s@) {
                Ok(s@)
            } else {
                Err(DecodeErrorV::InvalidValue { field, value: x@ })
            }
        },
        _ => Err(DecodeErrorV::InvalidValue { field, value: x@ }),
    }
}

/// Reads a URL field.
pub fn decode_url(x: &JsonValue, field: &str) -> (r: Result<String, DecodeError>)
    ensures
        match (r, spec_decode_url(*x, field@)) {
            (Ok(s), Ok(sv)) => s@ == sv,
            (Err(e), Err(ev)) => e@ == ev,
            _ => false,
        },
{
    match x {
        JsonValue::Str(s) => {
            if crate::validate::url_valid(s.as_str()) {
                Ok(s.clone())
            } else {
                Err(err_invalid(field, x))
            }
        },
        _ => Err(err_invalid(field, x)),
    }
}

/// Decode of a scrape-time field: a string the RFC 3339 checker accepts,
/// kept as its text.
pub open spec fn spec_decode_rfc3339(x: JsonValue, field: Seq<char>) -> Result<
    Seq<char>,
    DecodeErrorV,
> {
    match x {
        JsonValue::Str(s) => {
            if crate::validate::rfc3339_ok(s@) {
                Ok(s@)
            } else {
                Err(DecodeErrorV::InvalidValue { field, value: x@ })
            }
        },
        _ => Err(DecodeErrorV::InvalidValue { field, value: x@ }),
    }
}

/// Reads a scrape-time field.
pub fn decode_rfc3339(x: &JsonValue, field: &str) -> (r: Result<String, DecodeError>)
    ensures
        match (r, spec_decode_rfc3339(*x, field@)) {
            (Ok(s), Ok(sv)) => s@ == sv,
            (Err(e), Err(ev)) => e@ == ev,
            _ => false,
        },
{
    match x {
        JsonValue::Str(s) => {
            if crate::validate::rfc3339_valid(s.as_str()) {
                Ok(s.clone())
            } else {
                Err(err_invalid(field, x))
            }
        },
        _ => Err(err_invalid(field, x)),
    }
}

/// Reads an active target.
pub fn decode_active_target(v: &JsonValue) -> (r: Result<ActiveTarget, DecodeError>)
    ensures
        match (r, spec_decode_active_target(*v)) {
            (Ok(x), Ok(xv)) => x@ == xv,
            (Err(e), Err(ev)) => e@ == ev,
            _ => false,
        },
{
    match v {
        JsonValue::Obj(o) => {
            let dx = match get_field(o, "discoveredLabels") {
                Err(e) => {
                    return Err(e);
                },
                Ok(None) => {
                    return Err(err_missing("discoveredLabels"));
                },
                Ok(Some(x)) => x,
            };
            let dl = match decode_map_field(dx, "discoveredLabels") {
                Err(e) => {
                    return Err(e);
                },
                Ok(m) => m,
            };
            let lx = match get_field(o, "labels") {
                Err(e) => {
                    return Err(e);
                },
                Ok(None) => {
                    return Err(err_missing("labels"));
                },
                Ok(Some(x)) => x,
            };
            let lb = match decode_map_field(lx, "labels") {
                Err(e) => {
                    return Err(e);
                },
                Ok(m) => m,
            };
            let ux = match get_field(o, "scrapeUrl") {
                Err(e) => {
                    return Err(e);
                },
                Ok(None) => {
                    return Err(err_missing("scrapeUrl"));
                },
                Ok(Some(x)) => x,
            };
            let u = match decode_url(ux, "scrapeUrl") {
                Err(e) => {
                    return Err(e);
                },
                Ok(u) => u,
            };
            let ex = match get_field(o, "lastError") {
                Err(e) => {
                    return Err(e);
                },
                Ok(None) => {
                    return Err(err_missing("lastError"));
                },
                Ok(Some(x)) => x,
            };
            let le = match decode_last_error(ex) {
                Err(e) => {
                    return Err(e);
                },
                Ok(le) => le,
            };
            let sx = match get_field(o, "lastScrape") {
                Err(e) => {
                    return Err(e);
                },
                Ok(None) => {
                    return Err(err_missing("lastScrape"));
                },
                Ok(Some(x)) => x,
            };
            let ls = match decode_rfc3339(sx, "lastScrape") {
                Err(e) => {
                    return Err(e);
                },
                Ok(ls) => ls,
            };
            let hx = match get_field(o, "health") {
                Err(e) => {
                    return Err(e);
                },
                Ok(None) => {
                    return Err(err_missing("health"));
                },
                Ok(Some(x)) => x,
            };
            let h = match decode_health(hx) {
                Err(e) => {
                    return Err(e);
                },
                Ok(h) => h,
            };
            Ok(
                ActiveTarget {
                    discovered_labels: dl,
                    labels: lb,
                    scrape_url: u,
                    last_error: le,
                    last_scrape: ls,
                    health: h,
                },
            )
        },
        _ => Err(err_invalid("activeTargets", v)),
    }
}

/// Decode of a dropped target: only its discovered label set.
pub open spec fn spec_decode_dropped_target(v: JsonValue) -> Result<
    Map<Seq<char>, Seq<char>>,
    DecodeErrorV,
> {
    match v {
        JsonValue::Obj(o) => match spec_get_field(o@, "discoveredLabels"@) {
            Err(e) => Err(e),
            Ok(None) => Err(DecodeErrorV::MissingField { field: "discoveredLabels"@ }),
            Ok(Some(dx)) => spec_decode_opt_map_required(dx, "discoveredLabels"@),
        },
        _ => Err(DecodeErrorV::InvalidValue { field: "droppedTargets"@, value: v@ }),
    }
}

/// Reads a dropped target.
pub fn decode_dropped_target(v: &JsonValue) -> (r: Result<DroppedTarget, DecodeError>)
    ensures
        match (r, spec_decode_dropped_target(*v)) {
            (Ok(x), Ok(xv)) => x@ == xv,
            (Err(e), Err(ev)) => e@ == ev,
            _ => false,
        },
{
    match v {
        JsonValue::Obj(o) => {
            let dx = match get_field(o, "discoveredLabels") {
                Err(e) => {
                    return Err(e);
                },
                Ok(None) => {
                    return Err(err_missing("discoveredLabels"));
                },
                Ok(Some(x)) => x,
            };
            match decode_map_field(dx, "discoveredLabels") {
                Err(e) => Err(e),
                Ok(m) => Ok(DroppedTarget { discovered_labels: m }),
            }
        },
        _ => Err(err_invalid("droppedTargets", v)),
    }
}

pub open spec fn dec_active_target_fn() -> spec_fn(JsonValue) -> Result<
    ActiveTargetV,
    DecodeErrorV,
> {
    |x: JsonValue| spec_decode_active_target(x)
}

pub open spec fn dec_dropped_target_fn() -> spec_fn(JsonValue) -> Result<
    Map<Seq<char>, Seq<char>>,
    DecodeErrorV,
> {
    |x: JsonValue| spec_decode_dropped_target(x)
}

/// Reads an array of active targets.
#[verifier::loop_isolation(false)]
pub fn decode_active_target_vec(a: &Vec<JsonValue>) -> (r: Result<Vec<ActiveTarget>, DecodeError>)
    ensures
        match (r, decode_seq(a@, dec_active_target_fn())) {
            (Ok(v), Ok(sv)) => views_of(v@) == sv,
            (Err(e), Err(ev)) => e@ == ev,
            _ => false,
        },
{
    let ghost f = dec_active_target_fn();
    let mut out: Vec<ActiveTarget> = Vec::new();
    let mut i: usize = 0;
    while i < a.len()
        invariant
            i <= a@.len(),
            out@.len() == i,
            forall|k: int| 0 <= k < i ==> (#[trigger] f(a@[k])) is Ok,
            forall|k: int| 0 <= k < i ==> (#[trigger] out@[k])@ == ok_val(f(a@[k])),
        decreases a.len() - i,
    {
        match decode_active_target(&a[i]) {
            Ok(x) => {
                out.push(x);
            },
            Err(e) => {
                proof {
                    lemma_decode_seq_prefix(a@, f, i as int);
                }
                return Err(e);
            },
        }
        i = i + 1;
    }
    proof {
        lemma_decode_seq_prefix(a@, f, a@.len() as int);
        assert(views_of(out@) =~= Seq::new(a@.len(), |k: int| ok_val(f(a@[k]))) + Seq::empty());
    }
    Ok(out)
}

/// Reads an array of dropped targets.
#[verifier::loop_isolation(false)]
pub fn decode_dropped_target_vec(a: &Vec<JsonValue>) -> (r: Result<Vec<DroppedTarget>, DecodeError>)
    ensures
        match (r, decode_seq(a@, dec_dropped_target_fn())) {
            (Ok(v), Ok(sv)) => views_of(v@) == sv,
            (Err(e), Err(ev)) => e@ == ev,
            _ => false,
        },
{
    let ghost f = dec_dropped_target_fn();
    let mut out: Vec<DroppedTarget> = Vec::new();
    let mut i: usize = 0;
    while i < a.len()
        invariant
            i <= a@.len(),
            out@.len() == i,
            forall|k: int| 0 <= k < i ==> (#[trigger] f(a@[k])) is Ok,
            forall|k: int| 0 <= k < i ==> (#[trigger] out@[k])@ == ok_val(f(a@[k])),
        decreases a.len() - i,
    {
        match decode_dropped_target(&a[i]) {
            Ok(x) => {
                out.push(x);
            },
            Err(e) => {
                proof {
                    lemma_decode_seq_prefix(a@, f, i as int);
                }
                return Err(e);
            },
        }
        i = i + 1;
    }
    proof {
        lemma_decode_seq_prefix(a@, f, a@.len() as int);
        assert(views_of(out@) =~= Seq::new(a@.len(), |k: int| ok_val(f(a@[k]))) + Seq::empty());
    }
    Ok(out)
}

/// Decode of the targets payload: a closed object with the active and
/// dropped listings.  Either listing may be absent and defaults to
/// empty, but not both: an object with neither key is no targets
/// payload, so the empty object is left to fall through to the flag
/// map.
pub open spec fn spec_decode_targets(v: JsonValue) -> Result<TargetsV, DecodeErrorV> {
    match v {
        JsonValue::Obj(o) => {
            let u = first_where(o@, key_not_in("activeTargets"@, "droppedTargets"@));
            if u < o@.len() {
                Err(DecodeErrorV::UnknownField { field: o@[u].0@ })
            } else {
                match spec_get_field(o@, "activeTargets"@) {
                    Err(e) => Err(e),
                    Ok(ax) => match spec_get_field(o@, "droppedTargets"@) {
                        Err(e) => Err(e),
                        Ok(dx) => {
                            if ax is None && dx is None {
                                Err(DecodeErrorV::MissingField { field: "activeTargets"@ })
                            } else {
                                let ar = match ax {
                                    Some(JsonValue::Arr(a)) => decode_seq(
                                        a@,
                                        dec_active_target_fn(),
                                    ),
                                    Some(x) => Err(
                                        DecodeErrorV::InvalidValue {
                                            field: "activeTargets"@,
                                            value: x@,
                                        },
                                    ),
                                    None => Ok(Seq::empty()),
                                };
                                match ar {
                                    Err(e) => Err(e),
                                    Ok(act) => {
                                        let dr = match dx {
                                            Some(JsonValue::Arr(a)) => decode_seq(
                                                a@,
                                                dec_dropped_target_fn(),
                                            ),
                                            Some(x) => Err(
                                                DecodeErrorV::InvalidValue {
                                                    field: "droppedTargets"@,
                                                    value: x@,
                                                },
                                            ),
                                            None => Ok(Seq::empty()),
                                        };
                                        match dr {
                                            Err(e) => Err(e),
                                            Ok(dro) => Ok(
                                                TargetsV { active: act, dropped: dro },
                                            ),
                                        }
                                    },
                                }
                            }
                        },
                    },
                }
            }
        },
        _ => Err(DecodeErrorV::InvalidValue { field: "targets"@, value: v@ }),
    }
}

/// Refuses the first field, in wire order, whose name is neither `n1`
/// nor `n2`.
#[verifier::loop_isolation(false)]
fn check_known_fields(o: &Vec<(String, JsonValue)>, n1: &str, n2: &str) -> (r: Result<
    (),
    DecodeError,
>)
    ensures
        match (r, first_where(o@, key_not_in(n1@, n2@))) {
            (Ok(()), u) => u == o@.len(),
            (Err(e), u) => u < o@.len() && e@ == (DecodeErrorV::UnknownField { field: o@[u].0@ }),
        },
{
    let ghost p = key_not_in(n1@, n2@);
    let mut i: usize = 0;
    while i < o.len()
        invariant
            i <= o@.len(),
            forall|k: int| 0 <= k < i ==> !p(#[trigger] o@[k]),
        decreases o.len() - i,
    {
        if !str_eq(o[i].0.as_str(), n1) && !str_eq(o[i].0.as_str(), n2) {
            proof {
                assert(p(o@[i as int]));
                lemma_first_where_is(o@, p, i as int);
            }
            return Err(err_unknown(&o[i].0));
        }
        proof {
            assert(!p(o@[i as int]));
        }
        i = i + 1;
    }
    proof {
        lemma_first_where_is(o@, p, o@.len() as int);
    }
    Ok(())
}

/// Reads the targets payload.
pub fn decode_targets(v: &JsonValue) -> (r: Result<Targets, DecodeError>)
    ensures
        match (r, spec_decode_targets(*v)) {
            (Ok(x), Ok(xv)) => x@ == xv,
            (Err(e), Err(ev)) => e@ == ev,
            _ => false,
        },
{
    match v {
        JsonValue::Obj(o) => {
            match check_known_fields(o, "activeTargets", "droppedTargets") {
                Err(e) => {
                    return Err(e);
                },
                Ok(()) => {},
            }
            let ax = match get_field(o, "activeTargets") {
                Err(e) => {
                    return Err(e);
                },
                Ok(x) => x,
            };
            let dx = match get_field(o, "droppedTargets") {
                Err(e) => {
                    return Err(e);
                },
                Ok(x) => x,
            };
            if ax.is_none() && dx.is_none() {
                return Err(err_missing("activeTargets"));
            }
            let act: Vec<ActiveTarget> = match ax {
                Some(x) => match x {
                    JsonValue::Arr(a) => match decode_active_target_vec(a) {
                        Err(e) => {
                            return Err(e);
                        },
                        Ok(vv) => vv,
                    },
                    _ => {
                        return Err(err_invalid("activeTargets", x));
                    },
                },
                None => Vec::new(),
            };
            let dro: Vec<DroppedTarget> = match dx {
                Some(x) => match x {
                    JsonValue::Arr(a) => match decode_dropped_target_vec(a) {
                        Err(e) => {
                            return Err(e);
                        },
                        Ok(vv) => vv,
                    },
                    _ => {
                        return Err(err_invalid("droppedTargets", x));
                    },
                },
                None => Vec::new(),
            };
            proof {
                assert(views_of(Seq::<ActiveTarget>::empty()) =~= Seq::<ActiveTargetV>::empty());
                assert(views_of(Seq::<DroppedTarget>::empty()) =~= Seq::<
                    Map<Seq<char>, Seq<char>>,
                >::empty());
            }
            Ok(Targets { active: act, dropped: dro })
        },
        _ => Err(err_invalid("targets", v)),
    }
}



// Alert managers.

/// The key is not `url` up to ASCII case.
pub open spec fn key_not_ci_url() -> spec_fn((String, JsonValue)) -> bool {
    |e: (String, JsonValue)| crate::text::ascii_lower(e.0@) != crate::text::ascii_lower("url"@)
}

/// Decode of one alert manager: an object whose single field is `url`
/// up to ASCII case; a second binding is refused as a duplicate, any
/// other field as unknown.
pub open spec fn spec_decode_alert_manager(v: JsonValue) -> Result<Seq<char>, DecodeErrorV> {
    match v {
        JsonValue::Obj(o) => {
            let u = first_where(o@, key_not_ci_url());
            if u < o@.len() {
                Err(DecodeErrorV::UnknownField { field: o@[u].0@ })
            } else if o@.len() >= 2 {
                Err(DecodeErrorV::DuplicateField { field: "url"@ })
            } else if o@.len() == 0 {
                Err(DecodeErrorV::MissingField { field: "url"@ })
            } else {
                spec_decode_url(o@[0].1, "url"@)
            }
        },
        _ => Err(DecodeErrorV::InvalidValue { field: "alertmanager"@, value: v@ }),
    }
}

/// Reads one alert manager.
#[verifier::loop_isolation(false)]
pub fn decode_alert_manager(v: &JsonValue) -> (r: Result<AlertManager, DecodeError>)
    ensures
        match (r, spec_decode_alert_manager(*v)) {
            (Ok(x), Ok(xv)) => x@ == xv,
            (Err(e), Err(ev)) => e@ == ev,
            _ => false,
        },
{
    match v {
        JsonValue::Obj(o) => {
            let ghost p = key_not_ci_url();
            let mut i: usize = 0;
            while i < o.len()
                invariant
                    i <= o@.len(),
                    forall|k: int| 0 <= k < i ==> !p(#[trigger] o@[k]),
                decreases o.len() - i,
            {
                if !crate::text::eq_ignore_ascii_case(o[i].0.as_str(), "url") {
                    proof {
                        assert(p(o@[i as int]));
                        lemma_first_where_is(o@, p, i as int);
                    }
                    return Err(err_unknown(&o[i].0));
                }
                proof {
                    assert(!p(o@[i as int]));
                }
                i = i + 1;
            }
            proof {
                lemma_first_where_is(o@, p, o@.len() as int);
            }
            if o.len() >= 2 {
                return Err(DecodeError::DuplicateField { field: String::from_str("url") });
            }
            if o.len() == 0 {
                return Err(err_missing("url"));
            }
            match decode_url(&o[0].1, "url") {
                Err(e) => Err(e),
                Ok(u) => Ok(AlertManager { url: u }),
            }
        },
        _ => Err(err_invalid("alertmanager", v)),
    }
}

pub open spec fn dec_alert_manager_fn() -> spec_fn(JsonValue) -> Result<Seq<char>, DecodeErrorV> {
    |x: JsonValue| spec_decode_alert_manager(x)
}

/// Reads an array of alert managers.
#[verifier::loop_isolation(false)]
pub fn decode_alert_manager_vec(a: &Vec<JsonValue>) -> (r: Result<Vec<AlertManager>, DecodeError>)
    ensures
        match (r, decode_seq(a@, dec_alert_manager_fn())) {
            (Ok(v), Ok(sv)) => views_of(v@) == sv,
            (Err(e), Err(ev)) => e@ == ev,
            _ => false,
        },
{
    let ghost f = dec_alert_manager_fn();
    let mut out: Vec<AlertManager> = Vec::new();
    let mut i: usize = 0;
    while i < a.len()
        invariant
            i <= a@.len(),
            out@.len() == i,
            forall|k: int| 0 <= k < i ==> (#[trigger] f(a@[k])) is Ok,
            forall|k: int| 0 <= k < i ==> (#[trigger] out@[k])@ == ok_val(f(a@[k])),
        decreases a.len() - i,
    {
        match decode_alert_manager(&a[i]) {
            Ok(x) => {
                out.push(x);
            },
            Err(e) => {
                proof {
                    lemma_decode_seq_prefix(a@, f, i as int);
                }
                return Err(e);
            },
        }
        i = i + 1;
    }
    proof {
        lemma_decode_seq_prefix(a@, f, a@.len() as int);
        assert(views_of(out@) =~= Seq::new(a@.len(), |k: int| ok_val(f(a@[k]))) + Seq::empty());
    }
    Ok(out)
}

/// Decode of the alert managers payload: a closed object with the
/// active and dropped listings.  Either listing may be absent and
/// defaults to empty, but not both: the empty object is left to fall
/// through to the flag map.
pub open spec fn spec_decode_alert_managers(v: JsonValue) -> Result<AlertManagersV, DecodeErrorV> {
    match v {
        JsonValue::Obj(o) => {
            let u = first_where(o@, key_not_in("activeAlertmanagers"@, "droppedAlertmanagers"@));
            if u < o@.len() {
                Err(DecodeErrorV::UnknownField { field: o@[u].0@ })
            } else {
                match spec_get_field(o@, "activeAlertmanagers"@) {
                    Err(e) => Err(e),
                    Ok(ax) => match spec_get_field(o@, "droppedAlertmanagers"@) {
                        Err(e) => Err(e),
                        Ok(dx) => {
                            if ax is None && dx is None {
                                Err(
                                    DecodeErrorV::MissingField { field: "activeAlertmanagers"@ },
                                )
                            } else {
                                let ar = match ax {
                                    Some(JsonValue::Arr(a)) => decode_seq(
                                        a@,
                                        dec_alert_manager_fn(),
                                    ),
                                    Some(x) => Err(
                                        DecodeErrorV::InvalidValue {
                                            field: "activeAlertmanagers"@,
                                            value: x@,
                                        },
                                    ),
                                    None => Ok(Seq::empty()),
                                };
                                match ar {
                                    Err(e) => Err(e),
                                    Ok(act) => {
                                        let dr = match dx {
                                            Some(JsonValue::Arr(a)) => decode_seq(
                                                a@,
                                                dec_alert_manager_fn(),
                                            ),
                                            Some(x) => Err(
                                                DecodeErrorV::InvalidValue {
                                                    field: "droppedAlertmanagers"@,
                                                    value: x@,
                                                },
                                            ),
                                            None => Ok(Seq::empty()),
                                        };
                                        match dr {
                                            Err(e) => Err(e),
                                            Ok(dro) => Ok(
                                                AlertManagersV { active: act, dropped: dro },
                                            ),
                                        }
                                    },
                                }
                            }
                        },
                    },
                }
            }
        },
        _ => Err(DecodeErrorV::InvalidValue { field: "alertmanagers"@, value: v@ }),
    }
}

/// Reads the alert managers payload.
pub fn decode_alert_managers(v: &JsonValue) -> (r: Result<AlertManagers, DecodeError>)
    ensures
        match (r, spec_decode_alert_managers(*v)) {
            (Ok(x), Ok(xv)) => x@ == xv,
            (Err(e), Err(ev)) => e@ == ev,
            _ => false,
        },
{
    match v {
        JsonValue::Obj(o) => {
            match check_known_fields(o, "activeAlertmanagers", "droppedAlertmanagers") {
                Err(e) => {
                    return Err(e);
                },
                Ok(()) => {},
            }
            let ax = match get_field(o, "activeAlertmanagers") {
                Err(e) => {
                    return Err(e);
                },
                Ok(x) => x,
            };
            let dx = match get_field(o, "droppedAlertmanagers") {
                Err(e) => {
                    return Err(e);
                },
                Ok(x) => x,
            };
            if ax.is_none() && dx.is_none() {
                return Err(err_missing("activeAlertmanagers"));
            }
            let act: Vec<AlertManager> = match ax {
                Some(x) => match x {
                    JsonValue::Arr(a) => match decode_alert_manager_vec(a) {
                        Err(e) => {
                            return Err(e);
                        },
                        Ok(vv) => vv,
                    },
                    _ => {
                        return Err(err_invalid("activeAlertmanagers", x));
                    },
                },
                None => Vec::new(),
            };
            let dro: Vec<AlertManager> = match dx {
                Some(x) => match x {
                    JsonValue::Arr(a) => match decode_alert_manager_vec(a) {
                        Err(e) => {
                            return Err(e);
                        },
                        Ok(vv) => vv,
                    },
                    _ => {
                        return Err(err_invalid("droppedAlertmanagers", x));
                    },
                },
                None => Vec::new(),
            };
            proof {
                assert(views_of(Seq::<AlertManager>::empty()) =~= Seq::<Seq<char>>::empty());
            }
            Ok(AlertManagers { active: act, dropped: dro })
        },
        _ => Err(err_invalid("alertmanagers", v)),
    }
}

// Alerts and rules.

/// Decode of one alert: its activation time (defaulting to the empty
/// string), optional annotation and label sets, its strict state token
/// and its value text.
pub open spec fn spec_decode_alert(v: JsonValue) -> Result<AlertV, DecodeErrorV> {
    match v {
        JsonValue::Obj(o) => match spec_get_field(o@, "activeAt"@) {
            Err(e) => Err(e),
            Ok(atx) => {
                let at = match atx {
                    None => Ok(Seq::<char>::empty()),
                    Some(x) => spec_decode_string(x, "activeAt"@),
                };
                match at {
                    Err(e) => Err(e),
                    Ok(active_at) => match spec_get_field(o@, "annotations"@) {
                        Err(e) => Err(e),
                        Ok(anx) => {
                            let an = match anx {
                                None => Ok(None),
                                Some(x) => spec_decode_opt_map(x, "annotations"@),
                            };
                            match an {
                                Err(e) => Err(e),
                                Ok(annotations) => match spec_get_field(o@, "labels"@) {
                                    Err(e) => Err(e),
                                    Ok(lbx) => {
                                        let lb = match lbx {
                                            None => Ok(None),
                                            Some(x) => spec_decode_opt_map(x, "labels"@),
                                        };
                                        match lb {
                                            Err(e) => Err(e),
                                            Ok(labels) => match spec_get_field(o@, "state"@) {
                                                Err(e) => Err(e),
                                                Ok(None) => Err(
                                                    DecodeErrorV::MissingField {
                                                        field: "state"@,
                                                    },
                                                ),
                                                Ok(Some(sx)) => match spec_decode_state(sx) {
                                                    Err(e) => Err(e),
                                                    Ok(state) => match spec_get_field(
                                                        o@,
                                                        "value"@,
                                                    ) {
                                                        Err(e) => Err(e),
                                                        Ok(None) => Err(
                                                            DecodeErrorV::MissingField {
                                                                field: "value"@,
                                                            },
                                                        ),
                                                        Ok(Some(vx)) => match spec_decode_string(
                                                            vx,
                                                            "value"@,
                                                        ) {
                                                            Err(e) => Err(e),
                                                            Ok(value) => Ok(
                                                                AlertV {
                                                                    active_at,
                                                                    annotations,
                                                                    labels,
                                                                    state,
                                                                    value,
                                                                },
                                                            ),
                                                        },
                                                    },
                                                },
                                            },
                                        }
                                    },
                                },
                            }
                        },
                    },
                }
            },
        },
        _ => Err(DecodeErrorV::InvalidValue { field: "alert"@, value: v@ }),
    }
}

/// Reads one alert.
pub fn decode_alert(v: &JsonValue) -> (r: Result<Alert, DecodeError>)
    ensures
        match (r, spec_decode_alert(*v)) {
            (Ok(x), Ok(xv)) => x@ == xv,
            (Err(e), Err(ev)) => e@ == ev,
            _ => false,
        },
{
    match v {
        JsonValue::Obj(o) => {
            let active_at: String = match get_field(o, "activeAt") {
                Err(e) => {
                    return Err(e);
                },
                Ok(None) => String::new(),
                Ok(Some(x)) => match decode_string(x, "activeAt") {
                    Err(e) => {
                        return Err(e);
                    },
                    Ok(s) => s,
                },
            };
            let annotations: Option<StringMap> = match get_field(o, "annotations") {
                Err(e) => {
                    return Err(e);
                },
                Ok(None) => None,
                Ok(Some(x)) => match decode_opt_map(x, "annotations") {
                    Err(e) => {
                        return Err(e);
                    },
                    Ok(m) => m,
                },
            };
            let labels: Option<StringMap> = match get_field(o, "labels") {
                Err(e) => {
                    return Err(e);
                },
                Ok(None) => None,
                Ok(Some(x)) => match decode_opt_map(x, "labels") {
                    Err(e) => {
                        return Err(e);
                    },
                    Ok(m) => m,
                },
            };
            let state: AlertState = match get_field(o, "state") {
                Err(e) => {
                    return Err(e);
                },
                Ok(None) => {
                    return Err(err_missing("state"));
                },
                Ok(Some(x)) => match decode_state(x) {
                    Err(e) => {
                        return Err(e);
                    },
                    Ok(s) => s,
                },
            };
            let value: String = match get_field(o, "value") {
                Err(e) => {
                    return Err(e);
                },
                Ok(None) => {
                    return Err(err_missing("value"));
                },
                Ok(Some(x)) => match decode_string(x, "value") {
                    Err(e) => {
                        return Err(e);
                    },
                    Ok(s) => s,
                },
            };
            Ok(Alert { active_at, annotations, labels, state, value })
        },
        _ => Err(err_invalid("alert", v)),
    }
}

pub open spec fn dec_alert_fn() -> spec_fn(JsonValue) -> Result<AlertV, DecodeErrorV> {
    |x: JsonValue| spec_decode_alert(x)
}

/// Reads an array of alerts.
#[verifier::loop_isolation(false)]
pub fn decode_alert_vec(a: &Vec<JsonValue>) -> (r: Result<Vec<Alert>, DecodeError>)
    ensures
        match (r, decode_seq(a@, dec_alert_fn())) {
            (Ok(v), Ok(sv)) => views_of(v@) == sv,
            (Err(e), Err(ev)) => e@ == ev,
            _ => false,
        },
{
    let ghost f = dec_alert_fn();
    let mut out: Vec<Alert> = Vec::new();
    let mut i: usize = 0;
    while i < a.len()
        invariant
            i <= a@.len(),
            out@.len() == i,
            forall|k: int| 0 <= k < i ==> (#[trigger] f(a@[k])) is Ok,
            forall|k: int| 0 <= k < i ==> (#[trigger] out@[k])@ == ok_val(f(a@[k])),
        decreases a.len() - i,
    {
        match decode_alert(&a[i]) {
            Ok(x) => {
                out.push(x);
            },
            Err(e) => {
                proof {
                    lemma_decode_seq_prefix(a@, f, i as int);
                }
                return Err(e);
            },
        }
        i = i + 1;
    }
    proof {
        lemma_decode_seq_prefix(a@, f, a@.len() as int);
        assert(views_of(out@) =~= Seq::new(a@.len(), |k: int| ok_val(f(a@[k]))) + Seq::empty());
    }
    Ok(out)
}

/// Decode of one rule: its optional alert instances, annotation and
/// label sets and duration, its health, name and query texts, and its
/// strict kind token.
pub open spec fn spec_decode_rule(v: JsonValue) -> Result<RuleV, DecodeErrorV> {
    match v {
        JsonValue::Obj(o) => {
            let alr = match spec_get_field(o@, "alerts"@) {
                Err(e) => Err(e),
                Ok(None) => Ok(None),
                Ok(Some(JsonValue::Null)) => Ok(None),
                Ok(Some(JsonValue::Arr(a))) => match decode_seq(a@, dec_alert_fn()) {
                    Err(e) => Err(e),
                    Ok(xs) => Ok(Some(xs)),
                },
                Ok(Some(x)) => Err(DecodeErrorV::InvalidValue { field: "alerts"@, value: x@ }),
            };
            match alr {
                Err(e) => Err(e),
                Ok(alerts) => {
                    let anr = match spec_get_field(o@, "annotations"@) {
                        Err(e) => Err(e),
                        Ok(None) => Ok(None),
                        Ok(Some(x)) => spec_decode_opt_map(x, "annotations"@),
                    };
                    match anr {
                        Err(e) => Err(e),
                        Ok(annotations) => {
                            let dur = match spec_get_field(o@, "duration"@) {
                                Err(e) => Err(e),
                                Ok(None) => Ok(None),
                                Ok(Some(JsonValue::Null)) => Ok(None),
                                Ok(Some(x)) => match spec_decode_i64(x, "duration"@) {
                                    Err(e) => Err(e),
                                    Ok(n) => Ok(Some(n)),
                                },
                            };
                            match dur {
                                Err(e) => Err(e),
                                Ok(duration) => {
                                    let lbr = match spec_get_field(o@, "labels"@) {
                                        Err(e) => Err(e),
                                        Ok(None) => Ok(None),
                                        Ok(Some(x)) => spec_decode_opt_map(x, "labels"@),
                                    };
                                    match lbr {
                                        Err(e) => Err(e),
                                        Ok(labels) => spec_decode_rule_tail(
                                            o@,
                                            alerts,
                                            annotations,
                                            duration,
                                            labels,
                                        ),
                                    }
                                },
                            }
                        },
                    }
                },
            }
        },
        _ => Err(DecodeErrorV::InvalidValue { field: "rule"@, value: v@ }),
    }
}

/// The required tail fields of a rule: health, name, query and kind.
pub open spec fn spec_decode_rule_tail(
    o: Seq<(String, JsonValue)>,
    alerts: Option<Seq<AlertV>>,
    annotations: Option<Map<Seq<char>, Seq<char>>>,
    duration: Option<i64>,
    labels: Option<Map<Seq<char>, Seq<char>>>,
) -> Result<RuleV, DecodeErrorV> {
    match spec_get_field(o, "health"@) {
        Err(e) => Err(e),
        Ok(None) => Err(DecodeErrorV::MissingField { field: "health"@ }),
        Ok(Some(hx)) => match spec_decode_string(hx, "health"@) {
            Err(e) => Err(e),
            Ok(health) => match spec_get_field(o, "name"@) {
                Err(e) => Err(e),
                Ok(None) => Err(DecodeErrorV::MissingField { field: "name"@ }),
                Ok(Some(nx)) => match spec_decode_string(nx, "name"@) {
                    Err(e) => Err(e),
                    Ok(name) => match spec_get_field(o, "query"@) {
                        Err(e) => Err(e),
                        Ok(None) => Err(DecodeErrorV::MissingField { field: "query"@ }),
                        Ok(Some(qx)) => match spec_decode_string(qx, "query"@) {
                            Err(e) => Err(e),
                            Ok(query) => match spec_get_field(o, "type"@) {
                                Err(e) => Err(e),
                                Ok(None) => Err(DecodeErrorV::MissingField { field: "type"@ }),
                                Ok(Some(tx)) => match spec_decode_rule_type(tx) {
                                    Err(e) => Err(e),
                                    Ok(rule_type) => Ok(
                                        RuleV {
                                            alerts,
                                            annotations,
                                            duration,
                                            labels,
                                            health,
                                            name,
                                            query,
                                            rule_type,
                                        },
                                    ),
                                },
                            },
                        },
                    },
                },
            },
        },
    }
}

/// Reads one rule.
pub fn decode_rule(v: &JsonValue) -> (r: Result<Rule, DecodeError>)
    ensures
        match (r, spec_decode_rule(*v)) {
            (Ok(x), Ok(xv)) => x@ == xv,
            (Err(e), Err(ev)) => e@ == ev,
            _ => false,
        },
{
    match v {
        JsonValue::Obj(o) => {
            let alerts: Option<Vec<Alert>> = match get_field(o, "alerts") {
                Err(e) => {
                    return Err(e);
                },
                Ok(None) => None,
                Ok(Some(x)) => match x {
                    JsonValue::Null => None,
                    JsonValue::Arr(a) => match decode_alert_vec(a) {
                        Err(e) => {
                            return Err(e);
                        },
                        Ok(xs) => Some(xs),
                    },
                    _ => {
                        return Err(err_invalid("alerts", x));
                    },
                },
            };
            let annotations: Option<StringMap> = match get_field(o, "annotations") {
                Err(e) => {
                    return Err(e);
                },
                Ok(None) => None,
                Ok(Some(x)) => match decode_opt_map(x, "annotations") {
                    Err(e) => {
                        return Err(e);
                    },
                    Ok(m) => m,
                },
            };
            let duration: Option<i64> = match get_field(o, "duration") {
                Err(e) => {
                    return Err(e);
                },
                Ok(None) => None,
                Ok(Some(x)) => match x {
                    JsonValue::Null => None,
                    _ => match decode_i64(x, "duration") {
                        Err(e) => {
                            return Err(e);
                        },
                        Ok(n) => Some(n),
                    },
                },
            };
            let labels: Option<StringMap> = match get_field(o, "labels") {
                Err(e) => {
                    return Err(e);
                },
                Ok(None) => None,
                Ok(Some(x)) => match decode_opt_map(x, "labels") {
                    Err(e) => {
                        return Err(e);
                    },
                    Ok(m) => m,
                },
            };
            let health: String = match get_field(o, "health") {
                Err(e) => {
                    return Err(e);
                },
                Ok(None) => {
                    return Err(err_missing("health"));
                },
                Ok(Some(x)) => match decode_string(x, "health") {
                    Err(e) => {
                        return Err(e);
                    },
                    Ok(s) => s,
                },
            };
            let name: String = match get_field(o, "name") {
                Err(e) => {
                    return Err(e);
                },
                Ok(None) => {
                    return Err(err_missing("name"));
                },
                Ok(Some(x)) => match decode_string(x, "name") {
                    Err(e) => {
                        return Err(e);
                    },
                    Ok(s) => s,
                },
            };
            let query: String = match get_field(o, "query") {
                Err(e) => {
                    return Err(e);
                },
                Ok(None) => {
                    return Err(err_missing("query"));
                },
                Ok(Some(x)) => match decode_string(x, "query") {
                    Err(e) => {
                        return Err(e);
                    },
                    Ok(s) => s,
                },
            };
            let rule_type: RuleType = match get_field(o, "type") {
                Err(e) => {
                    return Err(e);
                },
                Ok(None) => {
                    return Err(err_missing("type"));
                },
                Ok(Some(x)) => match decode_rule_type(x) {
                    Err(e) => {
                        return Err(e);
                    },
                    Ok(t) => t,
                },
            };
            Ok(Rule { alerts, annotations, duration, labels, health, name, query, rule_type })
        },
        _ => Err(err_invalid("rule", v)),
    }
}

pub open spec fn dec_rule_fn() -> spec_fn(JsonValue) -> Result<RuleV, DecodeErrorV> {
    |x: JsonValue| spec_decode_rule(x)
}

/// Reads an array of rules.
#[verifier::loop_isolation(false)]
pub fn decode_rule_vec(a: &Vec<JsonValue>) -> (r: Result<Vec<Rule>, DecodeError>)
    ensures
        match (r, decode_seq(a@, dec_rule_fn())) {
            (Ok(v), Ok(sv)) => views_of(v@) == sv,
            (Err(e), Err(ev)) => e@ == ev,
            _ => false,
        },
{
    let ghost f = dec_rule_fn();
    let mut out: Vec<Rule> = Vec::new();
    let mut i: usize = 0;
    while i < a.len()
        invariant
            i <= a@.len(),
            out@.len() == i,
            forall|k: int| 0 <= k < i ==> (#[trigger] f(a@[k])) is Ok,
            forall|k: int| 0 <= k < i ==> (#[trigger] out@[k])@ == ok_val(f(a@[k])),
        decreases a.len() - i,
    {
        match decode_rule(&a[i]) {
            Ok(x) => {
                out.push(x);
            },
            Err(e) => {
                proof {
                    lemma_decode_seq_prefix(a@, f, i as int);
                }
                return Err(e);
            },
        }
        i = i + 1;
    }
    proof {
        lemma_decode_seq_prefix(a@, f, a@.len() as int);
        assert(views_of(out@) =~= Seq::new(a@.len(), |k: int| ok_val(f(a@[k]))) + Seq::empty());
    }
    Ok(out)
}

/// Decode of one rule group: its rules, the rule file, the evaluation
/// interval and the group name, all required.
pub open spec fn spec_decode_rule_group(v: JsonValue) -> Result<RuleGroupsV, DecodeErrorV> {
    match v {
        JsonValue::Obj(o) => {
            let rr = match spec_get_field(o@, "rules"@) {
                Err(e) => Err(e),
                Ok(None) => Err(DecodeErrorV::MissingField { field: "rules"@ }),
                Ok(Some(JsonValue::Arr(a))) => decode_seq(a@, dec_rule_fn()),
                Ok(Some(x)) => Err(DecodeErrorV::InvalidValue { field: "rules"@, value: x@ }),
            };
            match rr {
                Err(e) => Err(e),
                Ok(rules) => match spec_get_field(o@, "file"@) {
                    Err(e) => Err(e),
                    Ok(None) => Err(DecodeErrorV::MissingField { field: "file"@ }),
                    Ok(Some(fx)) => match spec_decode_string(fx, "file"@) {
                        Err(e) => Err(e),
                        Ok(file) => match spec_get_field(o@, "interval"@) {
                            Err(e) => Err(e),
                            Ok(None) => Err(DecodeErrorV::MissingField { field: "interval"@ }),
                            Ok(Some(ix)) => match spec_decode_i64(ix, "interval"@) {
                                Err(e) => Err(e),
                                Ok(interval) => match spec_get_field(o@, "name"@) {
                                    Err(e) => Err(e),
                                    Ok(None) => Err(
                                        DecodeErrorV::MissingField { field: "name"@ },
                                    ),
                                    Ok(Some(nx)) => match spec_decode_string(nx, "name"@) {
                                        Err(e) => Err(e),
                                        Ok(name) => Ok(
                                            RuleGroupsV { rules, file, interval, name },
                                        ),
                                    },
                                },
                            },
                        },
                    },
                },
            }
        },
        _ => Err(DecodeErrorV::InvalidValue { field: "group"@, value: v@ }),
    }
}

/// Reads one rule group.
pub fn decode_rule_group(v: &JsonValue) -> (r: Result<RuleGroups, DecodeError>)
    ensures
        match (r, spec_decode_rule_group(*v)) {
            (Ok(x), Ok(xv)) => x@ == xv,
            (Err(e), Err(ev)) => e@ == ev,
            _ => false,
        },
{
    match v {
        JsonValue::Obj(o) => {
            let rules: Vec<Rule> = match get_field(o, "rules") {
                Err(e) => {
                    return Err(e);
                },
                Ok(None) => {
                    return Err(err_missing("rules"));
                },
                Ok(Some(x)) => match x {
                    JsonValue::Arr(a) => match decode_rule_vec(a) {
                        Err(e) => {
                            return Err(e);
                        },
                        Ok(xs) => xs,
                    },
                    _ => {
                        return Err(err_invalid("rules", x));
                    },
                },
            };
            let file: String = match get_field(o, "file") {
                Err(e) => {
                    return Err(e);
                },
                Ok(None) => {
                    return Err(err_missing("file"));
                },
                Ok(Some(x)) => match decode_string(x, "file") {
                    Err(e) => {
                        return Err(e);
                    },
                    Ok(s) => s,
                },
            };
            let interval: i64 = match get_field(o, "interval") {
                Err(e) => {
                    return Err(e);
                },
                Ok(None) => {
                    return Err(err_missing("interval"));
                },
                Ok(Some(x)) => match decode_i64(x, "interval") {
                    Err(e) => {
                        return Err(e);
                    },
                    Ok(n) => n,
                },
            };
            let name: String = match get_field(o, "name") {
                Err(e) => {
                    return Err(e);
                },
                Ok(None) => {
                    return Err(err_missing("name"));
                },
                Ok(Some(x)) => match decode_string(x, "name") {
                    Err(e) => {
                        return Err(e);
                    },
                    Ok(s) => s,
                },
            };
            Ok(RuleGroups { rules, file, interval, name })
        },
        _ => Err(err_invalid("group", v)),
    }
}

pub open spec fn dec_rule_group_fn() -> spec_fn(JsonValue) -> Result<RuleGroupsV, DecodeErrorV> {
    |x: JsonValue| spec_decode_rule_group(x)
}

/// Reads an array of rule groups.
#[verifier::loop_isolation(false)]
pub fn decode_rule_group_vec(a: &Vec<JsonValue>) -> (r: Result<Vec<RuleGroups>, DecodeError>)
    ensures
        match (r, decode_seq(a@, dec_rule_group_fn())) {
            (Ok(v), Ok(sv)) => views_of(v@) == sv,
            (Err(e), Err(ev)) => e@ == ev,
            _ => false,
        },
{
    let ghost f = dec_rule_group_fn();
    let mut out: Vec<RuleGroups> = Vec::new();
    let mut i: usize = 0;
    while i < a.len()
        invariant
            i <= a@.len(),
            out@.len() == i,
            forall|k: int| 0 <= k < i ==> (#[trigger] f(a@[k])) is Ok,
            forall|k: int| 0 <= k < i ==> (#[trigger] out@[k])@ == ok_val(f(a@[k])),
        decreases a.len() - i,
    {
        match decode_rule_group(&a[i]) {
            Ok(x) => {
                out.push(x);
            },
            Err(e) => {
                proof {
                    lemma_decode_seq_prefix(a@, f, i as int);
                }
                return Err(e);
            },
        }
        i = i + 1;
    }
    proof {
        lemma_decode_seq_prefix(a@, f, a@.len() as int);
        assert(views_of(out@) =~= Seq::new(a@.len(), |k: int| ok_val(f(a@[k]))) + Seq::empty());
    }
    Ok(out)
}

/// Decode of the rules payload: a closed object with the required
/// groups listing.
pub open spec fn spec_decode_rules(v: JsonValue) -> Result<RulesV, DecodeErrorV> {
    match v {
        JsonValue::Obj(o) => {
            let u = first_where(o@, key_not_in("groups"@, "groups"@));
            if u < o@.len() {
                Err(DecodeErrorV::UnknownField { field: o@[u].0@ })
            } else {
                match spec_get_field(o@, "groups"@) {
                    Err(e) => Err(e),
                    Ok(None) => Err(DecodeErrorV::MissingField { field: "groups"@ }),
                    Ok(Some(JsonValue::Arr(a))) => match decode_seq(a@, dec_rule_group_fn()) {
                        Err(e) => Err(e),
                        Ok(gs) => Ok(RulesV { groups: gs }),
                    },
                    Ok(Some(x)) => Err(
                        DecodeErrorV::InvalidValue { field: "groups"@, value: x@ },
                    ),
                }
            }
        },
        _ => Err(DecodeErrorV::InvalidValue { field: "rules"@, value: v@ }),
    }
}

/// Reads the rules payload.
pub fn decode_rules(v: &JsonValue) -> (r: Result<Rules, DecodeError>)
    ensures
        match (r, spec_decode_rules(*v)) {
            (Ok(x), Ok(xv)) => x@ == xv,
            (Err(e), Err(ev)) => e@ == ev,
            _ => false,
        },
{
    match v {
        JsonValue::Obj(o) => {
            match check_known_fields(o, "groups", "groups") {
                Err(e) => {
                    return Err(e);
                },
                Ok(()) => {},
            }
            match get_field(o, "groups") {
                Err(e) => Err(e),
                Ok(None) => Err(err_missing("groups")),
                Ok(Some(x)) => match x {
                    JsonValue::Arr(a) => match decode_rule_group_vec(a) {
                        Err(e) => Err(e),
                        Ok(gs) => Ok(Rules { groups: gs }),
                    },
                    _ => Err(err_invalid("groups", x)),
                },
            }
        },
        _ => Err(err_invalid("rules", v)),
    }
}

/// Decode of the alerts payload: a closed object with the required
/// alerts listing.
pub open spec fn spec_decode_alerts(v: JsonValue) -> Result<Seq<AlertV>, DecodeErrorV> {
    match v {
        JsonValue::Obj(o) => {
            let u = first_where(o@, key_not_in("alerts"@, "alerts"@));
            if u < o@.len() {
                Err(DecodeErrorV::UnknownField { field: o@[u].0@ })
            } else {
                match spec_get_field(o@, "alerts"@) {
                    Err(e) => Err(e),
                    Ok(None) => Err(DecodeErrorV::MissingField { field: "alerts"@ }),
                    Ok(Some(JsonValue::Arr(a))) => decode_seq(a@, dec_alert_fn()),
                    Ok(Some(x)) => Err(
                        DecodeErrorV::InvalidValue { field: "alerts"@, value: x@ },
                    ),
                }
            }
        },
        _ => Err(DecodeErrorV::InvalidValue { field: "alerts"@, value: v@ }),
    }
}

/// Reads the alerts payload.
pub fn decode_alerts(v: &JsonValue) -> (r: Result<Alerts, DecodeError>)
    ensures
        match (r, spec_decode_alerts(*v)) {
            (Ok(x), Ok(xv)) => x@ == xv,
            (Err(e), Err(ev)) => e@ == ev,
            _ => false,
        },
{
    match v {
        JsonValue::Obj(o) => {
            match check_known_fields(o, "alerts", "alerts") {
                Err(e) => {
                    return Err(e);
                },
                Ok(()) => {},
            }
            match get_field(o, "alerts") {
                Err(e) => Err(e),
                Ok(None) => Err(err_missing("alerts")),
                Ok(Some(x)) => match x {
                    JsonValue::Arr(a) => match decode_alert_vec(a) {
                        Err(e) => Err(e),
                        Ok(xs) => Ok(Alerts { alerts: xs }),
                    },
                    _ => Err(err_invalid("alerts", x)),
                },
            }
        },
        _ => Err(err_invalid("alerts", v)),
    }
}

/// Decode of the configuration payload: a closed object with exactly
/// the configuration text under `yaml`.
pub open spec fn spec_decode_config(v: JsonValue) -> Result<Seq<char>, DecodeErrorV> {
    match v {
        JsonValue::Obj(o) => {
            let u = first_where(o@, key_not_in("yaml"@, "yaml"@));
            if u < o@.len() {
                Err(DecodeErrorV::UnknownField { field: o@[u].0@ })
            } else {
                match spec_get_field(o@, "yaml"@) {
                    Err(e) => Err(e),
                    Ok(None) => Err(DecodeErrorV::MissingField { field: "yaml"@ }),
                    Ok(Some(x)) => spec_decode_string(x, "yaml"@),
                }
            }
        },
        _ => Err(DecodeErrorV::InvalidValue { field: "config"@, value: v@ }),
    }
}

/// Reads the configuration payload.
pub fn decode_config(v: &JsonValue) -> (r: Result<Config, DecodeError>)
    ensures
        match (r, spec_decode_config(*v)) {
            (Ok(x), Ok(xv)) => x@ == xv,
            (Err(e), Err(ev)) => e@ == ev,
            _ => false,
        },
{
    match v {
        JsonValue::Obj(o) => {
            match check_known_fields(o, "yaml", "yaml") {
                Err(e) => {
                    return Err(e);
                },
                Ok(()) => {},
            }
            match get_field(o, "yaml") {
                Err(e) => Err(e),
                Ok(None) => Err(err_missing("yaml")),
                Ok(Some(x)) => match decode_string(x, "yaml") {
                    Err(e) => Err(e),
                    Ok(s) => Ok(Config { yaml: s }),
                },
            }
        },
        _ => Err(err_invalid("config", v)),
    }
}

/// Decode of the snapshot payload: a closed object with exactly the
/// snapshot name under `name`.
pub open spec fn spec_decode_snapshot(v: JsonValue) -> Result<Seq<char>, DecodeErrorV> {
    match v {
        JsonValue::Obj(o) => {
            let u = first_where(o@, key_not_in("name"@, "name"@));
            if u < o@.len() {
                Err(DecodeErrorV::UnknownField { field: o@[u].0@ })
            } else {
                match spec_get_field(o@, "name"@) {
                    Err(e) => Err(e),
                    Ok(None) => Err(DecodeErrorV::MissingField { field: "name"@ }),
                    Ok(Some(x)) => spec_decode_string(x, "name"@),
                }
            }
        },
        _ => Err(DecodeErrorV::InvalidValue { field: "snapshot"@, value: v@ }),
    }
}

/// Reads the snapshot payload.
pub fn decode_snapshot(v: &JsonValue) -> (r: Result<Snapshot, DecodeError>)
    ensures
        match (r, spec_decode_snapshot(*v)) {
            (Ok(x), Ok(xv)) => x@ == xv,
            (Err(e), Err(ev)) => e@ == ev,
            _ => false,
        },
{
    match v {
        JsonValue::Obj(o) => {
            match check_known_fields(o, "name", "name") {
                Err(e) => {
                    return Err(e);
                },
                Ok(()) => {},
            }
            match get_field(o, "name") {
                Err(e) => Err(e),
                Ok(None) => Err(err_missing("name")),
                Ok(Some(x)) => match decode_string(x, "name") {
                    Err(e) => Err(e),
                    Ok(s) => Ok(Snapshot { name: s }),
                },
            }
        },
        _ => Err(err_invalid("snapshot", v)),
    }
}

/// Decode of the flag map: any object whose values are all strings.
pub open spec fn spec_decode_flags(v: JsonValue) -> Result<Map<Seq<char>, Seq<char>>, DecodeErrorV> {
    match v {
        JsonValue::Obj(o) => spec_decode_string_map(o@),
        _ => Err(DecodeErrorV::InvalidValue { field: "flags"@, value: v@ }),
    }
}

/// Reads the flag map.
pub fn decode_flags(v: &JsonValue) -> (r: Result<StringMap, DecodeError>)
    ensures
        match (r, spec_decode_flags(*v)) {
            (Ok(m), Ok(mv)) => m@ == mv && m.wf(),
            (Err(e), Err(ev)) => e@ == ev,
            _ => false,
        },
{
    match v {
        JsonValue::Obj(o) => decode_string_map(o),
        _ => Err(err_invalid("flags", v)),
    }
}

/// Decode of the series payload: an array of label sets.
pub open spec fn spec_decode_series(v: JsonValue) -> Result<
    Seq<Map<Seq<char>, Seq<char>>>,
    DecodeErrorV,
> {
    match v {
        JsonValue::Arr(a) => decode_seq(a@, dec_metric_fn()),
        _ => Err(DecodeErrorV::InvalidValue { field: "series"@, value: v@ }),
    }
}

/// Reads the series payload.
pub fn decode_series(v: &JsonValue) -> (r: Result<Series, DecodeError>)
    ensures
        match (r, spec_decode_series(*v)) {
            (Ok(x), Ok(xv)) => x@ == xv,
            (Err(e), Err(ev)) => e@ == ev,
            _ => false,
        },
{
    match v {
        JsonValue::Arr(a) => match decode_metric_vec(a) {
            Err(e) => Err(e),
            Ok(ms) => Ok(Series(ms)),
        },
        _ => Err(err_invalid("series", v)),
    }
}

/// Decode of the label listing payload: an array of strings.
pub open spec fn spec_decode_labels_or_values(v: JsonValue) -> Result<Seq<Seq<char>>, DecodeErrorV> {
    match v {
        JsonValue::Arr(a) => decode_seq(a@, dec_string_fn("value"@)),
        _ => Err(DecodeErrorV::InvalidValue { field: "labels or values"@, value: v@ }),
    }
}

/// Reads the label listing payload.
pub fn decode_labels_or_values(v: &JsonValue) -> (r: Result<LabelsOrValues, DecodeError>)
    ensures
        match (r, spec_decode_labels_or_values(*v)) {
            (Ok(x), Ok(xv)) => x@ == xv,
            (Err(e), Err(ev)) => e@ == ev,
            _ => false,
        },
{
    match v {
        JsonValue::Arr(a) => match decode_string_vec(a, "value") {
            Err(e) => Err(e),
            Ok(ss) => Ok(LabelsOrValues(ss)),
        },
        _ => Err(err_invalid("labels or values", v)),
    }
}



// The structural payload resolver.

/// Decode of the `data` payload.  The wire gives no discriminator, so
/// the shapes are tried in a fixed order and the first that decodes
/// wins; the flag map is tried last, since it matches any
/// string-to-string object.  When nothing matches, the refusal lists
/// the shapes attempted.
pub open spec fn spec_decode_data(v: JsonValue) -> Result<DataV, DecodeErrorV> {
    if spec_decode_expression(v) is Ok {
        Ok(DataV::Expression(ok_val(spec_decode_expression(v))))
    } else if spec_decode_series(v) is Ok {
        Ok(DataV::Series(ok_val(spec_decode_series(v))))
    } else if spec_decode_labels_or_values(v) is Ok {
        Ok(DataV::LabelsOrValues(ok_val(spec_decode_labels_or_values(v))))
    } else if spec_decode_targets(v) is Ok {
        Ok(DataV::Targets(ok_val(spec_decode_targets(v))))
    } else if spec_decode_rules(v) is Ok {
        Ok(DataV::Rules(ok_val(spec_decode_rules(v))))
    } else if spec_decode_alerts(v) is Ok {
        Ok(DataV::Alerts(ok_val(spec_decode_alerts(v))))
    } else if spec_decode_alert_managers(v) is Ok {
        Ok(DataV::AlertManagers(ok_val(spec_decode_alert_managers(v))))
    } else if spec_decode_config(v) is Ok {
        Ok(DataV::Config(ok_val(spec_decode_config(v))))
    } else if spec_decode_snapshot(v) is Ok {
        Ok(DataV::Snapshot(ok_val(spec_decode_snapshot(v))))
    } else if spec_decode_flags(v) is Ok {
        Ok(DataV::Flags(ok_val(spec_decode_flags(v))))
    } else {
        Err(DecodeErrorV::NoShapeMatched { attempted: shape_names() })
    }
}

/// Reads the `data` payload by ordered trial decoding.
pub fn decode_data(v: &JsonValue) -> (r: Result<Data, DecodeError>)
    ensures
        match (r, spec_decode_data(*v)) {
            (Ok(x), Ok(xv)) => x@ == xv,
            (Err(e), Err(ev)) => e@ == ev,
            _ => false,
        },
{
    match decode_expression(v) {
        Ok(x) => {
            return Ok(Data::Expression(x));
        },
        Err(_) => {},
    }
    match decode_series(v) {
        Ok(x) => {
            return Ok(Data::Series(x));
        },
        Err(_) => {},
    }
    match decode_labels_or_values(v) {
        Ok(x) => {
            return Ok(Data::LabelsOrValues(x));
        },
        Err(_) => {},
    }
    match decode_targets(v) {
        Ok(x) => {
            return Ok(Data::Targets(x));
        },
        Err(_) => {},
    }
    match decode_rules(v) {
        Ok(x) => {
            return Ok(Data::Rules(x));
        },
        Err(_) => {},
    }
    match decode_alerts(v) {
        Ok(x) => {
            return Ok(Data::Alerts(x));
        },
        Err(_) => {},
    }
    match decode_alert_managers(v) {
        Ok(x) => {
            return Ok(Data::AlertManagers(x));
        },
        Err(_) => {},
    }
    match decode_config(v) {
        Ok(x) => {
            return Ok(Data::Config(x));
        },
        Err(_) => {},
    }
    match decode_snapshot(v) {
        Ok(x) => {
            return Ok(Data::Snapshot(x));
        },
        Err(_) => {},
    }
    match decode_flags(v) {
        Ok(x) => {
            return Ok(Data::Flags(x));
        },
        Err(_) => {},
    }
    let mut attempted: Vec<String> = Vec::new();
    attempted.push(String::from_str("expression"));
    attempted.push(String::from_str("series"));
    attempted.push(String::from_str("labels or values"));
    attempted.push(String::from_str("targets"));
    attempted.push(String::from_str("rules"));
    attempted.push(String::from_str("alerts"));
    attempted.push(String::from_str("alert managers"));
    attempted.push(String::from_str("config"));
    attempted.push(String::from_str("snapshot"));
    attempted.push(String::from_str("flags"));
    let e = DecodeError::NoShapeMatched { attempted };
    proof {
        assert(Seq::new(10, |i: int| (DecodeError::NoShapeMatched { attempted })->attempted@[i]@)
            =~= shape_names());
        assert(e@ == (DecodeErrorV::NoShapeMatched { attempted: shape_names() }));
    }
    Err(e)
}

// The top-level envelope.

/// Decode of the optional payload and warnings fields shared by both
/// envelope variants: an absent or null `data` is no payload; absent
/// `warnings` is the empty list.
pub open spec fn spec_decode_payload_fields(o: Seq<(String, JsonValue)>) -> Result<
    (Option<DataV>, Seq<Seq<char>>),
    DecodeErrorV,
> {
    match spec_get_field(o, "data"@) {
        Err(e) => Err(e),
        Ok(dx) => {
            let dr = match dx {
                None => Ok(None),
                Some(JsonValue::Null) => Ok(None),
                Some(d) => match spec_decode_data(d) {
                    Err(e) => Err(e),
                    Ok(dd) => Ok(Some(dd)),
                },
            };
            match dr {
                Err(e) => Err(e),
                Ok(data) => match spec_get_field(o, "warnings"@) {
                    Err(e) => Err(e),
                    Ok(wx) => {
                        let wr = match wx {
                            None => Ok(Seq::empty()),
                            Some(JsonValue::Arr(a)) => decode_seq(a@, dec_string_fn("warnings"@)),
                            Some(x) => Err(
                                DecodeErrorV::InvalidValue { field: "warnings"@, value: x@ },
                            ),
                        };
                        match wr {
                            Err(e) => Err(e),
                            Ok(warnings) => Ok((data, warnings)),
                        }
                    },
                },
            }
        },
    }
}

/// Reads the payload and warnings fields.
fn decode_payload_fields(o: &Vec<(String, JsonValue)>) -> (r: Result<
    (Option<Data>, Vec<String>),
    DecodeError,
>)
    ensures
        match (r, spec_decode_payload_fields(o@)) {
            (Ok(p), Ok(pv)) => ({
                &&& match (&p.0, pv.0) {
                    (Some(d), Some(dv)) => d@ == dv,
                    (None, None) => true,
                    _ => false,
                }
                &&& views_of(p.1@) == pv.1
            }),
            (Err(e), Err(ev)) => e@ == ev,
            _ => false,
        },
{
    let data: Option<Data> = match get_field(o, "data") {
        Err(e) => {
            return Err(e);
        },
        Ok(None) => None,
        Ok(Some(x)) => match x {
            JsonValue::Null => None,
            _ => match decode_data(x) {
                Err(e) => {
                    return Err(e);
                },
                Ok(d) => Some(d),
            },
        },
    };
    let warnings: Vec<String> = match get_field(o, "warnings") {
        Err(e) => {
            return Err(e);
        },
        Ok(None) => Vec::new(),
        Ok(Some(x)) => match x {
            JsonValue::Arr(a) => match decode_string_vec(a, "warnings") {
                Err(e) => {
                    return Err(e);
                },
                Ok(ws) => ws,
            },
            _ => {
                return Err(err_invalid("warnings", x));
            },
        },
    };
    proof {
        assert(views_of(Seq::<String>::empty()) =~= Seq::<Seq<char>>::empty());
    }
    Ok((data, warnings))
}

/// Decode of the top-level envelope.  The explicit `status` tag selects
/// the variant: `success` carries the optional payload and warnings;
/// `error` additionally requires the error type and message.  Any other
/// status is refused naming it.
pub open spec fn spec_decode_envelope(v: JsonValue) -> Result<ApiResultV, DecodeErrorV> {
    match v {
        JsonValue::Obj(o) => match spec_get_field(o@, "status"@) {
            Err(e) => Err(e),
            Ok(None) => Err(DecodeErrorV::MissingField { field: "status"@ }),
            Ok(Some(st)) => match st {
                JsonValue::Str(s) => {
                    if s@ == "success"@ {
                        match spec_decode_payload_fields(o@) {
                            Err(e) => Err(e),
                            Ok(p) => Ok(
                                ApiResultV::ApiOk(ApiOkV { data: p.0, warnings: p.1 }),
                            ),
                        }
                    } else if s@ == "error"@ {
                        match spec_get_field(o@, "errorType"@) {
                            Err(e) => Err(e),
                            Ok(None) => Err(DecodeErrorV::MissingField { field: "errorType"@ }),
                            Ok(Some(tx)) => match spec_decode_string(tx, "errorType"@) {
                                Err(e) => Err(e),
                                Ok(et) => match spec_get_field(o@, "error"@) {
                                    Err(e) => Err(e),
                                    Ok(None) => Err(
                                        DecodeErrorV::MissingField { field: "error"@ },
                                    ),
                                    Ok(Some(mx)) => match spec_decode_string(mx, "error"@) {
                                        Err(e) => Err(e),
                                        Ok(em) => match spec_decode_payload_fields(o@) {
                                            Err(e) => Err(e),
                                            Ok(p) => Ok(
                                                ApiResultV::ApiErr(
                                                    ApiErrV {
                                                        error_type: et,
                                                        error_message: em,
                                                        data: p.0,
                                                        warnings: p.1,
                                                    },
                                                ),
                                            ),
                                        },
                                    },
                                },
                            },
                        }
                    } else {
                        Err(DecodeErrorV::InvalidValue { field: "status"@, value: st@ })
                    }
                },
                _ => Err(DecodeErrorV::InvalidValue { field: "status"@, value: st@ }),
            },
        },
        _ => Err(DecodeErrorV::InvalidValue { field: "status"@, value: v@ }),
    }
}

/// Reads a response envelope from an already-parsed wire value.
pub fn decode_envelope(v: &JsonValue) -> (r: Result<ApiResult, DecodeError>)
    ensures
        match (r, spec_decode_envelope(*v)) {
            (Ok(x), Ok(xv)) => x@ == xv,
            (Err(e), Err(ev)) => e@ == ev,
            _ => false,
        },
{
    match v {
        JsonValue::Obj(o) => {
            let st = match get_field(o, "status") {
                Err(e) => {
                    return Err(e);
                },
                Ok(None) => {
                    return Err(err_missing("status"));
                },
                Ok(Some(x)) => x,
            };
            let s = match st {
                JsonValue::Str(s) => s,
                _ => {
                    return Err(err_invalid("status", st));
                },
            };
            if str_eq(s.as_str(), "success") {
                match decode_payload_fields(o) {
                    Err(e) => Err(e),
                    Ok((data, warnings)) => Ok(ApiResult::ApiOk(ApiOk { data, warnings })),
                }
            } else if str_eq(s.as_str(), "error") {
                let et = match get_field(o, "errorType") {
                    Err(e) => {
                        return Err(e);
                    },
                    Ok(None) => {
                        return Err(err_missing("errorType"));
                    },
                    Ok(Some(x)) => match decode_string(x, "errorType") {
                        Err(e) => {
                            return Err(e);
                        },
                        Ok(s2) => s2,
                    },
                };
                let em = match get_field(o, "error") {
                    Err(e) => {
                        return Err(e);
                    },
                    Ok(None) => {
                        return Err(err_missing("error"));
                    },
                    Ok(Some(x)) => match decode_string(x, "error") {
                        Err(e) => {
                            return Err(e);
                        },
                        Ok(s2) => s2,
                    },
                };
                match decode_payload_fields(o) {
                    Err(e) => Err(e),
                    Ok((data, warnings)) => Ok(
                        ApiResult::ApiErr(
                            ApiErr { error_type: et, error_message: em, data, warnings },
                        ),
                    ),
                }
            } else {
                Err(err_invalid("status", st))
            }
        },
        _ => Err(err_invalid("status", v)),
    }
}

/// Reads a response envelope from response text.  The text is read as
/// JSON — [`crate::parse::spec_parse_json`] names the value the text
/// denotes — and the envelope decoder runs on that value: a syntax
/// refusal comes exactly when the grammar refuses the text, and
/// otherwise the result is exactly the envelope decode of a value with
/// the denoted shape.
pub fn decode_envelope_str(s: &str) -> (r: Result<ApiResult, crate::errors::EnvelopeError>)
    ensures
        match r {
            Ok(x) => crate::parse::spec_parse_json(s@) matches Some(jv) && (exists|v: JsonValue|
                v@ == jv && crate::json::wf_json(v) && #[trigger] spec_decode_envelope(v) == Ok::<
                    ApiResultV,
                    DecodeErrorV,
                >(x@)),
            Err(crate::errors::EnvelopeError::Syntax(_)) => crate::parse::spec_parse_json(s@)
                is None,
            Err(crate::errors::EnvelopeError::Shape(e)) => crate::parse::spec_parse_json(s@)
                matches Some(jv) && (exists|v: JsonValue|
                v@ == jv && crate::json::wf_json(v) && #[trigger] spec_decode_envelope(v) == Err::<
                    ApiResultV,
                    DecodeErrorV,
                >(e@)),
        },
{
    match crate::parse::parse_json(s) {
        Err(e) => Err(crate::errors::EnvelopeError::Syntax(e)),
        Ok(v) => match decode_envelope(&v) {
            Err(e) => {
                proof {
                    assert(v@ == crate::parse::spec_parse_json(s@)->Some_0 && crate::json::wf_json(
                        v,
                    ) && spec_decode_envelope(v) == Err::<ApiResultV, DecodeErrorV>(e@));
                }
                Err(crate::errors::EnvelopeError::Shape(e))
            },
            Ok(x) => {
                proof {
                    assert(v@ == crate::parse::spec_parse_json(s@)->Some_0 && crate::json::wf_json(
                        v,
                    ) && spec_decode_envelope(v) == Ok::<ApiResultV, DecodeErrorV>(x@));
                }
                Ok(x)
            },
        },
    }
}


} // verus!
