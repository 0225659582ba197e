//! Laws the codec obeys, stated and proved once for all inputs.

use vstd::prelude::*;

use crate::decode::{
    first_where, lemma_first_where_is, spec_decode_alert_managers, spec_decode_alerts,
    spec_decode_config, spec_decode_data, spec_decode_expression, spec_decode_labels_or_values,
    spec_decode_rules, spec_decode_sample, spec_decode_sample_value, spec_decode_series,
    spec_decode_snapshot, spec_decode_string_map, spec_decode_string_sample, spec_decode_targets,
    spec_str_text, string_json_map_of, val_not_str,
};
use crate::encode::{
    sample_value_text, spec_encode_active_target, spec_encode_sample, spec_encode_string_sample,
};
use crate::errors::DecodeErrorV;
use crate::json::{arr_view, lemma_arr_view, JsonV, JsonValue};
use crate::numbers::is_float_lexeme;
use crate::result_types::{
    ActiveTarget, DataV, Sample, SampleV, SampleValue, SampleValueV, StringSample, StringSampleV,
};
use crate::string_map::{map_of, StringMap};

verus! {

/// The sample wire pairs the encoder itself produces: the value text is
/// one of the three canonical sentinel tokens or floating point text.
/// The decoder also accepts the float parser's other NaN and infinity
/// spellings; those re-encode as the canonical token for the same
/// value, a textual change within floating point equality.
pub open spec fn canonical_sample_wire(v: JsonValue) -> bool {
    match v {
        JsonValue::Arr(a) => {
            if a@.len() == 2 {
                match a@[1] {
                    JsonValue::Str(sv) => sv@ == "Inf"@ || sv@ == "-Inf"@ || sv@ == "NaN"@
                        || is_float_lexeme(sv@),
                    _ => true,
                }
            } else {
                true
            }
        },
        _ => true,
    }
}

/// Round-trip law of the numeric sample codec: a wire pair in the
/// encoder's own canonical form that decodes re-encodes as exactly the
/// value it came from.  A sentinel token comes back as the same
/// sentinel and floating point text comes back character for
/// character, so nothing is lost in either direction.  The one
/// exception the premise names: a non-canonical NaN or infinity
/// spelling, such as `[0, "+Inf"]`, decodes and re-encodes as the
/// canonical token for the same value.
pub proof fn lemma_sample_round_trip(v: JsonValue, s: Sample)
    requires
        spec_decode_sample(v) == Ok::<SampleV, DecodeErrorV>(s@),
        canonical_sample_wire(v),
    ensures
        spec_encode_sample(s) == v@,
{
    match v {
        JsonValue::Arr(a) => {
            lemma_arr_view(a@);
            assert(a@.len() == 2);
            match a@[1] {
                JsonValue::Str(sv) => {
                    assert(spec_decode_sample_value(sv@) == Some(s.value@));
                    assert(sample_value_text(s.value) == sv@) by {
                        if sv@ == "Inf"@ {
                            assert(s.value@ == SampleValueV::PosInfinity);
                        } else if sv@ == "-Inf"@ {
                            assert(s.value@ == SampleValueV::NegInfinity);
                        } else if sv@ == "NaN"@ {
                            assert(s.value@ == SampleValueV::NotANumber);
                        } else {
                            crate::numbers::lemma_float_lexeme_not_keyword(sv@);
                            assert(s.value@ == SampleValueV::Finite(sv@));
                            match s.value {
                                SampleValue::Finite(t) => {
                                    assert(t@ == sv@);
                                },
                                _ => {
                                    assert(false);
                                },
                            }
                        }
                    }
                    match a@[0] {
                        JsonValue::Num(ep) => {
                            assert(s.epoch@ == ep@);
                            assert(arr_view(a@) =~= seq![
                                JsonV::Num(s.epoch@),
                                JsonV::Str(sample_value_text(s.value)),
                            ]);
                        },
                        _ => {
                            assert(false);
                        },
                    }
                },
                _ => {
                    assert(false);
                },
            }
        },
        _ => {
            assert(false);
        },
    }
}

/// Round-trip law of the string sample codec: a wire pair that decodes
/// re-encodes as exactly the value it came from, the value text
/// verbatim.
pub proof fn lemma_string_sample_round_trip(v: JsonValue, s: StringSample)
    requires
        spec_decode_string_sample(v) == Ok::<StringSampleV, DecodeErrorV>(s@),
    ensures
        spec_encode_string_sample(s) == v@,
{
    match v {
        JsonValue::Arr(a) => {
            lemma_arr_view(a@);
            assert(a@.len() == 2);
            match (a@[0], a@[1]) {
                (JsonValue::Num(ep), JsonValue::Str(sv)) => {
                    assert(s.epoch@ == ep@ && s.value@ == sv@);
                    assert(arr_view(a@) =~= seq![JsonV::Num(s.epoch@), JsonV::Str(s.value@)]);
                },
                _ => {
                    assert(false);
                },
            }
        },
        _ => {
            assert(false);
        },
    }
}

/// The flag map is the resolver's last resort: when a payload resolves
/// as flags, every more specific shape had already refused it.  An
/// object such as a flag listing therefore never reaches the flag map
/// by swallowing a shape that would have matched.
pub proof fn lemma_flags_tried_last(v: JsonValue)
    requires
        spec_decode_data(v) matches Ok(DataV::Flags(_)),
    ensures
        spec_decode_expression(v) is Err,
        spec_decode_series(v) is Err,
        spec_decode_labels_or_values(v) is Err,
        spec_decode_targets(v) is Err,
        spec_decode_rules(v) is Err,
        spec_decode_alerts(v) is Err,
        spec_decode_alert_managers(v) is Err,
        spec_decode_config(v) is Err,
        spec_decode_snapshot(v) is Err,
{
}

/// Conversely, the specific shapes win over the flag map: a payload
/// that the configuration or snapshot decoder accepts never resolves to
/// the flag map, although such an object is also a string-to-string
/// map.
pub proof fn lemma_specific_shapes_beat_flags(v: JsonValue)
    requires
        spec_decode_config(v) is Ok || spec_decode_snapshot(v) is Ok,
    ensures
        !(spec_decode_data(v) matches Ok(DataV::Flags(_))),
{
}

/// An absent last error re-encodes as the empty string, not as a
/// null-like omission: the field is present and holds the empty text.
pub proof fn lemma_absent_last_error_encodes_empty(t: ActiveTarget)
    requires
        t.last_error is None,
    ensures
        spec_encode_active_target(t) matches JsonV::Obj(fs) && fs.len() == 6 && fs[3] == (
            "lastError"@,
            JsonV::Str(Seq::<char>::empty()),
        ),
{
}


/// Round-trip law of the string maps: a wire object that carries
/// exactly a map's bindings as string fields, in order, decodes back to
/// exactly that map.  Label sets, annotations and the flag listing all
/// go out and come back unchanged.
pub proof fn lemma_string_map_round_trip(m: StringMap, o: Seq<(String, JsonValue)>)
    requires
        o.len() == m.entry_seq().len(),
        forall|i: int|
            0 <= i < o.len() ==> (#[trigger] o[i]).0@ == m.entry_seq()[i].0@ && o[i].1@
                == JsonV::Str(m.entry_seq()[i].1@),
    ensures
        spec_decode_string_map(o) == Ok::<Map<Seq<char>, Seq<char>>, DecodeErrorV>(m@),
{
    lemma_decode_string_entries(o, m.entry_seq());
}

proof fn lemma_decode_string_entries(o: Seq<(String, JsonValue)>, es: Seq<(String, String)>)
    requires
        o.len() == es.len(),
        forall|i: int|
            0 <= i < o.len() ==> (#[trigger] o[i]).0@ == es[i].0@ && o[i].1@ == JsonV::Str(
                es[i].1@,
            ),
    ensures
        spec_decode_string_map(o) == Ok::<Map<Seq<char>, Seq<char>>, DecodeErrorV>(map_of(es)),
    decreases o.len(),
{
    assert forall|i: int| 0 <= i < o.len() implies !(val_not_str()(#[trigger] o[i])) by {
        lemma_value_with_str_view_is_str(o[i].1, es[i].1@);
    }
    lemma_first_where_is(o, val_not_str(), o.len() as int);
    lemma_string_entries_map(o, es);
}

proof fn lemma_string_entries_map(o: Seq<(String, JsonValue)>, es: Seq<(String, String)>)
    requires
        o.len() == es.len(),
        forall|i: int|
            0 <= i < o.len() ==> (#[trigger] o[i]).0@ == es[i].0@ && o[i].1@ == JsonV::Str(
                es[i].1@,
            ),
    ensures
        string_json_map_of(o) == map_of(es),
    decreases o.len(),
{
    if o.len() > 0 {
        assert(forall|i: int|
            0 <= i < o.drop_last().len() ==> #[trigger] o.drop_last()[i] == o[i]);
        assert(forall|i: int|
            0 <= i < es.drop_last().len() ==> #[trigger] es.drop_last()[i] == es[i]);
        lemma_string_entries_map(o.drop_last(), es.drop_last());
        lemma_value_with_str_view_is_str(o.last().1, es.last().1@);
        assert(spec_str_text(o.last().1) == es.last().1@);
        assert(string_json_map_of(o) =~= map_of(es));
    }
}

proof fn lemma_value_with_str_view_is_str(x: JsonValue, t: Seq<char>)
    requires
        x@ == JsonV::Str(t),
    ensures
        x is Str,
        spec_str_text(x) == t,
{
    match x {
        JsonValue::Null => {
            assert(false);
        },
        JsonValue::Bool(_) => {
            assert(false);
        },
        JsonValue::Num(_) => {
            assert(false);
        },
        JsonValue::Str(_) => {},
        JsonValue::Arr(_) => {
            assert(false);
        },
        JsonValue::Obj(_) => {
            assert(false);
        },
    }
}


} // verus!
