use proq::decode::{
    decode_alert_manager, decode_data, decode_envelope, decode_envelope_str, decode_rules,
    decode_sample, decode_targets,
};
use proq::encode::{encode_active_target, encode_envelope_string, encode_sample, i64_to_string};
use proq::errors::{DecodeError, EnvelopeError};
use proq::json::JsonValue;
use proq::parse::parse_json;
use proq::result_types::{
    ApiErr, ApiOk, ApiResult, Data, Expression, Sample, SampleValue, TargetHealth,
};
use proq::string_map::StringMap;

fn parsed(s: &str) -> JsonValue {
    parse_json(s).unwrap()
}

#[test]
fn sample_round_trips_exactly() {
    let wire = parsed(r#"[1435781451.781, "3.14"]"#);
    let s = decode_sample(&wire).unwrap();
    assert_eq!(s.epoch, "1435781451.781");
    assert_eq!(s.value, SampleValue::Finite("3.14".to_string()));
    let back = encode_sample(&s);
    assert_eq!(back, wire);
}

#[test]
fn sentinel_samples_round_trip_as_the_same_sentinel() {
    for token in ["Inf", "-Inf", "NaN"] {
        let wire = parsed(&format!(r#"[1435781451.781, "{}"]"#, token));
        let s = decode_sample(&wire).unwrap();
        let back = encode_sample(&s);
        assert_eq!(back, wire);
    }
}

#[test]
fn sample_sentinels_decode_to_the_matching_values() {
    let inf = decode_sample(&parsed(r#"[1435781451.781, "Inf"]"#)).unwrap();
    assert_eq!(inf.value, SampleValue::PosInfinity);
    let ninf = decode_sample(&parsed(r#"[1435781451.781, "-Inf"]"#)).unwrap();
    assert_eq!(ninf.value, SampleValue::NegInfinity);
    let nan = decode_sample(&parsed(r#"[1435781451.781, "NaN"]"#)).unwrap();
    assert_eq!(nan.value, SampleValue::NotANumber);
    let err = decode_sample(&parsed(r#"[1435781451.781, "abc"]"#)).unwrap_err();
    assert_eq!(
        err,
        DecodeError::InvalidValue {
            field: "sample value".to_string(),
            value: JsonValue::Str("abc".to_string()),
        }
    );
}

#[test]
fn sample_accepts_signed_and_exponent_texts() {
    assert!(decode_sample(&parsed(r#"[0, "+5"]"#)).is_ok());
    assert!(decode_sample(&parsed(r#"[0, "-0.5"]"#)).is_ok());
    assert!(decode_sample(&parsed(r#"[0, "1e-3"]"#)).is_ok());
    assert!(decode_sample(&parsed(r#"[0, ".5"]"#)).is_ok());
    assert!(decode_sample(&parsed(r#"[0, "3."]"#)).is_ok());
    assert!(decode_sample(&parsed(r#"[0, ""]"#)).is_err());
    assert!(decode_sample(&parsed(r#"[0, "."]"#)).is_err());
    assert!(decode_sample(&parsed(r#"[0, "1e"]"#)).is_err());
}

#[test]
fn float_parser_spellings_decode_to_the_non_finite_markers() {
    for text in ["inf", "+inf", "INF", "Infinity", "+infinity"] {
        let s = decode_sample(&parsed(&format!(r#"[0, "{}"]"#, text))).unwrap();
        assert_eq!(s.value, SampleValue::PosInfinity);
        assert_eq!(encode_sample(&s), parsed(r#"[0, "Inf"]"#));
    }
    for text in ["-inf", "-INF", "-Infinity", "-INFINITY"] {
        let s = decode_sample(&parsed(&format!(r#"[0, "{}"]"#, text))).unwrap();
        assert_eq!(s.value, SampleValue::NegInfinity);
        assert_eq!(encode_sample(&s), parsed(r#"[0, "-Inf"]"#));
    }
    for text in ["nan", "NAN", "+NaN", "-nan"] {
        let s = decode_sample(&parsed(&format!(r#"[0, "{}"]"#, text))).unwrap();
        assert_eq!(s.value, SampleValue::NotANumber);
        assert_eq!(encode_sample(&s), parsed(r#"[0, "NaN"]"#));
    }
    for text in ["in", "infi", "infinit", "infinityy", "+-inf", "n a n", "inf "] {
        assert!(decode_sample(&parsed(&format!(r#"[0, "{}"]"#, text))).is_err());
    }
}

#[test]
fn sample_arity_errors_name_the_missing_position() {
    assert_eq!(
        decode_sample(&parsed("[]")).unwrap_err(),
        DecodeError::MissingField { field: "sample time".to_string() }
    );
    assert_eq!(
        decode_sample(&parsed("[1435781451.781]")).unwrap_err(),
        DecodeError::MissingField { field: "sample value".to_string() }
    );
    assert!(decode_sample(&parsed(r#"[1, "1", "2"]"#)).is_err());
    assert!(decode_sample(&parsed(r#"["1", "1"]"#)).is_err());
}

#[test]
fn flag_like_object_resolves_to_flags_and_nothing_else() {
    let v = parsed(r#"{"alertmanager.timeout": "10s"}"#);
    let d = decode_data(&v).unwrap();
    match d {
        Data::Flags(m) => {
            assert_eq!(m.get("alertmanager.timeout").unwrap().as_str(), "10s");
            assert_eq!(m.len(), 1);
        },
        _ => panic!("a flag listing must resolve to the flag map"),
    }
}

#[test]
fn empty_object_resolves_to_the_empty_flag_map() {
    let d = decode_data(&parsed("{}")).unwrap();
    match d {
        Data::Flags(m) => assert_eq!(m.len(), 0),
        _ => panic!("an empty object must resolve to the empty flag map"),
    }
}

#[test]
fn unresolvable_payload_reports_the_shapes_attempted() {
    let e = decode_data(&parsed("17")).unwrap_err();
    match e {
        DecodeError::NoShapeMatched { attempted } => {
            assert_eq!(attempted.len(), 10);
            assert_eq!(attempted[0], "expression");
            assert_eq!(attempted[9], "flags");
        },
        _ => panic!("the resolver must list the shapes attempted"),
    }
}

#[test]
fn empty_last_error_decodes_absent_and_reencodes_empty() {
    let v = parsed(
        r#"
        {
            "activeTargets": [
                {
                    "discoveredLabels": {"job": "prometheus"},
                    "labels": {"job": "prometheus"},
                    "scrapeUrl": "http://127.0.0.1:9090/metrics",
                    "lastError": "",
                    "lastScrape": "2017-01-17T15:07:44.723715405+01:00",
                    "health": "up"
                }
            ]
        }
        "#,
    );
    let t = decode_targets(&v).unwrap();
    assert_eq!(t.active.len(), 1);
    assert_eq!(t.active[0].last_error, None);
    let back = encode_active_target(&t.active[0]);
    match back {
        JsonValue::Obj(fields) => {
            let last_error = fields.iter().find(|(k, _)| k.as_str() == "lastError").unwrap();
            assert_eq!(last_error.1, JsonValue::Str(String::new()));
        },
        _ => panic!("an active target must encode as an object"),
    }
}

#[test]
fn unknown_health_token_is_lenient_unknown() {
    let v = parsed(
        r#"
        {
            "activeTargets": [
                {
                    "discoveredLabels": {},
                    "labels": {},
                    "scrapeUrl": "http://127.0.0.1:9090/metrics",
                    "lastError": "boom",
                    "lastScrape": "2017-01-17T15:07:44.723715405+01:00",
                    "health": "sideways"
                }
            ]
        }
        "#,
    );
    let t = decode_targets(&v).unwrap();
    assert_eq!(t.active[0].health, TargetHealth::Unknown);
    assert_eq!(t.active[0].last_error, Some("boom".to_string()));
}

#[test]
fn bad_timestamp_is_a_hard_error() {
    let v = parsed(
        r#"
        {
            "activeTargets": [
                {
                    "discoveredLabels": {},
                    "labels": {},
                    "scrapeUrl": "http://127.0.0.1:9090/metrics",
                    "lastError": "",
                    "lastScrape": "yesterday teatime",
                    "health": "up"
                }
            ]
        }
        "#,
    );
    let e = decode_targets(&v).unwrap_err();
    assert!(matches!(e, DecodeError::InvalidValue { ref field, .. } if field == "lastScrape"));
}

#[test]
fn bad_scrape_url_is_a_hard_error() {
    let v = parsed(
        r#"
        {
            "activeTargets": [
                {
                    "discoveredLabels": {},
                    "labels": {},
                    "scrapeUrl": "not a url",
                    "lastError": "",
                    "lastScrape": "2017-01-17T15:07:44.723715405+01:00",
                    "health": "up"
                }
            ]
        }
        "#,
    );
    let e = decode_targets(&v).unwrap_err();
    assert!(matches!(e, DecodeError::InvalidValue { ref field, .. } if field == "scrapeUrl"));
}

#[test]
fn targets_decoder_rejects_unknown_fields() {
    let v = parsed(r#"{"activeTargets": [], "extra": []}"#);
    let e = decode_targets(&v).unwrap_err();
    assert_eq!(e, DecodeError::UnknownField { field: "extra".to_string() });
}

#[test]
fn rule_type_tokens_are_strict() {
    let good = parsed(
        r#"{"groups": [{"rules": [{"health": "ok", "name": "n", "query": "q", "type": "alerting"}],
            "file": "f", "interval": 1, "name": "g"}]}"#,
    );
    let r = decode_rules(&good).unwrap();
    assert_eq!(
        r.groups[0].rules[0].rule_type,
        proq::result_types::RuleType::ALERTING
    );

    let good2 = parsed(
        r#"{"groups": [{"rules": [{"health": "ok", "name": "n", "query": "q", "type": "recording"}],
            "file": "f", "interval": 1, "name": "g"}]}"#,
    );
    let r2 = decode_rules(&good2).unwrap();
    assert_eq!(
        r2.groups[0].rules[0].rule_type,
        proq::result_types::RuleType::RECORDING
    );

    let bad = parsed(
        r#"{"groups": [{"rules": [{"health": "ok", "name": "n", "query": "q", "type": "sometimes"}],
            "file": "f", "interval": 1, "name": "g"}]}"#,
    );
    let e = decode_rules(&bad).unwrap_err();
    assert!(matches!(e, DecodeError::InvalidValue { ref field, .. } if field == "type"));
}

#[test]
fn alert_state_tokens_are_strict() {
    let bad = parsed(r#"{"alerts": [{"state": "resting", "value": "1"}]}"#);
    let e = proq::decode::decode_alerts(&bad).unwrap_err();
    assert!(matches!(e, DecodeError::InvalidValue { ref field, .. } if field == "state"));
}

#[test]
fn interval_must_fit_a_signed_64_bit_integer() {
    let bad = parsed(
        r#"{"groups": [{"rules": [], "file": "f", "interval": 99999999999999999999, "name": "g"}]}"#,
    );
    let e = decode_rules(&bad).unwrap_err();
    assert!(matches!(e, DecodeError::InvalidValue { ref field, .. } if field == "interval"));

    let good = parsed(
        r#"{"groups": [{"rules": [], "file": "f", "interval": -9223372036854775808, "name": "g"}]}"#,
    );
    let r = decode_rules(&good).unwrap();
    assert_eq!(r.groups[0].interval, i64::MIN);
}

#[test]
fn alert_manager_field_name_is_case_insensitive() {
    let v = parsed(r#"{"URL": "http://127.0.0.1:9093/api/v1/alerts"}"#);
    let m = decode_alert_manager(&v).unwrap();
    assert_eq!(m.url, "http://127.0.0.1:9093/api/v1/alerts");
}

#[test]
fn alert_manager_duplicate_url_is_refused() {
    let v = parsed(r#"{"url": "http://127.0.0.1:9093/a", "URL": "http://127.0.0.1:9093/b"}"#);
    let e = decode_alert_manager(&v).unwrap_err();
    assert_eq!(e, DecodeError::DuplicateField { field: "url".to_string() });
}

#[test]
fn alert_manager_unknown_field_is_refused() {
    let v = parsed(r#"{"url": "http://127.0.0.1:9093/a", "extra": 1}"#);
    let e = decode_alert_manager(&v).unwrap_err();
    assert_eq!(e, DecodeError::UnknownField { field: "extra".to_string() });
}

#[test]
fn alert_manager_missing_url_is_refused() {
    let e = decode_alert_manager(&parsed("{}")).unwrap_err();
    assert_eq!(e, DecodeError::MissingField { field: "url".to_string() });
}

#[test]
fn envelope_requires_a_recognized_status() {
    let e = decode_envelope(&parsed(r#"{"status": "maybe"}"#)).unwrap_err();
    assert!(matches!(e, DecodeError::InvalidValue { ref field, .. } if field == "status"));

    let e2 = decode_envelope(&parsed(r#"{"data": {}}"#)).unwrap_err();
    assert_eq!(e2, DecodeError::MissingField { field: "status".to_string() });

    let e3 = decode_envelope(&parsed(r#"{"status": "error"}"#)).unwrap_err();
    assert_eq!(e3, DecodeError::MissingField { field: "errorType".to_string() });
}

#[test]
fn envelope_refuses_a_duplicate_status() {
    let e = decode_envelope(&parsed(r#"{"status": "success", "status": "success"}"#)).unwrap_err();
    assert_eq!(e, DecodeError::DuplicateField { field: "status".to_string() });
}

#[test]
fn envelope_with_null_data_has_no_payload() {
    let r = decode_envelope_str(r#"{"status": "success", "data": null}"#).unwrap();
    assert_eq!(r, ApiResult::ApiOk(ApiOk { data: None, warnings: Vec::new() }));
}

#[test]
fn text_that_is_not_json_is_a_syntax_error() {
    assert!(matches!(
        decode_envelope_str("status: success").unwrap_err(),
        EnvelopeError::Syntax(_)
    ));
    assert!(matches!(
        decode_envelope_str(r#"{"status": "success"} trailing"#).unwrap_err(),
        EnvelopeError::Syntax(_)
    ));
    assert!(matches!(
        decode_envelope_str(r#"{"n": 01}"#).unwrap_err(),
        EnvelopeError::Syntax(_)
    ));
}

#[test]
fn string_escapes_parse() {
    let v = parsed(r#""a\nb\t\"\\A""#);
    assert_eq!(v, JsonValue::Str("a\nb\t\"\\A".to_string()));
}

#[test]
fn vector_envelope_end_to_end() {
    let j = r#"{"status":"success","data":{"resultType":"vector","result":[{"metric":{"job":"p"},"value":[1.0,"1"]}]}}"#;
    let r = decode_envelope_str(j).unwrap();
    match r {
        ApiResult::ApiOk(ok) => match ok.data.unwrap() {
            Data::Expression(Expression::InstantVector(v)) => {
                assert_eq!(v.len(), 1);
                assert_eq!(v[0].metric.labels.get("job").unwrap().as_str(), "p");
                assert_eq!(
                    v[0].sample,
                    Sample { epoch: "1.0".to_string(), value: SampleValue::Finite("1".to_string()) }
                );
            },
            _ => panic!("the payload must be an instant vector"),
        },
        _ => panic!("the envelope must be a success"),
    }
}

#[test]
fn error_envelope_with_payload_round_trips_through_text() {
    let j = r#"{"status":"error","errorType":"Weird","error":"strange","data":{"resultType":"scalar","result":[7,"NaN"]},"warnings":["w"]}"#;
    let r = decode_envelope_str(j).unwrap();
    let expected = ApiResult::ApiErr(ApiErr {
        error_type: "Weird".to_string(),
        error_message: "strange".to_string(),
        data: Some(Data::Expression(Expression::Scalar(Sample {
            epoch: "7".to_string(),
            value: SampleValue::NotANumber,
        }))),
        warnings: vec!["w".to_string()],
    });
    assert_eq!(r, expected);
    let s = encode_envelope_string(&r);
    let back = decode_envelope_str(&s).unwrap();
    assert_eq!(back, expected);
}

#[test]
fn decimal_text_of_integers() {
    assert_eq!(i64_to_string(0), "0");
    assert_eq!(i64_to_string(15), "15");
    assert_eq!(i64_to_string(-15), "-15");
    assert_eq!(i64_to_string(i64::MAX), "9223372036854775807");
    assert_eq!(i64_to_string(i64::MIN), "-9223372036854775808");
}

#[test]
fn string_map_keeps_the_last_binding() {
    let mut m = StringMap::new();
    m.insert("a".to_string(), "1".to_string());
    m.insert("b".to_string(), "2".to_string());
    m.insert("a".to_string(), "3".to_string());
    assert_eq!(m.len(), 2);
    assert_eq!(m.get("a").unwrap().as_str(), "3");
    assert_eq!(m.get("b").unwrap().as_str(), "2");
    assert_eq!(m.get("c"), None);
}

#[test]
fn warnings_must_be_an_array_of_strings() {
    let e = decode_envelope(&parsed(r#"{"status": "success", "warnings": "oops"}"#)).unwrap_err();
    assert!(matches!(e, DecodeError::InvalidValue { ref field, .. } if field == "warnings"));
    let e2 = decode_envelope(&parsed(r#"{"status": "success", "warnings": [1]}"#)).unwrap_err();
    assert!(matches!(e2, DecodeError::InvalidValue { ref field, .. } if field == "warnings"));
}

#[test]
fn every_payload_shape_round_trips_through_text() {
    let bodies = [
        r#"{"status":"success","data":{"resultType":"scalar","result":[1435781451.781,"3.14"]}}"#,
        r#"{"status":"success","data":{"resultType":"string","result":[1435781451.781,"foo"]}}"#,
        r#"{"status":"success","data":{"resultType":"vector","result":[{"metric":{"job":"p"},"value":[1.0,"1"]}]}}"#,
        r#"{"status":"success","data":{"resultType":"matrix","result":[{"metric":{"job":"p"},"values":[[1.0,"1"],[2.0,"Inf"]]}]}}"#,
        r#"{"status":"success","data":[{"job":"p"},{"job":"q"}]}"#,
        r#"{"status":"success","data":["up","down"]}"#,
        r#"{"status":"success","data":{"activeTargets":[{"discoveredLabels":{"job":"p"},"labels":{},"scrapeUrl":"http://127.0.0.1:9090/metrics","lastError":"","lastScrape":"2017-01-17T15:07:44.723715405+01:00","health":"up"}],"droppedTargets":[{"discoveredLabels":{"job":"q"}}]}}"#,
        r#"{"status":"success","data":{"groups":[{"rules":[{"health":"ok","name":"n","query":"q","type":"recording"}],"file":"f","interval":60,"name":"g"}]}}"#,
        r#"{"status":"success","data":{"alerts":[{"activeAt":"now","labels":{"a":"b"},"state":"pending","value":"1"}]}}"#,
        r#"{"status":"success","data":{"activeAlertmanagers":[{"url":"http://127.0.0.1:9093/api/v1/alerts"}],"droppedAlertmanagers":[]}}"#,
        r#"{"status":"success","data":{"yaml":"global: {}"}}"#,
        r#"{"status":"success","data":{"name":"20171210T211224Z-2be650b6d019eb54"}}"#,
        r#"{"status":"success","data":{"log.level":"info","query.timeout":"2m"}}"#,
        r#"{"status":"error","errorType":"bad","error":"worse","data":null,"warnings":["w1","w2"]}"#,
    ];
    for body in bodies {
        let first = decode_envelope_str(body).unwrap();
        let text = encode_envelope_string(&first);
        let second = decode_envelope_str(&text).unwrap();
        assert_eq!(first, second);
    }
}

#[test]
fn surrogate_pair_escapes_decode_to_one_astral_character() {
    let v = parsed(r#""\uD83D\uDE00""#);
    assert_eq!(v, JsonValue::Str("\u{1F600}".to_string()));
    assert!(parse_json(r#""\uD83D""#).is_err());
    assert!(parse_json(r#""\uDE00""#).is_err());
    assert!(parse_json(r#""\uDE00\uD83D""#).is_err());
    assert!(parse_json(r#""\uD83Dx""#).is_err());
}

#[test]
fn control_characters_are_escaped_on_output() {
    let v = JsonValue::Str("\u{0008}\u{000C}\u{0001}\u{001F}".to_string());
    let text = proq::encode::json_to_string(&v);
    assert_eq!(text, "\"\\b\\f\\u0001\\u001f\"");
    let back = parse_json(&text).unwrap();
    assert_eq!(back, v);
}

#[test]
fn envelope_with_control_characters_round_trips_through_text() {
    let value = ApiResult::ApiOk(ApiOk {
        data: Some(Data::Expression(Expression::StringResult(
            proq::result_types::StringSample {
                epoch: "1".to_string(),
                value: "a\u{0000}b\u{000B}c".to_string(),
            },
        ))),
        warnings: Vec::new(),
    });
    let text = encode_envelope_string(&value);
    let back = decode_envelope_str(&text).unwrap();
    assert_eq!(back, value);
}
