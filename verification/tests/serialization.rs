use proq::result_types::{
    ActiveTarget, Alert, AlertManager, AlertManagers, AlertState, ApiErr, ApiOk, ApiResult,
    Config, Data, DroppedTarget, Expression, Instant, LabelsOrValues, Metric, Range, Rule,
    RuleGroups, RuleType, Rules, Sample, SampleValue, Series, Snapshot, StringSample,
    TargetHealth, Targets,
};
use proq::decode::decode_envelope_str;
use proq::encode::encode_envelope_string;
use proq::string_map::StringMap;

fn sm(pairs: &[(&str, &str)]) -> StringMap {
    let mut m = StringMap::new();
    for (k, v) in pairs {
        m.insert((*k).to_string(), (*v).to_string());
    }
    m
}

fn metric(pairs: &[(&str, &str)]) -> Metric {
    Metric { labels: sm(pairs) }
}

fn finite(epoch: &str, value: &str) -> Sample {
    Sample { epoch: epoch.to_string(), value: SampleValue::Finite(value.to_string()) }
}

#[test]
fn should_deserialize_json_error() {
    let j = r#"
        {
            "status": "error",
            "error": "Major",
            "errorType": "Seriously Bad"
        }
        "#;

    let res = decode_envelope_str(j).unwrap();
    assert_eq!(
        ApiResult::ApiErr(ApiErr {
            error_message: "Major".to_string(),
            error_type: "Seriously Bad".to_string(),
            data: None,
            warnings: Vec::new(),
        }),
        res
    );
}

#[test]
fn should_deserialize_json_error_with_instant_and_warnings() {
    let expected_json = r#"
        {
            "status": "error",
            "error": "This is a strange error",
            "errorType": "Weird",
            "warnings": [
                "You timed out, foo"
            ],
            "data" : {
                "resultType" : "vector",
                "result" : [
                    {
                        "metric" : {
                            "__name__" : "up",
                            "job" : "prometheus",
                            "instance" : "localhost:9090"
                        },
                        "value": [ 1435781451.781, "1" ]
                    },
                    {
                        "metric" : {
                            "__name__" : "up",
                            "job" : "node",
                            "instance" : "localhost:9100"
                        },
                        "value" : [ 1435781451.781, "0" ]
                    }
                ]
            }
        }
        "#;
    let expected = decode_envelope_str(expected_json).unwrap();

    let metric_1 = metric(&[
        ("__name__", "up"),
        ("job", "prometheus"),
        ("instance", "localhost:9090"),
    ]);
    let metric_2 = metric(&[
        ("__name__", "up"),
        ("job", "node"),
        ("instance", "localhost:9100"),
    ]);

    let actual = ApiResult::ApiErr(ApiErr {
        error_type: "Weird".to_owned(),
        error_message: "This is a strange error".to_owned(),
        data: Some(Data::Expression(Expression::InstantVector(vec![
            Instant {
                metric: metric_1,
                sample: finite("1435781451.781", "1"),
            },
            Instant {
                metric: metric_2,
                sample: finite("1435781451.781", "0"),
            },
        ]))),
        warnings: vec!["You timed out, foo".to_owned()],
    });
    assert_eq!(actual, expected);
}

#[test]
fn should_deserialize_json_prom_scalar() {
    let j = r#"
        {
            "status": "success",
            "data": {
                "resultType": "scalar",
                "result": [1435781451.781, "1"]
            }
        }
        "#;

    let res = decode_envelope_str(j).unwrap();
    assert_eq!(
        ApiResult::ApiOk(ApiOk {
            data: Some(Data::Expression(Expression::Scalar(finite(
                "1435781451.781",
                "1"
            )))),
            warnings: Vec::new(),
        }),
        res
    );
}

#[test]
fn should_deserialize_json_prom_scalar_with_warnings() {
    let j = r#"
        {
            "warnings": ["You timed out, foo"],
            "status": "success",
            "data": {
                "resultType": "scalar",
                "result": [1435781451.781, "1"]
            }
        }
        "#;

    let res = decode_envelope_str(j).unwrap();
    assert_eq!(
        ApiResult::ApiOk(ApiOk {
            data: Some(Data::Expression(Expression::Scalar(finite(
                "1435781451.781",
                "1"
            )))),
            warnings: vec!["You timed out, foo".to_owned()],
        }),
        res
    );
}

#[test]
fn should_deserialize_json_prom_string() {
    let j = r#"
        {
            "status": "success",
            "data": {
                "resultType": "string",
                "result": [1435781451.781, "foo"]
            }
        }
        "#;

    let res = decode_envelope_str(j).unwrap();
    assert_eq!(
        ApiResult::ApiOk(ApiOk {
            data: Some(Data::Expression(Expression::StringResult(StringSample {
                epoch: "1435781451.781".to_string(),
                value: "foo".to_owned(),
            }))),
            warnings: Vec::new(),
        }),
        res
    );
}

#[test]
fn should_deserialize_json_prom_vector() {
    let j = r#"
        {
            "status" : "success",
            "data" : {
                "resultType" : "vector",
                "result" : [
                    {
                        "metric" : {
                            "__name__" : "up",
                            "job" : "prometheus",
                            "instance" : "localhost:9090"
                        },
                        "value": [ 1435781451.781, "1" ]
                    },
                    {
                        "metric" : {
                            "__name__" : "up",
                            "job" : "node",
                            "instance" : "localhost:9100"
                        },
                        "value" : [ 1435781451.781, "0" ]
                    }
                ]
            }
        }
        "#;

    let metric_1 = metric(&[
        ("__name__", "up"),
        ("job", "prometheus"),
        ("instance", "localhost:9090"),
    ]);
    let metric_2 = metric(&[
        ("__name__", "up"),
        ("job", "node"),
        ("instance", "localhost:9100"),
    ]);

    let res = decode_envelope_str(j).unwrap();
    assert_eq!(
        ApiResult::ApiOk(ApiOk {
            data: Some(Data::Expression(Expression::InstantVector(vec![
                Instant {
                    metric: metric_1,
                    sample: finite("1435781451.781", "1"),
                },
                Instant {
                    metric: metric_2,
                    sample: finite("1435781451.781", "0"),
                },
            ]))),
            warnings: Vec::new(),
        }),
        res
    );
}

#[test]
fn should_deserialize_json_prom_matrix() {
    let j = r#"
        {
            "status" : "success",
            "data" : {
                "resultType" : "matrix",
                "result" : [
                    {
                        "metric" : {
                            "__name__" : "up",
                            "job" : "prometheus",
                            "instance" : "localhost:9090"
                        },
                        "values" : [
                           [ 1435781430.781, "1" ],
                           [ 1435781445.781, "1" ],
                           [ 1435781460.781, "1" ]
                        ]
                    },
                    {
                        "metric" : {
                            "__name__" : "up",
                            "job" : "node",
                            "instance" : "localhost:9091"
                        },
                        "values" : [
                           [ 1435781430.781, "0" ],
                           [ 1435781445.781, "0" ],
                           [ 1435781460.781, "1" ]
                        ]
                    }
                ]
            }
        }
        "#;

    let metric_1 = metric(&[
        ("__name__", "up"),
        ("job", "prometheus"),
        ("instance", "localhost:9090"),
    ]);
    let metric_2 = metric(&[
        ("__name__", "up"),
        ("job", "node"),
        ("instance", "localhost:9091"),
    ]);

    let res = decode_envelope_str(j).unwrap();
    assert_eq!(
        ApiResult::ApiOk(ApiOk {
            data: Some(Data::Expression(Expression::RangeMatrix(vec![
                Range {
                    metric: metric_1,
                    samples: vec![
                        finite("1435781430.781", "1"),
                        finite("1435781445.781", "1"),
                        finite("1435781460.781", "1"),
                    ],
                },
                Range {
                    metric: metric_2,
                    samples: vec![
                        finite("1435781430.781", "0"),
                        finite("1435781445.781", "0"),
                        finite("1435781460.781", "1"),
                    ],
                },
            ]))),
            warnings: Vec::new(),
        }),
        res
    );
}

#[test]
fn should_deserialize_json_prom_labels() {
    let j = r#"
        {
            "status" : "success",
            "data" :[
                "__name__",
                "call",
                "code",
                "config",
                "dialer_name",
                "endpoint",
                "event",
                "goversion",
                "handler",
                "instance",
                "interval",
                "job",
                "le",
                "listener_name",
                "name",
                "quantile",
                "reason",
                "role",
                "scrape_job",
                "slice",
                "version"
            ]
        }
        "#;

    let res = decode_envelope_str(j).unwrap();
    assert_eq!(
        ApiResult::ApiOk(ApiOk {
            data: Some(Data::LabelsOrValues(LabelsOrValues(vec![
                "__name__".to_owned(),
                "call".to_owned(),
                "code".to_owned(),
                "config".to_owned(),
                "dialer_name".to_owned(),
                "endpoint".to_owned(),
                "event".to_owned(),
                "goversion".to_owned(),
                "handler".to_owned(),
                "instance".to_owned(),
                "interval".to_owned(),
                "job".to_owned(),
                "le".to_owned(),
                "listener_name".to_owned(),
                "name".to_owned(),
                "quantile".to_owned(),
                "reason".to_owned(),
                "role".to_owned(),
                "scrape_job".to_owned(),
                "slice".to_owned(),
                "version".to_owned(),
            ]))),
            warnings: Vec::new(),
        }),
        res
    );
}

#[test]
fn should_deserialize_json_prom_label_values() {
    let j = r#"
        {
            "status" : "success",
            "data" :[
                "node",
                "prometheus"
            ]
        }
        "#;

    let res = decode_envelope_str(j).unwrap();
    assert_eq!(
        ApiResult::ApiOk(ApiOk {
            data: Some(Data::LabelsOrValues(LabelsOrValues(vec![
                "node".to_owned(),
                "prometheus".to_owned(),
            ]))),
            warnings: Vec::new(),
        }),
        res
    );
}

#[test]
fn should_deserialize_json_prom_series() {
    let j = r#"
        {
            "status" : "success",
            "data" : [
                {
                    "__name__" : "up",
                    "job" : "prometheus",
                    "instance" : "localhost:9090"
                },
                {
                    "__name__" : "up",
                    "job" : "node",
                    "instance" : "localhost:9091"
                },
                {
                    "__name__" : "process_start_time_seconds",
                    "job" : "prometheus",
                    "instance" : "localhost:9090"
                }
            ]
        }
        "#;

    let metric_1 = metric(&[
        ("__name__", "up"),
        ("job", "prometheus"),
        ("instance", "localhost:9090"),
    ]);
    let metric_2 = metric(&[
        ("__name__", "up"),
        ("job", "node"),
        ("instance", "localhost:9091"),
    ]);
    let metric_3 = metric(&[
        ("__name__", "process_start_time_seconds"),
        ("job", "prometheus"),
        ("instance", "localhost:9090"),
    ]);

    let res = decode_envelope_str(j).unwrap();
    assert_eq!(
        ApiResult::ApiOk(ApiOk {
            data: Some(Data::Series(Series(vec![metric_1, metric_2, metric_3]))),
            warnings: Vec::new(),
        }),
        res
    );
}

#[test]
fn should_deserialize_json_prom_targets() {
    let j = r#"
        {
            "status": "success",
            "data": {
                "activeTargets": [
                    {
                        "discoveredLabels": {
                            "__address__": "127.0.0.1:9090",
                            "__metrics_path__": "/metrics",
                            "__scheme__": "http",
                            "job": "prometheus"
                        },
                        "labels": {
                            "instance": "127.0.0.1:9090",
                            "job": "prometheus"
                        },
                        "scrapeUrl": "http://127.0.0.1:9090/metrics",
                        "lastError": "",
                        "lastScrape": "2017-01-17T15:07:44.723715405+01:00",
                        "health": "up"
                    }
                ],
                "droppedTargets": [
                    {
                        "discoveredLabels": {
                            "__address__": "127.0.0.1:9100",
                            "__metrics_path__": "/metrics",
                            "__scheme__": "http",
                            "job": "node"
                        }
                    }
                ]
            }
        }
        "#;

    let active_discovered_labels = sm(&[
        ("__address__", "127.0.0.1:9090"),
        ("__metrics_path__", "/metrics"),
        ("__scheme__", "http"),
        ("job", "prometheus"),
    ]);
    let active_labels = sm(&[("instance", "127.0.0.1:9090"), ("job", "prometheus")]);
    let dropped_discovered_labels = sm(&[
        ("__address__", "127.0.0.1:9100"),
        ("__metrics_path__", "/metrics"),
        ("__scheme__", "http"),
        ("job", "node"),
    ]);

    let res = decode_envelope_str(j).unwrap();
    assert_eq!(
        res,
        ApiResult::ApiOk(ApiOk {
            data: Some(Data::Targets(Targets {
                active: vec![ActiveTarget {
                    discovered_labels: active_discovered_labels,
                    labels: active_labels,
                    scrape_url: "http://127.0.0.1:9090/metrics".to_string(),
                    last_error: None,
                    last_scrape: "2017-01-17T15:07:44.723715405+01:00".to_string(),
                    health: TargetHealth::Up,
                },],
                dropped: vec![DroppedTarget {
                    discovered_labels: dropped_discovered_labels
                },],
            })),
            warnings: Vec::new(),
        })
    );
}

#[test]
fn should_deserialize_json_prom_alert_managers() {
    let j = r#"
        {
            "status": "success",
            "data": {
                "activeAlertmanagers": [
                    {
                        "url": "http://127.0.0.1:9090/api/v1/alerts"
                    }
                ],
                "droppedAlertmanagers": [
                    {
                        "url": "http://127.0.0.1:9093/api/v1/alerts"
                    }
                ]
            }
        }
        "#;

    let res = decode_envelope_str(j).unwrap();
    assert_eq!(
        ApiResult::ApiOk(ApiOk {
            data: Some(Data::AlertManagers(AlertManagers {
                active: vec![AlertManager {
                    url: "http://127.0.0.1:9090/api/v1/alerts".to_string(),
                },],
                dropped: vec![AlertManager {
                    url: "http://127.0.0.1:9093/api/v1/alerts".to_string(),
                },],
            })),
            warnings: Vec::new(),
        }),
        res
    );
}

#[test]
fn should_deserialize_json_prom_flags() {
    let j = r#"
        {
            "status": "success",
            "data": {
                "alertmanager.notification-queue-capacity": "10000",
                "alertmanager.timeout": "10s",
                "log.level": "info",
                "query.lookback-delta": "5m",
                "query.max-concurrency": "20"
            }
        }
        "#;

    let flags = sm(&[
        ("alertmanager.notification-queue-capacity", "10000"),
        ("alertmanager.timeout", "10s"),
        ("log.level", "info"),
        ("query.lookback-delta", "5m"),
        ("query.max-concurrency", "20"),
    ]);

    let res = decode_envelope_str(j).unwrap();
    assert_eq!(
        ApiResult::ApiOk(ApiOk {
            data: Some(Data::Flags(flags)),
            warnings: Vec::new(),
        }),
        res
    );
}

#[test]
fn should_deserialize_json_prom_snapshot() {
    let j = r#"
        {
            "status": "success",
            "data": {
                "name": "20171210T211224Z-2be650b6d019eb54"
            }
        }
        "#;

    let res = decode_envelope_str(j).unwrap();
    assert_eq!(
        ApiResult::ApiOk(ApiOk {
            data: Some(Data::Snapshot(Snapshot {
                name: "20171210T211224Z-2be650b6d019eb54".to_owned()
            })),
            warnings: Vec::new(),
        }),
        res
    );
}

#[test]
fn should_serialize_rust_prom_snapshot() {
    let value = ApiResult::ApiOk(ApiOk {
        data: Some(Data::Snapshot(Snapshot {
            name: "20171210T211224Z-2be650b6d019eb54".to_owned(),
        })),
        warnings: Vec::new(),
    });
    let s = encode_envelope_string(&value);
    assert_eq!(
        s,
        "{\"status\":\"success\",\"data\":{\"name\":\"20171210T211224Z-2be650b6d019eb54\"},\"warnings\":[]}"
    );
    let back = decode_envelope_str(&s).unwrap();
    assert_eq!(back, value);
}

#[test]
fn should_deserialize_json_prom_config() {
    let j = r#"
        {
            "status": "success",
            "data": {
                "yaml": "CONTENT"
            }
        }
        "#;

    let res = decode_envelope_str(j).unwrap();
    assert_eq!(
        ApiResult::ApiOk(ApiOk {
            data: Some(Data::Config(Config {
                yaml: "CONTENT".to_owned()
            })),
            warnings: Vec::new(),
        }),
        res
    );
}

#[test]
fn should_serialize_rust_prom_config() {
    let value = ApiResult::ApiOk(ApiOk {
        data: Some(Data::Config(Config {
            yaml: "CONTENT".to_owned(),
        })),
        warnings: Vec::new(),
    });
    let s = encode_envelope_string(&value);
    assert_eq!(
        s,
        "{\"status\":\"success\",\"data\":{\"yaml\":\"CONTENT\"},\"warnings\":[]}"
    );
    let back = decode_envelope_str(&s).unwrap();
    assert_eq!(back, value);
}

#[test]
fn rules_payload_decodes_with_both_rule_kinds() {
    let j = r#"
        {
            "status": "success",
            "data": {
                "groups": [
                    {
                        "rules": [
                            {
                                "alerts": [],
                                "annotations": {"summary": "High request latency"},
                                "duration": 600,
                                "labels": {"severity": "page"},
                                "health": "ok",
                                "name": "HighRequestLatency",
                                "query": "job:request_latency_seconds:mean5m{job=\"myjob\"} > 0.5",
                                "type": "alerting"
                            },
                            {
                                "health": "ok",
                                "name": "job:http_inprogress_requests:sum",
                                "query": "sum(http_inprogress_requests) by (job)",
                                "type": "recording"
                            }
                        ],
                        "file": "/rules.yaml",
                        "interval": 60,
                        "name": "example"
                    }
                ]
            }
        }
        "#;

    let res = decode_envelope_str(j).unwrap();
    let expected = ApiResult::ApiOk(ApiOk {
        data: Some(Data::Rules(Rules {
            groups: vec![RuleGroups {
                rules: vec![
                    Rule {
                        alerts: Some(Vec::new()),
                        annotations: Some(sm(&[("summary", "High request latency")])),
                        duration: Some(600),
                        labels: Some(sm(&[("severity", "page")])),
                        health: "ok".to_string(),
                        name: "HighRequestLatency".to_string(),
                        query: "job:request_latency_seconds:mean5m{job=\"myjob\"} > 0.5"
                            .to_string(),
                        rule_type: RuleType::ALERTING,
                    },
                    Rule {
                        alerts: None,
                        annotations: None,
                        duration: None,
                        labels: None,
                        health: "ok".to_string(),
                        name: "job:http_inprogress_requests:sum".to_string(),
                        query: "sum(http_inprogress_requests) by (job)".to_string(),
                        rule_type: RuleType::RECORDING,
                    },
                ],
                file: "/rules.yaml".to_string(),
                interval: 60,
                name: "example".to_string(),
            }],
        })),
        warnings: Vec::new(),
    });
    assert_eq!(res, expected);
}

#[test]
fn alerts_payload_decodes() {
    let j = r#"
        {
            "status": "success",
            "data": {
                "alerts": [
                    {
                        "activeAt": "2018-07-04T20:27:12.60602144+02:00",
                        "annotations": {},
                        "labels": {"alertname": "my-alert"},
                        "state": "firing",
                        "value": "1e+00"
                    }
                ]
            }
        }
        "#;

    let res = decode_envelope_str(j).unwrap();
    let expected = ApiResult::ApiOk(ApiOk {
        data: Some(Data::Alerts(proq::result_types::Alerts {
            alerts: vec![Alert {
                active_at: "2018-07-04T20:27:12.60602144+02:00".to_string(),
                annotations: Some(sm(&[])),
                labels: Some(sm(&[("alertname", "my-alert")])),
                state: AlertState::FIRING,
                value: "1e+00".to_string(),
            }],
        })),
        warnings: Vec::new(),
    });
    assert_eq!(res, expected);
}
