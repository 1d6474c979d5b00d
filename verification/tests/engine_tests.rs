use grafatui::engine::{
    clone_series_list, interpret_response, key_eq, retry_step, QueryEngine, QueryKey,
    QueryRangeData, QueryRangeResponse, QueryStart, RawPoint, RetryStep, Series,
};

const NS: u64 = 1_000_000_000;

fn key(expr: &str, start: i64, end: i64, step_ns: u64) -> QueryKey {
    QueryKey { expr: expr.to_string(), start, end, step_ns }
}

fn sample_series() -> Vec<Series> {
    vec![Series {
        metric: vec![("job".to_string(), "node".to_string())],
        values: vec![
            RawPoint { ts_bits: 1.0f64.to_bits(), val_bits: Some(2.0f64.to_bits()) },
            RawPoint { ts_bits: 2.0f64.to_bits(), val_bits: Some(3.0f64.to_bits()) },
        ],
    }]
}

#[test]
fn test_build_query_range_url() {
    let engine = QueryEngine::new("http://localhost:9090".to_string());
    let expr = "up{job=\"node\"}";
    let start = 1600000000;
    let end = 1600003600;
    let step = 60 * NS;

    let url = engine.build_query_range_url(expr, start, end, step);
    assert_eq!(
        url,
        "http://localhost:9090/api/v1/query_range?query=up%7Bjob%3D%22node%22%7D&start=1600000000&end=1600003600&step=60s"
    );
}

#[test]
fn test_build_query_range_url_trims_slash_and_floors_step() {
    let engine = QueryEngine::new("http://prom:9090///".to_string());
    let url = engine.build_query_range_url("up", -5, 5, 1);
    assert_eq!(url, "http://prom:9090/api/v1/query_range?query=up&start=-5&end=5&step=1s");
}

#[test]
fn test_cache_hit_after_success_issues_no_second_fetch() {
    let mut engine = QueryEngine::new("http://prom".to_string());
    let k = key("up", 100, 200, 15 * NS);

    match engine.begin_query(&k) {
        QueryStart::Fetch => {}
        _ => panic!("first call must fetch"),
    }
    let data = sample_series();
    let waiters = engine.finish_query(&k, Some(&data));
    assert_eq!(waiters, 0);

    // identical key: served from the cache, no network work
    match engine.begin_query(&k) {
        QueryStart::Cached(v) => {
            assert_eq!(v.len(), 1);
            assert_eq!(v[0].metric, data[0].metric);
            assert_eq!(v[0].values, data[0].values);
        }
        _ => panic!("identical key must hit the cache"),
    }
}

#[test]
fn test_any_field_change_is_a_new_query() {
    let mut engine = QueryEngine::new("http://prom".to_string());
    let k = key("up", 100, 200, 15 * NS);
    match engine.begin_query(&k) {
        QueryStart::Fetch => {}
        _ => panic!("first call must fetch"),
    }
    let data = sample_series();
    engine.finish_query(&k, Some(&data));

    let variants = vec![
        key("up2", 100, 200, 15 * NS),
        key("up", 101, 200, 15 * NS),
        key("up", 100, 201, 15 * NS),
        key("up", 100, 200, 30 * NS),
    ];
    for v in &variants {
        assert!(!key_eq(v, &k));
        match engine.begin_query(v) {
            QueryStart::Fetch => {}
            _ => panic!("a key differing in one field must fetch anew"),
        }
        engine.finish_query(v, None);
    }
}

#[test]
fn test_inflight_dedup_single_fetch_shared_outcome() {
    let mut engine = QueryEngine::new("http://prom".to_string());
    let k = key("up", 0, 60, NS);

    // three concurrent callers, identical key, before the first resolves
    match engine.begin_query(&k) {
        QueryStart::Fetch => {}
        _ => panic!("first caller fetches"),
    }
    for _ in 0..2 {
        match engine.begin_query(&k) {
            QueryStart::Wait => {}
            _ => panic!("later identical callers wait"),
        }
    }

    let data = sample_series();
    let waiters = engine.finish_query(&k, Some(&data));
    // both waiters are released with the one shared outcome
    assert_eq!(waiters, 2);

    // and the shared success is now cached for everyone
    match engine.begin_query(&k) {
        QueryStart::Cached(v) => assert_eq!(v[0].values, data[0].values),
        _ => panic!("resolved key must be cached"),
    }
}

#[test]
fn test_failed_fetch_leaves_cache_empty() {
    let mut engine = QueryEngine::new("http://prom".to_string());
    let k = key("up", 0, 60, NS);
    match engine.begin_query(&k) {
        QueryStart::Fetch => {}
        _ => panic!(),
    }
    let waiters = engine.finish_query(&k, None);
    assert_eq!(waiters, 0);
    match engine.begin_query(&k) {
        QueryStart::Fetch => {}
        _ => panic!("a failure must not populate the cache"),
    }
}

#[test]
fn test_interpret_response_http_error() {
    let r = interpret_response(false, "500 Internal Server Error", "boom", Err("unused".to_string()));
    assert_eq!(r.unwrap_err(), "prometheus 500 Internal Server Error: boom");
}

#[test]
fn test_interpret_response_parse_error() {
    let r = interpret_response(true, "200 OK", "not json", Err("expected value at line 1".to_string()));
    assert_eq!(r.unwrap_err(), "parsing json: expected value at line 1 (body: not json)");
}

#[test]
fn test_interpret_response_bad_status() {
    let resp = QueryRangeResponse {
        status: "error".to_string(),
        data: QueryRangeData { result_type: "matrix".to_string(), result: vec![] },
    };
    let r = interpret_response(true, "200 OK", "{...}", Ok(resp));
    assert_eq!(r.unwrap_err(), "prometheus error status: error \u{2014} body: {...}");
}

#[test]
fn test_interpret_response_success() {
    let resp = QueryRangeResponse {
        status: "success".to_string(),
        data: QueryRangeData { result_type: "matrix".to_string(), result: sample_series() },
    };
    let r = interpret_response(true, "200 OK", "{}", Ok(resp)).unwrap();
    assert_eq!(r.len(), 1);
    assert_eq!(r[0].values.len(), 2);
}

#[test]
fn test_retry_step_policy() {
    // the first success ends the attempts at once
    match retry_step(0, Ok(sample_series())) {
        RetryStep::Done(Ok(v)) => assert_eq!(v.len(), 1),
        _ => panic!("a success must end the attempts"),
    }
    // an early failure asks for one more try after exponential backoff
    match retry_step(0, Err("t1".to_string())) {
        RetryStep::RetryAfterMs(ms) => assert_eq!(ms, 200),
        _ => panic!("an early failure must retry"),
    }
    match retry_step(2, Err("t3".to_string())) {
        RetryStep::RetryAfterMs(ms) => assert_eq!(ms, 800),
        _ => panic!("an early failure must retry"),
    }
    // the last allowed attempt's failure ends the attempts with that error
    match retry_step(3, Err("final".to_string())) {
        RetryStep::Done(Err(e)) => assert_eq!(e, "final"),
        _ => panic!("the last failure must end the attempts"),
    }
}

#[test]
fn test_clone_series_list_is_deep_equal() {
    let data = sample_series();
    let copy = clone_series_list(&data);
    assert_eq!(copy[0].metric, data[0].metric);
    assert_eq!(copy[0].values, data[0].values);
}
