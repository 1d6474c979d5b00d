use grafatui::engine::{QueryEngine, RawPoint, Series};
use grafatui::expand::VarMap;
use grafatui::panel::{
    build_series_name, build_series_views, default_queries, find_latest_finite, integrate_outcomes,
    prepare_queries, query_failed_message, PanelType, YAxisMode,
};

const NS: u64 = 1_000_000_000;

#[test]
fn test_default_queries_fallback_and_shape() {
    let panels = default_queries(Vec::new());
    assert_eq!(panels.len(), 3);
    assert_eq!(panels[2].title, "up");
    assert_eq!(panels[2].exprs, vec!["up".to_string()]);
    assert_eq!(panels[2].legends, vec![None]);
    assert!(panels[2].series.is_empty());
    assert!(panels[2].last_error.is_none());
    assert_eq!(panels[2].y_axis_mode, YAxisMode::Auto);
    assert_eq!(panels[2].panel_type, PanelType::Graph);

    let own = default_queries(vec!["node_load1".to_string()]);
    assert_eq!(own.len(), 1);
    assert_eq!(own[0].title, "node_load1");
}

#[test]
fn test_series_name_sorts_labels() {
    let metric = vec![
        ("zone".to_string(), "b".to_string()),
        ("app".to_string(), "a".to_string()),
    ];
    let name = build_series_name("up", None, &metric);
    assert_eq!(name, "up {app=\"a\", zone=\"b\"}");
}

#[test]
fn test_series_name_empty_labels_uses_expression() {
    let name = build_series_name("sum(up)", None, &Vec::new());
    assert_eq!(name, "sum(up)");
}

#[test]
fn test_series_name_prefers_template() {
    let metric = vec![("job".to_string(), "node".to_string())];
    let fmt = "J={{job}}".to_string();
    let name = build_series_name("up", Some(&fmt), &metric);
    assert_eq!(name, "J=node");
}

#[test]
fn test_find_latest_finite_skips_non_finite_tail() {
    let values = vec![
        RawPoint { ts_bits: 1.0f64.to_bits(), val_bits: Some(7.0f64.to_bits()) },
        RawPoint { ts_bits: 2.0f64.to_bits(), val_bits: Some(f64::NAN.to_bits()) },
        RawPoint { ts_bits: 3.0f64.to_bits(), val_bits: None },
    ];
    assert_eq!(find_latest_finite(&values), Some(7.0f64.to_bits()));
    assert_eq!(find_latest_finite(&Vec::new()), None);
}

#[test]
fn test_build_series_views_filters_and_counts() {
    let raw = vec![Series {
        metric: Vec::new(),
        values: vec![
            RawPoint { ts_bits: 1.0f64.to_bits(), val_bits: Some(1.5f64.to_bits()) },
            RawPoint { ts_bits: 2.0f64.to_bits(), val_bits: Some(f64::INFINITY.to_bits()) },
            RawPoint { ts_bits: 3.0f64.to_bits(), val_bits: Some(2.5f64.to_bits()) },
        ],
    }];
    let views = build_series_views("up", None, &raw);
    assert_eq!(views.len(), 1);
    assert_eq!(views[0].name, "up");
    assert!(views[0].visible);
    assert_eq!(views[0].points.len(), 2);
    assert_eq!(views[0].value, Some(2.5f64.to_bits()));
}

#[test]
fn test_refresh_failure_keeps_error_and_previous_series() {
    // End-to-end: a panel with expression `up` whose backend keeps
    // answering garbage; after the retries are spent the cycle ends with
    // the failure text on the panel and its series as they were (empty on
    // the first ever refresh).
    let engine = QueryEngine::new("http://prom".to_string());
    let vars = VarMap::new();
    let mut panels = default_queries(vec!["up".to_string()]);
    let panel = &mut panels[0];

    let prepared = prepare_queries(&engine, &panel.exprs, 3600 * NS, 15 * NS, &vars, 1_700_000_000);
    assert_eq!(prepared.len(), 1);
    assert_eq!(prepared[0].expr_expanded, "up");

    // four attempts, each with a malformed body, never succeeding
    let mut last_err = String::new();
    for _ in 0..4 {
        let r = grafatui::engine::interpret_response(
            true,
            "200 OK",
            "<html>oops</html>",
            Err("expected value at line 1 column 1".to_string()),
        );
        last_err = r.unwrap_err();
    }

    integrate_outcomes(panel, &prepared, vec![Err(last_err)]);

    let msg = panel.last_error.as_ref().expect("error must be recorded");
    assert!(msg.contains("query_range failed for `up`"));
    assert!(panel.series.is_empty());
    assert_eq!(panel.last_samples, 0);
    assert!(panel.last_url.as_ref().unwrap().contains("query=up"));
}

#[test]
fn test_refresh_failure_preserves_older_series() {
    let engine = QueryEngine::new("http://prom".to_string());
    let vars = VarMap::new();
    let mut panels = default_queries(vec!["up".to_string()]);
    let panel = &mut panels[0];
    let prepared = prepare_queries(&engine, &panel.exprs, 3600 * NS, 15 * NS, &vars, 1_700_000_000);

    // a first, successful cycle
    let ok = vec![Series {
        metric: Vec::new(),
        values: vec![RawPoint { ts_bits: 1.0f64.to_bits(), val_bits: Some(1.0f64.to_bits()) }],
    }];
    integrate_outcomes(panel, &prepared, vec![Ok(ok)]);
    assert!(panel.last_error.is_none());
    assert_eq!(panel.series.len(), 1);
    assert_eq!(panel.last_samples, 1);

    // then a failing cycle: the last-known-good data stays on display
    integrate_outcomes(panel, &prepared, vec![Err("connection refused".to_string())]);
    assert!(panel.last_error.is_some());
    assert_eq!(panel.series.len(), 1);
}

#[test]
fn test_query_failed_message_text() {
    let m = query_failed_message("up", "boom");
    assert_eq!(m, "query_range failed for `up`: boom");
}

#[test]
fn test_prepare_queries_window_and_key() {
    let engine = QueryEngine::new("http://prom".to_string());
    let mut vars = VarMap::new();
    vars.insert("job".to_string(), "node".to_string());
    let exprs = vec!["up{job=\"$job\"}".to_string()];
    let prepared = prepare_queries(&engine, &exprs, 3600 * NS, 15 * NS, &vars, 1_700_000_000);
    assert_eq!(prepared[0].expr_expanded, "up{job=\"node\"}");
    assert_eq!(prepared[0].key.start, 1_700_000_000 - 3600);
    assert_eq!(prepared[0].key.end, 1_700_000_000);
    assert_eq!(prepared[0].key.step_ns, 15 * NS);
    assert!(prepared[0].url.starts_with("http://prom/api/v1/query_range?query="));
}
