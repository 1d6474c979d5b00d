use grafatui::expand::{expand_expr, format_legend, parse_key_val, VarMap};

const NS: u64 = 1_000_000_000;

#[test]
fn test_expand_expr_rate_interval() {
    let vars = VarMap::new();
    let step = 15 * NS;
    // heuristic: max(15*4, 60) = 60s
    let expr = "rate(http_requests_total[$__rate_interval])";
    let expanded = expand_expr(expr, step, &vars);
    assert_eq!(expanded, "rate(http_requests_total[60s])");

    let step = 30 * NS;
    // heuristic: max(30*4, 60) = 120s
    let expr = "rate(http_requests_total[$__rate_interval])";
    let expanded = expand_expr(expr, step, &vars);
    assert_eq!(expanded, "rate(http_requests_total[120s])");
}

#[test]
fn test_expand_expr_vars() {
    let mut vars = VarMap::new();
    vars.insert("job".to_string(), "node-exporter".to_string());
    vars.insert("instance".to_string(), "localhost:9100".to_string());

    let step = 15 * NS;

    // Test $var
    let expr = "up{job=\"$job\"}";
    let expanded = expand_expr(expr, step, &vars);
    assert_eq!(expanded, "up{job=\"node-exporter\"}");

    // Test ${var}
    let expr = "up{instance=\"${instance}\"}";
    let expanded = expand_expr(expr, step, &vars);
    assert_eq!(expanded, "up{instance=\"localhost:9100\"}");

    // Test multiple vars
    let expr = "rate(http_requests_total{job=\"$job\", instance=\"$instance\"}[$__rate_interval])";
    let expanded = expand_expr(expr, step, &vars);
    assert_eq!(
        expanded,
        "rate(http_requests_total{job=\"node-exporter\", instance=\"localhost:9100\"}[60s])"
    );
}

#[test]
fn test_format_legend() {
    let metric = vec![
        ("job".to_string(), "node".to_string()),
        ("instance".to_string(), "localhost".to_string()),
    ];

    let fmt = "Job: {{job}} - {{instance}}";
    assert_eq!(format_legend(fmt, &metric), "Job: node - localhost");

    let fmt2 = "Static Text";
    assert_eq!(format_legend(fmt2, &metric), "Static Text");
}

#[test]
fn test_expand_leaves_unresolved_vars() {
    let vars = VarMap::new();
    let expr = "up{job=\"$job\"}";
    let expanded = expand_expr(expr, 15 * NS, &vars);
    assert_eq!(expanded, "up{job=\"$job\"}");
}

#[test]
fn test_expand_expr_rate_interval_large_step() {
    let vars = VarMap::new();
    // max(4 * 120, 60) = 480
    let expanded = expand_expr("x[$__rate_interval]", 120 * NS, &vars);
    assert_eq!(expanded, "x[480s]");
}

#[test]
fn test_var_map_override_wins() {
    let mut vars = VarMap::new();
    vars.insert("job".to_string(), "imported".to_string());
    vars.insert("job".to_string(), "override".to_string());
    assert_eq!(vars.get("job"), Some("override".to_string()));
    assert_eq!(vars.len(), 1);
}

#[test]
fn test_parse_key_val_splits_at_first_eq() {
    let r = parse_key_val("job=node=exporter").unwrap();
    assert_eq!(r.0, "job");
    assert_eq!(r.1, "node=exporter");
}

#[test]
fn test_parse_key_val_missing_eq() {
    let e = parse_key_val("novalue").unwrap_err();
    assert_eq!(e, "invalid KEY=value: no `=` found in `novalue`");
}
