use grafatui::dashboard::{
    extract_vars, import_dashboard, Config, RawDashboard, RawPanel, RawTarget, RawTemplating,
    RawVar, RawVarCurrent, VarValue,
};
use grafatui::panel::PanelType;

fn var(name: &str, value: Option<VarValue>, text: Option<VarValue>) -> RawVar {
    RawVar { name: name.to_string(), current: Some(RawVarCurrent { text, value }) }
}

fn leaf_panel(kind: &str, title: &str, exprs: &[&str]) -> RawPanel {
    RawPanel {
        panel_type: Some(kind.to_string()),
        title: Some(title.to_string()),
        targets: Some(
            exprs
                .iter()
                .map(|e| RawTarget { expr: Some(e.to_string()), legend_format: None })
                .collect(),
        ),
        grid_pos: None,
        panels: None,
    }
}

#[test]
fn test_scalar_var_kept_all_dropped() {
    // End-to-end: a templating variable `job` whose current value is the
    // scalar "node-exporter" lands in the map; one whose value is the
    // literal "All" is not inserted.
    let list = vec![
        var("job", Some(VarValue::Text("node-exporter".to_string())), None),
        var("instance", Some(VarValue::Text("All".to_string())), None),
    ];
    let vars = extract_vars(&list);
    assert_eq!(vars.get("job"), Some("node-exporter".to_string()));
    assert_eq!(vars.get("instance"), None);
    assert_eq!(vars.len(), 1);
}

#[test]
fn test_var_selection_rules() {
    let list = vec![
        var(
            "a",
            Some(VarValue::Text("fromvalue".to_string())),
            Some(VarValue::Text("fromtext".to_string())),
        ),
        var("b", None, Some(VarValue::Text("textonly".to_string()))),
        var(
            "c",
            Some(VarValue::Items(vec![None, Some("first".to_string()), Some("second".to_string())])),
            None,
        ),
        var("d", Some(VarValue::NumberText("42".to_string())), None),
        var("empty", Some(VarValue::Text(String::new())), None),
        var("other", Some(VarValue::Other), None),
        RawVar { name: "nocurrent".to_string(), current: None },
    ];
    let vars = extract_vars(&list);
    // value preferred over text; scalars and numbers kept
    assert_eq!(vars.get("a"), Some("fromvalue".to_string()));
    assert_eq!(vars.get("b"), Some("textonly".to_string()));
    assert_eq!(vars.get("d"), Some("42".to_string()));
    // list values are dropped rather than guessed at, like empty and
    // non-scalar ones
    assert_eq!(vars.get("c"), None);
    assert_eq!(vars.get("empty"), None);
    assert_eq!(vars.get("other"), None);
    assert_eq!(vars.get("nocurrent"), None);
}

#[test]
fn test_import_collects_nested_panels_and_counts_skips() {
    let row = RawPanel {
        panel_type: Some("row".to_string()),
        title: Some("Row".to_string()),
        targets: None,
        grid_pos: None,
        panels: Some(vec![leaf_panel("timeseries", "Nested", &["rate(x[5m])"])]),
    };
    let unknown = RawPanel {
        panel_type: Some("news".to_string()),
        title: Some("News".to_string()),
        targets: None,
        grid_pos: None,
        panels: None,
    };
    let no_targets = leaf_panel("graph", "Empty", &[]);
    let gauge = RawPanel {
        panel_type: Some("gauge".to_string()),
        title: Some("G".to_string()),
        targets: Some(vec![
            RawTarget { expr: Some("up".to_string()), legend_format: Some("{{job}}".to_string()) },
            RawTarget { expr: None, legend_format: None },
        ]),
        grid_pos: Some(grafatui::dashboard::RawGridPos { x: 0, y: 1, w: 12, h: 8 }),
        panels: None,
    };
    let raw = RawDashboard {
        title: Some("Test Dash".to_string()),
        panels: Some(vec![row, unknown, no_targets, gauge]),
        templating: Some(RawTemplating {
            list: Some(vec![var("job", Some(VarValue::Text("node-exporter".to_string())), None)]),
        }),
    };
    let d = import_dashboard(&raw);
    assert_eq!(d.title, "Test Dash");
    assert_eq!(d.vars.get("job"), Some("node-exporter".to_string()));
    // nested panel first (children are walked before their parent), then
    // the gauge; the row itself and the expression-less graph add nothing
    assert_eq!(d.queries.len(), 2);
    assert_eq!(d.queries[0].title, "Nested");
    assert_eq!(d.queries[0].panel_type, PanelType::Graph);
    assert_eq!(d.queries[1].title, "G");
    assert_eq!(d.queries[1].panel_type, PanelType::Gauge);
    assert_eq!(d.queries[1].exprs, vec!["up".to_string()]);
    assert_eq!(d.queries[1].legends, vec![Some("{{job}}".to_string())]);
    let g = d.queries[1].grid.unwrap();
    assert_eq!((g.x, g.y, g.w, g.h), (0, 1, 12, 8));
    // only the unknown kind counts as skipped
    assert_eq!(d.skipped_panels, 1);
}

#[test]
fn test_config_default_is_empty() {
    let c = Config::default();
    assert!(c.prometheus_url.is_none());
    assert!(c.refresh_rate.is_none());
    assert!(c.time_range.is_none());
    assert!(c.step.is_none());
    assert!(c.theme.is_none());
    assert!(c.grafana_json.is_none());
    assert!(c.vars.is_none());
}

#[test]
fn test_text_helpers() {
    assert_eq!(grafatui::text::u64_to_dec(0), "0");
    assert_eq!(grafatui::text::u64_to_dec(1234567890), "1234567890");
    assert_eq!(grafatui::text::i64_to_dec(-42), "-42");
    assert_eq!(grafatui::text::i64_to_dec(i64::MIN), "-9223372036854775808");
    assert!(grafatui::text::str_contains("hello world", "lo wo"));
    assert!(!grafatui::text::str_contains("hello", "world"));
    assert_eq!(grafatui::text::replace_all("aaa", "aa", "b"), "ba");
}
