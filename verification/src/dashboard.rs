//! Importing a dashboard description: the raw shapes its JSON decodes to,
//! the template-variable selection rules, and the panel-tree walk that
//! classifies panels and collects their queries. Reading and decoding the
//! file happen outside; this module turns the decoded value into the
//! panel/query data model.

use vstd::prelude::*;
use vstd::string::*;

use crate::expand::VarMap;
use crate::panel::PanelType;
use crate::text::str_eq;

verus! {

/// Grid position of an imported panel, in grid units.
#[derive(Clone, Copy, Debug, PartialEq, Eq, Structural)]
pub struct GridPos {
    pub x: i32,
    pub y: i32,
    pub w: i32,
    pub h: i32,
}

/// A panel extracted from a dashboard description.
#[derive(Debug)]
pub struct QueryPanel {
    pub title: String,
    pub exprs: Vec<String>,
    /// Parallel to `exprs`.
    pub legends: Vec<Option<String>>,
    pub grid: Option<GridPos>,
    pub panel_type: PanelType,
}

/// The result of importing a dashboard.
#[derive(Debug)]
pub struct DashboardImport {
    pub title: String,
    pub queries: Vec<QueryPanel>,
    pub vars: VarMap,
    /// Panels of unsupported kinds, counted rather than guessed at.
    pub skipped_panels: usize,
}

/// A dashboard variable's current value, reduced to what the selection
/// rules read: a scalar string, a list (carried as it arrived, strings
/// kept and other entries blank), a number already rendered as text, or
/// something else entirely.
#[derive(Debug)]
pub enum VarValue {
    Text(String),
    Items(Vec<Option<String>>),
    NumberText(String),
    Other,
}

/// The `current` object of a templating variable.
#[derive(Debug)]
pub struct RawVarCurrent {
    pub text: Option<VarValue>,
    pub value: Option<VarValue>,
}

/// One templating variable.
#[derive(Debug)]
pub struct RawVar {
    pub name: String,
    pub current: Option<RawVarCurrent>,
}

/// One target of a raw panel.
#[derive(Debug)]
pub struct RawTarget {
    pub expr: Option<String>,
    pub legend_format: Option<String>,
}

/// Grid position as the description carries it.
#[derive(Clone, Copy, Debug, PartialEq, Eq, Structural)]
pub struct RawGridPos {
    pub x: i32,
    pub y: i32,
    pub w: i32,
    pub h: i32,
}

/// One panel of the description, possibly holding nested row panels.
#[derive(Debug)]
pub struct RawPanel {
    pub panel_type: Option<String>,
    pub title: Option<String>,
    pub targets: Option<Vec<RawTarget>>,
    pub grid_pos: Option<RawGridPos>,
    pub panels: Option<Vec<RawPanel>>,
}

/// The templating section of the description.
#[derive(Debug)]
pub struct RawTemplating {
    pub list: Option<Vec<RawVar>>,
}

/// The whole decoded description.
#[derive(Debug)]
pub struct RawDashboard {
    pub title: Option<String>,
    pub panels: Option<Vec<RawPanel>>,
    pub templating: Option<RawTemplating>,
}

/// The string a variable value denotes: a scalar as itself, a number by
/// its rendered text; a list or anything else is blank, so it is dropped
/// rather than guessed at.
pub open spec fn value_string(v: VarValue) -> Seq<char> {
    match v {
        VarValue::Text(s) => s@,
        VarValue::Items(..) => Seq::empty(),
        VarValue::NumberText(s) => s@,
        VarValue::Other => Seq::empty(),
    }
}

/// The value a variable's `current` object selects: `value` preferred over
/// `text`.
pub open spec fn chosen(c: RawVarCurrent) -> Option<VarValue> {
    match c.value {
        Some(v) => Some(v),
        None => c.text,
    }
}

/// The string a templating variable contributes, if any: its chosen
/// value's string, unless that is empty (lists and non-scalars included)
/// or the literal `All`; those are dropped rather than guessed at.
pub open spec fn var_entry(v: RawVar) -> Option<Seq<char>> {
    match v.current {
        None => None,
        Some(c) => match chosen(c) {
            None => None,
            Some(val) => {
                let s = value_string(val);
                if s.len() > 0 && s != "All"@ {
                    Some(s)
                } else {
                    None
                }
            },
        },
    }
}

/// The position of the pair carrying `k` (unique when the pairs are well
/// formed).
pub open spec fn key_index(pairs: Seq<(Seq<char>, Seq<char>)>, k: Seq<char>) -> int {
    choose|j: int| 0 <= j < pairs.len() && (#[trigger] pairs[j]).0 == k
}

/// Whether some pair carries `k`.
pub open spec fn has_key(pairs: Seq<(Seq<char>, Seq<char>)>, k: Seq<char>) -> bool {
    exists|j: int| 0 <= j < pairs.len() && (#[trigger] pairs[j]).0 == k
}

/// The pairs after `k -> v` is inserted: an existing pair with that name
/// moves to the end with the new value.
pub open spec fn upsert(pairs: Seq<(Seq<char>, Seq<char>)>, k: Seq<char>, v: Seq<char>) -> Seq<
    (Seq<char>, Seq<char>),
> {
    if has_key(pairs, k) {
        pairs.remove(key_index(pairs, k)).push((k, v))
    } else {
        pairs.push((k, v))
    }
}

/// The variable pairs after the first `i` templating variables are
/// processed in order.
pub open spec fn vars_folded(list: Seq<RawVar>, i: int) -> Seq<(Seq<char>, Seq<char>)>
    decreases i,
{
    if i <= 0 {
        Seq::empty()
    } else {
        let prev = vars_folded(list, i - 1);
        match var_entry(list[i - 1]) {
            Some(s) => upsert(prev, list[i - 1].name@, s),
            None => prev,
        }
    }
}

/// Runtime selection of one variable's string.
fn value_string_of(v: &VarValue) -> (r: String)
    ensures
        r@ == value_string(*v),
{
    match v {
        VarValue::Text(s) => s.clone(),
        VarValue::Items(..) => String::new(),
        VarValue::NumberText(s) => s.clone(),
        VarValue::Other => String::new(),
    }
}

/// Builds the variable map of a dashboard: each templating variable's
/// chosen scalar, in order, with empty and `All` values dropped.
pub fn extract_vars(list: &Vec<RawVar>) -> (r: VarMap)
    ensures
        r.wf(),
        r.pairs_view() == vars_folded(list@, list@.len() as int),
{
    let mut vars = VarMap::new();
    let n = list.len();
    let mut i: usize = 0;
    while i < n
        invariant
            n == list@.len(),
            i <= n,
            vars.wf(),
            vars.pairs_view() == vars_folded(list@, i as int),
        decreases n - i,
    {
        let v = &list[i];
        let entry: Option<String> = match &v.current {
            None => None,
            Some(c) => {
                let val: Option<&VarValue> = match &c.value {
                    Some(inner) => Some(inner),
                    None => match &c.text {
                        Some(inner) => Some(inner),
                        None => None,
                    },
                };
                match val {
                    None => None,
                    Some(value) => {
                        let s = value_string_of(value);
                        proof {
                            reveal_strlit("All");
                        }
                        if s.unicode_len() > 0 && !str_eq(s.as_str(), "All") {
                            Some(s)
                        } else {
                            None
                        }
                    },
                }
            },
        };
        proof {
            assert(match entry {
                Some(s) => var_entry(list@[i as int]) == Some(s@),
                None => var_entry(list@[i as int]) is None,
            });
        }
        match entry {
            Some(s) => {
                let ghost before = vars.pairs_view();
                let ghost gs = s@;
                let ghost gk = v.name@;
                let name = v.name.clone();
                vars.insert(name, s);
                proof {
                    if has_key(before, gk) {
                        let ki = key_index(before, gk);
                        assert(before[ki].0 == gk);
                        let j = choose|j: int|
                            0 <= j < before.len() && (#[trigger] before[j]).0 == gk
                                && vars.pairs_view() == before.remove(j).push((gk, gs));
                        if j != ki {
                            if j < ki {
                                assert(before[j].0 != before[ki].0);
                            } else {
                                assert(before[ki].0 != before[j].0);
                            }
                        }
                        assert(vars.pairs_view() == upsert(before, gk, gs));
                    } else {
                        assert(!has_key(before, gk));
                        assert(vars.pairs_view() == upsert(before, gk, gs));
                    }
                }
            },
            None => {},
        }
        i += 1;
    }
    vars
}


/// The mathematical value of an extracted panel.
pub open spec fn qp_view(p: QueryPanel) -> (
    Seq<char>,
    Seq<Seq<char>>,
    Seq<Option<Seq<char>>>,
    Option<GridPos>,
    PanelType,
) {
    (
        p.title@,
        p.exprs@.map(|i: int, e: String| e@),
        p.legends@.map(
            |i: int, l: Option<String>|
                match l {
                    Some(f) => Some(f@),
                    None => None,
                },
        ),
        p.grid,
        p.panel_type,
    )
}

/// The mathematical value of the extracted panel list.
pub open spec fn qps_view(v: Seq<QueryPanel>) -> Seq<
    (Seq<char>, Seq<Seq<char>>, Seq<Option<Seq<char>>>, Option<GridPos>, PanelType),
> {
    v.map(|i: int, p: QueryPanel| qp_view(p))
}

/// The visualization kind a declared type string denotes.
pub open spec fn panel_kind(kind: Seq<char>) -> PanelType {
    if kind == "graph"@ || kind == "timeseries"@ {
        PanelType::Graph
    } else if kind == "stat"@ {
        PanelType::Stat
    } else if kind == "gauge"@ {
        PanelType::Gauge
    } else if kind == "bargauge"@ {
        PanelType::BarGauge
    } else if kind == "table"@ {
        PanelType::Table
    } else {
        PanelType::Unknown
    }
}

/// The expressions and legend templates of the targets that declare an
/// expression, in target order.
pub open spec fn target_exprs(ts: Seq<RawTarget>) -> (Seq<Seq<char>>, Seq<Option<Seq<char>>>)
    decreases ts.len(),
{
    if ts.len() == 0 {
        (Seq::empty(), Seq::empty())
    } else {
        let rest = target_exprs(ts.skip(1));
        match ts[0].expr {
            Some(e) => {
                let l = match ts[0].legend_format {
                    Some(f) => Some(f@),
                    None => None,
                };
                (seq![e@] + rest.0, seq![l] + rest.1)
            },
            None => rest,
        }
    }
}

/// A raw grid position carried over.
pub open spec fn grid_of(g: Option<RawGridPos>) -> Option<GridPos> {
    match g {
        Some(r) => Some(GridPos { x: r.x, y: r.y, w: r.w, h: r.h }),
        None => None,
    }
}

/// A count one higher, saturating at the machine limit.
pub open spec fn bumped(s: int) -> int {
    if s < usize::MAX {
        s + 1
    } else {
        s
    }
}

/// One panel applied to the accumulated queries and skip count: a panel of
/// a known kind with at least one expression contributes one query panel;
/// one of an unknown, non-empty, non-row kind counts as skipped; rows and
/// kind-less panels contribute nothing of their own.
pub open spec fn panel_step(
    acc: (Seq<(Seq<char>, Seq<Seq<char>>, Seq<Option<Seq<char>>>, Option<GridPos>, PanelType)>, int),
    p: RawPanel,
) -> (Seq<(Seq<char>, Seq<Seq<char>>, Seq<Option<Seq<char>>>, Option<GridPos>, PanelType)>, int) {
    let kind = match p.panel_type {
        Some(k) => k@,
        None => Seq::empty(),
    };
    let pt = panel_kind(kind);
    if pt != PanelType::Unknown {
        let es = target_exprs(
            match p.targets {
                Some(t) => t@,
                None => Seq::empty(),
            },
        );
        if es.0.len() > 0 {
            let title = match p.title {
                Some(t) => t@,
                None => Seq::empty(),
            };
            (acc.0.push((title, es.0, es.1, grid_of(p.grid_pos), pt)), acc.1)
        } else {
            acc
        }
    } else if kind.len() > 0 && kind != "row"@ {
        (acc.0, bumped(acc.1))
    } else {
        acc
    }
}

/// The walk over a panel list: each panel's nested children first, then
/// the panel itself, then the remaining panels.
pub open spec fn collected(
    acc: (Seq<(Seq<char>, Seq<Seq<char>>, Seq<Option<Seq<char>>>, Option<GridPos>, PanelType)>, int),
    panels: Seq<RawPanel>,
) -> (Seq<(Seq<char>, Seq<Seq<char>>, Seq<Option<Seq<char>>>, Option<GridPos>, PanelType)>, int)
    decreases panels,
{
    if panels.len() == 0 {
        acc
    } else {
        let p = panels[0];
        let acc1 = match p.panels {
            Some(ch) => collected(acc, ch@),
            None => acc,
        };
        collected(panel_step(acc1, p), panels.skip(1))
    }
}

/// The accumulated import state as the walk's spec sees it.
pub open spec fn import_acc(d: DashboardImport) -> (
    Seq<(Seq<char>, Seq<Seq<char>>, Seq<Option<Seq<char>>>, Option<GridPos>, PanelType)>,
    int,
) {
    (qps_view(d.queries@), d.skipped_panels as int)
}

/// Walks a panel list, collecting query panels and counting skipped ones
/// into `out`; nested row children are walked before their parent.
pub fn collect_panels(out: &mut DashboardImport, panels: &Vec<RawPanel>)
    ensures
        final(out).title == old(out).title,
        final(out).vars == old(out).vars,
        import_acc(*final(out)) == collected(import_acc(*old(out)), panels@),
    decreases panels@,
{
    let n = panels.len();
    let mut i: usize = 0;
    proof {
        assert(panels@.skip(0) =~= panels@);
    }
    while i < n
        invariant
            n == panels@.len(),
            i <= n,
            out.title == old(out).title,
            out.vars == old(out).vars,
            collected(import_acc(*old(out)), panels@) == collected(
                import_acc(*out),
                panels@.skip(i as int),
            ),
        decreases n - i,
    {
        let ghost rest = panels@.skip(i as int);
        proof {
            assert(rest[0] == panels@[i as int]);
            assert(rest.skip(1) =~= panels@.skip(i + 1));
        }
        let p = &panels[i];
        match &p.panels {
            Some(children) => {
                proof {
                    assert(decreases_to!(panels@ => panels@[i as int]));
                    assert(decreases_to!(panels@[i as int] => panels@[i as int].panels));
                    assert(decreases_to!(panels@[i as int].panels => *children));
                    assert(decreases_to!(*children => children@));
                }
                collect_panels(out, children);
            },
            None => {},
        }
        let ghost acc1 = import_acc(*out);
        let kind: &str = match &p.panel_type {
            Some(k) => k.as_str(),
            None => "",
        };
        proof {
            reveal_strlit("");
            assert(""@ =~= Seq::<char>::empty());
        }
        let pt: PanelType = if str_eq(kind, "graph") || str_eq(kind, "timeseries") {
            PanelType::Graph
        } else if str_eq(kind, "stat") {
            PanelType::Stat
        } else if str_eq(kind, "gauge") {
            PanelType::Gauge
        } else if str_eq(kind, "bargauge") {
            PanelType::BarGauge
        } else if str_eq(kind, "table") {
            PanelType::Table
        } else {
            PanelType::Unknown
        };
        proof {
            assert(pt == panel_kind(kind@));
        }
        if !matches!(pt, PanelType::Unknown) {
            let mut exprs: Vec<String> = Vec::new();
            let mut legends: Vec<Option<String>> = Vec::new();
            let empty_targets: Vec<RawTarget> = Vec::new();
            let targets: &Vec<RawTarget> = match &p.targets {
                Some(t) => t,
                None => &empty_targets,
            };
            let ghost tv = targets@;
            proof {
                assert(tv.skip(0) =~= tv);
            }
            let m = targets.len();
            let mut j: usize = 0;
            while j < m
                invariant
                    m == tv.len(),
                    tv == targets@,
                    j <= m,
                    target_exprs(tv).0 == exprs@.map(|k: int, e: String| e@) + target_exprs(
                        tv.skip(j as int),
                    ).0,
                    target_exprs(tv).1 == legends@.map(
                        |k: int, l: Option<String>|
                            match l {
                                Some(f) => Some(f@),
                                None => None,
                            },
                    ) + target_exprs(tv.skip(j as int)).1,
                decreases m - j,
            {
                let ghost trest = tv.skip(j as int);
                proof {
                    assert(trest[0] == tv[j as int]);
                    assert(trest.skip(1) =~= tv.skip(j + 1));
                }
                let t = &targets[j];
                match &t.expr {
                    Some(e) => {
                        let ghost e_before = exprs@.map(|k: int, e: String| e@);
                        let ghost l_before = legends@.map(
                            |k: int, l: Option<String>|
                                match l {
                                    Some(f) => Some(f@),
                                    None => None,
                                },
                        );
                        exprs.push(e.clone());
                        let lf: Option<String> = match &t.legend_format {
                            Some(f) => Some(f.clone()),
                            None => None,
                        };
                        legends.push(lf);
                        proof {
                            assert(exprs@.map(|k: int, e: String| e@) =~= e_before + seq![
                                tv[j as int].expr->0@,
                            ]);
                            assert(legends@.map(
                                |k: int, l: Option<String>|
                                    match l {
                                        Some(f) => Some(f@),
                                        None => None,
                                    },
                            ) =~= l_before + seq![
                                match tv[j as int].legend_format {
                                    Some(f) => Some(f@),
                                    None => None,
                                },
                            ]);
                            assert(e_before + seq![tv[j as int].expr->0@] + target_exprs(
                                tv.skip(j + 1),
                            ).0 =~= e_before + (seq![tv[j as int].expr->0@] + target_exprs(
                                tv.skip(j + 1),
                            ).0));
                            assert(l_before + seq![
                                match tv[j as int].legend_format {
                                    Some(f) => Some(f@),
                                    None => None,
                                },
                            ] + target_exprs(tv.skip(j + 1)).1 =~= l_before + (seq![
                                match tv[j as int].legend_format {
                                    Some(f) => Some(f@),
                                    None => None,
                                },
                            ] + target_exprs(tv.skip(j + 1)).1));
                        }
                    },
                    None => {},
                }
                j += 1;
            }
            proof {
                assert(tv.skip(m as int) =~= Seq::<RawTarget>::empty());
                assert(exprs@.map(|k: int, e: String| e@) + Seq::<Seq<char>>::empty()
                    =~= exprs@.map(|k: int, e: String| e@));
                assert(legends@.map(
                    |k: int, l: Option<String>|
                        match l {
                            Some(f) => Some(f@),
                            None => None,
                        },
                ) + Seq::<Option<Seq<char>>>::empty() =~= legends@.map(
                    |k: int, l: Option<String>|
                        match l {
                            Some(f) => Some(f@),
                            None => None,
                        },
                ));
            }
            if exprs.len() > 0 {
                let title: String = match &p.title {
                    Some(t) => t.clone(),
                    None => String::new(),
                };
                let grid: Option<GridPos> = match &p.grid_pos {
                    Some(g) => Some(GridPos { x: g.x, y: g.y, w: g.w, h: g.h }),
                    None => None,
                };
                let ghost q_before = qps_view(out.queries@);
                let qp = QueryPanel { title, exprs, legends, grid, panel_type: pt };
                out.queries.push(qp);
                proof {
                    assert(qps_view(out.queries@) =~= q_before.push(
                        panel_step(acc1, panels@[i as int]).0.last(),
                    ));
                    assert(qps_view(out.queries@) =~= panel_step(acc1, panels@[i as int]).0);
                }
            }
        } else {
            let is_row = str_eq(kind, "row");
            if kind.unicode_len() > 0 && !is_row {
                if out.skipped_panels < usize::MAX {
                    out.skipped_panels = out.skipped_panels + 1;
                }
            }
        }
        proof {
            assert(import_acc(*out) == panel_step(acc1, panels@[i as int]));
            assert(collected(import_acc(*old(out)), panels@) == collected(
                import_acc(*out),
                panels@.skip(i + 1),
            ));
        }
        i += 1;
    }
    proof {
        assert(panels@.skip(n as int) =~= Seq::<RawPanel>::empty());
    }
}

/// Turns a decoded dashboard description into the import result: the
/// title (empty when absent), the variable map of its templating section,
/// and the walked panel list with its skip count.
pub fn import_dashboard(raw: &RawDashboard) -> (r: DashboardImport)
    ensures
        r.title@ == (match raw.title {
            Some(t) => t@,
            None => Seq::<char>::empty(),
        }),
        r.vars.wf(),
        ({
            let list = match raw.templating {
                Some(t) => match t.list {
                    Some(l) => l@,
                    None => Seq::<RawVar>::empty(),
                },
                None => Seq::<RawVar>::empty(),
            };
            r.vars.pairs_view() == vars_folded(list, list.len() as int)
        }),
        import_acc(r) == collected(
            (
                Seq::<
                    (Seq<char>, Seq<Seq<char>>, Seq<Option<Seq<char>>>, Option<GridPos>, PanelType),
                >::empty(),
                0int,
            ),
            match raw.panels {
                Some(p) => p@,
                None => Seq::<RawPanel>::empty(),
            },
        ),
{
    let empty_vars: Vec<RawVar> = Vec::new();
    let vars = match &raw.templating {
        Some(t) => match &t.list {
            Some(l) => extract_vars(l),
            None => extract_vars(&empty_vars),
        },
        None => extract_vars(&empty_vars),
    };
    let title: String = match &raw.title {
        Some(t) => t.clone(),
        None => String::new(),
    };
    let mut out = DashboardImport { title, queries: Vec::new(), vars, skipped_panels: 0 };
    proof {
        assert(qps_view(out.queries@) =~= Seq::<
            (Seq<char>, Seq<Seq<char>>, Seq<Option<Seq<char>>>, Option<GridPos>, PanelType),
        >::empty());
    }
    match &raw.panels {
        Some(panels) => {
            collect_panels(&mut out, panels);
        },
        None => {},
    }
    out
}

/// Configuration accepted from the outside at startup.
#[derive(Debug)]
pub struct Config {
    pub prometheus_url: Option<String>,
    pub refresh_rate: Option<u64>,
    pub time_range: Option<String>,
    pub step: Option<String>,
    pub theme: Option<String>,
    pub grafana_json: Option<std::path::PathBuf>,
    pub vars: Option<Vec<(String, String)>>,
}

#[verifier::external_type_specification]
#[verifier::external_body]
pub struct ExPathBuf(std::path::PathBuf);

impl Default for Config {
    /// A configuration with nothing set.
    fn default() -> (r: Config)
        ensures
            r.prometheus_url is None,
            r.refresh_rate is None,
            r.time_range is None,
            r.step is None,
            r.theme is None,
            r.grafana_json is None,
            r.vars is None,
    {
        Config {
            prometheus_url: None,
            refresh_rate: None,
            time_range: None,
            step: None,
            theme: None,
            grafana_json: None,
            vars: None,
        }
    }
}

} // verus!
