//! Panels and the refresh pipeline's pure half: turning a backend
//! response into display series (legend name, latest finite value,
//! finite-sample filtering, downsampling), building the per-panel error
//! text, and merging a refresh cycle's outcomes back into panel state.

use vstd::prelude::*;
use vstd::string::*;

use crate::engine::RawPoint;
use crate::engine::Series;
use crate::expand::legend_applied;
use crate::sample::downsample;
use crate::sample::downsample_spec;
use crate::sample::finite_bits;
use crate::sample::is_finite_bits;
use crate::sample::Sample;

verus! {

/// Visualization kinds a panel can carry.
#[derive(Clone, Copy, Debug, PartialEq, Eq, Structural)]
pub enum PanelType {
    Graph,
    Gauge,
    BarGauge,
    Table,
    Stat,
    Unknown,
}

/// How a panel's y axis is scaled.
#[derive(Clone, Copy, Debug, PartialEq, Eq, Structural)]
pub enum YAxisMode {
    /// Auto-scale from the data's extent.
    Auto,
    /// Always cover zero.
    ZeroBased,
}

/// Grid placement of an imported panel, in grid units.
#[derive(Clone, Copy, Debug, PartialEq, Eq, Structural)]
pub struct GridUnit {
    pub x: i32,
    pub y: i32,
    pub w: i32,
    pub h: i32,
}

/// One displayed line of a chart.
#[derive(Debug)]
pub struct SeriesView {
    /// Stable name, used for coloring and the legend.
    pub name: String,
    /// Latest finite value of the series, as double bits.
    pub value: Option<u64>,
    /// Display samples, already filtered to finite values and downsampled.
    pub points: Vec<Sample>,
    /// Whether the user keeps this series visible.
    pub visible: bool,
}

/// The mathematical value of a displayed series.
pub open spec fn sv_view(s: SeriesView) -> (Seq<char>, Option<u64>, Seq<Sample>, bool) {
    (s.name@, s.value, s.points@, s.visible)
}

/// The mathematical value of a list of displayed series.
pub open spec fn svs_view(v: Seq<SeriesView>) -> Seq<(Seq<char>, Option<u64>, Seq<Sample>, bool)> {
    v.map(|i: int, s: SeriesView| sv_view(s))
}

/// The state of one dashboard panel.
#[derive(Debug)]
pub struct PanelState {
    /// Panel title.
    pub title: String,
    /// Query expressions, in declared order.
    pub exprs: Vec<String>,
    /// Optional legend templates, parallel to `exprs`.
    pub legends: Vec<Option<String>>,
    /// Current display series.
    pub series: Vec<SeriesView>,
    /// Last error text, if the most recent refresh failed.
    pub last_error: Option<String>,
    /// Last query URL attempted, for diagnostics.
    pub last_url: Option<String>,
    /// Total number of display samples.
    pub last_samples: usize,
    /// Grid placement, when imported.
    pub grid: Option<GridUnit>,
    /// Y-axis scaling mode.
    pub y_axis_mode: YAxisMode,
    /// Visualization kind.
    pub panel_type: PanelType,
}

impl PanelState {
    /// The legend list stays parallel to the expression list.
    pub open spec fn wf(self) -> bool {
        self.legends@.len() == self.exprs@.len()
    }
}

/// How many samples a series keeps for display.
pub const DISPLAY_POINTS: usize = 200;

/// Lexicographic order on character sequences, by code point.
pub open spec fn lex_le(a: Seq<char>, b: Seq<char>) -> bool
    decreases a.len(),
{
    if a.len() == 0 {
        true
    } else if b.len() == 0 {
        false
    } else if (a[0] as u32) < (b[0] as u32) {
        true
    } else if (a[0] as u32) > (b[0] as u32) {
        false
    } else {
        lex_le(a.skip(1), b.skip(1))
    }
}

/// Runtime lexicographic comparison.
pub fn str_lex_le(a: &str, b: &str) -> (r: bool)
    ensures
        r == lex_le(a@, b@),
    decreases a@.len(),
{
    let n = a.unicode_len();
    let m = b.unicode_len();
    if n == 0 {
        return true;
    }
    if m == 0 {
        return false;
    }
    let ca = a.get_char(0);
    let cb = b.get_char(0);
    if (ca as u32) < (cb as u32) {
        true
    } else if (ca as u32) > (cb as u32) {
        false
    } else {
        let r = str_lex_le(a.substring_char(1, n), b.substring_char(1, m));
        proof {
            assert(a@.subrange(1, n as int) =~= a@.skip(1));
            assert(b@.subrange(1, m as int) =~= b@.skip(1));
        }
        r
    }
}

/// `x` inserted into `s` after every element ordered at or below it, so
/// repeated insertion sorts ascending and keeps equal elements in arrival
/// order.
pub open spec fn insert_sorted(x: Seq<char>, s: Seq<Seq<char>>) -> Seq<Seq<char>>
    decreases s.len(),
{
    if s.len() == 0 {
        seq![x]
    } else if lex_le(s[0], x) {
        seq![s[0]] + insert_sorted(x, s.skip(1))
    } else {
        seq![x] + s
    }
}

/// `s` sorted ascending by `lex_le`, by insertion from the left.
pub open spec fn sorted_texts(s: Seq<Seq<char>>) -> Seq<Seq<char>>
    decreases s.len(),
{
    if s.len() == 0 {
        s
    } else {
        insert_sorted(s.last(), sorted_texts(s.drop_last()))
    }
}

/// When the first `i` elements of `s` are at or below `x` and the element
/// at `i` (if any) is not, insertion places `x` exactly at index `i`.
proof fn lemma_insert_sorted_at(x: Seq<char>, s: Seq<Seq<char>>, i: int)
    requires
        0 <= i <= s.len(),
        forall|t: int| 0 <= t < i ==> lex_le(#[trigger] s[t], x),
        i < s.len() ==> !lex_le(s[i], x),
    ensures
        insert_sorted(x, s) == s.subrange(0, i) + seq![x] + s.subrange(i, s.len() as int),
    decreases s.len(),
{
    if s.len() == 0 {
        assert(insert_sorted(x, s) =~= s.subrange(0, 0) + seq![x] + s.subrange(0, 0));
    } else if i == 0 {
        assert(insert_sorted(x, s) =~= s.subrange(0, 0) + seq![x] + s.subrange(
            0,
            s.len() as int,
        ));
    } else {
        assert(lex_le(s[0], x));
        assert(forall|t: int| 0 <= t < s.skip(1).len() ==> s.skip(1)[t] == s[t + 1]);
        lemma_insert_sorted_at(x, s.skip(1), i - 1);
        assert(s.skip(1).subrange(0, i - 1) =~= s.subrange(1, i));
        assert(s.skip(1).subrange(i - 1, s.skip(1).len() as int) =~= s.subrange(
            i,
            s.len() as int,
        ));
        assert(insert_sorted(x, s) =~= s.subrange(0, i) + seq![x] + s.subrange(
            i,
            s.len() as int,
        ));
    }
}

/// Sorts label texts ascending; equal texts keep their order of arrival.
pub fn sort_texts(v: Vec<String>) -> (r: Vec<String>)
    ensures
        r@.map(|i: int, s: String| s@) == sorted_texts(v@.map(|i: int, s: String| s@)),
{
    let ghost vw = v@.map(|i: int, s: String| s@);
    let n = v.len();
    let mut r: Vec<String> = Vec::new();
    let mut i: usize = 0;
    while i < n
        invariant
            n == v@.len(),
            vw == v@.map(|i: int, s: String| s@),
            i <= n,
            r@.map(|i: int, s: String| s@) == sorted_texts(vw.take(i as int)),
        decreases n - i,
    {
        let ghost rw = r@.map(|i: int, s: String| s@);
        let x = v[i].clone();
        let m = r.len();
        let mut j: usize = 0;
        while j < m && str_lex_le(r[j].as_str(), x.as_str())
            invariant
                m == r@.len(),
                m == rw.len(),
                rw == r@.map(|i: int, s: String| s@),
                x@ == vw[i as int],
                i < n,
                n == vw.len(),
                j <= m,
                forall|t: int| 0 <= t < j ==> lex_le(#[trigger] rw[t], x@),
            decreases m - j,
        {
            j += 1;
        }
        proof {
            lemma_insert_sorted_at(x@, rw, j as int);
        }
        r.insert(j, x);
        proof {
            assert(r@.map(|i: int, s: String| s@) =~= rw.subrange(0, j as int) + seq![x@]
                + rw.subrange(j as int, rw.len() as int));
            assert(vw.take(i + 1).drop_last() =~= vw.take(i as int));
            assert(vw.take(i + 1).last() == vw[i as int]);
        }
        i += 1;
    }
    proof {
        assert(vw.take(n as int) =~= vw);
    }
    r
}

/// The parts joined with a comma and a space between neighbours.
pub open spec fn joined(parts: Seq<Seq<char>>) -> Seq<char>
    decreases parts.len(),
{
    if parts.len() == 0 {
        Seq::empty()
    } else if parts.len() == 1 {
        parts[0]
    } else {
        joined(parts.drop_last()) + ", "@ + parts.last()
    }
}

/// Joins the parts with `", "` between neighbours.
pub fn join_texts(v: &Vec<String>) -> (r: String)
    ensures
        r@ == joined(v@.map(|i: int, s: String| s@)),
{
    let ghost vw = v@.map(|i: int, s: String| s@);
    let n = v.len();
    let mut out = String::new();
    let mut i: usize = 0;
    while i < n
        invariant
            n == v@.len(),
            vw == v@.map(|i: int, s: String| s@),
            i <= n,
            out@ == joined(vw.take(i as int)),
        decreases n - i,
    {
        if i > 0 {
            out.append(", ");
        }
        out.append(v[i].as_str());
        proof {
            assert(vw.take(i + 1).drop_last() =~= vw.take(i as int));
            assert(vw.take(i + 1).last() == vw[i as int]);
            if i == 0 {
                assert(out@ =~= joined(vw.take(1)));
            }
        }
        i += 1;
    }
    proof {
        assert(vw.take(n as int) =~= vw);
    }
    out
}

/// The text of one label pair in a synthesized legend.
pub open spec fn label_text(k: Seq<char>, v: Seq<char>) -> Seq<char> {
    k + "=\""@ + v + "\""@
}

/// The texts of a label set, in label order.
pub open spec fn label_texts(labels: Seq<(Seq<char>, Seq<char>)>) -> Seq<Seq<char>> {
    labels.map(|i: int, p: (Seq<char>, Seq<char>)| label_text(p.0, p.1))
}

/// The display name of a series: the legend template applied when one is
/// declared, else the expression alone for an empty label set, else the
/// expression with the sorted `label="value"` pairs in braces.
pub open spec fn series_name(
    expr: Seq<char>,
    fmt: Option<Seq<char>>,
    labels: Seq<(Seq<char>, Seq<char>)>,
) -> Seq<char> {
    match fmt {
        Some(f) => legend_applied(f, labels, 0),
        None => if labels.len() == 0 {
            expr
        } else {
            expr + " {"@ + joined(sorted_texts(label_texts(labels))) + "}"@
        },
    }
}

/// Builds the display name of one series.
pub fn build_series_name(
    expr_expanded: &str,
    legend_fmt: Option<&String>,
    metric: &Vec<(String, String)>,
) -> (r: String)
    ensures
        r@ == series_name(
            expr_expanded@,
            match legend_fmt {
                Some(f) => Some(f@),
                None => None,
            },
            metric@.map(|i: int, p: (String, String)| (p.0@, p.1@)),
        ),
{
    let ghost labels = metric@.map(|i: int, p: (String, String)| (p.0@, p.1@));
    match legend_fmt {
        Some(f) => crate::expand::format_legend(f.as_str(), metric),
        None => {
            if metric.len() == 0 {
                expr_expanded.to_owned()
            } else {
                let mut texts: Vec<String> = Vec::new();
                let n = metric.len();
                let mut i: usize = 0;
                while i < n
                    invariant
                        n == metric@.len(),
                        labels == metric@.map(|i: int, p: (String, String)| (p.0@, p.1@)),
                        i <= n,
                        texts@.len() == i,
                        forall|j: int|
                            0 <= j < i ==> (#[trigger] texts@[j])@ == label_texts(labels)[j],
                    decreases n - i,
                {
                    let mut t = metric[i].0.clone();
                    t.append("=\"");
                    t.append(metric[i].1.as_str());
                    t.append("\"");
                    proof {
                        assert(labels[i as int] == (metric@[i as int].0@, metric@[i as int].1@));
                        assert(t@ == label_text(labels[i as int].0, labels[i as int].1));
                        assert(label_texts(labels)[i as int] == label_text(
                            labels[i as int].0,
                            labels[i as int].1,
                        ));
                    }
                    texts.push(t);
                    i += 1;
                }
                proof {
                    assert(texts@.map(|i: int, s: String| s@) =~= label_texts(labels));
                }
                let sorted = sort_texts(texts);
                let body = join_texts(&sorted);
                let mut out = expr_expanded.to_owned();
                out.append(" {");
                out.append(body.as_str());
                out.append("}");
                out
            }
        },
    }
}

/// The latest finite value among a series' points: the value bits of the
/// last point whose text parsed and is finite.
pub open spec fn latest_finite(values: Seq<RawPoint>) -> Option<u64>
    decreases values.len(),
{
    if values.len() == 0 {
        None
    } else {
        match values.last().val_bits {
            Some(vb) => if finite_bits(vb) {
                Some(vb)
            } else {
                latest_finite(values.drop_last())
            },
            None => latest_finite(values.drop_last()),
        }
    }
}

/// Finds the latest finite value of a point list.
pub fn find_latest_finite(values: &Vec<RawPoint>) -> (r: Option<u64>)
    ensures
        r == latest_finite(values@),
{
    let mut i = values.len();
    proof {
        assert(values@.take(values@.len() as int) =~= values@);
    }
    while i > 0
        invariant
            i <= values@.len(),
            latest_finite(values@) == latest_finite(values@.take(i as int)),
        decreases i,
    {
        i -= 1;
        match values[i].val_bits {
            Some(vb) => {
                if is_finite_bits(vb) {
                    proof {
                        assert(values@.take(i + 1).last() == values@[i as int]);
                    }
                    return Some(vb);
                }
            },
            None => {},
        }
        proof {
            assert(values@.take(i + 1).last() == values@[i as int]);
            assert(values@.take(i + 1).drop_last() =~= values@.take(i as int));
        }
    }
    proof {
        assert(values@.take(0) =~= Seq::<RawPoint>::empty());
    }
    None
}

/// The finite samples of a point list, in order: points whose value text
/// parsed and is finite, carried over as samples.
pub open spec fn finite_samples(values: Seq<RawPoint>) -> Seq<Sample>
    decreases values.len(),
{
    if values.len() == 0 {
        Seq::empty()
    } else {
        let head = match values[0].val_bits {
            Some(vb) => if finite_bits(vb) {
                seq![Sample { ts_bits: values[0].ts_bits, val_bits: vb }]
            } else {
                Seq::empty()
            },
            None => Seq::empty(),
        };
        head + finite_samples(values.skip(1))
    }
}

/// Keeps the finite samples of a point list.
pub fn filter_finite(values: &Vec<RawPoint>) -> (r: Vec<Sample>)
    ensures
        r@ == finite_samples(values@),
{
    let n = values.len();
    let mut r: Vec<Sample> = Vec::new();
    proof {
        assert(values@.skip(0) =~= values@);
        assert(Seq::<Sample>::empty() + finite_samples(values@) =~= finite_samples(values@));
    }
    let mut i: usize = 0;
    while i < n
        invariant
            n == values@.len(),
            i <= n,
            finite_samples(values@) == r@ + finite_samples(values@.skip(i as int)),
        decreases n - i,
    {
        let ghost rest = values@.skip(i as int);
        proof {
            assert(rest[0] == values@[i as int]);
            assert(rest.skip(1) =~= values@.skip(i + 1));
        }
        match values[i].val_bits {
            Some(vb) => {
                if is_finite_bits(vb) {
                    r.push(Sample { ts_bits: values[i].ts_bits, val_bits: vb });
                }
            },
            None => {},
        }
        i += 1;
    }
    proof {
        assert(values@.skip(n as int) =~= Seq::<RawPoint>::empty());
        assert(r@ + Seq::<Sample>::empty() =~= r@);
    }
    r
}


/// The display form of one backend series for an expression: name, latest
/// finite value, and the finite samples reduced to the display bound.
pub open spec fn displayed_of(
    expr: Seq<char>,
    fmt: Option<Seq<char>>,
    sv: (Seq<(Seq<char>, Seq<char>)>, Seq<RawPoint>),
) -> (Seq<char>, Option<u64>, Seq<Sample>, bool) {
    (
        series_name(expr, fmt, sv.0),
        latest_finite(sv.1),
        downsample_spec(finite_samples(sv.1), DISPLAY_POINTS as int),
        true,
    )
}

/// Builds the display series of one successful query outcome.
pub fn build_series_views(
    expr_expanded: &str,
    legend_fmt: Option<&String>,
    raw: &Vec<Series>,
) -> (r: Vec<SeriesView>)
    ensures
        svs_view(r@) == crate::engine::series_list_view(raw@).map(
            |i: int, sv: (Seq<(Seq<char>, Seq<char>)>, Seq<RawPoint>)|
                displayed_of(
                    expr_expanded@,
                    match legend_fmt {
                        Some(f) => Some(f@),
                        None => None,
                    },
                    sv,
                ),
        ),
{
    let ghost fmtv: Option<Seq<char>> = match legend_fmt {
        Some(f) => Some(f@),
        None => None,
    };
    let n = raw.len();
    let mut r: Vec<SeriesView> = Vec::new();
    let mut i: usize = 0;
    while i < n
        invariant
            n == raw@.len(),
            fmtv == (match legend_fmt {
                Some(f) => Some(f@),
                None => None,
            }),
            i <= n,
            r@.len() == i,
            forall|j: int|
                0 <= j < i ==> sv_view(#[trigger] r@[j]) == displayed_of(
                    expr_expanded@,
                    fmtv,
                    crate::engine::series_view(raw@[j]),
                ),
        decreases n - i,
    {
        let one = &raw[i];
        let name = build_series_name(expr_expanded, legend_fmt, &one.metric);
        let value = find_latest_finite(&one.values);
        let finite = filter_finite(&one.values);
        let points = downsample(finite, DISPLAY_POINTS);
        r.push(SeriesView { name, value, points, visible: true });
        i += 1;
    }
    proof {
        assert(svs_view(r@) =~= crate::engine::series_list_view(raw@).map(
            |i: int, sv: (Seq<(Seq<char>, Seq<char>)>, Seq<RawPoint>)|
                displayed_of(expr_expanded@, fmtv, sv),
        ));
    }
    r
}

/// The panel error text for a failed query.
pub open spec fn query_failed_msg(expr: Seq<char>, err: Seq<char>) -> Seq<char> {
    "query_range failed for `"@ + expr + "`: "@ + err
}

/// Builds the panel error text for a failed query.
pub fn query_failed_message(expr: &str, err: &str) -> (r: String)
    ensures
        r@ == query_failed_msg(expr@, err@),
{
    let mut m = String::from_str("query_range failed for `");
    m.append(expr);
    m.append("`: ");
    m.append(err);
    m
}

/// The display series gathered from the first `i` outcomes: each
/// successful outcome contributes its series in order, under its own
/// expression and legend template; failures contribute nothing.
pub open spec fn gathered_upto(
    exprs: Seq<Seq<char>>,
    legends: Seq<Option<Seq<char>>>,
    outs: Seq<Result<Seq<(Seq<(Seq<char>, Seq<char>)>, Seq<RawPoint>)>, Seq<char>>>,
    i: int,
) -> Seq<(Seq<char>, Option<u64>, Seq<Sample>, bool)>
    decreases i,
{
    if i <= 0 {
        Seq::empty()
    } else {
        gathered_upto(exprs, legends, outs, i - 1) + (match outs[i - 1] {
            Ok(svs) => svs.map(
                |j: int, sv: (Seq<(Seq<char>, Seq<char>)>, Seq<RawPoint>)|
                    displayed_of(exprs[i - 1], legends[i - 1], sv),
            ),
            Err(e) => Seq::empty(),
        })
    }
}

/// The panel error after the first `i` outcomes: the failure text of the
/// last failing expression, or nothing when every outcome succeeded.
pub open spec fn final_error_upto(
    exprs: Seq<Seq<char>>,
    outs: Seq<Result<Seq<(Seq<(Seq<char>, Seq<char>)>, Seq<RawPoint>)>, Seq<char>>>,
    i: int,
) -> Option<Seq<char>>
    decreases i,
{
    if i <= 0 {
        None
    } else {
        match outs[i - 1] {
            Err(e) => Some(query_failed_msg(exprs[i - 1], e)),
            Ok(svs) => final_error_upto(exprs, outs, i - 1),
        }
    }
}

/// The total number of display samples over a series list.
pub open spec fn total_points(svs: Seq<(Seq<char>, Option<u64>, Seq<Sample>, bool)>) -> int
    decreases svs.len(),
{
    if svs.len() == 0 {
        0
    } else {
        total_points(svs.drop_last()) + svs.last().2.len()
    }
}

/// An integer clamped to what a count field can hold.
pub open spec fn clamped_count(total: int) -> int {
    if total <= usize::MAX {
        total
    } else {
        usize::MAX as int
    }
}

/// Counts the display samples of a series list, saturating at the machine
/// limit.
pub fn count_samples(series: &Vec<SeriesView>) -> (r: usize)
    ensures
        r == clamped_count(total_points(svs_view(series@))),
{
    let n = series.len();
    let mut acc: usize = 0;
    let mut i: usize = 0;
    proof {
        assert(svs_view(series@).take(0) =~= Seq::<
            (Seq<char>, Option<u64>, Seq<Sample>, bool),
        >::empty());
    }
    while i < n
        invariant
            n == series@.len(),
            i <= n,
            acc == clamped_count(total_points(svs_view(series@).take(i as int))),
        decreases n - i,
    {
        let l = series[i].points.len();
        proof {
            assert(svs_view(series@).take(i + 1).drop_last() =~= svs_view(series@).take(i as int));
            assert(svs_view(series@).take(i + 1).last() == sv_view(series@[i as int]));
        }
        if acc <= usize::MAX - l {
            acc += l;
        } else {
            acc = usize::MAX;
        }
        i += 1;
    }
    proof {
        assert(svs_view(series@).take(n as int) =~= svs_view(series@));
    }
    acc
}

/// One query of a refresh cycle, ready to issue: the expanded expression,
/// the URL it will use, and its exact key.
#[derive(Debug)]
pub struct PreparedQuery {
    pub expr_expanded: String,
    pub url: String,
    pub key: crate::engine::QueryKey,
}

/// The start timestamp of a window ending at `end_ts`: the end minus the
/// range in whole seconds.
pub open spec fn window_start(end_ts: i64, range_ns: u64) -> int {
    end_ts - range_ns as int / 1_000_000_000
}

/// Expands every expression of a panel and pairs it with its query URL
/// and exact key, all sharing the one `end_ts` of the refresh cycle.
pub fn prepare_queries(
    engine: &crate::engine::QueryEngine,
    exprs: &Vec<String>,
    range_ns: u64,
    step_ns: u64,
    vars: &crate::expand::VarMap,
    end_ts: i64,
) -> (r: Vec<PreparedQuery>)
    requires
        -1_000_000_000_000_000 <= end_ts <= 1_000_000_000_000_000,
    ensures
        r@.len() == exprs@.len(),
        forall|i: int|
            0 <= i < exprs@.len() ==> {
                let e = crate::expand::expanded(exprs@[i]@, step_ns, vars.pairs_view());
                let start = window_start(end_ts, range_ns);
                &&& (#[trigger] r@[i]).expr_expanded@ == e
                &&& r@[i].url@ == crate::engine::query_range_url(
                    engine.base_view(),
                    e,
                    start,
                    end_ts as int,
                    step_ns,
                )
                &&& crate::engine::key_view(r@[i].key) == (e, start, end_ts as int, step_ns as int)
            },
{
    let range_secs: i64 = (range_ns / 1_000_000_000) as i64;
    let start: i64 = end_ts - range_secs;
    let n = exprs.len();
    let mut r: Vec<PreparedQuery> = Vec::new();
    let mut i: usize = 0;
    while i < n
        invariant
            n == exprs@.len(),
            start == window_start(end_ts, range_ns),
            -1_000_000_000_000_000 <= end_ts <= 1_000_000_000_000_000,
            i <= n,
            r@.len() == i,
            forall|j: int|
                0 <= j < i ==> {
                    let e = crate::expand::expanded(exprs@[j]@, step_ns, vars.pairs_view());
                    &&& (#[trigger] r@[j]).expr_expanded@ == e
                    &&& r@[j].url@ == crate::engine::query_range_url(
                        engine.base_view(),
                        e,
                        window_start(end_ts, range_ns),
                        end_ts as int,
                        step_ns,
                    )
                    &&& crate::engine::key_view(r@[j].key) == (
                        e,
                        window_start(end_ts, range_ns),
                        end_ts as int,
                        step_ns as int,
                    )
                },
        decreases n - i,
    {
        let e = crate::expand::expand_expr(exprs[i].as_str(), step_ns, vars);
        let url = engine.build_query_range_url(e.as_str(), start, end_ts, step_ns);
        let key = crate::engine::QueryKey {
            expr: e.clone(),
            start,
            end: end_ts,
            step_ns,
        };
        r.push(PreparedQuery { expr_expanded: e, url, key });
        i += 1;
    }
    r
}

/// Merges one refresh cycle's outcomes into the panel: the gathered
/// display series replace the panel's series, unless every expression
/// failed and nothing was gathered, in which case the previous series
/// stay on display; the last failure's text (or none) becomes the
/// panel's error; the last attempted URL and the total sample count are
/// updated whatever the outcomes were.
pub fn integrate_outcomes(
    p: &mut PanelState,
    prepared: &Vec<PreparedQuery>,
    outcomes: Vec<Result<Vec<Series>, String>>,
)
    requires
        old(p).wf(),
        prepared@.len() == old(p).exprs@.len(),
        outcomes@.len() == old(p).exprs@.len(),
    ensures
        final(p).wf(),
        ({
            let exprs = prepared@.map(|i: int, q: PreparedQuery| q.expr_expanded@);
            let legends = old(p).legends@.map(
                |i: int, l: Option<String>|
                    match l {
                        Some(f) => Some(f@),
                        None => None,
                    },
            );
            let outs = outcomes@.map(
                |i: int, o: Result<Vec<Series>, String>|
                    match o {
                        Ok(v) => Ok::<_, Seq<char>>(crate::engine::series_list_view(v@)),
                        Err(e) => Err::<Seq<(Seq<(Seq<char>, Seq<char>)>, Seq<RawPoint>)>, _>(e@),
                    },
            );
            let gathered = gathered_upto(exprs, legends, outs, outs.len() as int);
            let err = final_error_upto(exprs, outs, outs.len() as int);
            &&& svs_view(final(p).series@) == (if err is Some && gathered.len() == 0 {
                svs_view(old(p).series@)
            } else {
                gathered
            })
            &&& (match final(p).last_error {
                Some(m) => err == Some(m@),
                None => err is None,
            })
            &&& (match final(p).last_url {
                Some(u) => if prepared@.len() > 0 {
                    u@ == prepared@.last().url@
                } else {
                    old(p).last_url is Some && u@ == (old(p).last_url->0)@
                },
                None => prepared@.len() == 0 && old(p).last_url is None,
            })
            &&& final(p).last_samples == clamped_count(total_points(svs_view(final(p).series@)))
        }),
        final(p).title == old(p).title,
        final(p).exprs == old(p).exprs,
        final(p).legends == old(p).legends,
        final(p).grid == old(p).grid,
        final(p).y_axis_mode == old(p).y_axis_mode,
        final(p).panel_type == old(p).panel_type,
{
    let ghost exprs = prepared@.map(|i: int, q: PreparedQuery| q.expr_expanded@);
    let ghost legends = old(p).legends@.map(
        |i: int, l: Option<String>|
            match l {
                Some(f) => Some(f@),
                None => None,
            },
    );
    let ghost outs = outcomes@.map(
        |i: int, o: Result<Vec<Series>, String>|
            match o {
                Ok(v) => Ok::<_, Seq<char>>(crate::engine::series_list_view(v@)),
                Err(e) => Err::<Seq<(Seq<(Seq<char>, Seq<char>)>, Seq<RawPoint>)>, _>(e@),
            },
    );
    let n = outcomes.len();
    let mut results: Vec<SeriesView> = Vec::new();
    let mut err: Option<String> = None;
    let mut i: usize = 0;
    while i < n
        invariant
            n == outcomes@.len(),
            n == prepared@.len(),
            n == old(p).legends@.len(),
            p == old(p),
            exprs == prepared@.map(|i: int, q: PreparedQuery| q.expr_expanded@),
            legends == old(p).legends@.map(
                |i: int, l: Option<String>|
                    match l {
                        Some(f) => Some(f@),
                        None => None,
                    },
            ),
            outs == outcomes@.map(
                |i: int, o: Result<Vec<Series>, String>|
                    match o {
                        Ok(v) => Ok::<_, Seq<char>>(crate::engine::series_list_view(v@)),
                        Err(e) => Err::<Seq<(Seq<(Seq<char>, Seq<char>)>, Seq<RawPoint>)>, _>(
                            e@,
                        ),
                    },
            ),
            i <= n,
            svs_view(results@) == gathered_upto(exprs, legends, outs, i as int),
            (match err {
                Some(m) => final_error_upto(exprs, outs, i as int) == Some(m@),
                None => final_error_upto(exprs, outs, i as int) is None,
            }),
        decreases n - i,
    {
        let legend_ref: Option<&String> = match &p.legends[i] {
            Some(f) => Some(f),
            None => None,
        };
        match &outcomes[i] {
            Ok(series) => {
                let mut views = build_series_views(
                    prepared[i].expr_expanded.as_str(),
                    legend_ref,
                    series,
                );
                let ghost before = results@;
                let ghost vw = views@;
                results.append(&mut views);
                proof {
                    let g_i = gathered_upto(exprs, legends, outs, i as int);
                    let g_i1 = gathered_upto(exprs, legends, outs, i + 1);
                    assert(exprs[i as int] == prepared@[i as int].expr_expanded@);
                    assert(legends[i as int] == (match legend_ref {
                        Some(f) => Some(f@),
                        None => None,
                    }));
                    assert(outs[i as int] == Ok::<_, Seq<char>>(
                        crate::engine::series_list_view(series@),
                    ));
                    assert(results@ =~= before + vw);
                    assert(svs_view(results@) =~= g_i + svs_view(vw));
                    assert(svs_view(results@) =~= g_i1);
                }
            },
            Err(e) => {
                err = Some(query_failed_message(prepared[i].expr_expanded.as_str(), e.as_str()));
            },
        }
        i += 1;
    }
    let url: Option<String> = if prepared.len() > 0 {
        Some(prepared[prepared.len() - 1].url.clone())
    } else {
        None
    };
    if err.is_some() && results.len() == 0 {
        // every expression failed: the previously displayed series stay
    } else {
        p.series = results;
    }
    p.last_samples = count_samples(&p.series);
    match url {
        Some(u) => {
            p.last_url = Some(u);
        },
        None => {},
    }
    p.last_error = err;
}

/// The built-in demonstration queries used when none are provided.
pub open spec fn default_query_exprs() -> Seq<Seq<char>> {
    seq![
        "sum(rate(http_requests_total{job!=\"prometheus\"}[5m]))"@,
        "sum by (instance) (process_cpu_seconds_total)"@,
        "up"@,
    ]
}

/// The panels a query list denotes: one graph panel per expression,
/// titled by the expression, with no legend template and nothing fetched
/// yet.
pub open spec fn is_query_panel(p: PanelState, q: Seq<char>) -> bool {
    &&& p.title@ == q
    &&& p.exprs@.len() == 1
    &&& p.exprs@[0]@ == q
    &&& p.legends@ =~= seq![Option::<String>::None]
    &&& p.series@.len() == 0
    &&& p.last_error is None
    &&& p.last_url is None
    &&& p.last_samples == 0
    &&& p.grid is None
    &&& p.y_axis_mode == YAxisMode::Auto
    &&& p.panel_type == PanelType::Graph
}

/// Builds the panel list for a set of ad-hoc queries; an empty set falls
/// back to the built-in demonstration queries.
pub fn default_queries(provided: Vec<String>) -> (r: Vec<PanelState>)
    ensures
        ({
            let qs = if provided@.len() == 0 {
                default_query_exprs()
            } else {
                provided@.map(|i: int, s: String| s@)
            };
            &&& r@.len() == qs.len()
            &&& forall|i: int| 0 <= i < qs.len() ==> is_query_panel(#[trigger] r@[i], qs[i])
        }),
{
    let mut queries = provided;
    if queries.len() == 0 {
        queries.push(String::from_str("sum(rate(http_requests_total{job!=\"prometheus\"}[5m]))"));
        queries.push(String::from_str("sum by (instance) (process_cpu_seconds_total)"));
        queries.push(String::from_str("up"));
        proof {
            assert(queries@.map(|i: int, s: String| s@) =~= default_query_exprs());
        }
    }
    let ghost qs = queries@.map(|i: int, s: String| s@);
    let n = queries.len();
    let mut r: Vec<PanelState> = Vec::new();
    let mut i: usize = 0;
    while i < n
        invariant
            n == queries@.len(),
            qs == queries@.map(|i: int, s: String| s@),
            i <= n,
            r@.len() == i,
            forall|j: int| 0 <= j < i ==> is_query_panel(#[trigger] r@[j], qs[j]),
        decreases n - i,
    {
        let q = queries[i].clone();
        let title = q.clone();
        let mut exprs: Vec<String> = Vec::new();
        exprs.push(q);
        let mut legends: Vec<Option<String>> = Vec::new();
        legends.push(None);
        let panel = PanelState {
            title,
            exprs,
            legends,
            series: Vec::new(),
            last_error: None,
            last_url: None,
            last_samples: 0,
            grid: None,
            y_axis_mode: YAxisMode::Auto,
            panel_type: PanelType::Graph,
        };
        r.push(panel);
        i += 1;
    }
    r
}

} // verus!
