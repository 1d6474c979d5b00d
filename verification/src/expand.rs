//! The expression expander: rewrites the step-derived rate-interval macro
//! and named-variable placeholders of a query expression into a
//! backend-ready string, and formats legend templates. Also the variable
//! map those rewrites draw from, and the `key=value` parser that feeds it.

use vstd::prelude::*;
use vstd::string::*;

use crate::text::contains_token;
use crate::text::dec_str;
use crate::text::first_eq;
use crate::text::lemma_replaced_absent;
use crate::text::lemma_first_eq;
use crate::text::replace_all;
use crate::text::replaced;
use crate::text::str_eq;

verus! {

/// Name-to-value mapping for dashboard template variables. Names are
/// unique; inserting an existing name moves it to the end with the new
/// value, so later inserts (explicit overrides) win.
#[derive(Debug)]
pub struct VarMap {
    pairs: Vec<(String, String)>,
}

impl VarMap {
    /// The pairs held, in substitution order, as character sequences.
    pub closed spec fn pairs_view(self) -> Seq<(Seq<char>, Seq<char>)> {
        self.pairs@.map(|i: int, p: (String, String)| (p.0@, p.1@))
    }

    /// Names are pairwise distinct.
    pub open spec fn wf(self) -> bool {
        forall|i: int, j: int|
            0 <= i < j < self.pairs_view().len() ==> self.pairs_view()[i].0
                != self.pairs_view()[j].0
    }

    /// Whether some pair carries the name `k`.
    pub open spec fn contains_key(self, k: Seq<char>) -> bool {
        exists|j: int| 0 <= j < self.pairs_view().len() && self.pairs_view()[j].0 == k
    }

    pub fn new() -> (r: VarMap)
        ensures
            r.wf(),
            r.pairs_view() =~= Seq::<(Seq<char>, Seq<char>)>::empty(),
    {
        VarMap { pairs: Vec::new() }
    }

    pub fn len(&self) -> (r: usize)
        ensures
            r == self.pairs_view().len(),
    {
        self.pairs.len()
    }

    /// The pair at position `i`, cloned.
    pub fn pair_at(&self, i: usize) -> (r: (String, String))
        requires
            i < self.pairs_view().len(),
        ensures
            (r.0@, r.1@) == self.pairs_view()[i as int],
    {
        let p = &self.pairs[i];
        (p.0.clone(), p.1.clone())
    }

    /// The value mapped to `name`, if any.
    pub fn get(&self, name: &str) -> (r: Option<String>)
        requires
            self.wf(),
        ensures
            match r {
                Some(v) => exists|j: int|
                    0 <= j < self.pairs_view().len() && self.pairs_view()[j] == (name@, v@),
                None => !self.contains_key(name@),
            },
    {
        let n = self.pairs.len();
        let mut i: usize = 0;
        while i < n
            invariant
                n == self.pairs_view().len(),
                i <= n,
                forall|j: int| 0 <= j < i ==> self.pairs_view()[j].0 != name@,
            decreases n - i,
        {
            if str_eq(self.pairs[i].0.as_str(), name) {
                let v = self.pairs[i].1.clone();
                proof {
                    assert(self.pairs_view()[i as int] == (name@, v@));
                }
                return Some(v);
            }
            i += 1;
        }
        None
    }

    /// Inserts `name -> value`. An existing pair with the same name is
    /// removed first, so the new pair always sits at the end.
    pub fn insert(&mut self, name: String, value: String)
        requires
            old(self).wf(),
        ensures
            final(self).wf(),
            old(self).contains_key(name@) ==> exists|j: int|
                0 <= j < old(self).pairs_view().len() && old(self).pairs_view()[j].0 == name@
                    && final(self).pairs_view() == old(self).pairs_view().remove(j).push(
                    (name@, value@),
                ),
            !old(self).contains_key(name@) ==> final(self).pairs_view() == old(
                self,
            ).pairs_view().push((name@, value@)),
    {
        let n = self.pairs.len();
        let mut i: usize = 0;
        while i < n
            invariant
                n == self.pairs_view().len(),
                i <= n,
                old(self).wf(),
                self.pairs_view() == old(self).pairs_view(),
                forall|j: int| 0 <= j < i ==> self.pairs_view()[j].0 != name@,
            decreases n - i,
        {
            if str_eq(self.pairs[i].0.as_str(), name.as_str()) {
                let ghost before = self.pairs_view();
                self.pairs.remove(i);
                proof {
                    assert(self.pairs_view() =~= before.remove(i as int));
                }
                let ghost gname = name@;
                let ghost gvalue = value@;
                self.pairs.push((name, value));
                proof {
                    let nv = self.pairs_view();
                    let m = before.len() as int;
                    assert(nv =~= before.remove(i as int).push((gname, gvalue)));
                    assert(before[i as int].0 == gname);
                    before.remove_ensures(i as int);
                    assert forall|a: int, b: int| 0 <= a < b < nv.len() implies nv[a].0
                        != nv[b].0 by {
                        let pa = if a < i { before[a] } else { before[a + 1] };
                        assert(nv[a] == pa);
                        if b == m - 1 {
                            assert(nv[b] == (gname, gvalue));
                            if a < i {
                                assert(before[a].0 != before[i as int].0);
                            } else {
                                assert(before[i as int].0 != before[a + 1].0);
                            }
                        } else {
                            let pb = if b < i { before[b] } else { before[b + 1] };
                            assert(nv[b] == pb);
                            if a < i && b < i {
                                assert(before[a].0 != before[b].0);
                            } else if a < i {
                                assert(before[a].0 != before[b + 1].0);
                            } else {
                                assert(before[a + 1].0 != before[b + 1].0);
                            }
                        }
                    }
                }
                return ;
            }
            i += 1;
        }
        let ghost gname = name@;
        let ghost gvalue = value@;
        self.pairs.push((name, value));
        proof {
            let nv = self.pairs_view();
            let ov = old(self).pairs_view();
            assert(nv =~= ov.push((gname, gvalue)));
            assert forall|a: int, b: int| 0 <= a < b < nv.len() implies nv[a].0 != nv[b].0 by {
                if b == nv.len() - 1 {
                    assert(nv[a] == ov[a]);
                } else {
                    assert(nv[a] == ov[a] && nv[b] == ov[b]);
                }
            }
        }
    }
}

/// The reserved auto-interval macro token.
pub open spec fn macro_token() -> Seq<char> {
    seq!['$', '_', '_', 'r', 'a', 't', 'e', '_', 'i', 'n', 't', 'e', 'r', 'v', 'a', 'l']
}

/// Seconds substituted for the macro: four times the step, never under a
/// minute.
pub open spec fn rate_interval_secs(step_ns: u64) -> int {
    let s = step_ns as int / 1_000_000_000;
    if 4 * s > 60 {
        4 * s
    } else {
        60
    }
}

/// The text substituted for the macro: the seconds with a trailing `'s'`.
pub open spec fn rate_interval_text(step_ns: u64) -> Seq<char> {
    dec_str(rate_interval_secs(step_ns) as nat).push('s')
}

/// The braced reference form `${name}`.
pub open spec fn braced_ref(name: Seq<char>) -> Seq<char> {
    seq!['$', '{'] + name + seq!['}']
}

/// The bare reference form `$name`.
pub open spec fn bare_ref(name: Seq<char>) -> Seq<char> {
    seq!['$'] + name
}

/// Variable substitution applied to `s` for the pairs from index `i` on:
/// for each pair in order, first the braced form then the bare form is
/// replaced by the value.
pub open spec fn vars_applied(s: Seq<char>, pairs: Seq<(Seq<char>, Seq<char>)>, i: int) -> Seq<
    char,
>
    decreases pairs.len() - i,
{
    if i < 0 || i >= pairs.len() {
        s
    } else {
        vars_applied(
            replaced(replaced(s, braced_ref(pairs[i].0), pairs[i].1), bare_ref(pairs[i].0), pairs[i].1),
            pairs,
            i + 1,
        )
    }
}

/// The fully expanded form of an expression: the rate-interval macro
/// rewritten first, then every variable reference.
pub open spec fn expanded(expr: Seq<char>, step_ns: u64, pairs: Seq<(Seq<char>, Seq<char>)>) -> Seq<
    char,
> {
    vars_applied(replaced(expr, macro_token(), rate_interval_text(step_ns)), pairs, 0)
}

/// Rewrites the macro token and the variable references of `expr` into a
/// backend-ready expression. Unresolved references are left intact.
pub fn expand_expr(expr: &str, step_ns: u64, vars: &VarMap) -> (r: String)
    ensures
        r@ == expanded(expr@, step_ns, vars.pairs_view()),
{
    let step_secs: u64 = step_ns / 1_000_000_000;
    let interval_secs: u64 = if step_secs > 15 {
        // 4 * step exceeds the one-minute floor exactly when step > 15s
        4 * step_secs
    } else {
        60
    };
    proof {
        assert(4 * step_secs <= 4 * (u64::MAX as int / 1_000_000_000));
        assert(interval_secs as int == rate_interval_secs(step_ns));
    }
    let mut interval = crate::text::u64_to_dec(interval_secs);
    interval.append("s");
    proof {
        reveal_strlit("s");
        assert("s"@ =~= seq!['s']);
        assert(interval@ =~= rate_interval_text(step_ns));
        reveal_strlit("$__rate_interval");
        assert("$__rate_interval"@ =~= macro_token());
    }
    let mut s = replace_all(expr, "$__rate_interval", interval.as_str());
    let n = vars.len();
    let mut i: usize = 0;
    while i < n
        invariant
            n == vars.pairs_view().len(),
            i <= n,
            expanded(expr@, step_ns, vars.pairs_view()) == vars_applied(
                s@,
                vars.pairs_view(),
                i as int,
            ),
        decreases n - i,
    {
        let (name, value) = vars.pair_at(i);
        let mut braced = String::from_str("${");
        braced.append(name.as_str());
        braced.append("}");
        proof {
            reveal_strlit("${");
            reveal_strlit("}");
            assert("${"@ =~= seq!['$', '{']);
            assert("}"@ =~= seq!['}']);
            assert(braced@ =~= braced_ref(name@));
        }
        let mut bare = String::from_str("$");
        bare.append(name.as_str());
        proof {
            reveal_strlit("$");
            assert("$"@ =~= seq!['$']);
            assert(bare@ =~= bare_ref(name@));
        }
        let s1 = replace_all(s.as_str(), braced.as_str(), value.as_str());
        let s2 = replace_all(s1.as_str(), bare.as_str(), value.as_str());
        s = s2;
        i += 1;
    }
    s
}

/// Law: variable substitution leaves a string untouched when it refers to
/// no mapped variable: if neither the braced nor the bare form of any
/// mapped name occurs in `s`, applying the whole map returns `s`.
pub proof fn lemma_vars_applied_absent(
    s: Seq<char>,
    pairs: Seq<(Seq<char>, Seq<char>)>,
    i: int,
)
    requires
        forall|j: int|
            0 <= j < pairs.len() ==> !contains_token(s, braced_ref((#[trigger] pairs[j]).0))
                && !contains_token(s, bare_ref(pairs[j].0)),
    ensures
        vars_applied(s, pairs, i) == s,
    decreases pairs.len() - i,
{
    if i < 0 || i >= pairs.len() {
    } else {
        lemma_replaced_absent(s, braced_ref(pairs[i].0), pairs[i].1);
        lemma_replaced_absent(s, bare_ref(pairs[i].0), pairs[i].1);
        lemma_vars_applied_absent(s, pairs, i + 1);
    }
}

/// Law: an expression that refers to no mapped variable and does not hold
/// the rate-interval macro comes out of expansion verbatim, so unresolved
/// references are left intact rather than substituted.
pub proof fn lemma_expand_leaves_unresolved(
    expr: Seq<char>,
    step_ns: u64,
    pairs: Seq<(Seq<char>, Seq<char>)>,
)
    requires
        !contains_token(expr, macro_token()),
        forall|j: int|
            0 <= j < pairs.len() ==> !contains_token(expr, braced_ref((#[trigger] pairs[j]).0))
                && !contains_token(expr, bare_ref(pairs[j].0)),
    ensures
        expanded(expr, step_ns, pairs) == expr,
{
    lemma_replaced_absent(expr, macro_token(), rate_interval_text(step_ns));
    lemma_vars_applied_absent(expr, pairs, 0);
}

/// The `{{label}}` placeholder form for a label name.
pub open spec fn label_ref(name: Seq<char>) -> Seq<char> {
    seq!['{', '{'] + name + seq!['}', '}']
}

/// Legend substitution applied to `s` for the labels from index `i` on.
pub open spec fn legend_applied(s: Seq<char>, labels: Seq<(Seq<char>, Seq<char>)>, i: int) -> Seq<
    char,
>
    decreases labels.len() - i,
{
    if i < 0 || i >= labels.len() {
        s
    } else {
        legend_applied(replaced(s, label_ref(labels[i].0), labels[i].1), labels, i + 1)
    }
}

/// Renders a legend template by replacing each `{{label}}` placeholder
/// with that label's value from the series' label set.
pub fn format_legend(fmt: &str, metric: &Vec<(String, String)>) -> (r: String)
    ensures
        r@ == legend_applied(
            fmt@,
            metric@.map(|i: int, p: (String, String)| (p.0@, p.1@)),
            0,
        ),
{
    let ghost labels = metric@.map(|i: int, p: (String, String)| (p.0@, p.1@));
    let mut s = fmt.to_owned();
    let n = metric.len();
    let mut i: usize = 0;
    while i < n
        invariant
            n == labels.len(),
            n == metric@.len(),
            i <= n,
            labels == metric@.map(|k: int, p: (String, String)| (p.0@, p.1@)),
            legend_applied(fmt@, labels, 0) == legend_applied(s@, labels, i as int),
        decreases n - i,
    {
        proof {
            assert(labels[i as int].0 =~= metric@[i as int].0@);
            assert(labels[i as int].1 =~= metric@[i as int].1@);
        }
        let mut pat = String::from_str("{{");
        pat.append(metric[i].0.as_str());
        pat.append("}}");
        proof {
            reveal_strlit("{{");
            reveal_strlit("}}");
            assert("{{"@ =~= seq!['{', '{']);
            assert("}}"@ =~= seq!['}', '}']);
            assert(pat@ =~= label_ref(labels[i as int].0));
        }
        s = replace_all(s.as_str(), pat.as_str(), metric[i].1.as_str());
        i += 1;
    }
    s
}

/// The error text for a `key=value` argument with no `=`.
pub open spec fn no_eq_msg(s: Seq<char>) -> Seq<char> {
    "invalid KEY=value: no `=` found in `"@ + s + "`"@
}

/// Splits a `key=value` argument at its first `=`.
pub fn parse_key_val(s: &str) -> (r: Result<(String, String), String>)
    ensures
        match r {
            Ok(kv) => {
                &&& first_eq(s@) >= 0
                &&& kv.0@ == s@.subrange(0, first_eq(s@))
                &&& kv.1@ == s@.subrange(first_eq(s@) + 1, s@.len() as int)
            },
            Err(m) => first_eq(s@) < 0 && m@ == no_eq_msg(s@),
        },
{
    let n = s.unicode_len();
    let mut i: usize = 0;
    while i < n
        invariant
            n == s@.len(),
            i <= n,
            forall|k: int| 0 <= k < i ==> s@[k] != '=',
        decreases n - i,
    {
        if s.get_char(i) == '=' {
            proof {
                lemma_first_eq(s@);
                assert(first_eq(s@) == i as int);
            }
            let key = s.substring_char(0, i).to_owned();
            let value = s.substring_char(i + 1, n).to_owned();
            return Ok((key, value));
        }
        i += 1;
    }
    proof {
        lemma_first_eq(s@);
    }
    let mut m = String::from_str("invalid KEY=value: no `=` found in `");
    m.append(s);
    m.append("`");
    Err(m)
}

} // verus!
