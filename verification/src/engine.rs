//! The query engine's verified core: the exact query key, the result
//! cache, the in-flight deduplication table with its waiter counts, the
//! deterministic query URL builder, response interpretation, and the
//! retry backoff schedule. The network calls themselves, the channels
//! that deliver results to waiters, and the sleeps between attempts are
//! driven from outside against these contracts.

use vstd::prelude::*;
use vstd::string::*;
use vstd::utf8::encode_utf8;

use crate::text::dec_str;
use crate::text::dec_str_signed;
use crate::text::digit_char;
use crate::text::i64_to_dec;
use crate::text::str_eq;
use crate::text::u64_to_dec;

verus! {

/// One parsed point of a backend series: the timestamp as double bits and
/// the value's double bits, absent when the value text did not parse as a
/// number.
#[derive(Clone, Copy, Debug, PartialEq)]
pub struct RawPoint {
    pub ts_bits: u64,
    pub val_bits: Option<u64>,
}

/// One series of a backend response: its label set and its points, in
/// response order.
#[derive(Debug)]
pub struct Series {
    pub metric: Vec<(String, String)>,
    pub values: Vec<RawPoint>,
}

/// A backend response body, already decoded from its wire form.
#[derive(Debug)]
pub struct QueryRangeResponse {
    pub status: String,
    pub data: QueryRangeData,
}

/// The payload of a backend response.
#[derive(Debug)]
pub struct QueryRangeData {
    pub result_type: String,
    pub result: Vec<Series>,
}

/// The mathematical value of a series: label pairs and points.
pub open spec fn series_view(s: Series) -> (Seq<(Seq<char>, Seq<char>)>, Seq<RawPoint>) {
    (s.metric@.map(|i: int, p: (String, String)| (p.0@, p.1@)), s.values@)
}

/// The mathematical value of a list of series.
pub open spec fn series_list_view(v: Seq<Series>) -> Seq<
    (Seq<(Seq<char>, Seq<char>)>, Seq<RawPoint>),
> {
    v.map(|i: int, s: Series| series_view(s))
}

/// The exact identity of a query: expression, start, end, and step. Two
/// requests are the same query exactly when all four fields are equal.
#[derive(Debug)]
pub struct QueryKey {
    pub expr: String,
    pub start: i64,
    pub end: i64,
    pub step_ns: u64,
}

/// The mathematical value of a query key.
pub open spec fn key_view(k: QueryKey) -> (Seq<char>, int, int, int) {
    (k.expr@, k.start as int, k.end as int, k.step_ns as int)
}

/// Whether two keys denote the same query.
pub fn key_eq(a: &QueryKey, b: &QueryKey) -> (r: bool)
    ensures
        r == (key_view(*a) == key_view(*b)),
{
    str_eq(a.expr.as_str(), b.expr.as_str()) && a.start == b.start && a.end == b.end && a.step_ns
        == b.step_ns
}

/// A copy of a key, same query.
pub fn key_dup(k: &QueryKey) -> (r: QueryKey)
    ensures
        key_view(r) == key_view(*k),
{
    QueryKey { expr: k.expr.clone(), start: k.start, end: k.end, step_ns: k.step_ns }
}

/// The first value stored under `k`, scanning the entries in order.
pub open spec fn lookup<V>(entries: Seq<((Seq<char>, int, int, int), V)>, k: (Seq<char>, int, int, int)) -> Option<V>
    decreases entries.len(),
{
    if entries.len() == 0 {
        None
    } else if entries[0].0 == k {
        Some(entries[0].1)
    } else {
        lookup(entries.skip(1), k)
    }
}

/// No entry carries `k`.
pub open spec fn lookup_absent<V>(
    entries: Seq<((Seq<char>, int, int, int), V)>,
    k: (Seq<char>, int, int, int),
) -> bool {
    forall|j: int| 0 <= j < entries.len() ==> (#[trigger] entries[j]).0 != k
}

/// When entry `i` is the first to carry `k`, `lookup` returns its value.
pub proof fn lemma_lookup_at<V>(
    entries: Seq<((Seq<char>, int, int, int), V)>,
    k: (Seq<char>, int, int, int),
    i: int,
)
    requires
        0 <= i < entries.len(),
        entries[i].0 == k,
        forall|j: int| 0 <= j < i ==> (#[trigger] entries[j]).0 != k,
    ensures
        lookup(entries, k) == Some(entries[i].1),
    decreases i,
{
    if i > 0 {
        assert(forall|j: int|
            0 <= j < entries.skip(1).len() ==> entries.skip(1)[j] == entries[j + 1]);
        lemma_lookup_at(entries.skip(1), k, i - 1);
    }
}

/// When no entry carries `k`, `lookup` returns nothing.
pub proof fn lemma_lookup_none<V>(
    entries: Seq<((Seq<char>, int, int, int), V)>,
    k: (Seq<char>, int, int, int),
)
    requires
        lookup_absent(entries, k),
    ensures
        lookup(entries, k) is None,
    decreases entries.len(),
{
    if entries.len() > 0 {
        assert(forall|j: int|
            0 <= j < entries.skip(1).len() ==> entries.skip(1)[j] == entries[j + 1]);
        lemma_lookup_none(entries.skip(1), k);
    }
}

/// Law: storing under a fresh key makes that key hit with exactly the
/// stored value and leaves every other key's lookup unchanged.
pub proof fn lemma_lookup_push<V>(
    entries: Seq<((Seq<char>, int, int, int), V)>,
    k: (Seq<char>, int, int, int),
    d: V,
    k2: (Seq<char>, int, int, int),
)
    requires
        lookup_absent(entries, k),
    ensures
        lookup(entries.push((k, d)), k) == Some(d),
        k2 != k ==> lookup(entries.push((k, d)), k2) == lookup(entries, k2),
    decreases entries.len(),
{
    if entries.len() == 0 {
        assert(entries.push((k, d))[0] == (k, d));
        assert(entries.push((k, d)).skip(1) =~= entries);
    } else {
        assert(forall|j: int|
            0 <= j < entries.skip(1).len() ==> entries.skip(1)[j] == entries[j + 1]);
        lemma_lookup_push(entries.skip(1), k, d, k2);
        assert(entries.push((k, d)).skip(1) =~= entries.skip(1).push((k, d)));
        assert(entries.push((k, d))[0] == entries[0]);
    }
}

/// Law: replacing the entry that carries `k` (moving it to the end with a
/// new value) makes `k` hit with exactly the new value and leaves every
/// other key's lookup unchanged.
pub proof fn lemma_lookup_replace<V>(
    entries: Seq<((Seq<char>, int, int, int), V)>,
    j: int,
    k: (Seq<char>, int, int, int),
    d: V,
    k2: (Seq<char>, int, int, int),
)
    requires
        0 <= j < entries.len(),
        entries[j].0 == k,
        forall|a: int, b: int|
            0 <= a < b < entries.len() ==> (#[trigger] entries[a]).0 != (#[trigger] entries[b]).0,
    ensures
        lookup(entries.remove(j).push((k, d)), k) == Some(d),
        k2 != k ==> lookup(entries.remove(j).push((k, d)), k2) == lookup(entries, k2),
{
    entries.remove_ensures(j);
    let removed = entries.remove(j);
    assert forall|t: int| 0 <= t < removed.len() implies (#[trigger] removed[t]).0 != k by {
        if t < j {
            assert(removed[t] == entries[t]);
        } else {
            assert(removed[t] == entries[t + 1]);
        }
    }
    lemma_lookup_push(removed, k, d, k2);
    if k2 != k {
        lemma_lookup_skip_one(entries, j, k2);
    }
}

/// Removing an entry whose key is not `k2` does not change what `k2`
/// finds, provided keys are unique.
proof fn lemma_lookup_skip_one<V>(
    entries: Seq<((Seq<char>, int, int, int), V)>,
    j: int,
    k2: (Seq<char>, int, int, int),
)
    requires
        0 <= j < entries.len(),
        entries[j].0 != k2,
        forall|a: int, b: int|
            0 <= a < b < entries.len() ==> (#[trigger] entries[a]).0 != (#[trigger] entries[b]).0,
    ensures
        lookup(entries.remove(j), k2) == lookup(entries, k2),
    decreases entries.len(),
{
    entries.remove_ensures(j);
    if j == 0 {
        assert(entries.remove(0) =~= entries.skip(1));
    } else {
        assert(entries.remove(j)[0] == entries[0]);
        if entries[0].0 == k2 {
        } else {
            assert(forall|t: int|
                0 <= t < entries.skip(1).len() ==> entries.skip(1)[t] == entries[t + 1]);
            lemma_lookup_skip_one(entries.skip(1), j - 1, k2);
            assert(entries.remove(j).skip(1) =~= entries.skip(1).remove(j - 1));
        }
    }
}

/// Law: recording a key as in flight makes it present in the table, so a
/// second identical call arriving before the fetch resolves can only wait
/// on it, never start a fetch of its own.
pub proof fn lemma_inflight_blocks_refetch(
    inflight: Seq<((Seq<char>, int, int, int), int)>,
    k: (Seq<char>, int, int, int),
)
    ensures
        !lookup_absent(inflight.push((k, 0)), k),
{
    let pushed = inflight.push((k, 0int));
    assert(pushed[pushed.len() - 1].0 == k);
}

/// A waiter count after one more waiter registered; saturates at the
/// machine limit.
pub open spec fn bump(w: int) -> int {
    if w < usize::MAX {
        w + 1
    } else {
        w
    }
}

fn clone_label_pairs(v: &Vec<(String, String)>) -> (r: Vec<(String, String)>)
    ensures
        r@.map(|i: int, p: (String, String)| (p.0@, p.1@)) == v@.map(
            |i: int, p: (String, String)| (p.0@, p.1@),
        ),
{
    let mut r: Vec<(String, String)> = Vec::new();
    let n = v.len();
    let mut i: usize = 0;
    while i < n
        invariant
            n == v@.len(),
            i <= n,
            r@.len() == i,
            forall|j: int| 0 <= j < i ==> (#[trigger] r@[j]).0@ == v@[j].0@ && r@[j].1@ == v@[j].1@,
        decreases n - i,
    {
        r.push((v[i].0.clone(), v[i].1.clone()));
        i += 1;
    }
    proof {
        assert(r@.map(|i: int, p: (String, String)| (p.0@, p.1@)) =~= v@.map(
            |i: int, p: (String, String)| (p.0@, p.1@),
        ));
    }
    r
}

fn clone_points(v: &Vec<RawPoint>) -> (r: Vec<RawPoint>)
    ensures
        r@ == v@,
{
    let mut r: Vec<RawPoint> = Vec::new();
    let n = v.len();
    let mut i: usize = 0;
    while i < n
        invariant
            n == v@.len(),
            i <= n,
            r@ == v@.subrange(0, i as int),
        decreases n - i,
    {
        r.push(v[i]);
        proof {
            assert(r@ =~= v@.subrange(0, i + 1));
        }
        i += 1;
    }
    proof {
        assert(v@.subrange(0, n as int) =~= v@);
    }
    r
}

/// A copy of a series, same mathematical value.
pub fn clone_series(s: &Series) -> (r: Series)
    ensures
        series_view(r) == series_view(*s),
{
    let r = Series { metric: clone_label_pairs(&s.metric), values: clone_points(&s.values) };
    r
}

/// A copy of a list of series, same mathematical value.
pub fn clone_series_list(v: &Vec<Series>) -> (r: Vec<Series>)
    ensures
        series_list_view(r@) == series_list_view(v@),
{
    let mut r: Vec<Series> = Vec::new();
    let n = v.len();
    let mut i: usize = 0;
    while i < n
        invariant
            n == v@.len(),
            i <= n,
            r@.len() == i,
            forall|j: int| 0 <= j < i ==> series_view(#[trigger] r@[j]) == series_view(v@[j]),
        decreases n - i,
    {
        r.push(clone_series(&v[i]));
        i += 1;
    }
    proof {
        assert(series_list_view(r@) =~= series_list_view(v@));
    }
    r
}

/// What a call into the engine for a key must do next: use the cached
/// series, wait for the identical in-flight request, or perform the fetch
/// itself.
pub enum QueryStart {
    Cached(Vec<Series>),
    Wait,
    Fetch,
}

/// The engine's shared state: the result cache and the in-flight table,
/// both keyed by the exact query tuple. The in-flight table counts the
/// registered waiters of each running request; the channels that carry
/// the results to them live with the caller.
pub struct QueryEngine {
    base: String,
    cache: Vec<(QueryKey, Vec<Series>)>,
    inflight: Vec<(QueryKey, usize)>,
}

impl QueryEngine {
    /// The backend base URL.
    pub closed spec fn base_view(self) -> Seq<char> {
        self.base@
    }

    /// The cache as key-value pairs, oldest entry first.
    pub closed spec fn cache_view(self) -> Seq<
        ((Seq<char>, int, int, int), Seq<(Seq<(Seq<char>, Seq<char>)>, Seq<RawPoint>)>),
    > {
        self.cache@.map(
            |i: int, e: (QueryKey, Vec<Series>)| (key_view(e.0), series_list_view(e.1@)),
        )
    }

    /// The in-flight table as key-waiter-count pairs.
    pub closed spec fn inflight_view(self) -> Seq<((Seq<char>, int, int, int), int)> {
        self.inflight@.map(|i: int, e: (QueryKey, usize)| (key_view(e.0), e.1 as int))
    }

    /// Keys are unique in the cache and in the in-flight table.
    pub open spec fn wf(self) -> bool {
        &&& forall|a: int, b: int|
            0 <= a < b < self.cache_view().len() ==> (#[trigger] self.cache_view()[a]).0 != (
            #[trigger] self.cache_view()[b]).0
        &&& forall|a: int, b: int|
            0 <= a < b < self.inflight_view().len() ==> (#[trigger] self.inflight_view()[a]).0
                != (#[trigger] self.inflight_view()[b]).0
    }

    /// A fresh engine for a backend base URL: empty cache, nothing in
    /// flight.
    pub fn new(base: String) -> (r: QueryEngine)
        ensures
            r.wf(),
            r.base_view() == base@,
            r.cache_view() =~= Seq::<
                ((Seq<char>, int, int, int), Seq<(Seq<(Seq<char>, Seq<char>)>, Seq<RawPoint>)>),
            >::empty(),
            r.inflight_view() =~= Seq::<((Seq<char>, int, int, int), int)>::empty(),
    {
        QueryEngine { base, cache: Vec::new(), inflight: Vec::new() }
    }

    /// Starts a query for `key`: an exact cache hit returns the cached
    /// series and touches nothing; an identical in-flight request
    /// registers one more waiter; otherwise the key is recorded as in
    /// flight with no waiters and the caller must perform the fetch.
    pub fn begin_query(&mut self, key: &QueryKey) -> (r: QueryStart)
        requires
            old(self).wf(),
        ensures
            final(self).wf(),
            final(self).base_view() == old(self).base_view(),
            match r {
                QueryStart::Cached(v) => {
                    &&& lookup(old(self).cache_view(), key_view(*key)) == Some(
                        series_list_view(v@),
                    )
                    &&& final(self).cache_view() == old(self).cache_view()
                    &&& final(self).inflight_view() == old(self).inflight_view()
                },
                QueryStart::Wait => {
                    &&& lookup(old(self).cache_view(), key_view(*key)) is None
                    &&& final(self).cache_view() == old(self).cache_view()
                    &&& exists|j: int|
                        0 <= j < old(self).inflight_view().len() && (#[trigger] old(
                            self,
                        ).inflight_view()[j]).0 == key_view(*key) && final(self).inflight_view()
                            == old(self).inflight_view().update(
                            j,
                            (key_view(*key), bump(old(self).inflight_view()[j].1)),
                        )
                },
                QueryStart::Fetch => {
                    &&& lookup(old(self).cache_view(), key_view(*key)) is None
                    &&& lookup_absent(old(self).inflight_view(), key_view(*key))
                    &&& final(self).cache_view() == old(self).cache_view()
                    &&& final(self).inflight_view() == old(self).inflight_view().push(
                        (key_view(*key), 0),
                    )
                },
            },
    {
        match self.find_cache_idx(key) {
            Some(i) => {
                let v = clone_series_list(&self.cache[i].1);
                proof {
                    lemma_lookup_at(self.cache_view(), key_view(*key), i as int);
                    assert(self.cache_view()[i as int].1 == series_list_view(
                        self.cache@[i as int].1@,
                    ));
                }
                return QueryStart::Cached(v);
            },
            None => {
                proof {
                    lemma_lookup_none(self.cache_view(), key_view(*key));
                }
            },
        }
        match self.find_inflight_idx(key) {
            Some(j) => {
                let w = self.inflight[j].1;
                let nw: usize = if w < usize::MAX {
                    w + 1
                } else {
                    w
                };
                let k2 = key_dup(key);
                let ghost before = self.inflight_view();
                proof {
                    assert(before[j as int].0 == key_view(*key));
                    assert(before[j as int].1 == w as int);
                }
                self.inflight.remove(j);
                self.inflight.insert(j, (k2, nw));
                proof {
                    assert(self.inflight_view() =~= before.update(
                        j as int,
                        (key_view(*key), bump(before[j as int].1)),
                    ));
                    assert forall|a: int, b: int|
                        0 <= a < b < self.inflight_view().len() implies (
                    #[trigger] self.inflight_view()[a]).0 != (
                    #[trigger] self.inflight_view()[b]).0 by {
                        assert(self.inflight_view()[a].0 == before[a].0);
                        assert(self.inflight_view()[b].0 == before[b].0);
                    }
                }
                return QueryStart::Wait;
            },
            None => {
                proof {
                    lemma_lookup_none(self.inflight_view(), key_view(*key));
                }
            },
        }
        let k2 = key_dup(key);
        let ghost before = self.inflight_view();
        self.inflight.push((k2, 0));
        proof {
            assert(self.inflight_view() =~= before.push((key_view(*key), 0int)));
            assert forall|a: int, b: int|
                0 <= a < b < self.inflight_view().len() implies (
            #[trigger] self.inflight_view()[a]).0 != (#[trigger] self.inflight_view()[b]).0 by {
                if b < before.len() {
                    assert(self.inflight_view()[a].0 == before[a].0);
                    assert(self.inflight_view()[b].0 == before[b].0);
                } else {
                    assert(self.inflight_view()[a].0 == before[a].0);
                    assert(self.inflight_view()[b].0 == key_view(*key));
                }
            }
        }
        QueryStart::Fetch
    }

    /// The cache index holding `key`, if any.
    fn find_cache_idx(&self, key: &QueryKey) -> (r: Option<usize>)
        ensures
            match r {
                Some(i) => i < self.cache_view().len() && (#[trigger] self.cache_view()[
                    i as int
                ]).0 == key_view(*key) && forall|t: int|
                    0 <= t < i ==> (#[trigger] self.cache_view()[t]).0 != key_view(*key),
                None => lookup_absent(self.cache_view(), key_view(*key)),
            },
    {
        let n = self.cache.len();
        let mut i: usize = 0;
        while i < n
            invariant
                n == self.cache_view().len(),
                i <= n,
                forall|t: int| 0 <= t < i ==> (#[trigger] self.cache_view()[t]).0 != key_view(*key),
            decreases n - i,
        {
            if key_eq(&self.cache[i].0, key) {
                return Some(i);
            }
            i += 1;
        }
        None
    }

    /// The in-flight index holding `key`, if any.
    fn find_inflight_idx(&self, key: &QueryKey) -> (r: Option<usize>)
        ensures
            match r {
                Some(i) => i < self.inflight_view().len() && (#[trigger] self.inflight_view()[
                    i as int
                ]).0 == key_view(*key) && forall|t: int|
                    0 <= t < i ==> (#[trigger] self.inflight_view()[t]).0 != key_view(*key),
                None => lookup_absent(self.inflight_view(), key_view(*key)),
            },
    {
        let n = self.inflight.len();
        let mut i: usize = 0;
        while i < n
            invariant
                n == self.inflight_view().len(),
                i <= n,
                forall|t: int|
                    0 <= t < i ==> (#[trigger] self.inflight_view()[t]).0 != key_view(*key),
            decreases n - i,
        {
            if key_eq(&self.inflight[i].0, key) {
                return Some(i);
            }
            i += 1;
        }
        None
    }

    /// Ends the fetch for `key`: the key leaves the in-flight table and
    /// the number of registered waiters is returned, so the caller can
    /// deliver the shared outcome to each of them. A successful outcome's
    /// series overwrite the cache entry under this exact key; a failure
    /// leaves the cache untouched.
    pub fn finish_query(&mut self, key: &QueryKey, data: Option<&Vec<Series>>) -> (w: usize)
        requires
            old(self).wf(),
        ensures
            final(self).wf(),
            final(self).base_view() == old(self).base_view(),
            if lookup_absent(old(self).inflight_view(), key_view(*key)) {
                final(self).inflight_view() == old(self).inflight_view() && w == 0
            } else {
                exists|j: int|
                    0 <= j < old(self).inflight_view().len() && (#[trigger] old(
                        self,
                    ).inflight_view()[j]).0 == key_view(*key) && w == old(self).inflight_view()[j].1
                        && final(self).inflight_view() == old(self).inflight_view().remove(j)
            },
            match data {
                Some(d) => {
                    if lookup_absent(old(self).cache_view(), key_view(*key)) {
                        final(self).cache_view() == old(self).cache_view().push(
                            (key_view(*key), series_list_view(d@)),
                        )
                    } else {
                        exists|j: int|
                            0 <= j < old(self).cache_view().len() && (#[trigger] old(
                                self,
                            ).cache_view()[j]).0 == key_view(*key) && final(self).cache_view()
                                == old(self).cache_view().remove(j).push(
                                (key_view(*key), series_list_view(d@)),
                            )
                    }
                },
                None => final(self).cache_view() == old(self).cache_view(),
            },
    {
        let mut w: usize = 0;
        match self.find_inflight_idx(key) {
            Some(j) => {
                w = self.inflight[j].1;
                let ghost before = self.inflight_view();
                proof {
                    assert(before[j as int].0 == key_view(*key));
                    assert(before[j as int].1 == w as int);
                }
                self.inflight.remove(j);
                proof {
                    assert(self.inflight_view() =~= before.remove(j as int));
                    before.remove_ensures(j as int);
                    assert forall|a: int, b: int|
                        0 <= a < b < self.inflight_view().len() implies (
                    #[trigger] self.inflight_view()[a]).0 != (
                    #[trigger] self.inflight_view()[b]).0 by {
                        let pa = if a < j { before[a] } else { before[a + 1] };
                        let pb = if b < j { before[b] } else { before[b + 1] };
                        assert(self.inflight_view()[a] == pa);
                        assert(self.inflight_view()[b] == pb);
                    }
                }
            },
            None => {},
        }
        match data {
            Some(d) => {
                self.store_in_cache(key, d);
            },
            None => {},
        }
        w
    }

    /// Overwrites (or creates) the cache entry for `key` with `d`.
    fn store_in_cache(&mut self, key: &QueryKey, d: &Vec<Series>)
        requires
            old(self).wf(),
        ensures
            final(self).wf(),
            final(self).base_view() == old(self).base_view(),
            final(self).inflight_view() == old(self).inflight_view(),
            if lookup_absent(old(self).cache_view(), key_view(*key)) {
                final(self).cache_view() == old(self).cache_view().push(
                    (key_view(*key), series_list_view(d@)),
                )
            } else {
                exists|j: int|
                    0 <= j < old(self).cache_view().len() && (#[trigger] old(
                        self,
                    ).cache_view()[j]).0 == key_view(*key) && final(self).cache_view() == old(
                        self,
                    ).cache_view().remove(j).push((key_view(*key), series_list_view(d@)))
            },
    {
        let ghost before = self.cache_view();
        let found: bool;
        let ghost mut at_g: int = 0;
        match self.find_cache_idx(key) {
            Some(at) => {
                proof {
                    at_g = at as int;
                    assert(before[at as int].0 == key_view(*key));
                }
                self.cache.remove(at);
                proof {
                    assert(self.cache_view() =~= before.remove(at as int));
                    before.remove_ensures(at as int);
                }
                found = true;
            },
            None => {
                proof {
                    assert(lookup_absent(before, key_view(*key)));
                }
                found = false;
            },
        }
        let ghost mid = self.cache_view();
        let k2 = key_dup(key);
        let copy = clone_series_list(d);
        self.cache.push((k2, copy));
        proof {
            assert(self.cache_view() =~= mid.push((key_view(*key), series_list_view(d@))));
            if found {
                let at = at_g;
                before.remove_ensures(at);
                assert(before[at].0 == key_view(*key));
                assert forall|a: int, b: int|
                    0 <= a < b < self.cache_view().len() implies (
                #[trigger] self.cache_view()[a]).0 != (#[trigger] self.cache_view()[b]).0 by {
                    let pa = if a < at {
                        a
                    } else {
                        a + 1
                    };
                    assert(self.cache_view()[a].0 == before[pa].0);
                    if b < before.len() - 1 {
                        let pb = if b < at {
                            b
                        } else {
                            b + 1
                        };
                        assert(self.cache_view()[b].0 == before[pb].0);
                        assert(before[pa].0 != before[pb].0);
                    } else {
                        assert(self.cache_view()[b].0 == key_view(*key));
                        if pa < at {
                            assert(before[pa].0 != before[at].0);
                        } else {
                            assert(before[at].0 != before[pa].0);
                        }
                    }
                }
            } else {
                assert forall|a: int, b: int|
                    0 <= a < b < self.cache_view().len() implies (
                #[trigger] self.cache_view()[a]).0 != (#[trigger] self.cache_view()[b]).0 by {
                    assert(self.cache_view()[a].0 == before[a].0);
                    if b < before.len() {
                        assert(self.cache_view()[b].0 == before[b].0);
                    } else {
                        assert(self.cache_view()[b].0 == key_view(*key));
                    }
                }
            }
            assert(self.inflight_view() =~= old(self).inflight_view());
            assert forall|a: int, b: int|
                0 <= a < b < self.inflight_view().len() implies (
            #[trigger] self.inflight_view()[a]).0 != (#[trigger] self.inflight_view()[b]).0 by {
                assert(self.inflight_view()[a] == old(self).inflight_view()[a]);
                assert(self.inflight_view()[b] == old(self).inflight_view()[b]);
            }
        }
    }
}


/// The backend base URL with trailing slashes removed.
pub open spec fn trimmed_slashes(s: Seq<char>) -> Seq<char>
    decreases s.len(),
{
    if s.len() > 0 && s.last() == '/' {
        trimmed_slashes(s.drop_last())
    } else {
        s
    }
}

/// When everything from index `e` on is a slash and the character before
/// `e` is not, trimming keeps exactly the first `e` characters.
proof fn lemma_trimmed_at(s: Seq<char>, e: int)
    requires
        0 <= e <= s.len(),
        forall|k: int| e <= k < s.len() ==> s[k] == '/',
        e > 0 ==> s[e - 1] != '/',
    ensures
        trimmed_slashes(s) == s.subrange(0, e),
    decreases s.len(),
{
    if e == s.len() {
        if s.len() > 0 && s.last() == '/' {
            assert(false);
        }
        assert(s.subrange(0, e) =~= s);
    } else {
        assert(s.last() == '/');
        assert(s.drop_last() =~= s.subrange(0, s.len() - 1));
        lemma_trimmed_at(s.drop_last(), e);
        assert(s.drop_last().subrange(0, e) =~= s.subrange(0, e));
    }
}

/// Removes the trailing slashes of `s`.
pub fn trim_trailing_slashes(s: &str) -> (r: String)
    ensures
        r@ == trimmed_slashes(s@),
{
    let n = s.unicode_len();
    let mut e = n;
    while e > 0 && s.get_char(e - 1) == '/'
        invariant
            n == s@.len(),
            0 <= e <= n,
            forall|k: int| e <= k < n ==> s@[k] == '/',
        decreases e,
    {
        e -= 1;
    }
    proof {
        lemma_trimmed_at(s@, e as int);
    }
    s.substring_char(0, e).to_owned()
}

/// A byte the URL encoder passes through unchanged: an ASCII alphanumeric
/// or one of `-`, `.`, `_`, `~`.
pub open spec fn unreserved_byte(b: u8) -> bool {
    (48 <= b && b <= 57) || (65 <= b && b <= 90) || (97 <= b && b <= 122) || b == 45 || b == 46
        || b == 95 || b == 126
}

/// The uppercase hexadecimal character of a value below 16.
pub open spec fn hex_digit_char(d: int) -> char {
    if d < 10 {
        digit_char(d)
    } else if d == 10 {
        'A'
    } else if d == 11 {
        'B'
    } else if d == 12 {
        'C'
    } else if d == 13 {
        'D'
    } else if d == 14 {
        'E'
    } else {
        'F'
    }
}

/// The percent-encoding of one byte.
pub open spec fn url_encoded_byte(b: u8) -> Seq<char> {
    if unreserved_byte(b) {
        seq![b as char]
    } else {
        seq!['%', hex_digit_char((b >> 4) as int), hex_digit_char((b & 15) as int)]
    }
}

/// The percent-encoding of a byte string, byte by byte in order.
pub open spec fn url_encoded(bytes: Seq<u8>) -> Seq<char>
    decreases bytes.len(),
{
    if bytes.len() == 0 {
        Seq::empty()
    } else {
        url_encoded_byte(bytes[0]) + url_encoded(bytes.skip(1))
    }
}

/// Relies on urlencoding::encode: percent-encodes every byte of the UTF-8
/// form except ASCII alphanumerics and `-`, `.`, `_`, `~`; an encoded byte
/// becomes `%` and two uppercase hexadecimal digits; bytes keep their
/// order.
#[verifier::external_body]
fn url_encode(s: &str) -> (r: String)
    ensures
        r@ == url_encoded(s.spec_bytes()),
{
    urlencoding::encode(s).into_owned()
}

/// The step of a query URL in whole seconds, at least 1.
pub open spec fn step_param_secs(step_ns: u64) -> nat {
    if step_ns < 1_000_000_000 {
        1
    } else {
        (step_ns / 1_000_000_000) as nat
    }
}

/// The exact text of a range-query URL: the trimmed base, the fixed path
/// and parameter names, the percent-encoded expression, the integer start
/// and end timestamps, and the step in whole seconds with a trailing `s`.
pub open spec fn query_range_url(
    base: Seq<char>,
    expr: Seq<char>,
    start: int,
    end: int,
    step_ns: u64,
) -> Seq<char> {
    trimmed_slashes(base) + "/api/v1/query_range?query="@ + url_encoded(encode_utf8(expr))
        + "&start="@ + dec_str_signed(start) + "&end="@ + dec_str_signed(end) + "&step="@
        + dec_str(step_param_secs(step_ns)) + seq!['s']
}

impl QueryEngine {
    /// Builds the deterministic query URL for this engine's backend from
    /// the exact query parameters.
    pub fn build_query_range_url(&self, expr: &str, start: i64, end: i64, step_ns: u64) -> (r:
        String)
        ensures
            r@ == query_range_url(self.base_view(), expr@, start as int, end as int, step_ns),
    {
        let mut url = trim_trailing_slashes(self.base.as_str());
        url.append("/api/v1/query_range?query=");
        let enc = url_encode(expr);
        url.append(enc.as_str());
        url.append("&start=");
        let st = i64_to_dec(start);
        url.append(st.as_str());
        url.append("&end=");
        let en = i64_to_dec(end);
        url.append(en.as_str());
        url.append("&step=");
        let mut secs: u64 = step_ns / 1_000_000_000;
        if secs == 0 {
            secs = 1;
        }
        let sp = u64_to_dec(secs);
        url.append(sp.as_str());
        url.append("s");
        proof {
            reveal_strlit("s");
            assert("s"@ =~= seq!['s']);
            assert(secs as nat == step_param_secs(step_ns));
            assert(url@ =~= query_range_url(
                self.base_view(),
                expr@,
                start as int,
                end as int,
                step_ns,
            ));
        }
        url
    }
}

/// The error text for a failing HTTP status.
pub open spec fn http_error_msg(status: Seq<char>, body: Seq<char>) -> Seq<char> {
    "prometheus "@ + status + ": "@ + body
}

/// The error text for a response body that did not decode.
pub open spec fn parse_error_msg(e: Seq<char>, body: Seq<char>) -> Seq<char> {
    "parsing json: "@ + e + " (body: "@ + body + ")"@
}

/// The error text for a backend-reported non-success status.
pub open spec fn status_error_msg(status: Seq<char>, body: Seq<char>) -> Seq<char> {
    "prometheus error status: "@ + status + " \u{2014} body: "@ + body
}

/// Decides what a backend response means: a non-success HTTP status, an
/// undecodable body, and a backend-reported non-success status are each a
/// distinct, retryable error; only a decoded body with status `success`
/// yields its series.
pub fn interpret_response(
    http_ok: bool,
    status_text: &str,
    body: &str,
    parsed: Result<QueryRangeResponse, String>,
) -> (r: Result<Vec<Series>, String>)
    ensures
        !http_ok ==> r is Err && (r->Err_0)@ == http_error_msg(status_text@, body@),
        http_ok && parsed is Err ==> r is Err && (r->Err_0)@ == parse_error_msg(
            (parsed->Err_0)@,
            body@,
        ),
        http_ok && parsed is Ok && (parsed->Ok_0).status@ != "success"@ ==> r is Err && (
        r->Err_0)@ == status_error_msg((parsed->Ok_0).status@, body@),
        http_ok && parsed is Ok && (parsed->Ok_0).status@ == "success"@ ==> r is Ok && r->Ok_0
            == (parsed->Ok_0).data.result,
{
    if !http_ok {
        let mut m = String::from_str("prometheus ");
        m.append(status_text);
        m.append(": ");
        m.append(body);
        return Err(m);
    }
    match parsed {
        Err(e) => {
            let mut m = String::from_str("parsing json: ");
            m.append(e.as_str());
            m.append(" (body: ");
            m.append(body);
            m.append(")");
            Err(m)
        },
        Ok(resp) => {
            if !str_eq(resp.status.as_str(), "success") {
                let mut m = String::from_str("prometheus error status: ");
                m.append(resp.status.as_str());
                m.append(" \u{2014} body: ");
                m.append(body);
                Err(m)
            } else {
                Ok(resp.data.result)
            }
        },
    }
}

/// How many tries a query gets in all: the first attempt and three
/// retries.
pub const MAX_TRIES: u64 = 4;

/// What the retry loop does next: stop with this outcome, or try once
/// more after sleeping the given milliseconds.
pub enum RetryStep {
    Done(Result<Vec<Series>, String>),
    RetryAfterMs(u64),
}

/// Decides the retry loop's next move after attempt number `attempt`
/// (counted from zero) produced `outcome`: the first success ends the
/// attempts at once, the last allowed attempt's failure ends them with
/// that error (so the latest error is the one kept), and any earlier
/// failure asks for one more try after the exponential backoff.
pub fn retry_step(attempt: u64, outcome: Result<Vec<Series>, String>) -> (r: RetryStep)
    requires
        attempt < MAX_TRIES,
    ensures
        outcome is Ok ==> r == RetryStep::Done(outcome),
        outcome is Err && attempt + 1 == MAX_TRIES ==> r == RetryStep::Done(outcome),
        outcome is Err && attempt + 1 < MAX_TRIES ==> r == RetryStep::RetryAfterMs(
            (100u64 * (1u64 << ((attempt + 1) as u64))) as u64,
        ),
{
    if outcome.is_ok() {
        return RetryStep::Done(outcome);
    }
    if attempt + 1 == MAX_TRIES {
        return RetryStep::Done(outcome);
    }
    RetryStep::RetryAfterMs(backoff_delay_ms(attempt + 1))
}

/// Milliseconds slept before retry number `attempt`: exponential backoff
/// on a 100 ms base.
pub fn backoff_delay_ms(attempt: u64) -> (r: u64)
    requires
        1 <= attempt <= 32,
    ensures
        r == 100u64 * (1u64 << attempt),
{
    proof {
        assert((1u64 << attempt) <= 0x1_0000_0000) by (bit_vector)
            requires
                1 <= attempt <= 32,
        ;
    }
    100 * (1u64 << attempt)
}

} // verus!
