//! Adapters of an integration flow and the one-line summary of their types,
//! counted in an `IndexMap` so that types keep the order they first appear in.
use vstd::prelude::*;

use indexmap::IndexMap;

use crate::text::{self, dec_string, owned, push_str};

verus! {

#[verifier::external_type_specification]
#[verifier::external_body]
#[verifier::reject_recursive_types(K)]
#[verifier::reject_recursive_types(V)]
#[verifier::reject_recursive_types(S)]
pub struct ExIndexMap<K, V, S>(IndexMap<K, V, S>);

/// The entries of a count map, in insertion order.
pub uninterp spec fn count_entries(m: IndexMap<String, usize>) -> Seq<(Seq<char>, usize)>;

pub type Counts = Seq<(Seq<char>, usize)>;

/// The position of the first entry for `key`.
pub open spec fn position(es: Counts, key: Seq<char>, k: int) -> Option<int>
    decreases es.len() - k,
{
    if k < 0 || k >= es.len() {
        None
    } else if es[k].0 == key {
        Some(k)
    } else {
        position(es, key, k + 1)
    }
}

/// The value stored for `key`.
pub open spec fn value_of(es: Counts, key: Seq<char>) -> Option<usize> {
    match position(es, key, 0) {
        Some(k) => Some(es[k].1),
        None => None,
    }
}

/// The entries after `insert(key, value)`: an existing key keeps its place
/// and takes the value; a new one goes last.
pub open spec fn put(es: Counts, key: Seq<char>, value: usize) -> Counts {
    match position(es, key, 0) {
        Some(k) => es.update(k, (key, value)),
        None => es.push((key, value)),
    }
}

/// `IndexMap::new()`: an empty map.
#[verifier::external_body]
fn counts_new() -> (m: IndexMap<String, usize>)
    ensures
        count_entries(m) == Seq::<(Seq<char>, usize)>::empty(),
{
    IndexMap::new()
}

/// `IndexMap::get(key)`: the value stored for the key, if any.
#[verifier::external_body]
fn counts_get(m: &IndexMap<String, usize>, key: &str) -> (r: Option<usize>)
    ensures
        r == value_of(count_entries(*m), key@),
{
    m.get(key).copied()
}

/// `IndexMap::insert(key, value)`: per its documentation an existing key
/// keeps its place in the order and takes the new value; a new key is
/// inserted last.
#[verifier::external_body]
fn counts_insert(m: &mut IndexMap<String, usize>, key: String, value: usize)
    ensures
        count_entries(*final(m)) == put(count_entries(*old(m)), key@, value),
{
    m.insert(key, value);
}

/// `IndexMap::iter()`: the entries in their order.
#[verifier::external_body]
fn counts_list(m: &IndexMap<String, usize>) -> (r: Vec<(String, usize)>)
    ensures
        r@.len() == count_entries(*m).len(),
        forall|i: int|
            0 <= i < r@.len() ==> (#[trigger] r@[i]).0@ == count_entries(*m)[i].0 && r@[i].1
                == count_entries(*m)[i].1,
{
    m.iter().map(|(k, v)| (k.clone(), *v)).collect()
}

/// The counts of the first `n` types, in order of first appearance.
pub open spec fn tally(types: Seq<Seq<char>>, n: int) -> Counts
    decreases n,
{
    if n <= 0 {
        Seq::empty()
    } else {
        let prev = tally(types, n - 1);
        let t = types[n - 1];
        match value_of(prev, t) {
            Some(c) => put(prev, t, (c + 1) as usize),
            None => put(prev, t, 1),
        }
    }
}

/// One type as shown: `n type` when it occurs more than once.
pub open spec fn shown(e: (Seq<char>, usize)) -> Seq<char> {
    if e.1 > 1 {
        text::dec(e.1 as nat) + " "@ + e.0
    } else {
        e.0
    }
}

/// The summary of a list of adapter types: each distinct type once, in order
/// of first appearance, prefixed by its count when it occurs more than once,
/// joined by `, `.
pub open spec fn summary_spec(types: Seq<Seq<char>>) -> Seq<char> {
    let es = tally(types, types.len() as int);
    text::join_spec(es.map_values(|e: (Seq<char>, usize)| shown(e)), ", "@)
}

pub proof fn lemma_position(es: Counts, key: Seq<char>, k: int)
    requires
        0 <= k,
    ensures
        match position(es, key, k) {
            Some(j) => k <= j < es.len() && es[j].0 == key,
            None => forall|m: int| k <= m < es.len() ==> es[m].0 != key,
        },
    decreases es.len() - k,
{
    if k < es.len() && es[k].0 != key {
        lemma_position(es, key, k + 1);
    }
}

/// Every count after `n` types is between 1 and `n`.
pub proof fn lemma_tally_bounded(types: Seq<Seq<char>>, n: int)
    requires
        0 <= n <= types.len() <= usize::MAX,
    ensures
        forall|i: int| 0 <= i < tally(types, n).len() ==> 1 <= #[trigger] tally(types, n)[i].1 <= n,
    decreases n,
{
    if n > 0 {
        lemma_tally_bounded(types, n - 1);
        let prev = tally(types, n - 1);
        let t = types[n - 1];
        lemma_position(prev, t, 0);
        let cur = tally(types, n);
        match position(prev, t, 0) {
            Some(k) => {
                assert(cur == prev.update(k, (t, (prev[k].1 + 1) as usize)));
                assert forall|i: int| 0 <= i < cur.len() implies 1 <= #[trigger] cur[i].1 <= n by {
                    if i != k {
                        assert(cur[i] == prev[i]);
                    }
                }
            },
            None => {
                assert(cur == prev.push((t, 1usize)));
                assert forall|i: int| 0 <= i < cur.len() implies 1 <= #[trigger] cur[i].1 <= n by {
                    if i < prev.len() {
                        assert(cur[i] == prev[i]);
                    }
                }
            },
        }
    }
}

/// The sum of the counts of the first `m` entries.
pub open spec fn total(es: Counts, m: int) -> int
    decreases m,
{
    if m <= 0 {
        0
    } else {
        total(es, m - 1) + es[m - 1].1
    }
}

proof fn lemma_total_update(es: Counts, k: int, key: Seq<char>, v: usize, m: int)
    requires
        0 <= k < es.len(),
        0 <= m <= es.len(),
    ensures
        total(es.update(k, (key, v)), m) == total(es, m) + if k < m {
            v - es[k].1
        } else {
            0
        },
    decreases m,
{
    if m > 0 {
        lemma_total_update(es, k, key, v, m - 1);
    }
}

proof fn lemma_total_push(es: Counts, e: (Seq<char>, usize), m: int)
    requires
        0 <= m <= es.len(),
    ensures
        total(es.push(e), m) == total(es, m),
    decreases m,
{
    if m > 0 {
        lemma_total_push(es, e, m - 1);
    }
}

/// Counting keeps one entry per distinct type, every type listed gets an
/// entry, and the counts add up to the number of types: the summary of
/// `summarise_adapters` loses and invents no adapter.
pub proof fn tally_counts_every_type_once(types: Seq<Seq<char>>, n: int)
    requires
        0 <= n <= types.len() <= usize::MAX,
    ensures
        ({
            let es = tally(types, n);
            &&& forall|i: int, j: int| 0 <= i < j < es.len() ==> es[i].0 != es[j].0
            &&& forall|k: int| 0 <= k < n ==> position(es, #[trigger] types[k], 0) is Some
            &&& total(es, es.len() as int) == n
        }),
    decreases n,
{
    if n > 0 {
        tally_counts_every_type_once(types, n - 1);
        lemma_tally_bounded(types, n - 1);
        let prev = tally(types, n - 1);
        let t = types[n - 1];
        let es = tally(types, n);
        lemma_position(prev, t, 0);
        match position(prev, t, 0) {
            Some(k) => {
                let c = prev[k].1;
                assert(es == prev.update(k, (t, (c + 1) as usize)));
                lemma_total_update(prev, k, t, (c + 1) as usize, prev.len() as int);
                assert forall|m: int| 0 <= m < n implies position(es, #[trigger] types[m], 0) is Some by {
                    if m < n - 1 {
                        let q = types[m];
                        lemma_position(prev, q, 0);
                        let j = position(prev, q, 0).unwrap();
                        lemma_position(es, q, 0);
                        assert(es[j].0 == q);
                    } else {
                        lemma_position(es, t, 0);
                        assert(es[k].0 == t);
                    }
                }
            },
            None => {
                assert(es == prev.push((t, 1usize)));
                lemma_total_push(prev, (t, 1usize), prev.len() as int);
                assert forall|m: int| 0 <= m < n implies position(es, #[trigger] types[m], 0) is Some by {
                    let q = types[m];
                    lemma_position(es, q, 0);
                    if m < n - 1 {
                        lemma_position(prev, q, 0);
                        let j = position(prev, q, 0).unwrap();
                        assert(es[j].0 == q);
                    } else {
                        assert(es[prev.len() as int].0 == t);
                    }
                }
            },
        }
    }
}

/// How often `t` occurs among the first `n` types.
pub open spec fn occurrences(types: Seq<Seq<char>>, t: Seq<char>, n: int) -> nat
    decreases n,
{
    if n <= 0 {
        0
    } else {
        occurrences(types, t, n - 1) + if types[n - 1] == t {
            1nat
        } else {
            0nat
        }
    }
}

/// The first position of `t` among the first `n` types.
pub open spec fn first_seen(types: Seq<Seq<char>>, t: Seq<char>, n: int) -> Option<int>
    decreases n,
{
    if n <= 0 {
        None
    } else {
        match first_seen(types, t, n - 1) {
            Some(k) => Some(k),
            None => if types[n - 1] == t {
                Some(n - 1)
            } else {
                None
            },
        }
    }
}

proof fn lemma_first_seen(types: Seq<Seq<char>>, t: Seq<char>, n: int)
    requires
        0 <= n <= types.len(),
    ensures
        match first_seen(types, t, n) {
            Some(k) => 0 <= k < n && types[k] == t,
            None => forall|k: int| 0 <= k < n ==> types[k] != t,
        },
        first_seen(types, t, n) is None ==> occurrences(types, t, n) == 0,
    decreases n,
{
    if n > 0 {
        lemma_first_seen(types, t, n - 1);
    }
}

/// The summary counts every adapter type exactly as often as it occurs, and
/// lists the types in the order in which each first occurs.
pub proof fn summary_counts_in_first_seen_order(types: Seq<Seq<char>>, n: int)
    requires
        0 <= n <= types.len() <= usize::MAX,
    ensures
        ({
            let es = tally(types, n);
            &&& forall|i: int|
                0 <= i < es.len() ==> (#[trigger] es[i]).1 == occurrences(types, es[i].0, n)
                    && first_seen(types, es[i].0, n) is Some
            &&& forall|i1: int, i2: int|
                0 <= i1 < i2 < es.len() ==> first_seen(types, (#[trigger] es[i1]).0, n).unwrap()
                    < first_seen(types, (#[trigger] es[i2]).0, n).unwrap()
        }),
    decreases n,
{
    if n > 0 {
        summary_counts_in_first_seen_order(types, n - 1);
        tally_counts_every_type_once(types, n - 1);
        lemma_tally_bounded(types, n - 1);
        let prev = tally(types, n - 1);
        let t = types[n - 1];
        let es = tally(types, n);
        lemma_position(prev, t, 0);
        lemma_first_seen(types, t, n - 1);
        match position(prev, t, 0) {
            Some(k) => {
                let c = prev[k].1;
                assert(es == prev.update(k, (t, (c + 1) as usize)));
                assert(first_seen(types, t, n - 1) is Some);
                assert forall|i: int|
                    0 <= i < es.len() implies (#[trigger] es[i]).1 == occurrences(types, es[i].0, n)
                        && first_seen(types, es[i].0, n) is Some by {
                    if i != k {
                        assert(es[i] == prev[i]);
                        assert(prev[i].0 != prev[k].0);
                    }
                }
                assert forall|i1: int, i2: int|
                    0 <= i1 < i2 < es.len() implies first_seen(types, (#[trigger] es[i1]).0, n).unwrap()
                        < first_seen(types, (#[trigger] es[i2]).0, n).unwrap() by {
                    assert(es[i1].0 == prev[i1].0);
                    assert(es[i2].0 == prev[i2].0);
                }
            },
            None => {
                assert(es == prev.push((t, 1usize)));
                if first_seen(types, t, n - 1) is Some {
                    let k = first_seen(types, t, n - 1).unwrap();
                    assert(position(prev, types[k], 0) is Some);
                }
                assert forall|i: int|
                    0 <= i < es.len() implies (#[trigger] es[i]).1 == occurrences(types, es[i].0, n)
                        && first_seen(types, es[i].0, n) is Some by {
                    if i < prev.len() {
                        assert(es[i] == prev[i]);
                        assert(prev[i].0 != t);
                    }
                }
                assert forall|i1: int, i2: int|
                    0 <= i1 < i2 < es.len() implies first_seen(types, (#[trigger] es[i1]).0, n).unwrap()
                        < first_seen(types, (#[trigger] es[i2]).0, n).unwrap() by {
                    assert(es[i1] == prev[i1]);
                    lemma_first_seen(types, prev[i1].0, n - 1);
                    if i2 < prev.len() {
                        assert(es[i2] == prev[i2]);
                    }
                }
            },
        }
    }
}

/// Summarises adapter types: `["HTTP", "SFTP", "HTTP"]` becomes `2 HTTP, SFTP`.
pub fn summarise_adapters(types: Vec<&str>) -> (r: String)
    ensures
        r@ == summary_spec(types@.map_values(|s: &str| s@)),
{
    let ghost tv = types@.map_values(|s: &str| s@);
    let mut counts = counts_new();
    let mut i: usize = 0;
    while i < types.len()
        invariant
            i <= types.len(),
            tv == types@.map_values(|s: &str| s@),
            count_entries(counts) == tally(tv, i as int),
        decreases types.len() - i,
    {
        let t = types[i];
        proof {
            lemma_tally_bounded(tv, i as int);
            lemma_position(tally(tv, i as int), t@, 0);
        }
        let c = match counts_get(&counts, t) {
            Some(c) => c,
            None => 0,
        };
        assert(c <= i);
        counts_insert(&mut counts, owned(t), c + 1);
        i += 1;
    }
    proof {
        lemma_tally_bounded(tv, types@.len() as int);
    }
    let entries = counts_list(&counts);
    let ghost es = tally(tv, types@.len() as int);
    let mut parts: Vec<String> = Vec::new();
    let mut k: usize = 0;
    while k < entries.len()
        invariant
            k <= entries.len(),
            es == count_entries(counts),
            entries@.len() == es.len(),
            forall|i: int|
                0 <= i < entries@.len() ==> (#[trigger] entries@[i]).0@ == es[i].0 && entries@[i].1
                    == es[i].1,
            text::strings_view(parts@) == es.map_values(|e: (Seq<char>, usize)| shown(e)).take(
                k as int,
            ),
        decreases entries.len() - k,
    {
        let (name, n) = (&entries[k].0, entries[k].1);
        let s = if n > 1 {
            let mut s = dec_string(n as u64);
            push_str(&mut s, " ");
            push_str(&mut s, name.as_str());
            s
        } else {
            name.clone()
        };
        proof {
            text::lemma_strings_view_push(parts@, s);
            assert(es.map_values(|e: (Seq<char>, usize)| shown(e)).take(k + 1) =~= es.map_values(
                |e: (Seq<char>, usize)| shown(e),
            ).take(k as int).push(s@));
        }
        parts.push(s);
        k += 1;
    }
    assert(es.map_values(|e: (Seq<char>, usize)| shown(e)).take(entries@.len() as int)
        =~= es.map_values(|e: (Seq<char>, usize)| shown(e)));
    text::join(&parts, ", ")
}

/// Which end of a flow an adapter sits on.
#[derive(Debug, Clone, Copy, PartialEq, Eq, Structural)]
pub enum AdapterDirection {
    Sender,
    Receiver,
}

/// One adapter of a flow.
#[derive(Debug)]
pub struct Adapter {
    pub direction: AdapterDirection,
    pub component_type: String,
}

/// The component types of the first `n` adapters on side `d`.
pub open spec fn types_on(ads: Seq<Adapter>, d: AdapterDirection, n: int) -> Seq<Seq<char>>
    decreases n,
{
    if n <= 0 {
        Seq::empty()
    } else if ads[n - 1].direction == d {
        types_on(ads, d, n - 1).push(ads[n - 1].component_type@)
    } else {
        types_on(ads, d, n - 1)
    }
}

/// What an adapter column shows: the summary, or `—` when empty.
pub open spec fn column_spec(ads: Seq<Adapter>, d: AdapterDirection) -> Seq<char> {
    let s = summary_spec(types_on(ads, d, ads.len() as int));
    if s.len() == 0 {
        "—"@
    } else {
        s
    }
}

fn summary_on(ads: &Vec<Adapter>, d: AdapterDirection) -> (r: String)
    ensures
        r@ == column_spec(ads@, d),
{
    let mut types: Vec<&str> = Vec::new();
    let mut i: usize = 0;
    while i < ads.len()
        invariant
            i <= ads.len(),
            types@.map_values(|s: &str| s@) == types_on(ads@, d, i as int),
        decreases ads.len() - i,
    {
        if ads[i].direction == d {
            types.push(ads[i].component_type.as_str());
            assert(types@.map_values(|s: &str| s@) =~= types_on(ads@, d, i + 1));
        }
        i += 1;
    }
    let s = summarise_adapters(types);
    if s.as_str().is_empty() {
        owned("—")
    } else {
        s
    }
}

/// The sender and receiver adapter columns of a flow: the summaries of its
/// adapters on each side, `—` for a side without any, and `—` on both when
/// the adapters could not be fetched.
pub fn adapter_columns(adapters: Option<&Vec<Adapter>>) -> (r: (String, String))
    ensures
        match adapters {
            Some(a) => r.0@ == column_spec(a@, AdapterDirection::Sender) && r.1@ == column_spec(
                a@,
                AdapterDirection::Receiver,
            ),
            None => r.0@ == "—"@ && r.1@ == "—"@,
        },
{
    match adapters {
        Some(a) => (summary_on(a, AdapterDirection::Sender), summary_on(a, AdapterDirection::Receiver)),
        None => (owned("—"), owned("—")),
    }
}

} // verus!
