//! The depth-limited, precedence-ordered merge: the core algorithm that folds
//! an ordered sequence of structured values into one effective value.
//!
//! `merge(high, low, depth)` combines two values so that the high-precedence
//! side wins on scalars and on any pairing of unlike variants; tables are
//! merged key by key and arrays element by element, correlated by each
//! element's `"name"` field, until `depth` nested container levels are
//! exhausted, after which the high-precedence side wins wholesale.

use vstd::prelude::*;

use crate::value::deep_entries;
use crate::value::deep_seq;
use crate::value::lemma_deep_entries;
use crate::value::lemma_deep_seq;
use crate::value::SpecValue;
use crate::value::ConfigValue;

verus! {

broadcast use vstd::std_specs::vec::group_vec_axioms;

/// One table entry of the mathematical model.
pub type SpecEntry = (Seq<char>, SpecValue);

/// How many nested container levels participate in a merge before the
/// high-precedence side wins wholesale: root table, language array, and
/// each per-language table.
pub const MERGE_DEPTH: usize = 3;

/// Whether some entry of `t` has the key `k`.
pub open spec fn tab_has(t: Seq<SpecEntry>, k: Seq<char>) -> bool {
    exists|i: int| 0 <= i < t.len() && t[i].0 == k
}

/// The first position at or after `i` whose entry has key `k`, or `-1`.
pub open spec fn tab_idx_from(t: Seq<SpecEntry>, k: Seq<char>, i: int) -> int
    decreases t.len() - i,
{
    if i < 0 || i >= t.len() {
        -1
    } else if t[i].0 == k {
        i
    } else {
        tab_idx_from(t, k, i + 1)
    }
}

/// The first position of key `k` in `t`, or `-1` when `k` is absent.
pub open spec fn tab_idx(t: Seq<SpecEntry>, k: Seq<char>) -> int {
    tab_idx_from(t, k, 0)
}

/// The value stored under the first entry with key `k`.
pub open spec fn tab_get(t: Seq<SpecEntry>, k: Seq<char>) -> SpecValue {
    t[tab_idx(t, k)].1
}

/// What `tab_idx_from` finds: the first match at or after `i`, if any.
pub proof fn lemma_tab_idx_from(t: Seq<SpecEntry>, k: Seq<char>, i: int)
    requires
        0 <= i <= t.len(),
    ensures
        tab_idx_from(t, k, i) == -1 ==> (forall|j: int| i <= j < t.len() ==> t[j].0 != k),
        tab_idx_from(t, k, i) != -1 ==> i <= tab_idx_from(t, k, i) < t.len()
            && t[tab_idx_from(t, k, i)].0 == k
            && (forall|j: int| i <= j < tab_idx_from(t, k, i) ==> t[j].0 != k),
    decreases t.len() - i,
{
    if i < t.len() && t[i].0 != k {
        lemma_tab_idx_from(t, k, i + 1);
    }
}

/// `tab_idx` finds the first entry with key `k` exactly when one exists.
pub proof fn lemma_tab_idx(t: Seq<SpecEntry>, k: Seq<char>)
    ensures
        tab_has(t, k) <==> tab_idx(t, k) != -1,
        tab_idx(t, k) != -1 ==> 0 <= tab_idx(t, k) < t.len()
            && t[tab_idx(t, k)].0 == k
            && (forall|j: int| 0 <= j < tab_idx(t, k) ==> t[j].0 != k),
{
    lemma_tab_idx_from(t, k, 0);
}

/// The correlation key of an array element: the string under its `"name"`
/// entry, when the element is a table and that entry holds a string.
pub open spec fn spec_name_of(v: SpecValue) -> Option<Seq<char>> {
    match v {
        SpecValue::Table(t) => if tab_has(t, "name"@) {
            match tab_get(t, "name"@) {
                SpecValue::Text(s) => Some(s),
                _ => None,
            }
        } else {
            None
        },
        _ => None,
    }
}

/// The first position at or after `i` of an element named `nm`, or `-1`.
pub open spec fn find_named_from(items: Seq<SpecValue>, nm: Seq<char>, i: int) -> int
    decreases items.len() - i,
{
    if i < 0 || i >= items.len() {
        -1
    } else if spec_name_of(items[i]) == Some(nm) {
        i
    } else {
        find_named_from(items, nm, i + 1)
    }
}

/// The first position of an element named `nm` in `items`, or `-1`.
pub open spec fn find_named(items: Seq<SpecValue>, nm: Seq<char>) -> int {
    find_named_from(items, nm, 0)
}

/// What `find_named_from` finds: the first named match at or after `i`.
pub proof fn lemma_find_named_from(items: Seq<SpecValue>, nm: Seq<char>, i: int)
    requires
        0 <= i <= items.len(),
    ensures
        find_named_from(items, nm, i) == -1 ==> (forall|j: int|
            i <= j < items.len() ==> spec_name_of(items[j]) != Some(nm)),
        find_named_from(items, nm, i) != -1 ==> i <= find_named_from(items, nm, i) < items.len()
            && spec_name_of(items[find_named_from(items, nm, i)]) == Some(nm)
            && (forall|j: int|
                i <= j < find_named_from(items, nm, i) ==> spec_name_of(items[j]) != Some(nm)),
    decreases items.len() - i,
{
    if i < items.len() && spec_name_of(items[i]) != Some(nm) {
        lemma_find_named_from(items, nm, i + 1);
    }
}

/// The low-precedence working set that remains once the first `i` elements of
/// the high-precedence array have been correlated: each matched low element
/// has been removed.
pub open spec fn leftover(h: Seq<SpecValue>, l: Seq<SpecValue>, i: int) -> Seq<SpecValue>
    decreases i,
{
    if i <= 0 {
        l
    } else {
        let prev = leftover(h, l, i - 1);
        if i - 1 < h.len() {
            match spec_name_of(h[i - 1]) {
                Some(nm) => {
                    let j = find_named(prev, nm);
                    if 0 <= j < prev.len() {
                        prev.remove(j)
                    } else {
                        prev
                    }
                },
                None => prev,
            }
        } else {
            prev
        }
    }
}

/// The entries of the high-precedence table whose keys the low-precedence
/// table lacks, in their original order.
pub open spec fn fresh_entries(h: Seq<SpecEntry>, l: Seq<SpecEntry>) -> Seq<SpecEntry>
    decreases h.len(),
{
    if h.len() == 0 {
        Seq::empty()
    } else {
        fresh_entries(h.drop_last(), l) + if !tab_has(l, h.last().0) {
            seq![h.last()]
        } else {
            Seq::empty()
        }
    }
}

/// The merge of `high` over `low`, with `depth` container levels still
/// participating.
///
/// - Two tables, depth left: the key union. Low-precedence entries keep their
///   order; an entry whose key the high side also has holds the recursive
///   merge of the two children; high-only entries follow in high order.
/// - Two arrays, depth left: one output element per high element, in order.
///   A high element named `nm` is merged with the first still-unmatched low
///   element named `nm`, which leaves the working set; other high elements
///   pass through unchanged. Unmatched low elements are dropped.
/// - Depth exhausted, or any other pairing: the high side, wholesale.
pub open spec fn spec_merge(high: SpecValue, low: SpecValue, depth: nat) -> SpecValue
    decreases depth,
{
    match (high, low) {
        (SpecValue::Table(h), SpecValue::Table(l)) => {
            if depth > 0 {
                SpecValue::Table(
                    Seq::new(
                        l.len(),
                        |i: int|
                            if tab_has(h, l[i].0) {
                                (l[i].0, spec_merge(tab_get(h, l[i].0), l[i].1, (depth - 1) as nat))
                            } else {
                                l[i]
                            },
                    ) + fresh_entries(h, l),
                )
            } else {
                SpecValue::Table(h)
            }
        },
        (SpecValue::Array(h), SpecValue::Array(l)) => {
            if depth > 0 {
                SpecValue::Array(
                    Seq::new(
                        h.len(),
                        |i: int|
                            {
                                let ws = leftover(h, l, i);
                                match spec_name_of(h[i]) {
                                    Some(nm) => {
                                        let j = find_named(ws, nm);
                                        if 0 <= j < ws.len() {
                                            spec_merge(h[i], ws[j], (depth - 1) as nat)
                                        } else {
                                            h[i]
                                        }
                                    },
                                    None => h[i],
                                }
                            },
                    ),
                )
            } else {
                SpecValue::Array(h)
            }
        },
        (h, _) => h,
    }
}

/// Removing one element commutes with taking the model of a sequence.
pub proof fn lemma_deep_seq_remove(s: Seq<ConfigValue>, j: int)
    requires
        0 <= j < s.len(),
    ensures
        deep_seq(s.remove(j)) =~= deep_seq(s).remove(j),
{
    broadcast use lemma_deep_seq;

}

/// The first entry of `entries` holding `key`, as a position, or `None`.
pub fn find_key(entries: &Vec<(String, ConfigValue)>, key: &String) -> (r: Option<usize>)
    ensures
        match r {
            Some(i) => tab_idx(deep_entries(entries@), key@) == i as int,
            None => tab_idx(deep_entries(entries@), key@) == -1,
        },
{
    broadcast use lemma_deep_entries;

    let ghost t = deep_entries(entries@);
    let mut i: usize = 0;
    while i < entries.len()
        invariant
            0 <= i <= entries.len(),
            t == deep_entries(entries@),
            t.len() == entries@.len(),
            tab_idx(t, key@) == tab_idx_from(t, key@, i as int),
        decreases entries.len() - i,
    {
        let hit = entries[i].0 == *key;
        proof {
            lemma_deep_entries(entries@);
            assert(t[i as int].0 == entries@[i as int].0@);
        }
        if hit {
            return Some(i);
        }
        i = i + 1;
    }
    None
}

/// The correlation key of an array element, as the merge reads it: the string
/// under a table's `"name"` entry.
pub fn name_of(v: &ConfigValue) -> (r: Option<String>)
    ensures
        match r {
            Some(s) => spec_name_of(v.deep()) == Some(s@),
            None => spec_name_of(v.deep()) is None,
        },
{
    broadcast use lemma_deep_entries;

    match v {
        ConfigValue::Table(entries) => {
            let key: String = {
                let k = "name";
                k.to_string()
            };
            proof {
                vstd::string::to_string_from_display_ensures_for_str("name", key);
                lemma_tab_idx(deep_entries(entries@), "name"@);
            }
            match find_key(entries, &key) {
                Some(i) => match &entries[i].1 {
                    ConfigValue::Text(s) => Some(s.clone()),
                    _ => None,
                },
                None => None,
            }
        },
        _ => None,
    }
}

/// The first element at or after the start of `items` named `nm`, or `None`.
pub fn find_named_in(items: &Vec<ConfigValue>, nm: &String) -> (r: Option<usize>)
    ensures
        match r {
            Some(i) => find_named(deep_seq(items@), nm@) == i as int,
            None => find_named(deep_seq(items@), nm@) == -1,
        },
{
    broadcast use lemma_deep_seq;

    let ghost s = deep_seq(items@);
    let mut i: usize = 0;
    while i < items.len()
        invariant
            0 <= i <= items.len(),
            s == deep_seq(items@),
            s.len() == items@.len(),
            find_named(s, nm@) == find_named_from(s, nm@, i as int),
        decreases items.len() - i,
    {
        let named = name_of(&items[i]);
        proof {
            lemma_deep_seq(items@);
        }
        match named {
            Some(s2) => {
                let hit = s2 == *nm;
                if hit {
                    proof {
                        assert(spec_name_of(s[i as int]) == Some(nm@));
                        assert(find_named_from(s, nm@, i as int) == i as int);
                    }
                    return Some(i);
                }
                proof {
                    assert(spec_name_of(s[i as int]) != Some(nm@));
                }
            },
            None => {
                proof {
                    assert(spec_name_of(s[i as int]) != Some(nm@));
                }
            },
        }
        proof {
            assert(find_named_from(s, nm@, i as int) == find_named_from(s, nm@, i as int + 1));
        }
        i = i + 1;
    }
    None
}

impl ConfigValue {
    /// The child stored under `key`, when this value is a table holding it.
    pub fn get(&self, key: &String) -> (r: Option<&ConfigValue>)
        ensures
            match r {
                Some(c) => (self.deep() matches SpecValue::Table(t) && tab_has(t, key@)
                    && c.deep() == tab_get(t, key@)),
                None => !(self.deep() matches SpecValue::Table(t) && tab_has(t, key@)),
            },
    {
        match self {
            ConfigValue::Table(entries) => {
                proof {
                    lemma_deep_entries(entries@);
                    lemma_tab_idx(deep_entries(entries@), key@);
                }
                match find_key(entries, key) {
                    Some(i) => Some(&entries[i].1),
                    None => None,
                }
            },
            _ => None,
        }
    }
}

/// One entry of the merged table: the low entry at `i`, its child overridden
/// by the recursive merge when the high table shares the key.
pub open spec fn merged_tab_entry(h: Seq<SpecEntry>, l: Seq<SpecEntry>, depth: nat, i: int) -> SpecEntry {
    if tab_has(h, l[i].0) {
        (l[i].0, spec_merge(tab_get(h, l[i].0), l[i].1, (depth - 1) as nat))
    } else {
        l[i]
    }
}

/// One element of the merged array: the high element at `i`, merged with its
/// correlated element of the still-unmatched working set when one exists.
pub open spec fn merged_arr_item(h: Seq<SpecValue>, l: Seq<SpecValue>, depth: nat, i: int) -> SpecValue {
    let ws = leftover(h, l, i);
    match spec_name_of(h[i]) {
        Some(nm) => {
            let j = find_named(ws, nm);
            if 0 <= j < ws.len() {
                spec_merge(h[i], ws[j], (depth - 1) as nat)
            } else {
                h[i]
            }
        },
        None => h[i],
    }
}

/// The table case of the merge, named entry by entry.
pub proof fn lemma_merge_table_shape(h: Seq<SpecEntry>, l: Seq<SpecEntry>, depth: nat)
    requires
        depth > 0,
    ensures
        spec_merge(SpecValue::Table(h), SpecValue::Table(l), depth) == SpecValue::Table(
            Seq::new(l.len(), |i: int| merged_tab_entry(h, l, depth, i)) + fresh_entries(h, l),
        ),
{
    let m = spec_merge(SpecValue::Table(h), SpecValue::Table(l), depth);
    assert(m is Table);
    let a = m->Table_0;
    let b = Seq::new(l.len(), |i: int| merged_tab_entry(h, l, depth, i)) + fresh_entries(h, l);
    assert(a.len() == b.len());
    assert forall|i: int| 0 <= i < a.len() implies a[i] == b[i] by {
        if i < l.len() {
            assert(a[i] == (if tab_has(h, l[i].0) {
                (l[i].0, spec_merge(tab_get(h, l[i].0), l[i].1, (depth - 1) as nat))
            } else {
                l[i]
            }));
            assert(b[i] == merged_tab_entry(h, l, depth, i));
        } else {
            assert(a[i] == fresh_entries(h, l)[i - l.len()]);
            assert(b[i] == fresh_entries(h, l)[i - l.len()]);
        }
    }
    assert(a =~= b);
    assert(spec_merge(SpecValue::Table(h), SpecValue::Table(l), depth) =~~= SpecValue::Table(b));
}

/// The array case of the merge, named element by element.
pub proof fn lemma_merge_array_shape(h: Seq<SpecValue>, l: Seq<SpecValue>, depth: nat)
    requires
        depth > 0,
    ensures
        spec_merge(SpecValue::Array(h), SpecValue::Array(l), depth) == SpecValue::Array(
            Seq::new(h.len(), |i: int| merged_arr_item(h, l, depth, i)),
        ),
{
    let m = spec_merge(SpecValue::Array(h), SpecValue::Array(l), depth);
    assert(m is Array);
    let a = m->Array_0;
    let b = Seq::new(h.len(), |i: int| merged_arr_item(h, l, depth, i));
    assert(a.len() == b.len());
    assert forall|i: int| 0 <= i < a.len() implies a[i] == b[i] by {
        assert(a[i] == ({
            let ws = leftover(h, l, i);
            match spec_name_of(h[i]) {
                Some(nm) => {
                    let j = find_named(ws, nm);
                    if 0 <= j < ws.len() {
                        spec_merge(h[i], ws[j], (depth - 1) as nat)
                    } else {
                        h[i]
                    }
                },
                None => h[i],
            }
        }));
        assert(b[i] == merged_arr_item(h, l, depth, i));
    }
    assert(a =~= b);
    assert(spec_merge(SpecValue::Array(h), SpecValue::Array(l), depth) =~~= SpecValue::Array(b));
}

/// The merge itself. Consumes both values; the result stands for the merge of
/// the two models, with the high-precedence side first.
#[verifier::loop_isolation(false)]
pub fn merge(high: ConfigValue, low: ConfigValue, depth: usize) -> (r: ConfigValue)
    ensures
        r.deep() == spec_merge(high.deep(), low.deep(), depth as nat),
    decreases depth,
{
    match (high, low) {
        (ConfigValue::Table(h), ConfigValue::Table(l)) => {
            if depth > 0 {
                let ghost hd = deep_entries(h@);
                let ghost ld = deep_entries(l@);
                proof {
                    lemma_deep_entries(h@);
                    lemma_deep_entries(l@);
                    lemma_merge_table_shape(hd, ld, depth as nat);
                }
                let mut out: Vec<(String, ConfigValue)> = Vec::new();
                let mut i: usize = 0;
                while i < l.len()
                    invariant
                        i <= l.len(),
                        out@.len() == i,
                        forall|j: int| 0 <= j < i ==> (#[trigger] out@[j].0@, out@[j].1.deep())
                            == merged_tab_entry(hd, ld, depth as nat, j),
                    decreases l.len() - i,
                {
                    let key = l[i].0.clone();
                    let lchild = l[i].1.clone();
                    proof {
                        lemma_tab_idx(hd, key@);
                    }
                    match find_key(&h, &key) {
                        Some(j) => {
                            let hchild = h[j].1.clone();
                            let merged = merge(hchild, lchild, depth - 1);
                            proof {
                                assert(tab_has(hd, key@));
                                assert(tab_get(hd, key@) == hd[j as int].1);
                                assert(merged.deep() == spec_merge(
                                    tab_get(hd, ld[i as int].0),
                                    ld[i as int].1,
                                    (depth - 1) as nat,
                                ));
                            }
                            out.push((key, merged));
                        },
                        None => {
                            proof {
                                assert(!tab_has(hd, key@));
                            }
                            out.push((key, lchild));
                        },
                    }
                    i = i + 1;
                }
                let ghost first = Seq::new(ld.len(), |j: int| merged_tab_entry(hd, ld, depth as nat, j));
                proof {
                    lemma_deep_entries(out@);
                    assert(deep_entries(out@) =~= first);
                }
                let ghost base = deep_entries(out@);
                let mut k: usize = 0;
                while k < h.len()
                    invariant
                        k <= h.len(),
                        deep_entries(out@) =~= base + fresh_entries(hd.take(k as int), ld),
                    decreases h.len() - k,
                {
                    let key = h[k].0.clone();
                    proof {
                        lemma_tab_idx(ld, key@);
                        assert(hd.take(k as int + 1).drop_last() =~= hd.take(k as int));
                        assert(hd.take(k as int + 1).last() == hd[k as int]);
                    }
                    match find_key(&l, &key) {
                        Some(_) => {
                            proof {
                                assert(tab_has(ld, hd[k as int].0));
                                assert(fresh_entries(hd.take(k as int + 1), ld)
                                    =~= fresh_entries(hd.take(k as int), ld));
                            }
                        },
                        None => {
                            let child = h[k].1.clone();
                            let ghost before = out@;
                            out.push((key, child));
                            proof {
                                assert(!tab_has(ld, hd[k as int].0));
                                lemma_deep_entries(out@);
                                lemma_deep_entries(before);
                                assert(deep_entries(out@) =~= deep_entries(before) + seq![hd[k as int]]);
                            }
                        },
                    }
                    k = k + 1;
                }
                let r = ConfigValue::Table(out);
                proof {
                    assert(hd.take(h@.len() as int) =~= hd);
                    assert(deep_entries(out@) =~= first + fresh_entries(hd, ld));
                    assert(r.deep() =~~= spec_merge(
                        SpecValue::Table(hd),
                        SpecValue::Table(ld),
                        depth as nat,
                    ));
                }
                r
            } else {
                ConfigValue::Table(h)
            }
        },
        (ConfigValue::Array(h), ConfigValue::Array(l)) => {
            if depth > 0 {
                let ghost hd = deep_seq(h@);
                let ghost ld = deep_seq(l@);
                proof {
                    lemma_deep_seq(h@);
                    lemma_deep_seq(l@);
                    lemma_merge_array_shape(hd, ld, depth as nat);
                }
                let mut work: Vec<ConfigValue> = l;
                let mut out: Vec<ConfigValue> = Vec::new();
                let mut i: usize = 0;
                while i < h.len()
                    invariant
                        i <= h.len(),
                        out@.len() == i,
                        deep_seq(work@) =~= leftover(hd, ld, i as int),
                        forall|j: int| 0 <= j < i ==> (#[trigger] out@[j]).deep()
                            == merged_arr_item(hd, ld, depth as nat, j),
                    decreases h.len() - i,
                {
                    let ghost ws = deep_seq(work@);
                    let named = name_of(&h[i]);
                    match named {
                        Some(nm) => {
                            proof {
                                lemma_find_named_from(ws, nm@, 0);
                            }
                            match find_named_in(&work, &nm) {
                                Some(j) => {
                                    proof {
                                        lemma_deep_seq(work@);
                                    }
                                    let ghost wbefore = work@;
                                    let lelem = work.remove(j);
                                    proof {
                                        lemma_deep_seq_remove(wbefore, j as int);
                                    }
                                    let helem = h[i].clone();
                                    let merged = merge(helem, lelem, depth - 1);
                                    proof {
                                        assert(lelem.deep() == ws[j as int]);
                                        assert(merged.deep() == spec_merge(
                                            hd[i as int],
                                            ws[j as int],
                                            (depth - 1) as nat,
                                        ));
                                    }
                                    out.push(merged);
                                },
                                None => {
                                    let helem = h[i].clone();
                                    out.push(helem);
                                },
                            }
                        },
                        None => {
                            let helem = h[i].clone();
                            out.push(helem);
                        },
                    }
                    i = i + 1;
                }
                let r = ConfigValue::Array(out);
                proof {
                    lemma_deep_seq(out@);
                    assert(deep_seq(out@) =~= Seq::new(
                        hd.len(),
                        |j: int| merged_arr_item(hd, ld, depth as nat, j),
                    ));
                    assert(r.deep() =~~= spec_merge(
                        SpecValue::Array(hd),
                        SpecValue::Array(ld),
                        depth as nat,
                    ));
                }
                r
            } else {
                ConfigValue::Array(h)
            }
        },
        (hv, _) => hv,
    }
}

} // verus!
