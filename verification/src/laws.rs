//! General properties of the merge, each stated over the mathematical model
//! and proved once and for all.

use vstd::prelude::*;

use crate::merge::find_named;
use crate::merge::fresh_entries;
use crate::merge::leftover;
use crate::merge::lemma_find_named_from;
use crate::merge::lemma_merge_array_shape;
use crate::merge::lemma_merge_table_shape;
use crate::merge::lemma_tab_idx;
use crate::merge::merged_arr_item;
use crate::merge::merged_tab_entry;
use crate::merge::spec_name_of;
use crate::merge::spec_merge;
use crate::merge::tab_get;
use crate::merge::tab_has;
use crate::merge::tab_idx;
use crate::merge::SpecEntry;
use crate::value::SpecValue;

verus! {

/// Depth exhaustion collapses to full override: merging two tables with no
/// depth left yields the high-precedence table exactly.
pub proof fn lemma_depth_exhaustion(a: Seq<SpecEntry>, b: Seq<SpecEntry>)
    ensures
        spec_merge(SpecValue::Table(a), SpecValue::Table(b), 0) == SpecValue::Table(a),
{
}

/// The first entry with key `k` stands at `i` when `t[i]` holds `k` and no
/// earlier entry does.
pub proof fn lemma_tab_idx_of(t: Seq<SpecEntry>, k: Seq<char>, i: int)
    requires
        0 <= i < t.len(),
        t[i].0 == k,
        forall|j: int| 0 <= j < i ==> t[j].0 != k,
    ensures
        tab_idx(t, k) == i,
{
    lemma_tab_idx(t, k);
    assert(tab_has(t, k));
}

/// The keys that `fresh_entries` keeps: exactly the high-only keys.
pub proof fn lemma_fresh_entries_keys(h: Seq<SpecEntry>, l: Seq<SpecEntry>, k: Seq<char>)
    ensures
        tab_has(fresh_entries(h, l), k) <==> tab_has(h, k) && !tab_has(l, k),
    decreases h.len(),
{
    if h.len() == 0 {
        assert(!tab_has(fresh_entries(h, l), k));
        assert(!tab_has(h, k));
    } else {
        let hp = h.drop_last();
        lemma_fresh_entries_keys(hp, l, k);
        let f = fresh_entries(h, l);
        let fp = fresh_entries(hp, l);
        if tab_has(hp, k) {
            let i = choose|i: int| 0 <= i < hp.len() && hp[i].0 == k;
            assert(h[i].0 == k);
            assert(tab_has(h, k));
        }
        if h.last().0 == k {
            assert(tab_has(h, k));
        }
        if tab_has(h, k) && !tab_has(hp, k) && h.last().0 != k {
            let i = choose|i: int| 0 <= i < h.len() && h[i].0 == k;
            assert(hp[i].0 == k);
            assert(false);
        }
        if tab_has(fp, k) {
            let i = choose|i: int| 0 <= i < fp.len() && fp[i].0 == k;
            assert(f[i].0 == k);
            assert(tab_has(f, k));
        }
        if !tab_has(l, k) && h.last().0 == k {
            assert(f[f.len() - 1].0 == k);
            assert(tab_has(f, k));
        }
        if tab_has(f, k) {
            let i = choose|i: int| 0 <= i < f.len() && f[i].0 == k;
            if i < fp.len() {
                assert(fp[i].0 == k);
            } else {
                assert(!tab_has(l, k) && h.last().0 == k);
            }
        }
    }
}

/// Key union: a key stands in the depth-limited merge of two tables exactly
/// when it stands in the high- or the low-precedence table.
pub proof fn lemma_merge_key_union(
    h: Seq<SpecEntry>,
    l: Seq<SpecEntry>,
    depth: nat,
    k: Seq<char>,
)
    requires
        depth > 0,
    ensures
        tab_has(spec_merge(SpecValue::Table(h), SpecValue::Table(l), depth)->Table_0, k)
            <==> tab_has(h, k) || tab_has(l, k),
{
    lemma_merge_table_shape(h, l, depth);
    let low_part = Seq::new(l.len(), |i: int| merged_tab_entry(h, l, depth, i));
    let m = low_part + fresh_entries(h, l);
    lemma_fresh_entries_keys(h, l, k);
    assert(forall|i: int| 0 <= i < l.len() ==> (#[trigger] low_part[i]).0 == l[i].0);
    if tab_has(l, k) {
        let i = choose|i: int| 0 <= i < l.len() && l[i].0 == k;
        assert(m[i].0 == k);
        assert(tab_has(m, k));
    }
    if tab_has(h, k) && !tab_has(l, k) {
        let f = fresh_entries(h, l);
        let i = choose|i: int| 0 <= i < f.len() && f[i].0 == k;
        assert(m[low_part.len() + i].0 == k);
        assert(tab_has(m, k));
    }
    if tab_has(m, k) {
        let i = choose|i: int| 0 <= i < m.len() && m[i].0 == k;
        if i < l.len() {
            assert(l[i].0 == k);
            assert(tab_has(l, k));
        } else {
            assert(fresh_entries(h, l)[i - l.len()].0 == k);
            assert(tab_has(fresh_entries(h, l), k));
        }
    }
}

/// Precedence: a scalar field present in both tables resolves to the
/// high-precedence child, whatever the low-precedence child holds.
pub proof fn lemma_merge_precedence(
    h: Seq<SpecEntry>,
    l: Seq<SpecEntry>,
    depth: nat,
    k: Seq<char>,
)
    requires
        depth > 0,
        tab_has(h, k),
        tab_has(l, k),
        !(tab_get(h, k) is Table),
        !(tab_get(h, k) is Array),
    ensures
        tab_get(spec_merge(SpecValue::Table(h), SpecValue::Table(l), depth)->Table_0, k)
            == tab_get(h, k),
{
    lemma_merge_table_shape(h, l, depth);
    let low_part = Seq::new(l.len(), |i: int| merged_tab_entry(h, l, depth, i));
    let m = low_part + fresh_entries(h, l);
    lemma_tab_idx(l, k);
    let il = tab_idx(l, k);
    assert(forall|i: int| 0 <= i < l.len() ==> (#[trigger] low_part[i]).0 == l[i].0);
    assert(m[il].0 == k);
    assert(forall|j: int| 0 <= j < il ==> m[j].0 != k);
    lemma_tab_idx_of(m, k, il);
    assert(m[il] == merged_tab_entry(h, l, depth, il));
    assert(tab_has(h, l[il].0));
    assert(m[il].1 == spec_merge(tab_get(h, k), l[il].1, (depth - 1) as nat));
    assert(spec_merge(tab_get(h, k), l[il].1, (depth - 1) as nat) == tab_get(h, k));
}

/// No two entries share a key.
pub open spec fn distinct_keys(t: Seq<SpecEntry>) -> bool {
    forall|i: int, j: int| 0 <= i < j < t.len() ==> t[i].0 != t[j].0
}

/// No two named elements share a name.
pub open spec fn distinct_names(s: Seq<SpecValue>) -> bool {
    forall|i: int, j: int| 0 <= i < j < s.len() ==> !(spec_name_of(s[i]) is Some && spec_name_of(
        s[i],
    ) == spec_name_of(s[j]))
}

/// A well-formed value: every table maps each key once, and no array holds
/// two elements of the same name, at every level.
pub open spec fn wf(v: SpecValue) -> bool
    decreases v,
{
    match v {
        SpecValue::Table(t) => distinct_keys(t) && wf_entries(t),
        SpecValue::Array(s) => distinct_names(s) && wf_items(s),
        _ => true,
    }
}

/// Every entry's child is well-formed.
pub open spec fn wf_entries(t: Seq<SpecEntry>) -> bool
    decreases t,
{
    t.len() == 0 || (wf(t[0].1) && wf_entries(t.subrange(1, t.len() as int)))
}

/// Every element is well-formed.
pub open spec fn wf_items(s: Seq<SpecValue>) -> bool
    decreases s,
{
    s.len() == 0 || (wf(s[0]) && wf_items(s.subrange(1, s.len() as int)))
}

/// What `wf_entries` says of each entry.
pub proof fn lemma_wf_entries(t: Seq<SpecEntry>)
    requires
        wf_entries(t),
    ensures
        forall|i: int| 0 <= i < t.len() ==> wf(#[trigger] t[i].1),
    decreases t.len(),
{
    if t.len() > 0 {
        lemma_wf_entries(t.subrange(1, t.len() as int));
        assert forall|i: int| 0 <= i < t.len() implies wf(#[trigger] t[i].1) by {
            if i > 0 {
                assert(t.subrange(1, t.len() as int)[i - 1] == t[i]);
            }
        }
    }
}

/// What `wf_items` says of each element.
pub proof fn lemma_wf_items(s: Seq<SpecValue>)
    requires
        wf_items(s),
    ensures
        forall|i: int| 0 <= i < s.len() ==> wf(#[trigger] s[i]),
    decreases s.len(),
{
    if s.len() > 0 {
        lemma_wf_items(s.subrange(1, s.len() as int));
        assert forall|i: int| 0 <= i < s.len() implies wf(#[trigger] s[i]) by {
            if i > 0 {
                assert(s.subrange(1, s.len() as int)[i - 1] == s[i]);
            }
        }
    }
}

/// A table whose every key the other table also holds leaves nothing fresh.
pub proof fn lemma_fresh_all_present(h: Seq<SpecEntry>, l: Seq<SpecEntry>)
    requires
        forall|i: int| 0 <= i < h.len() ==> tab_has(l, #[trigger] h[i].0),
    ensures
        fresh_entries(h, l) == Seq::<SpecEntry>::empty(),
    decreases h.len(),
{
    if h.len() > 0 {
        assert forall|i: int| 0 <= i < h.drop_last().len() implies tab_has(
            l,
            #[trigger] h.drop_last()[i].0,
        ) by {
            assert(h.drop_last()[i] == h[i]);
        }
        lemma_fresh_all_present(h.drop_last(), l);
        assert(tab_has(l, h.last().0));
        assert(fresh_entries(h, l) =~= Seq::<SpecEntry>::empty());
    }
}

/// The first named match stands at `m` when `items[m]` is named `nm` and no
/// earlier element is.
pub proof fn lemma_find_named_of(items: Seq<SpecValue>, nm: Seq<char>, m: int)
    requires
        0 <= m < items.len(),
        spec_name_of(items[m]) == Some(nm),
        forall|j: int| 0 <= j < m ==> spec_name_of(#[trigger] items[j]) != Some(nm),
    ensures
        find_named(items, nm) == m,
{
    lemma_find_named_from(items, nm, 0);
    let r = find_named(items, nm);
    if r == -1 {
        assert(spec_name_of(items[m]) != Some(nm));
    }
}

/// Removing one element moves the first match of an unrelated name, but to
/// the same element.
pub proof fn lemma_find_named_remove(ws: Seq<SpecValue>, nm: Seq<char>, j: int)
    requires
        0 <= j < ws.len(),
        find_named(ws, nm) >= 0,
        find_named(ws, nm) != j,
    ensures
        ({
            let jm = find_named(ws, nm);
            let jn = if jm < j {
                jm
            } else {
                jm - 1
            };
            find_named(ws.remove(j), nm) == jn && ws.remove(j)[jn] == ws[jm]
        }),
{
    lemma_find_named_from(ws, nm, 0);
    let jm = find_named(ws, nm);
    let t = ws.remove(j);
    let jn: int = if jm < j {
        jm
    } else {
        jm - 1
    };
    assert(t[jn] == ws[jm]);
    assert forall|k: int| 0 <= k < jn implies spec_name_of(#[trigger] t[k]) != Some(nm) by {
        if k < j {
            assert(t[k] == ws[k]);
        } else {
            assert(t[k] == ws[k + 1]);
        }
    }
    lemma_find_named_of(t, nm, jn);
}

/// Correlating an array with itself: after any number of steps, each still
/// unprocessed named element is the first of its name in the working set.
pub proof fn lemma_leftover_self(s: Seq<SpecValue>, i: int)
    requires
        distinct_names(s),
        0 <= i <= s.len(),
    ensures
        forall|m: int| i <= m < s.len() && spec_name_of(#[trigger] s[m]) is Some ==> ({
            let ws = leftover(s, s, i);
            let j = find_named(ws, spec_name_of(s[m]).unwrap());
            0 <= j < ws.len() && ws[j] == s[m]
        }),
    decreases i,
{
    if i == 0 {
        assert forall|m: int|
            0 <= m < s.len() && spec_name_of(#[trigger] s[m]) is Some implies ({
            let ws = leftover(s, s, 0);
            let j = find_named(ws, spec_name_of(s[m]).unwrap());
            0 <= j < ws.len() && ws[j] == s[m]
        }) by {
            let nm = spec_name_of(s[m]).unwrap();
            assert forall|k: int| 0 <= k < m implies spec_name_of(#[trigger] s[k]) != Some(nm) by {
                assert(!(spec_name_of(s[k]) is Some && spec_name_of(s[k]) == spec_name_of(s[m])));
            }
            lemma_find_named_of(s, nm, m);
        }
    } else {
        lemma_leftover_self(s, i - 1);
        let ws = leftover(s, s, i - 1);
        let wsn = leftover(s, s, i);
        assert forall|m: int|
            i <= m < s.len() && spec_name_of(#[trigger] s[m]) is Some implies ({
            let j = find_named(wsn, spec_name_of(s[m]).unwrap());
            0 <= j < wsn.len() && wsn[j] == s[m]
        }) by {
            let nm = spec_name_of(s[m]).unwrap();
            let jm = find_named(ws, nm);
            assert(0 <= jm < ws.len() && ws[jm] == s[m]);
            match spec_name_of(s[i - 1]) {
                Some(nmi) => {
                    let ji = find_named(ws, nmi);
                    assert(0 <= ji < ws.len() && ws[ji] == s[i - 1]);
                    assert(wsn == ws.remove(ji));
                    assert(!(spec_name_of(s[i - 1]) is Some && spec_name_of(s[i - 1])
                        == spec_name_of(s[m])));
                    assert(nmi != nm);
                    if ji == jm {
                        assert(s[i - 1] == s[m]);
                        assert(false);
                    }
                    lemma_find_named_remove(ws, nm, ji);
                },
                None => {
                    assert(wsn == ws);
                },
            }
        }
    }
}

/// Idempotence: merging a well-formed value with itself, at any depth,
/// changes nothing.
pub proof fn lemma_merge_idempotent(v: SpecValue, depth: nat)
    requires
        wf(v),
    ensures
        spec_merge(v, v, depth) == v,
    decreases depth, v,
{
    if depth == 0 {
        return ;
    }
    match v {
        SpecValue::Table(t) => {
            lemma_merge_table_shape(t, t, depth);
            lemma_wf_entries(t);
            assert forall|i: int| 0 <= i < t.len() implies merged_tab_entry(t, t, depth, i) == t[i] by {
                assert(tab_has(t, t[i].0));
                assert forall|j: int| 0 <= j < i implies t[j].0 != t[i].0 by {}
                lemma_tab_idx_of(t, t[i].0, i);
                assert(tab_get(t, t[i].0) == t[i].1);
                lemma_merge_idempotent(t[i].1, (depth - 1) as nat);
            }
            assert forall|i: int| 0 <= i < t.len() implies tab_has(t, #[trigger] t[i].0) by {}
            lemma_fresh_all_present(t, t);
            assert(Seq::new(t.len(), |i: int| merged_tab_entry(t, t, depth, i)) + fresh_entries(
                t,
                t,
            ) =~= t);
        },
        SpecValue::Array(s) => {
            lemma_merge_array_shape(s, s, depth);
            lemma_wf_items(s);
            assert forall|i: int| 0 <= i < s.len() implies merged_arr_item(s, s, depth, i) == s[i] by {
                lemma_leftover_self(s, i);
                let ws = leftover(s, s, i);
                match spec_name_of(s[i]) {
                    Some(nm) => {
                        let j = find_named(ws, nm);
                        assert(0 <= j < ws.len() && ws[j] == s[i]);
                        lemma_merge_idempotent(s[i], (depth - 1) as nat);
                    },
                    None => {},
                }
            }
            assert(Seq::new(s.len(), |i: int| merged_arr_item(s, s, depth, i)) =~= s);
        },
        _ => {},
    }
}

} // verus!
