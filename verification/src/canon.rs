//! Canonical JSON form: object keys in ascending lexicographic order at
//! every level, arrays kept in order, scalars unchanged. The canonical
//! serialization of a credential (with the proof removed) is the byte
//! string that is signed and the byte string that is verified.

use vstd::prelude::*;
use vstd::multiset::Multiset;
use crate::json::{JsonModel, JsonValue, JsonEntry, jm_of, jm_of_seq, jm_of_entries,
    lemma_jm_of_seq_index, lemma_jm_of_entries_index};
use crate::strutil::{lex_le, lex_le_str, lemma_lex_le_total, lemma_lex_le_antisym,
    lemma_lex_le_trans, lemma_lex_le_refl, push_char};

verus! {

/// Entry keys appear in ascending order.
pub open spec fn entries_sorted(s: Seq<(Seq<char>, JsonModel)>) -> bool {
    forall|i: int, j: int| 0 <= i < j < s.len() ==> lex_le((#[trigger] s[i]).0, (#[trigger] s[j]).0)
}

/// Entry keys are pairwise distinct.
pub open spec fn keys_distinct(s: Seq<(Seq<char>, JsonModel)>) -> bool {
    forall|i: int, j: int| 0 <= i < j < s.len() ==> (#[trigger] s[i]).0 != (#[trigger] s[j]).0
}

/// Place `e` before the first entry whose key is not below `e`'s.
pub open spec fn insert_entry(s: Seq<(Seq<char>, JsonModel)>, e: (Seq<char>, JsonModel)) -> Seq<
    (Seq<char>, JsonModel),
>
    decreases s.len(),
{
    if s.len() == 0 {
        seq![e]
    } else if lex_le(e.0, s[0].0) {
        seq![e] + s
    } else {
        seq![s[0]] + insert_entry(s.drop_first(), e)
    }
}

/// Insertion sort of object entries by key.
pub open spec fn sort_entries(s: Seq<(Seq<char>, JsonModel)>) -> Seq<(Seq<char>, JsonModel)>
    decreases s.len(),
{
    if s.len() == 0 {
        Seq::empty()
    } else {
        insert_entry(sort_entries(s.drop_last()), s.last())
    }
}

pub proof fn lemma_insert_entry_multiset(s: Seq<(Seq<char>, JsonModel)>, e: (Seq<char>, JsonModel))
    ensures
        insert_entry(s, e).len() == s.len() + 1,
        insert_entry(s, e).to_multiset() =~= s.to_multiset().insert(e),
    decreases s.len(),
{
    broadcast use vstd::seq_lib::group_to_multiset_ensures;
    broadcast use vstd::multiset::group_multiset_axioms;

    if s.len() == 0 {
        assert(seq![e] =~= Seq::<(Seq<char>, JsonModel)>::empty().push(e));
        assert(Seq::<(Seq<char>, JsonModel)>::empty().to_multiset() =~= Multiset::empty());
    } else if lex_le(e.0, s[0].0) {
        assert(seq![e] + s =~= s.insert(0, e));
        s.insert_ensures(0, e);
    } else {
        lemma_insert_entry_multiset(s.drop_first(), e);
        let rest = insert_entry(s.drop_first(), e);
        assert(seq![s[0]] + rest =~= rest.insert(0, s[0]));
        rest.insert_ensures(0, s[0]);
        assert(s =~= s.drop_first().insert(0, s[0]));
        s.drop_first().insert_ensures(0, s[0]);
    }
}

/// Every element of the insertion result is `e` or an element of `s`.
pub proof fn lemma_insert_entry_elements(
    s: Seq<(Seq<char>, JsonModel)>,
    e: (Seq<char>, JsonModel),
)
    ensures
        forall|k: int|
            0 <= k < insert_entry(s, e).len() ==> (#[trigger] insert_entry(s, e)[k]) == e
                || s.contains(insert_entry(s, e)[k]),
    decreases s.len(),
{
    if s.len() == 0 {
    } else if lex_le(e.0, s[0].0) {
        assert forall|k: int| 0 <= k < insert_entry(s, e).len() implies (#[trigger] insert_entry(
            s,
            e,
        )[k]) == e || s.contains(insert_entry(s, e)[k]) by {
            if k > 0 {
                assert(insert_entry(s, e)[k] == s[k - 1]);
            }
        }
    } else {
        lemma_insert_entry_elements(s.drop_first(), e);
        let rest = insert_entry(s.drop_first(), e);
        assert forall|k: int| 0 <= k < insert_entry(s, e).len() implies (#[trigger] insert_entry(
            s,
            e,
        )[k]) == e || s.contains(insert_entry(s, e)[k]) by {
            if k > 0 {
                assert(insert_entry(s, e)[k] == rest[k - 1]);
                if rest[k - 1] != e {
                    let i = choose|i: int| 0 <= i < s.drop_first().len() && s.drop_first()[i]
                        == rest[k - 1];
                    assert(s[i + 1] == rest[k - 1]);
                }
            }
        }
    }
}

pub proof fn lemma_insert_entry_sorted(s: Seq<(Seq<char>, JsonModel)>, e: (Seq<char>, JsonModel))
    requires
        entries_sorted(s),
    ensures
        entries_sorted(insert_entry(s, e)),
    decreases s.len(),
{
    if s.len() == 0 {
    } else if lex_le(e.0, s[0].0) {
        let r = seq![e] + s;
        assert forall|i: int, j: int| 0 <= i < j < r.len() implies lex_le(
            (#[trigger] r[i]).0,
            (#[trigger] r[j]).0,
        ) by {
            if i == 0 {
                if j > 1 {
                    lemma_lex_le_trans(e.0, s[0].0, s[j - 1].0);
                }
            } else {
                assert(r[i] == s[i - 1] && r[j] == s[j - 1]);
            }
        }
    } else {
        lemma_lex_le_total(e.0, s[0].0);
        assert(forall|i: int, j: int|
            0 <= i < j < s.drop_first().len() ==> lex_le(
                (#[trigger] s.drop_first()[i]).0,
                (#[trigger] s.drop_first()[j]).0,
            ));
        lemma_insert_entry_sorted(s.drop_first(), e);
        lemma_insert_entry_elements(s.drop_first(), e);
        let rest = insert_entry(s.drop_first(), e);
        let r = seq![s[0]] + rest;
        assert forall|i: int, j: int| 0 <= i < j < r.len() implies lex_le(
            (#[trigger] r[i]).0,
            (#[trigger] r[j]).0,
        ) by {
            if i == 0 {
                assert(r[j] == rest[j - 1]);
                if rest[j - 1] == e {
                } else {
                    let k = choose|k: int| 0 <= k < s.drop_first().len() && s.drop_first()[k]
                        == rest[j - 1];
                    assert(s[k + 1] == rest[j - 1]);
                }
            } else {
                assert(r[i] == rest[i - 1] && r[j] == rest[j - 1]);
            }
        }
    }
}

pub proof fn lemma_insert_entry_keys_distinct(
    s: Seq<(Seq<char>, JsonModel)>,
    e: (Seq<char>, JsonModel),
)
    requires
        keys_distinct(s),
        forall|i: int| 0 <= i < s.len() ==> (#[trigger] s[i]).0 != e.0,
    ensures
        keys_distinct(insert_entry(s, e)),
{
    broadcast use vstd::seq_lib::group_to_multiset_ensures;
    broadcast use vstd::multiset::group_multiset_axioms;

    lemma_insert_entry_elements(s, e);
    lemma_insert_entry_multiset(s, e);
    let r = insert_entry(s, e);
    assert forall|i: int, j: int| 0 <= i < j < r.len() implies (#[trigger] r[i]).0 != (
    #[trigger] r[j]).0 by {
        let ei = r[i];
        let ej = r[j];
        if ei.0 == ej.0 {
            if ei == ej {
                // the same entry appears twice in `r`, so its multiplicity in
                // `r` is at least two, which `s` plus one copy of `e` cannot
                // supply without `s` repeating a key
                assert(r.remove(i).to_multiset() =~= r.to_multiset().remove(ei));
                assert(r.remove(i)[j - 1] == ej);
                assert(r.remove(i).contains(ej));
                assert(r.remove(i).to_multiset().count(ej) > 0);
                assert(r.to_multiset().count(ej) >= 2);
                assert(s.to_multiset().insert(e).count(ej) >= 2);
                if ej == e {
                    assert(s.to_multiset().count(e) >= 1);
                    assert(s.contains(e));
                    let k = choose|k: int| 0 <= k < s.len() && s[k] == e;
                    assert(s[k].0 != e.0);
                    assert(false);
                } else {
                    assert(s.to_multiset().count(ej) >= 2);
                    assert(s.to_multiset().count(ej) > 0);
                    assert(s.contains(ej));
                    let a = choose|a: int| 0 <= a < s.len() && s[a] == ej;
                    assert(s.remove(a).to_multiset() =~= s.to_multiset().remove(ej));
                    assert(s.remove(a).to_multiset().count(ej) >= 1);
                    assert(s.remove(a).contains(ej));
                    let c = choose|c: int| 0 <= c < s.remove(a).len() && s.remove(a)[c] == ej;
                    if c < a {
                        assert(s[c] == ej);
                        assert(s[c].0 != s[a].0);
                    } else {
                        assert(s[c + 1] == ej);
                        assert(s[a].0 != s[c + 1].0);
                    }
                    assert(false);
                }
            } else {
                // distinct entries sharing a key: each is `e` or lies in `s`,
                // and every combination clashes with a hypothesis
                assert(ei == e || s.contains(ei));
                assert(ej == e || s.contains(ej));
                if ei == e {
                    assert(s.contains(ej));
                    let k = choose|k: int| 0 <= k < s.len() && s[k] == ej;
                    assert(s[k].0 != e.0);
                    assert(false);
                } else if ej == e {
                    assert(s.contains(ei));
                    let k = choose|k: int| 0 <= k < s.len() && s[k] == ei;
                    assert(s[k].0 != e.0);
                    assert(false);
                } else {
                    let a = choose|a: int| 0 <= a < s.len() && s[a] == ei;
                    let b = choose|b: int| 0 <= b < s.len() && s[b] == ej;
                    if a < b {
                        assert(s[a].0 != s[b].0);
                    } else {
                        assert(s[b].0 != s[a].0);
                    }
                    assert(false);
                }
            }
        }
    }
}

pub proof fn lemma_sort_entries_ensures(s: Seq<(Seq<char>, JsonModel)>)
    ensures
        sort_entries(s).len() == s.len(),
        sort_entries(s).to_multiset() =~= s.to_multiset(),
        entries_sorted(sort_entries(s)),
    decreases s.len(),
{
    broadcast use vstd::seq_lib::group_to_multiset_ensures;
    broadcast use vstd::multiset::group_multiset_axioms;

    if s.len() == 0 {
        assert(Seq::<(Seq<char>, JsonModel)>::empty().to_multiset() =~= Multiset::empty());
        assert(s.to_multiset() =~= Multiset::empty());
    } else {
        let d = s.drop_last();
        lemma_sort_entries_ensures(d);
        lemma_insert_entry_multiset(sort_entries(d), s.last());
        lemma_insert_entry_sorted(sort_entries(d), s.last());
        assert(s =~= d.push(s.last()));
        assert(d.push(s.last()).to_multiset() =~= d.to_multiset().insert(s.last()));
    }
}

pub proof fn lemma_sort_entries_distinct(s: Seq<(Seq<char>, JsonModel)>)
    requires
        keys_distinct(s),
    ensures
        keys_distinct(sort_entries(s)),
    decreases s.len(),
{
    broadcast use vstd::seq_lib::group_to_multiset_ensures;
    broadcast use vstd::multiset::group_multiset_axioms;

    if s.len() > 0 {
        let d = s.drop_last();
        assert(forall|i: int, j: int|
            0 <= i < j < d.len() ==> (#[trigger] d[i]).0 != (#[trigger] d[j]).0);
        lemma_sort_entries_distinct(d);
        lemma_sort_entries_ensures(d);
        let sd = sort_entries(d);
        assert forall|i: int| 0 <= i < sd.len() implies (#[trigger] sd[i]).0 != s.last().0 by {
            assert(sd.contains(sd[i]));
            assert(sd.to_multiset().count(sd[i]) > 0);
            assert(d.contains(sd[i]));
            let k = choose|k: int| 0 <= k < d.len() && d[k] == sd[i];
            assert(s[k] == sd[i] && s[s.len() - 1] == s.last());
        }
        lemma_insert_entry_keys_distinct(sd, s.last());
    }
}

/// Two sorted, key-distinct entry lists with the same contents are equal.
pub proof fn lemma_sorted_multiset_equal(
    s1: Seq<(Seq<char>, JsonModel)>,
    s2: Seq<(Seq<char>, JsonModel)>,
)
    requires
        entries_sorted(s1),
        entries_sorted(s2),
        keys_distinct(s1),
        keys_distinct(s2),
        s1.to_multiset() =~= s2.to_multiset(),
    ensures
        s1 == s2,
    decreases s1.len(),
{
    broadcast use vstd::seq_lib::group_to_multiset_ensures;
    broadcast use vstd::multiset::group_multiset_axioms;

    if s1.len() == 0 {
        if s2.len() > 0 {
            assert(s2.contains(s2[0]));
            assert(s1.to_multiset().count(s2[0]) > 0);
        }
        assert(s1 =~= s2);
    } else {
        assert(s1.len() == s1.to_multiset().len());
        assert(s2.len() == s2.to_multiset().len());
        assert(s2.len() == s1.len());
        let a = s1.last();
        let b = s2.last();
        assert(s1.contains(a));
        assert(s1.to_multiset().count(a) > 0);
        assert(s2.to_multiset().count(a) > 0);
        assert(s2.contains(a));
        let ia = choose|i: int| 0 <= i < s2.len() && s2[i] == a;
        if ia < s2.len() - 1 {
            assert(lex_le(s2[ia].0, s2[s2.len() - 1].0));
        } else {
            lemma_lex_le_refl(a.0);
        }
        assert(lex_le(a.0, b.0));
        assert(s2.contains(b));
        assert(s2.to_multiset().count(b) > 0);
        assert(s1.to_multiset().count(b) > 0);
        assert(s1.contains(b));
        let ib = choose|i: int| 0 <= i < s1.len() && s1[i] == b;
        if ib < s1.len() - 1 {
            assert(lex_le(s1[ib].0, s1[s1.len() - 1].0));
        } else {
            lemma_lex_le_refl(b.0);
        }
        assert(lex_le(b.0, a.0));
        lemma_lex_le_antisym(a.0, b.0);
        // equal keys force the last entries to be the same entry
        if ib < s1.len() - 1 {
            assert(s1[ib].0 != s1[s1.len() - 1].0);
            assert(false);
        }
        assert(b == a);
        let d1 = s1.drop_last();
        let d2 = s2.drop_last();
        assert(d1 =~= s1.remove(s1.len() - 1));
        assert(d2 =~= s2.remove(s2.len() - 1));
        assert(s1.remove(s1.len() - 1).to_multiset() =~= s1.to_multiset().remove(a));
        assert(s2.remove(s2.len() - 1).to_multiset() =~= s2.to_multiset().remove(a));
        assert(d1.to_multiset() =~= d2.to_multiset());
        assert(forall|i: int, j: int|
            0 <= i < j < d1.len() ==> lex_le((#[trigger] d1[i]).0, (#[trigger] d1[j]).0));
        assert(forall|i: int, j: int|
            0 <= i < j < d2.len() ==> lex_le((#[trigger] d2[i]).0, (#[trigger] d2[j]).0));
        assert(forall|i: int, j: int|
            0 <= i < j < d1.len() ==> (#[trigger] d1[i]).0 != (#[trigger] d1[j]).0);
        assert(forall|i: int, j: int|
            0 <= i < j < d2.len() ==> (#[trigger] d2[i]).0 != (#[trigger] d2[j]).0);
        lemma_sorted_multiset_equal(d1, d2);
        assert forall|i: int| 0 <= i < s1.len() implies s1[i] == s2[i] by {
            if i < s1.len() - 1 {
                assert(d1[i] == d2[i]);
                assert(s1[i] == d1[i]);
                assert(s2[i] == d2[i]);
            } else {
                assert(s1[i] == a && s2[i] == b);
            }
        }
        assert(s1 =~= s2);
    }
}

/// Sorting a sorted, key-distinct entry list changes nothing.
pub proof fn lemma_sort_entries_identity(s: Seq<(Seq<char>, JsonModel)>)
    requires
        entries_sorted(s),
        keys_distinct(s),
    ensures
        sort_entries(s) == s,
{
    lemma_sort_entries_ensures(s);
    lemma_sort_entries_distinct(s);
    lemma_sorted_multiset_equal(sort_entries(s), s);
}

/// The canonical form: object entries sorted by key at every level.
pub open spec fn canon(m: JsonModel) -> JsonModel
    decreases m,
{
    match m {
        JsonModel::Null => m,
        JsonModel::Bool(_) => m,
        JsonModel::Int(_) => m,
        JsonModel::Str(_) => m,
        JsonModel::Array(items) => JsonModel::Array(canon_seq(items)),
        JsonModel::Object(entries) => JsonModel::Object(sort_entries(canon_entries(entries))),
    }
}

pub open spec fn canon_seq(items: Seq<JsonModel>) -> Seq<JsonModel>
    decreases items,
{
    if items.len() == 0 {
        Seq::empty()
    } else {
        seq![canon(items[0])] + canon_seq(items.drop_first())
    }
}

pub open spec fn canon_entries(entries: Seq<(Seq<char>, JsonModel)>) -> Seq<(Seq<char>, JsonModel)>
    decreases entries,
{
    if entries.len() == 0 {
        Seq::empty()
    } else {
        seq![(entries[0].0, canon(entries[0].1))] + canon_entries(entries.drop_first())
    }
}

pub broadcast proof fn lemma_canon_seq_index(items: Seq<JsonModel>)
    ensures
        (#[trigger] canon_seq(items)).len() == items.len(),
        forall|i: int| 0 <= i < items.len() ==> canon_seq(items)[i] == canon(items[i]),
    decreases items,
{
    if items.len() > 0 {
        lemma_canon_seq_index(items.drop_first());
    }
}

pub broadcast proof fn lemma_canon_entries_index(entries: Seq<(Seq<char>, JsonModel)>)
    ensures
        (#[trigger] canon_entries(entries)).len() == entries.len(),
        forall|i: int|
            0 <= i < entries.len() ==> canon_entries(entries)[i] == (
            entries[i].0,
            canon(entries[i].1),
            ),
    decreases entries,
{
    if entries.len() > 0 {
        lemma_canon_entries_index(entries.drop_first());
    }
}

/// The canonical form of a well-formed value is well-formed, and its
/// objects are sorted.
pub proof fn lemma_canon_wf(m: JsonModel)
    requires
        m.wf(),
    ensures
        canon(m).wf(),
    decreases m,
{
    broadcast use vstd::seq_lib::group_to_multiset_ensures;
    broadcast use vstd::multiset::group_multiset_axioms;

    match m {
        JsonModel::Array(items) => {
            lemma_canon_seq_index(items);
            assert forall|i: int| 0 <= i < canon_seq(items).len() implies (#[trigger] canon_seq(
                items,
            )[i]).wf() by {
                lemma_canon_wf(items[i]);
            }
        },
        JsonModel::Object(entries) => {
            lemma_canon_entries_index(entries);
            let ce = canon_entries(entries);
            assert forall|i: int| 0 <= i < ce.len() implies (#[trigger] ce[i]).1.wf() by {
                lemma_canon_wf(entries[i].1);
            }
            assert(keys_distinct(ce));
            lemma_sort_entries_ensures(ce);
            lemma_sort_entries_distinct(ce);
            let sce = sort_entries(ce);
            assert forall|i: int| 0 <= i < sce.len() implies (#[trigger] sce[i]).1.wf() by {
                assert(sce.contains(sce[i]));
                assert(sce.to_multiset().count(sce[i]) > 0);
                assert(ce.to_multiset().count(sce[i]) > 0);
                assert(ce.contains(sce[i]));
            }
        },
        _ => {},
    }
}

/// Canonicalization is idempotent: a second pass changes nothing.
pub proof fn lemma_canon_idempotent(m: JsonModel)
    requires
        m.wf(),
    ensures
        canon(canon(m)) == canon(m),
    decreases m,
{
    broadcast use vstd::seq_lib::group_to_multiset_ensures;
    broadcast use vstd::multiset::group_multiset_axioms;

    match m {
        JsonModel::Array(items) => {
            lemma_canon_seq_index(items);
            lemma_canon_seq_index(canon_seq(items));
            assert forall|i: int| 0 <= i < items.len() implies #[trigger] canon_seq(
                canon_seq(items),
            )[i] == canon_seq(items)[i] by {
                lemma_canon_idempotent(items[i]);
            }
            assert(canon_seq(canon_seq(items)) =~= canon_seq(items));
        },
        JsonModel::Object(entries) => {
            lemma_canon_entries_index(entries);
            let ce = canon_entries(entries);
            let sce = sort_entries(ce);
            lemma_sort_entries_ensures(ce);
            assert(keys_distinct(ce));
            lemma_sort_entries_distinct(ce);
            lemma_canon_entries_index(sce);
            // a second value pass changes nothing: every entry of the sorted
            // list came from `ce`, whose values are already canonical
            assert forall|i: int| 0 <= i < sce.len() implies #[trigger] canon_entries(sce)[i]
                == sce[i] by {
                assert(sce.contains(sce[i]));
                assert(sce.to_multiset().count(sce[i]) > 0);
                assert(ce.to_multiset().count(sce[i]) > 0);
                assert(ce.contains(sce[i]));
                let j = choose|j: int| 0 <= j < ce.len() && ce[j] == sce[i];
                lemma_canon_idempotent(entries[j].1);
            }
            assert(canon_entries(sce) =~= sce);
            lemma_sort_entries_identity(sce);
        },
        _ => {},
    }
}

/// A sequence of indices that rearranges `n` positions.
pub open spec fn is_index_permutation(p: Seq<int>, n: int) -> bool {
    &&& p.len() == n
    &&& forall|i: int| 0 <= i < n ==> 0 <= #[trigger] p[i] < n
    &&& forall|i: int, j: int| 0 <= i < j < n ==> p[i] != p[j]
}

/// Two values that differ only in the order of object entries, at any
/// level.
pub open spec fn similar(a: JsonModel, b: JsonModel) -> bool
    decreases a,
{
    match (a, b) {
        (JsonModel::Null, JsonModel::Null) => true,
        (JsonModel::Bool(x), JsonModel::Bool(y)) => x == y,
        (JsonModel::Int(x), JsonModel::Int(y)) => x == y,
        (JsonModel::Str(x), JsonModel::Str(y)) => x == y,
        (JsonModel::Array(x), JsonModel::Array(y)) => x.len() == y.len() && (forall|i: int|
            0 <= i < x.len() ==> similar(#[trigger] x[i], y[i])),
        (JsonModel::Object(e1), JsonModel::Object(e2)) => e1.len() == e2.len() && (exists|
            p: Seq<int>,
        |
            is_index_permutation(p, e1.len() as int) && (forall|i: int|
                0 <= i < e2.len() && 0 <= #[trigger] p[i] < e1.len() ==> (#[trigger] e2[i]).0
                    == e1[p[i]].0 && similar(e1[p[i]].1, e2[i].1))),
        _ => false,
    }
}

/// Rearranging a sequence by an index permutation keeps its contents.
pub proof fn lemma_permuted_multiset<A>(s1: Seq<A>, s2: Seq<A>, p: Seq<int>)
    requires
        is_index_permutation(p, s1.len() as int),
        s2.len() == s1.len(),
        forall|i: int| 0 <= i < s2.len() ==> s2[i] == s1[#[trigger] p[i]],
    ensures
        s1.to_multiset() =~= s2.to_multiset(),
    decreases s1.len(),
{
    broadcast use vstd::seq_lib::group_to_multiset_ensures;
    broadcast use vstd::multiset::group_multiset_axioms;

    let n = s1.len() as int;
    if n == 0 {
        assert(s1 =~= s2);
    } else {
        let j = p[n - 1];
        let r1 = s1.remove(j);
        let r2 = s2.drop_last();
        assert(r2 =~= s2.remove(n - 1));
        let q = Seq::new((n - 1) as nat, |i: int| if p[i] < j { p[i] } else { p[i] - 1 });
        assert forall|i: int| 0 <= i < r2.len() implies r2[i] == r1[#[trigger] q[i]] by {
            assert(p[i] != p[n - 1]);
            if p[i] < j {
                assert(r1[q[i]] == s1[p[i]]);
            } else {
                assert(r1[q[i]] == s1[(q[i] + 1) as int]);
            }
        }
        assert(is_index_permutation(q, n - 1)) by {
            assert forall|i: int, k: int| 0 <= i < k < n - 1 implies q[i] != q[k] by {
                assert(p[i] != p[k]);
                assert(p[i] != p[n - 1] && p[k] != p[n - 1]);
            }
        }
        lemma_permuted_multiset(r1, r2, q);
        assert(s1.remove(j).to_multiset() =~= s1.to_multiset().remove(s1[j]));
        assert(s2.remove(n - 1).to_multiset() =~= s2.to_multiset().remove(s2[n - 1]));
        assert(s2[n - 1] == s1[j]);
        assert forall|x: A| true implies s1.to_multiset().count(x) == s2.to_multiset().count(
            x,
        ) by {
            if x == s1[j] {
                assert(s1.contains(s1[j]));
                assert(s2.contains(s2[n - 1]));
                assert(s1.to_multiset().count(x) > 0);
                assert(s2.to_multiset().count(x) > 0);
                assert(r1.to_multiset().count(x) == s1.to_multiset().count(x) - 1);
                assert(r2.to_multiset().count(x) == s2.to_multiset().count(x) - 1);
            } else {
                assert(r1.to_multiset().count(x) == s1.to_multiset().count(x));
                assert(r2.to_multiset().count(x) == s2.to_multiset().count(x));
            }
        }
    }
}

/// Entry order inside objects does not change the canonical form.
pub proof fn lemma_canon_similar(a: JsonModel, b: JsonModel)
    requires
        a.wf(),
        similar(a, b),
    ensures
        canon(a) == canon(b),
    decreases a,
{
    broadcast use vstd::seq_lib::group_to_multiset_ensures;
    broadcast use vstd::multiset::group_multiset_axioms;

    match a {
        JsonModel::Array(x) => {
            let y = b->Array_0;
            lemma_canon_seq_index(x);
            lemma_canon_seq_index(y);
            assert forall|i: int| 0 <= i < x.len() implies #[trigger] canon_seq(x)[i]
                == canon_seq(y)[i] by {
                lemma_canon_similar(x[i], y[i]);
            }
            assert(canon_seq(x) =~= canon_seq(y));
        },
        JsonModel::Object(e1) => {
            let e2 = b->Object_0;
            let p = choose|p: Seq<int>|
                is_index_permutation(p, e1.len() as int) && (forall|i: int|
                    0 <= i < e2.len() && 0 <= #[trigger] p[i] < e1.len() ==> (#[trigger] e2[i]).0
                        == e1[p[i]].0 && similar(e1[p[i]].1, e2[i].1));
            lemma_canon_entries_index(e1);
            lemma_canon_entries_index(e2);
            let ce1 = canon_entries(e1);
            let ce2 = canon_entries(e2);
            assert forall|i: int| 0 <= i < ce2.len() implies ce2[i] == ce1[#[trigger] p[i]] by {
                lemma_canon_similar(e1[p[i]].1, e2[i].1);
            }
            lemma_permuted_multiset(ce1, ce2, p);
            assert(keys_distinct(ce1));
            assert forall|i: int, j: int| 0 <= i < j < ce2.len() implies (#[trigger] ce2[i]).0 != (
            #[trigger] ce2[j]).0 by {
                assert(p[i] != p[j]);
                assert(ce2[i] == ce1[p[i]] && ce2[j] == ce1[p[j]]);
                if p[i] < p[j] {
                    assert(ce1[p[i]].0 != ce1[p[j]].0);
                } else {
                    assert(ce1[p[j]].0 != ce1[p[i]].0);
                }
            }
            lemma_sort_entries_ensures(ce1);
            lemma_sort_entries_ensures(ce2);
            lemma_sort_entries_distinct(ce1);
            lemma_sort_entries_distinct(ce2);
            lemma_sorted_multiset_equal(sort_entries(ce1), sort_entries(ce2));
        },
        _ => {},
    }
}

/// One hexadecimal digit, lower case.
pub open spec fn hex_digit(n: int) -> char {
    if n == 0 {
        '0'
    } else if n == 1 {
        '1'
    } else if n == 2 {
        '2'
    } else if n == 3 {
        '3'
    } else if n == 4 {
        '4'
    } else if n == 5 {
        '5'
    } else if n == 6 {
        '6'
    } else if n == 7 {
        '7'
    } else if n == 8 {
        '8'
    } else if n == 9 {
        '9'
    } else if n == 10 {
        'a'
    } else if n == 11 {
        'b'
    } else if n == 12 {
        'c'
    } else if n == 13 {
        'd'
    } else if n == 14 {
        'e'
    } else {
        'f'
    }
}

/// How one character appears inside a JSON string literal. Every
/// control character takes the `\u00XX` form, which any JSON parser
/// reads back to the same character; signing and verification both run
/// through this serializer, so the pre-image is the same at both ends.
pub open spec fn esc_char(c: char) -> Seq<char> {
    if c == '"' {
        seq!['\\', '"']
    } else if c == '\\' {
        seq!['\\', '\\']
    } else if (c as u32) < 0x20 {
        seq!['\\', 'u', '0', '0', hex_digit((c as u32 / 16) as int), hex_digit(
            (c as u32 % 16) as int,
        )]
    } else {
        seq![c]
    }
}

pub open spec fn ser_str_body(s: Seq<char>) -> Seq<char>
    decreases s.len(),
{
    if s.len() == 0 {
        Seq::empty()
    } else {
        esc_char(s[0]) + ser_str_body(s.drop_first())
    }
}

/// A JSON string literal: quoted, with escapes.
pub open spec fn ser_string(s: Seq<char>) -> Seq<char> {
    seq!['"'] + ser_str_body(s) + seq!['"']
}

pub open spec fn ser_nat(n: int) -> Seq<char>
    recommends
        n >= 0,
    decreases n,
{
    if n < 10 {
        seq![hex_digit(n)]
    } else {
        ser_nat(n / 10) + seq![hex_digit(n % 10)]
    }
}

/// A JSON integer literal.
pub open spec fn ser_int(n: int) -> Seq<char> {
    if n < 0 {
        seq!['-'] + ser_nat(-n)
    } else {
        ser_nat(n)
    }
}

/// The serialization of a value, with entries and items in the order
/// they stand; canonical once `canon` has ordered the objects.
pub open spec fn ser(m: JsonModel) -> Seq<char>
    decreases m,
{
    match m {
        JsonModel::Null => seq!['n', 'u', 'l', 'l'],
        JsonModel::Bool(x) => if x {
            seq!['t', 'r', 'u', 'e']
        } else {
            seq!['f', 'a', 'l', 's', 'e']
        },
        JsonModel::Int(n) => ser_int(n),
        JsonModel::Str(s) => ser_string(s),
        JsonModel::Array(items) => seq!['['] + ser_items(items) + seq![']'],
        JsonModel::Object(entries) => seq!['{'] + ser_obj(entries) + seq!['}'],
    }
}

pub open spec fn ser_items(items: Seq<JsonModel>) -> Seq<char>
    decreases items,
{
    if items.len() == 0 {
        Seq::empty()
    } else if items.len() == 1 {
        ser(items[0])
    } else {
        ser(items[0]) + seq![','] + ser_items(items.drop_first())
    }
}

pub open spec fn ser_entry(e: (Seq<char>, JsonModel)) -> Seq<char>
    decreases e,
{
    ser_string(e.0) + seq![':'] + ser(e.1)
}

pub open spec fn ser_obj(entries: Seq<(Seq<char>, JsonModel)>) -> Seq<char>
    decreases entries,
{
    if entries.len() == 0 {
        Seq::empty()
    } else if entries.len() == 1 {
        ser_entry(entries[0])
    } else {
        ser_entry(entries[0]) + seq![','] + ser_obj(entries.drop_first())
    }
}

/// The canonical serialization: the byte-deterministic signing pre-image.
pub open spec fn canon_string(m: JsonModel) -> Seq<char> {
    ser(canon(m))
}

pub proof fn lemma_ser_nat_len(n: int)
    ensures
        ser_nat(n).len() >= 1,
    decreases n,
{
    if n >= 10 {
        lemma_ser_nat_len(n / 10);
    }
}

/// No value serializes to the empty string.
pub proof fn lemma_ser_nonempty(m: JsonModel)
    ensures
        ser(m).len() >= 1,
{
    match m {
        JsonModel::Int(n) => {
            if n < 0 {
                lemma_ser_nat_len(-n);
            } else {
                lemma_ser_nat_len(n);
            }
        },
        _ => {},
    }
}

/// UTF-8 takes at least one byte per character.
pub proof fn lemma_encode_utf8_len(chars: Seq<char>)
    ensures
        vstd::utf8::encode_utf8(chars).len() >= chars.len(),
    decreases chars.len(),
{
    if chars.len() > 0 {
        lemma_encode_utf8_len(chars.drop_first());
    }
}

proof fn lemma_ser_str_body_snoc(s: Seq<char>, x: char)
    ensures
        ser_str_body(s.push(x)) == ser_str_body(s) + esc_char(x),
    decreases s.len(),
{
    if s.len() == 0 {
        assert(s.push(x) =~= seq![x]);
        assert(s.push(x).drop_first() =~= Seq::<char>::empty());
        assert(ser_str_body(Seq::<char>::empty()) =~= Seq::<char>::empty());
        assert(ser_str_body(s.push(x)) == esc_char(x) + ser_str_body(s.push(x).drop_first()));
        assert(ser_str_body(s.push(x)) =~= ser_str_body(s) + esc_char(x));
    } else {
        lemma_ser_str_body_snoc(s.drop_first(), x);
        assert(s.push(x).drop_first() =~= s.drop_first().push(x));
        assert(s.push(x)[0] == s[0]);
        assert(ser_str_body(s.push(x)) == esc_char(s[0]) + ser_str_body(s.drop_first().push(x)));
        assert(esc_char(s[0]) + (ser_str_body(s.drop_first()) + esc_char(x)) =~= (esc_char(s[0])
            + ser_str_body(s.drop_first())) + esc_char(x));
        assert(ser_str_body(s.push(x)) =~= ser_str_body(s) + esc_char(x));
    }
}

proof fn lemma_ser_items_snoc(s: Seq<JsonModel>, x: JsonModel)
    ensures
        ser_items(s.push(x)) == if s.len() == 0 {
            ser(x)
        } else {
            ser_items(s) + seq![','] + ser(x)
        },
    decreases s.len(),
{
    if s.len() == 0 {
        assert(s.push(x) =~= seq![x]);
        assert(s.push(x)[0] == x);
    } else {
        lemma_ser_items_snoc(s.drop_first(), x);
        assert(s.push(x).drop_first() =~= s.drop_first().push(x));
        assert(s.push(x)[0] == s[0]);
        if s.len() == 1 {
            assert(ser_items(s.push(x)) =~= ser_items(s) + seq![','] + ser(x));
        } else {
            assert(ser_items(s.push(x)) =~= ser_items(s) + seq![','] + ser(x));
        }
    }
}

proof fn lemma_ser_obj_snoc(s: Seq<(Seq<char>, JsonModel)>, x: (Seq<char>, JsonModel))
    ensures
        ser_obj(s.push(x)) == if s.len() == 0 {
            ser_entry(x)
        } else {
            ser_obj(s) + seq![','] + ser_entry(x)
        },
    decreases s.len(),
{
    if s.len() == 0 {
        assert(s.push(x) =~= seq![x]);
        assert(s.push(x)[0] == x);
    } else {
        lemma_ser_obj_snoc(s.drop_first(), x);
        assert(s.push(x).drop_first() =~= s.drop_first().push(x));
        assert(s.push(x)[0] == s[0]);
        assert(ser_obj(s.push(x)) =~= ser_obj(s) + seq![','] + ser_entry(x));
    }
}

/// Where the first entries hold no key at or above `e`'s, insertion
/// lands at the first position whose key is not below `e`'s.
proof fn lemma_insert_entry_at(s: Seq<(Seq<char>, JsonModel)>, e: (Seq<char>, JsonModel), j: int)
    requires
        0 <= j <= s.len(),
        forall|k: int| 0 <= k < j ==> !lex_le(e.0, (#[trigger] s[k]).0),
        j < s.len() ==> lex_le(e.0, s[j].0),
    ensures
        insert_entry(s, e) == s.insert(j, e),
    decreases j,
{
    if j == 0 {
        if s.len() == 0 {
            assert(seq![e] =~= s.insert(0, e));
        } else {
            assert(seq![e] + s =~= s.insert(0, e));
        }
    } else {
        lemma_insert_entry_at(s.drop_first(), e, j - 1);
        assert forall|k: int| 0 <= k < j - 1 implies !lex_le(e.0, (#[trigger] s.drop_first()[k]).0)
            by {
            assert(s.drop_first()[k] == s[k + 1]);
        }
        assert(seq![s[0]] + s.drop_first().insert(j - 1, e) =~= s.insert(j, e));
    }
}

/// One lower-case hexadecimal digit.
fn hex_digit_char(n: u32) -> (c: char)
    requires
        n < 16,
    ensures
        c == hex_digit(n as int),
{
    if n == 0 {
        '0'
    } else if n == 1 {
        '1'
    } else if n == 2 {
        '2'
    } else if n == 3 {
        '3'
    } else if n == 4 {
        '4'
    } else if n == 5 {
        '5'
    } else if n == 6 {
        '6'
    } else if n == 7 {
        '7'
    } else if n == 8 {
        '8'
    } else if n == 9 {
        '9'
    } else if n == 10 {
        'a'
    } else if n == 11 {
        'b'
    } else if n == 12 {
        'c'
    } else if n == 13 {
        'd'
    } else if n == 14 {
        'e'
    } else {
        'f'
    }
}

/// Append the canonical decimal form of `n`.
fn write_nat(n: u64, out: &mut String)
    ensures
        final(out)@ == old(out)@ + ser_nat(n as int),
    decreases n,
{
    if n < 10 {
        push_char(out, hex_digit_char(n as u32));
        proof {
            assert(old(out)@.push(hex_digit(n as int)) =~= old(out)@ + ser_nat(n as int));
        }
    } else {
        write_nat(n / 10, out);
        push_char(out, hex_digit_char((n % 10) as u32));
        proof {
            assert(old(out)@ + ser_nat(n as int / 10) + seq![hex_digit(n as int % 10)] =~= old(
                out,
            )@ + ser_nat(n as int));
            assert((old(out)@ + ser_nat(n as int / 10)).push(hex_digit(n as int % 10)) =~= old(
                out,
            )@ + ser_nat(n as int / 10) + seq![hex_digit(n as int % 10)]);
        }
    }
}

/// Append the canonical decimal form of `n`, sign included.
fn write_int(n: i64, out: &mut String)
    ensures
        final(out)@ == old(out)@ + ser_int(n as int),
{
    if n < 0 {
        push_char(out, '-');
        let m: u64 = (-(n as i128)) as u64;
        proof {
            assert(m as int == -(n as int));
        }
        write_nat(m, out);
        proof {
            assert(old(out)@.push('-') + ser_nat(m as int) =~= old(out)@ + ser_int(n as int));
        }
    } else {
        write_nat(n as u64, out);
    }
}

/// Append the JSON string literal for `s`.
#[verifier::loop_isolation(false)]
fn write_string_lit(s: &str, out: &mut String)
    ensures
        final(out)@ == old(out)@ + ser_string(s@),
{
    push_char(out, '"');
    let n = s.unicode_len();
    let mut i: usize = 0;
    while i < n
        invariant
            i <= n,
            out@ == old(out)@.push('"') + ser_str_body(s@.take(i as int)),
        decreases n - i,
    {
        let c = s.get_char(i);
        if c == '"' {
            push_char(out, '\\');
            push_char(out, '"');
        } else if c == '\\' {
            push_char(out, '\\');
            push_char(out, '\\');
        } else if (c as u32) < 0x20 {
            push_char(out, '\\');
            push_char(out, 'u');
            push_char(out, '0');
            push_char(out, '0');
            push_char(out, hex_digit_char((c as u32) / 16));
            push_char(out, hex_digit_char((c as u32) % 16));
        } else {
            push_char(out, c);
        }
        proof {
            lemma_ser_str_body_snoc(s@.take(i as int), s@[i as int]);
            assert(s@.take(i as int).push(s@[i as int]) =~= s@.take(i + 1));
            assert(out@ =~= old(out)@.push('"') + ser_str_body(s@.take(i + 1)));
        }
        i = i + 1;
    }
    push_char(out, '"');
    proof {
        assert(s@.take(n as int) =~= s@);
        assert(out@ =~= old(out)@ + ser_string(s@));
    }
}

/// The canonical form of a value: object entries sorted by key at every
/// level, arrays and scalars unchanged.
#[verifier::loop_isolation(false)]
pub fn canon_value(v: &JsonValue) -> (r: JsonValue)
    ensures
        r@ == canon(v@),
    decreases *v,
{
    match v {
        JsonValue::Null => JsonValue::Null,
        JsonValue::Bool(b) => JsonValue::Bool(*b),
        JsonValue::Int(n) => JsonValue::Int(*n),
        JsonValue::Str(s) => JsonValue::Str(s.clone()),
        JsonValue::Array(items) => {
            let mut out: Vec<JsonValue> = Vec::new();
            let n = items.len();
            let mut i: usize = 0;
            while i < n
                invariant
                    i <= n,
                    out@.len() == i,
                    forall|j: int| 0 <= j < i ==> (#[trigger] out@[j])@ == canon(items@[j]@),
                decreases n - i,
            {
                proof {
                    assert(decreases_to!(*v => v->Array_0));
                    assert(decreases_to!(v->Array_0 => v->Array_0@[i as int]));
                    assert(v->Array_0@[i as int] == items@[i as int]);
                }
                out.push(canon_value(&items[i]));
                i = i + 1;
            }
            proof {
                lemma_jm_of_seq_index(out@);
                lemma_jm_of_seq_index(items@);
                lemma_canon_seq_index(jm_of_seq(items@));
                assert(jm_of_seq(out@) =~= canon_seq(jm_of_seq(items@)));
            }
            JsonValue::Array(out)
        },
        JsonValue::Object(entries) => {
            let mut cv: Vec<JsonEntry> = Vec::new();
            let n = entries.len();
            let mut i: usize = 0;
            while i < n
                invariant
                    i <= n,
                    cv@.len() == i,
                    forall|j: int|
                        0 <= j < i ==> (#[trigger] cv@[j]).key@ == entries@[j].key@
                            && cv@[j].value@ == canon(entries@[j].value@),
                decreases n - i,
            {
                proof {
                    assert(decreases_to!(*v => v->Object_0));
                    assert(decreases_to!(v->Object_0 => v->Object_0@[i as int]));
                    assert(decreases_to!(v->Object_0@[i as int] => v->Object_0@[i as int].value));
                    assert(v->Object_0@[i as int] == entries@[i as int]);
                }
                let key = entries[i].key.clone();
                let value = canon_value(&entries[i].value);
                cv.push(JsonEntry { key, value });
                i = i + 1;
            }
            proof {
                lemma_jm_of_entries_index(cv@);
                lemma_jm_of_entries_index(entries@);
                lemma_canon_entries_index(jm_of_entries(entries@));
                assert(jm_of_entries(cv@) =~= canon_entries(jm_of_entries(entries@)));
            }
            let mut out: Vec<JsonEntry> = Vec::new();
            let mut k: usize = 0;
            while k < n
                invariant
                    k <= n,
                    cv@.len() == n,
                    jm_of_entries(out@) == sort_entries(jm_of_entries(cv@).take(k as int)),
                    out@.len() == k,
                decreases n - k,
            {
                let e_key = cv[k].key.clone();
                let e_value = cv[k].value.clone();
                let m = out.len();
                let mut j: usize = 0;
                while j < m
                    invariant
                        j <= m,
                        m == out@.len(),
                        forall|l: int|
                            0 <= l < j ==> !lex_le(e_key@, (#[trigger] out@[l]).key@),
                    decreases m - j,
                {
                    if lex_le_str(e_key.as_str(), out[j].key.as_str()) {
                        break ;
                    }
                    j = j + 1;
                }
                proof {
                    lemma_jm_of_entries_index(out@);
                    lemma_insert_entry_at(
                        jm_of_entries(out@),
                        (e_key@, jm_of(cv@[k as int].value)),
                        j as int,
                    );
                }
                let ghost out_before = out@;
                out.insert(j, JsonEntry { key: e_key, value: e_value });
                proof {
                    lemma_jm_of_entries_index(out@);
                    lemma_jm_of_entries_index(out_before);
                    assert(jm_of_entries(out@) =~= jm_of_entries(out_before).insert(
                        j as int,
                        (cv@[k as int].key@, jm_of(cv@[k as int].value)),
                    ));
                    lemma_jm_of_entries_index(cv@);
                    assert(jm_of_entries(cv@).take(k as int).push(jm_of_entries(cv@)[k as int])
                        =~= jm_of_entries(cv@).take(k + 1));
                    assert(jm_of_entries(cv@).take(k + 1).drop_last() =~= jm_of_entries(
                        cv@,
                    ).take(k as int));
                }
                k = k + 1;
            }
            proof {
                assert(jm_of_entries(cv@).take(n as int) =~= jm_of_entries(cv@));
                assert(jm_of(JsonValue::Object(out)) == canon(v@));
            }
            JsonValue::Object(out)
        },
    }
}

/// Append the serialization of `v`.
#[verifier::loop_isolation(false)]
pub fn write_json(v: &JsonValue, out: &mut String)
    ensures
        final(out)@ == old(out)@ + ser(v@),
    decreases *v,
{
    match v {
        JsonValue::Null => {
            push_char(out, 'n');
            push_char(out, 'u');
            push_char(out, 'l');
            push_char(out, 'l');
            proof {
                assert(out@ =~= old(out)@ + ser(v@));
            }
        },
        JsonValue::Bool(b) => {
            if *b {
                push_char(out, 't');
                push_char(out, 'r');
                push_char(out, 'u');
                push_char(out, 'e');
            } else {
                push_char(out, 'f');
                push_char(out, 'a');
                push_char(out, 'l');
                push_char(out, 's');
                push_char(out, 'e');
            }
            proof {
                assert(out@ =~= old(out)@ + ser(v@));
            }
        },
        JsonValue::Int(n) => {
            write_int(*n, out);
        },
        JsonValue::Str(s) => {
            write_string_lit(s.as_str(), out);
        },
        JsonValue::Array(items) => {
            push_char(out, '[');
            let n = items.len();
            let mut i: usize = 0;
            while i < n
                invariant
                    i <= n,
                    out@ == old(out)@.push('[') + ser_items(jm_of_seq(items@).take(i as int)),
                decreases n - i,
            {
                if i > 0 {
                    push_char(out, ',');
                }
                proof {
                    assert(decreases_to!(*v => v->Array_0));
                    assert(decreases_to!(v->Array_0 => v->Array_0@[i as int]));
                    assert(v->Array_0@[i as int] == items@[i as int]);
                }
                write_json(&items[i], out);
                proof {
                    lemma_jm_of_seq_index(items@);
                    lemma_ser_items_snoc(jm_of_seq(items@).take(i as int), items@[i as int]@);
                    assert(jm_of_seq(items@).take(i as int).push(jm_of_seq(items@)[i as int])
                        =~= jm_of_seq(items@).take(i + 1));
                    assert(out@ =~= old(out)@.push('[') + ser_items(
                        jm_of_seq(items@).take(i + 1),
                    ));
                }
                i = i + 1;
            }
            push_char(out, ']');
            proof {
                lemma_jm_of_seq_index(items@);
                assert(jm_of_seq(items@).take(n as int) =~= jm_of_seq(items@));
                assert(out@ =~= old(out)@ + ser(v@));
            }
        },
        JsonValue::Object(entries) => {
            push_char(out, '{');
            let n = entries.len();
            let mut i: usize = 0;
            while i < n
                invariant
                    i <= n,
                    out@ == old(out)@.push('{') + ser_obj(jm_of_entries(entries@).take(i as int)),
                decreases n - i,
            {
                if i > 0 {
                    push_char(out, ',');
                }
                write_string_lit(entries[i].key.as_str(), out);
                push_char(out, ':');
                proof {
                    assert(decreases_to!(*v => v->Object_0));
                    assert(decreases_to!(v->Object_0 => v->Object_0@[i as int]));
                    assert(decreases_to!(v->Object_0@[i as int] => v->Object_0@[i as int].value));
                    assert(v->Object_0@[i as int] == entries@[i as int]);
                }
                write_json(&entries[i].value, out);
                proof {
                    lemma_jm_of_entries_index(entries@);
                    lemma_ser_obj_snoc(
                        jm_of_entries(entries@).take(i as int),
                        jm_of_entries(entries@)[i as int],
                    );
                    assert(jm_of_entries(entries@).take(i as int).push(
                        jm_of_entries(entries@)[i as int],
                    ) =~= jm_of_entries(entries@).take(i + 1));
                    assert(out@ =~= old(out)@.push('{') + ser_obj(
                        jm_of_entries(entries@).take(i + 1),
                    ));
                }
                i = i + 1;
            }
            push_char(out, '}');
            proof {
                lemma_jm_of_entries_index(entries@);
                assert(jm_of_entries(entries@).take(n as int) =~= jm_of_entries(entries@));
                assert(out@ =~= old(out)@ + ser(v@));
            }
        },
    }
}

/// The canonical decimal form of a number, for diagnostics.
pub fn nat_string(n: u64) -> (r: String)
    ensures
        r@ == ser_nat(n as int),
{
    let mut out = String::new();
    write_nat(n, &mut out);
    proof {
        assert(Seq::<char>::empty() + ser_nat(n as int) =~= ser_nat(n as int));
    }
    out
}

/// The canonical serialization of `v`: sort object keys everywhere,
/// then serialize.
pub fn to_canonical_string(v: &JsonValue) -> (r: String)
    ensures
        r@ == canon_string(v@),
{
    let c = canon_value(v);
    let mut out = String::new();
    write_json(&c, &mut out);
    proof {
        assert(Seq::<char>::empty() + ser(canon(v@)) =~= ser(canon(v@)));
    }
    out
}

} // verus!
