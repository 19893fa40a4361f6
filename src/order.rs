use crate::ets::{EtsTableInfo, TableInfoView};
use crate::text::{lemma_name_lt_total, lemma_name_lt_transitive, name_le, name_lt, text_lt};
use vstd::multiset::Multiset;
use vstd::prelude::*;

verus! {

/// Inserts `x` into `s` before the first table whose name is strictly greater.
pub open spec fn insert_by_name(s: Seq<TableInfoView>, x: TableInfoView) -> Seq<TableInfoView>
    decreases s.len(),
{
    if s.len() == 0 {
        seq![x]
    } else if name_lt(x.name, s[0].name) {
        seq![x] + s
    } else {
        seq![s[0]] + insert_by_name(s.drop_first(), x)
    }
}

/// The tables in ascending name order; tables of equal name keep their order.
pub open spec fn sorted_by_name(s: Seq<TableInfoView>) -> Seq<TableInfoView>
    decreases s.len(),
{
    if s.len() == 0 {
        s
    } else {
        insert_by_name(sorted_by_name(s.drop_last()), s.last())
    }
}

/// Whether the names never decrease along the sequence.
pub open spec fn names_ascending(s: Seq<TableInfoView>) -> bool {
    forall|i: int, j: int| 0 <= i < j < s.len() ==> name_le(#[trigger] s[i].name, #[trigger] s[j].name)
}

/// Where `insert_by_name` puts `x`.
pub open spec fn name_insert_pos(s: Seq<TableInfoView>, x: TableInfoView) -> int
    decreases s.len(),
{
    if s.len() == 0 || name_lt(x.name, s[0].name) {
        0
    } else {
        1 + name_insert_pos(s.drop_first(), x)
    }
}

proof fn lemma_insert_by_name_at(s: Seq<TableInfoView>, x: TableInfoView, j: int)
    requires
        0 <= j <= s.len(),
        forall|k: int| 0 <= k < j ==> !name_lt(x.name, #[trigger] s[k].name),
        j == s.len() || name_lt(x.name, s[j].name),
    ensures
        insert_by_name(s, x) == s.take(j) + seq![x] + s.skip(j),
    decreases s.len(),
{
    if s.len() == 0 {
        assert(s.take(j) + seq![x] + s.skip(j) =~= seq![x]);
    } else if j == 0 {
        assert(s.take(j) + seq![x] + s.skip(j) =~= seq![x] + s);
    } else {
        let t = s.drop_first();
        assert forall|k: int| 0 <= k < j - 1 implies !name_lt(x.name, #[trigger] t[k].name) by {
            assert(t[k] == s[k + 1]);
        }
        lemma_insert_by_name_at(t, x, j - 1);
        assert(seq![s[0]] + (t.take(j - 1) + seq![x] + t.skip(j - 1)) =~= s.take(j) + seq![x] + s.skip(j));
    }
}

proof fn lemma_insert_keeps_ascending(s: Seq<TableInfoView>, x: TableInfoView, j: int)
    requires
        names_ascending(s),
        0 <= j <= s.len(),
        forall|k: int| 0 <= k < j ==> !name_lt(x.name, #[trigger] s[k].name),
        j == s.len() || name_lt(x.name, s[j].name),
    ensures
        names_ascending(s.take(j) + seq![x] + s.skip(j)),
{
    let r = s.take(j) + seq![x] + s.skip(j);
    assert forall|p: int, q: int| 0 <= p < q < r.len() implies name_le(#[trigger] r[p].name, #[trigger] r[q].name) by {
        if q < j {
            assert(r[p] == s[p] && r[q] == s[q]);
        } else if q == j {
            assert(r[p] == s[p]);
            lemma_name_lt_total(s[p].name, x.name);
        } else if p == j {
            assert(r[q] == s[q - 1]);
            if j < q - 1 {
                assert(name_le(s[j].name, s[q - 1].name));
                if name_lt(s[j].name, s[q - 1].name) {
                    lemma_name_lt_transitive(x.name, s[j].name, s[q - 1].name);
                }
            }
        } else if p < j {
            assert(r[p] == s[p] && r[q] == s[q - 1]);
        } else {
            assert(r[p] == s[p - 1] && r[q] == s[q - 1]);
        }
    }
}

proof fn lemma_insert_by_name_ascending(s: Seq<TableInfoView>, x: TableInfoView)
    requires
        names_ascending(s),
    ensures
        names_ascending(insert_by_name(s, x)),
        insert_by_name(s, x).to_multiset() == s.to_multiset().insert(x),
{
    broadcast use vstd::seq_lib::group_to_multiset_ensures, vstd::multiset::group_multiset_axioms;

    lemma_name_insert_pos(s, x);
    let j = name_insert_pos(s, x);
    lemma_insert_by_name_at(s, x, j);
    lemma_insert_keeps_ascending(s, x, j);
    vstd::seq_lib::lemma_multiset_commutative(s.take(j) + seq![x], s.skip(j));
    vstd::seq_lib::lemma_multiset_commutative(s.take(j), seq![x]);
    vstd::seq_lib::lemma_multiset_commutative(s.take(j), s.skip(j));
    assert(s.take(j) + s.skip(j) =~= s);
    assert(seq![x] =~= Seq::<TableInfoView>::empty().push(x));
    assert(Seq::<TableInfoView>::empty().to_multiset() =~= Multiset::empty());
}

proof fn lemma_name_insert_pos(s: Seq<TableInfoView>, x: TableInfoView)
    ensures
        0 <= name_insert_pos(s, x) <= s.len(),
        forall|k: int| 0 <= k < name_insert_pos(s, x) ==> !name_lt(x.name, #[trigger] s[k].name),
        name_insert_pos(s, x) == s.len() || name_lt(x.name, s[name_insert_pos(s, x)].name),
    decreases s.len(),
{
    if s.len() > 0 && !name_lt(x.name, s[0].name) {
        let t = s.drop_first();
        lemma_name_insert_pos(t, x);
        assert forall|k: int| 0 <= k < name_insert_pos(s, x) implies !name_lt(x.name, #[trigger] s[k].name) by {
            if k > 0 {
                assert(s[k] == t[k - 1]);
            }
        }
    }
}

/// Sorting by name gives ascending names and the same tables.
pub proof fn lemma_sorted_by_name(s: Seq<TableInfoView>)
    ensures
        names_ascending(sorted_by_name(s)),
        sorted_by_name(s).to_multiset() == s.to_multiset(),
    decreases s.len(),
{
    broadcast use vstd::seq_lib::group_to_multiset_ensures;

    if s.len() == 0 {
    } else {
        lemma_sorted_by_name(s.drop_last());
        lemma_insert_by_name_ascending(sorted_by_name(s.drop_last()), s.last());
        assert(s =~= s.drop_last().push(s.last()));
    }
}

/// The views of a sequence of records.
pub open spec fn views(s: Seq<EtsTableInfo>) -> Seq<TableInfoView> {
    s.map_values(|t: EtsTableInfo| t@)
}

proof fn lemma_views_insert(s: Seq<EtsTableInfo>, j: int, x: EtsTableInfo)
    requires
        0 <= j <= s.len(),
    ensures
        views(s.insert(j, x)) == views(s).take(j) + seq![x@] + views(s).skip(j),
{
    assert(views(s.insert(j, x)) =~= views(s).take(j) + seq![x@] + views(s).skip(j));
}

proof fn lemma_views_step(all: Seq<EtsTableInfo>, taken: int)
    requires
        0 <= taken < all.len(),
    ensures
        views(all.take(taken + 1)).drop_last() == views(all.take(taken)),
        views(all.take(taken + 1)).last() == all[taken]@,
        views(all.take(taken + 1)).len() > 0,
{
    assert(views(all.take(taken + 1)).drop_last() =~= views(all.take(taken)));
}

/// Inserts `x` into `out` before the first greater name.
fn insert_by_name_into(out: &mut Vec<EtsTableInfo>, x: EtsTableInfo)
    ensures
        views(final(out)@) == insert_by_name(views(old(out)@), x@),
{
    let ghost vs = views(out@);
    let mut j: usize = 0;
    while j < out.len() && !text_lt(x.name.as_str(), out[j].name.as_str())
        invariant
            j <= out@.len(),
            vs == views(out@),
            forall|k: int| 0 <= k < j ==> !name_lt(x@.name, #[trigger] vs[k].name),
        decreases out@.len() - j,
    {
        j = j + 1;
    }
    proof {
        lemma_insert_by_name_at(vs, x@, j as int);
        lemma_views_insert(out@, j as int, x);
    }
    out.insert(j, x);
}

/// Sorts tables by name, ascending; tables of equal name keep their order.
pub fn sort_by_name(tables: Vec<EtsTableInfo>) -> (r: Vec<EtsTableInfo>)
    ensures
        views(r@) == sorted_by_name(views(tables@)),
        names_ascending(views(r@)),
        views(r@).to_multiset() == views(tables@).to_multiset(),
{
    let mut out: Vec<EtsTableInfo> = Vec::new();
    let mut rest = tables;
    let ghost all = rest@;
    let ghost mut taken: int = 0;
    assert(views(out@) =~= sorted_by_name(views(all.take(0))));
    while rest.len() > 0
        invariant
            0 <= taken <= all.len(),
            rest@ == all.skip(taken),
            views(out@) == sorted_by_name(views(all.take(taken))),
        decreases rest@.len(),
    {
        let x = rest.remove(0);
        proof {
            assert(all[taken] == x);
            lemma_views_step(all, taken);
        }
        insert_by_name_into(&mut out, x);
        proof {
            taken = taken + 1;
            assert(rest@ =~= all.skip(taken));
        }
    }
    proof {
        assert(all.take(taken) =~= all);
        lemma_sorted_by_name(views(all));
    }
    out
}

/// Inserts `x` into `s` before the first table that takes strictly less memory.
pub open spec fn insert_by_memory(s: Seq<TableInfoView>, x: TableInfoView) -> Seq<TableInfoView>
    decreases s.len(),
{
    if s.len() == 0 {
        seq![x]
    } else if s[0].memory_bytes < x.memory_bytes {
        seq![x] + s
    } else {
        seq![s[0]] + insert_by_memory(s.drop_first(), x)
    }
}

/// The tables by memory, largest first; tables of equal memory keep their order.
pub open spec fn sorted_by_memory_desc(s: Seq<TableInfoView>) -> Seq<TableInfoView>
    decreases s.len(),
{
    if s.len() == 0 {
        s
    } else {
        insert_by_memory(sorted_by_memory_desc(s.drop_last()), s.last())
    }
}

/// Whether memory never increases along the sequence.
pub open spec fn memory_descending(s: Seq<TableInfoView>) -> bool {
    forall|i: int, j: int| 0 <= i < j < s.len() ==> (#[trigger] s[j]).memory_bytes <= (#[trigger] s[i]).memory_bytes
}

proof fn lemma_insert_by_memory_at(s: Seq<TableInfoView>, x: TableInfoView, j: int)
    requires
        0 <= j <= s.len(),
        forall|k: int| 0 <= k < j ==> x.memory_bytes <= (#[trigger] s[k]).memory_bytes,
        j == s.len() || s[j].memory_bytes < x.memory_bytes,
    ensures
        insert_by_memory(s, x) == s.take(j) + seq![x] + s.skip(j),
    decreases s.len(),
{
    if s.len() == 0 {
        assert(s.take(j) + seq![x] + s.skip(j) =~= seq![x]);
    } else if j == 0 {
        assert(s.take(j) + seq![x] + s.skip(j) =~= seq![x] + s);
    } else {
        let t = s.drop_first();
        assert forall|k: int| 0 <= k < j - 1 implies x.memory_bytes <= (#[trigger] t[k]).memory_bytes by {
            assert(t[k] == s[k + 1]);
        }
        lemma_insert_by_memory_at(t, x, j - 1);
        assert(seq![s[0]] + (t.take(j - 1) + seq![x] + t.skip(j - 1)) =~= s.take(j) + seq![x] + s.skip(j));
    }
}

proof fn lemma_insert_by_memory_shape(s: Seq<TableInfoView>, x: TableInfoView)
    requires
        memory_descending(s),
    ensures
        memory_descending(insert_by_memory(s, x)),
        insert_by_memory(s, x).to_multiset() == s.to_multiset().insert(x),
    decreases s.len(),
{
    broadcast use vstd::seq_lib::group_to_multiset_ensures, vstd::multiset::group_multiset_axioms;

    if s.len() == 0 {
        assert(seq![x] =~= Seq::<TableInfoView>::empty().push(x));
        assert(Seq::<TableInfoView>::empty().to_multiset() =~= Multiset::empty());
        assert(s.to_multiset() =~= Multiset::empty());
    } else if s[0].memory_bytes < x.memory_bytes {
        let r = seq![x] + s;
        assert forall|i: int, j: int| 0 <= i < j < r.len() implies (#[trigger] r[j]).memory_bytes <= (#[trigger] r[i]).memory_bytes by {
            if i == 0 {
                assert(r[j] == s[j - 1]);
                if j > 1 {
                    assert(s[j - 1].memory_bytes <= s[0].memory_bytes);
                }
            } else {
                assert(r[i] == s[i - 1] && r[j] == s[j - 1]);
            }
        }
        vstd::seq_lib::lemma_multiset_commutative(seq![x], s);
        assert(seq![x] =~= Seq::<TableInfoView>::empty().push(x));
        assert(Seq::<TableInfoView>::empty().to_multiset() =~= Multiset::empty());
    } else {
        let t = s.drop_first();
        assert forall|i: int, j: int| 0 <= i < j < t.len() implies (#[trigger] t[j]).memory_bytes <= (#[trigger] t[i]).memory_bytes by {
            assert(t[i] == s[i + 1] && t[j] == s[j + 1]);
        }
        lemma_insert_by_memory_shape(t, x);
        let tail = insert_by_memory(t, x);
        let r = seq![s[0]] + tail;
        assert forall|k: int| 0 <= k < tail.len() implies (#[trigger] tail[k]).memory_bytes <= s[0].memory_bytes by {
            assert(tail.to_multiset().count(tail[k]) > 0);
            assert(t.to_multiset().insert(x).count(tail[k]) > 0);
            if tail[k] != x {
                assert(t.to_multiset().count(tail[k]) > 0);
                assert(t.contains(tail[k]));
                let m = choose|m: int| 0 <= m < t.len() && t[m] == tail[k];
                assert(s[m + 1] == t[m]);
            }
        }
        assert forall|i: int, j: int| 0 <= i < j < r.len() implies (#[trigger] r[j]).memory_bytes <= (#[trigger] r[i]).memory_bytes by {
            assert(r[j] == tail[j - 1]);
            if i > 0 {
                assert(r[i] == tail[i - 1]);
            }
        }
        vstd::seq_lib::lemma_multiset_commutative(seq![s[0]], tail);
        vstd::seq_lib::lemma_multiset_commutative(seq![s[0]], t);
        assert(s =~= seq![s[0]] + t);
    }
}

/// Sorting by memory gives descending memory and the same tables.
pub proof fn lemma_sorted_by_memory_desc(s: Seq<TableInfoView>)
    ensures
        memory_descending(sorted_by_memory_desc(s)),
        sorted_by_memory_desc(s).to_multiset() == s.to_multiset(),
    decreases s.len(),
{
    broadcast use vstd::seq_lib::group_to_multiset_ensures;

    if s.len() > 0 {
        lemma_sorted_by_memory_desc(s.drop_last());
        lemma_insert_by_memory_shape(sorted_by_memory_desc(s.drop_last()), s.last());
        assert(s =~= s.drop_last().push(s.last()));
    }
}

/// Sorts tables by memory, largest first; tables of equal memory keep their order.
pub fn sort_by_memory_desc(tables: Vec<EtsTableInfo>) -> (r: Vec<EtsTableInfo>)
    ensures
        views(r@) == sorted_by_memory_desc(views(tables@)),
        memory_descending(views(r@)),
        views(r@).to_multiset() == views(tables@).to_multiset(),
{
    let mut out: Vec<EtsTableInfo> = Vec::new();
    let mut rest = tables;
    let ghost all = rest@;
    let ghost mut taken: int = 0;
    assert(views(out@) =~= sorted_by_memory_desc(views(all.take(0))));
    while rest.len() > 0
        invariant
            0 <= taken <= all.len(),
            rest@ == all.skip(taken),
            views(out@) == sorted_by_memory_desc(views(all.take(taken))),
        decreases rest@.len(),
    {
        let x = rest.remove(0);
        proof {
            assert(all[taken] == x);
            lemma_views_step(all, taken);
        }
        let ghost vs = views(out@);
        let mut j: usize = 0;
        while j < out.len() && out[j].memory_bytes >= x.memory_bytes
            invariant
                j <= out@.len(),
                vs == views(out@),
                forall|k: int| 0 <= k < j ==> x.memory_bytes <= (#[trigger] vs[k]).memory_bytes,
            decreases out@.len() - j,
        {
            j = j + 1;
        }
        proof {
            lemma_insert_by_memory_at(vs, x@, j as int);
            lemma_views_insert(out@, j as int, x);
        }
        out.insert(j, x);
        proof {
            taken = taken + 1;
            assert(rest@ =~= all.skip(taken));
        }
    }
    proof {
        assert(all.take(taken) =~= all);
        lemma_sorted_by_memory_desc(views(all));
    }
    out
}

} // verus!
