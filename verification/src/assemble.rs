use vstd::prelude::*;
use vstd::seq_lib::lemma_multiset_commutative;
use crate::document::{DocModel, Document, EntryModel, IndexEntry, entry_views};

verus! {

/// The views of a sequence of document records, in order.
pub open spec fn doc_views(docs: Seq<Document>) -> Seq<DocModel> {
    docs.map_values(|d: Document| d@)
}

/// Where a record joins an already ordered sequence: after every record
/// whose time is at or before its own, so that records with equal times
/// keep their accumulation order.
pub open spec fn insert_by_time(d: DocModel, s: Seq<DocModel>) -> Seq<DocModel>
    decreases s.len(),
{
    if s.len() == 0 {
        seq![d]
    } else if s.first().modified_at > d.modified_at {
        seq![d] + s
    } else {
        seq![s.first()] + insert_by_time(d, s.drop_first())
    }
}

/// The records in ascending modification-time order, ties keeping their
/// accumulation order: the stable sort the index is built from.
pub open spec fn by_modified(docs: Seq<DocModel>) -> Seq<DocModel>
    decreases docs.len(),
{
    if docs.len() == 0 {
        Seq::empty()
    } else {
        insert_by_time(docs.last(), by_modified(docs.drop_last()))
    }
}

/// Ascending modification times.
pub open spec fn sorted_by_time(s: Seq<DocModel>) -> bool {
    forall|i: int, j: int| 0 <= i < j < s.len() ==> s[i].modified_at <= s[j].modified_at
}

/// The index entry a record projects to.
pub open spec fn entry_of(d: DocModel) -> EntryModel {
    EntryModel { title: d.title, link: d.output_name }
}

/// The ordered entries the index page lists for a collection of records.
pub open spec fn entries_of(docs: Seq<DocModel>) -> Seq<EntryModel> {
    by_modified(docs).map_values(|d: DocModel| entry_of(d))
}

/// A record joining an ordered sequence lands at the first position whose
/// record is strictly later.
proof fn lemma_insert_point(d: DocModel, s: Seq<DocModel>, j: int)
    requires
        0 <= j <= s.len(),
        forall|k: int| 0 <= k < j ==> s[k].modified_at <= d.modified_at,
        j < s.len() ==> s[j].modified_at > d.modified_at,
    ensures
        insert_by_time(d, s) == s.take(j) + seq![d] + s.skip(j),
    decreases j,
{
    if j == 0 {
        assert(insert_by_time(d, s) =~= s.take(0) + seq![d] + s.skip(0));
    } else {
        let rest = s.drop_first();
        assert forall|k: int| 0 <= k < j - 1 implies rest[k].modified_at <= d.modified_at by {
            assert(rest[k] == s[k + 1]);
        }
        assert(j - 1 < rest.len() ==> rest[j - 1].modified_at > d.modified_at);
        lemma_insert_point(d, rest, j - 1);
        assert(s[0].modified_at <= d.modified_at);
        assert(insert_by_time(d, s) =~= s.take(j) + seq![d] + s.skip(j));
    }
}

/// Joining an ordered sequence adds the one record and keeps the rest.
proof fn lemma_insert_elems(d: DocModel, s: Seq<DocModel>)
    ensures
        insert_by_time(d, s).to_multiset() == s.to_multiset().insert(d),
        insert_by_time(d, s).len() == s.len() + 1,
    decreases s.len(),
{
    broadcast use vstd::seq_lib::group_to_multiset_ensures;

    if s.len() == 0 {
        assert(insert_by_time(d, s) =~= Seq::<DocModel>::empty().push(d));
        assert(Seq::<DocModel>::empty().to_multiset() =~= s.to_multiset());
    } else if s.first().modified_at > d.modified_at {
        assert(insert_by_time(d, s) =~= Seq::<DocModel>::empty().push(d) + s);
        lemma_multiset_commutative(Seq::<DocModel>::empty().push(d), s);
        assert(Seq::<DocModel>::empty().push(d).to_multiset().add(s.to_multiset()) =~= s.to_multiset().insert(d));
    } else {
        let rest = s.drop_first();
        lemma_insert_elems(d, rest);
        let one = Seq::<DocModel>::empty().push(s.first());
        assert(insert_by_time(d, s) =~= one + insert_by_time(d, rest));
        lemma_multiset_commutative(one, insert_by_time(d, rest));
        assert(s =~= one + rest);
        lemma_multiset_commutative(one, rest);
        assert(one.to_multiset().add(rest.to_multiset().insert(d)) =~= s.to_multiset().insert(d));
    }
}

/// Joining an ordered sequence keeps it ordered.
proof fn lemma_insert_sorted(d: DocModel, s: Seq<DocModel>)
    requires
        sorted_by_time(s),
    ensures
        sorted_by_time(insert_by_time(d, s)),
    decreases s.len(),
{
    broadcast use vstd::seq_lib::group_to_multiset_ensures;

    if s.len() == 0 {
    } else if s.first().modified_at > d.modified_at {
        assert forall|i: int, j: int|
            0 <= i < j < insert_by_time(d, s).len() implies insert_by_time(d, s)[i].modified_at
            <= insert_by_time(d, s)[j].modified_at by {
            assert(insert_by_time(d, s)[j] == (seq![d] + s)[j]);
        }
    } else {
        let rest = s.drop_first();
        assert forall|i: int, j: int| 0 <= i < j < rest.len() implies rest[i].modified_at
            <= rest[j].modified_at by {
            assert(rest[i] == s[i + 1]);
            assert(rest[j] == s[j + 1]);
        }
        lemma_insert_sorted(d, rest);
        lemma_insert_elems(d, rest);
        let ins = insert_by_time(d, rest);
        let whole = insert_by_time(d, s);
        assert forall|i: int, j: int| 0 <= i < j < whole.len() implies whole[i].modified_at
            <= whole[j].modified_at by {
            if i == 0 {
                assert(whole[j] == ins[j - 1]);
                assert(ins.to_multiset().contains(ins[j - 1]));
                if ins[j - 1] == d {
                    assert(whole[0].modified_at <= d.modified_at);
                } else {
                    assert(rest.to_multiset().contains(ins[j - 1]));
                    assert(rest.contains(ins[j - 1]));
                    let w = choose|w: int| 0 <= w < rest.len() && rest[w] == ins[j - 1];
                    assert(s[0].modified_at <= s[w + 1].modified_at);
                }
            } else {
                assert(whole[i] == ins[i - 1]);
                assert(whole[j] == ins[j - 1]);
            }
        }
    }
}

/// Law: the assembled order is ascending in modification time.
pub proof fn lemma_by_modified_sorted(docs: Seq<DocModel>)
    ensures
        sorted_by_time(by_modified(docs)),
    decreases docs.len(),
{
    if docs.len() > 0 {
        lemma_by_modified_sorted(docs.drop_last());
        lemma_insert_sorted(docs.last(), by_modified(docs.drop_last()));
    }
}

/// Law: assembling reorders the records and neither loses nor invents any.
pub proof fn lemma_by_modified_permutes(docs: Seq<DocModel>)
    ensures
        by_modified(docs).to_multiset() == docs.to_multiset(),
    decreases docs.len(),
{
    broadcast use vstd::seq_lib::group_to_multiset_ensures;

    if docs.len() == 0 {
        assert(by_modified(docs) =~= docs);
    } else {
        lemma_by_modified_permutes(docs.drop_last());
        lemma_insert_elems(docs.last(), by_modified(docs.drop_last()));
        assert(docs =~= docs.drop_last().push(docs.last()));
        assert(docs.to_multiset() =~= docs.drop_last().to_multiset().insert(docs.last()));
    }
}

/// A record at or after every record of an ordered sequence joins it at
/// the very end.
proof fn lemma_insert_at_end(d: DocModel, s: Seq<DocModel>)
    requires
        forall|k: int| 0 <= k < s.len() ==> s[k].modified_at <= d.modified_at,
    ensures
        insert_by_time(d, s) == s.push(d),
    decreases s.len(),
{
    if s.len() == 0 {
        assert(insert_by_time(d, s) =~= s.push(d));
    } else {
        let rest = s.drop_first();
        assert forall|k: int| 0 <= k < rest.len() implies rest[k].modified_at <= d.modified_at by {
            assert(rest[k] == s[k + 1]);
        }
        lemma_insert_at_end(d, rest);
        assert(insert_by_time(d, s) =~= s.push(d));
    }
}

/// Law (stability for ties): records all carrying one and the same
/// modification time keep their accumulation order exactly.
pub proof fn lemma_ties_keep_order(docs: Seq<DocModel>)
    requires
        forall|i: int, j: int|
            0 <= i < docs.len() && 0 <= j < docs.len() ==> docs[i].modified_at
                == docs[j].modified_at,
    ensures
        by_modified(docs) == docs,
    decreases docs.len(),
{
    if docs.len() == 0 {
        assert(by_modified(docs) =~= docs);
    } else {
        let front = docs.drop_last();
        assert forall|i: int, j: int|
            0 <= i < front.len() && 0 <= j < front.len() implies front[i].modified_at
            == front[j].modified_at by {
            assert(front[i] == docs[i]);
            assert(front[j] == docs[j]);
        }
        lemma_ties_keep_order(front);
        assert forall|k: int| 0 <= k < front.len() implies front[k].modified_at
            <= docs.last().modified_at by {
            assert(front[k] == docs[k]);
        }
        lemma_insert_at_end(docs.last(), front);
        assert(front.push(docs.last()) =~= docs);
    }
}

/// The records carrying one given modification time.
pub open spec fn at_time(t: int) -> spec_fn(DocModel) -> bool {
    |d: DocModel| d.modified_at == t
}

/// Joining an ordered sequence puts a record behind every record of its
/// own time already there, and leaves every other time's records alone.
proof fn lemma_insert_filter(d: DocModel, s: Seq<DocModel>, t: int)
    requires
        sorted_by_time(s),
    ensures
        insert_by_time(d, s).filter(at_time(t)) == if d.modified_at == t {
            s.filter(at_time(t)).push(d)
        } else {
            s.filter(at_time(t))
        },
    decreases s.len(),
{
    reveal(Seq::filter);
    let p = at_time(t);
    let one_d = Seq::<DocModel>::empty().push(d);
    assert(one_d.drop_last() =~= Seq::<DocModel>::empty());
    assert(Seq::<DocModel>::empty().filter(p) == Seq::<DocModel>::empty());
    if s.len() == 0 {
        assert(insert_by_time(d, s) =~= one_d);
        assert(s.filter(p) =~= Seq::<DocModel>::empty());
    } else if s.first().modified_at > d.modified_at {
        assert(insert_by_time(d, s) =~= one_d + s);
        Seq::filter_distributes_over_add(one_d, s, p);
        if d.modified_at == t {
            assert forall|k: int| 0 <= k < s.len() implies !p(s[k]) by {
                assert(s[0].modified_at <= s[k].modified_at || k == 0);
            }
            s.lemma_all_neg_filter_empty(p);
            assert(one_d.filter(p) + s.filter(p) =~= s.filter(p).push(d));
        } else {
            assert(one_d.filter(p) == Seq::<DocModel>::empty());
            assert(one_d.filter(p) + s.filter(p) =~= s.filter(p));
        }
    } else {
        let rest = s.drop_first();
        let one = Seq::<DocModel>::empty().push(s.first());
        assert(one.drop_last() =~= Seq::<DocModel>::empty());
        assert forall|i: int, j: int| 0 <= i < j < rest.len() implies rest[i].modified_at
            <= rest[j].modified_at by {
            assert(rest[i] == s[i + 1]);
            assert(rest[j] == s[j + 1]);
        }
        lemma_insert_filter(d, rest, t);
        assert(insert_by_time(d, s) =~= one + insert_by_time(d, rest));
        Seq::filter_distributes_over_add(one, insert_by_time(d, rest), p);
        assert(s =~= one + rest);
        Seq::filter_distributes_over_add(one, rest, p);
        if d.modified_at == t {
            assert(one.filter(p) + rest.filter(p).push(d) =~= (one.filter(p) + rest.filter(p)).push(
                d,
            ));
        }
    }
}

/// Law (stability, general form): for every modification time, the records
/// carrying it stand in the assembled order exactly as they stood in the
/// accumulation order.
pub proof fn lemma_by_modified_stable(docs: Seq<DocModel>, t: int)
    ensures
        by_modified(docs).filter(at_time(t)) == docs.filter(at_time(t)),
    decreases docs.len(),
{
    reveal(Seq::filter);
    if docs.len() == 0 {
        assert(by_modified(docs) =~= docs);
    } else {
        let front = docs.drop_last();
        let d = docs.last();
        lemma_by_modified_stable(front, t);
        lemma_by_modified_sorted(front);
        lemma_insert_filter(d, by_modified(front), t);
    }
}

/// Puts one record into an ordered accumulator at its stable position.
fn insert_doc(out: &mut Vec<Document>, d: Document)
    ensures
        doc_views(final(out)@) == insert_by_time(d@, doc_views(old(out)@)),
{
    let mut j: usize = 0;
    while j < out.len() && out[j].modified_at <= d.modified_at
        invariant
            j <= out@.len(),
            out@ == old(out)@,
            forall|k: int| 0 <= k < j ==> out@[k].modified_at <= d.modified_at,
        decreases out@.len() - j,
    {
        j = j + 1;
    }
    proof {
        let s = doc_views(out@);
        assert forall|k: int| 0 <= k < j implies s[k].modified_at <= d@.modified_at by {
            assert(s[k] == out@[k]@);
        }
        assert((j as int) < s.len() ==> s[j as int].modified_at > d@.modified_at);
        lemma_insert_point(d@, s, j as int);
    }
    out.insert(j, d);
    proof {
        let s = doc_views(old(out)@);
        assert(doc_views(out@) =~= s.take(j as int) + seq![d@] + s.skip(j as int));
    }
}

/// Stable-sorts the records by modification time ascending.
fn sort_by_time(docs: Vec<Document>) -> (r: Vec<Document>)
    ensures
        doc_views(r@) == by_modified(doc_views(docs@)),
{
    let ghost orig = docs@;
    let mut rest = docs;
    let mut out: Vec<Document> = Vec::new();
    let ghost mut i: int = 0;
    proof {
        assert(doc_views(orig.take(0)) =~= Seq::<DocModel>::empty());
        assert(orig.skip(0) =~= orig);
    }
    while rest.len() > 0
        invariant
            0 <= i,
            i + rest@.len() == orig.len(),
            rest@ == orig.skip(i),
            doc_views(out@) == by_modified(doc_views(orig.take(i))),
        decreases rest@.len(),
    {
        let d = rest.remove(0);
        proof {
            assert(d == orig[i]);
            assert(orig.skip(i).remove(0) =~= orig.skip(i + 1));
        }
        insert_doc(&mut out, d);
        proof {
            let next = doc_views(orig.take(i + 1));
            assert(next.drop_last() =~= doc_views(orig.take(i)));
            assert(next.last() == d@);
            assert(next.len() > 0);
            assert(by_modified(next) == insert_by_time(d@, by_modified(next.drop_last())));
            i = i + 1;
        }
    }
    proof {
        assert(orig.take(orig.len() as int) =~= orig);
    }
    out
}

/// Gathers the collected records, stable-sorts them by modification time
/// ascending, and projects each to the (title, link) entry the index
/// template consumes, in that order.
pub fn assemble(documents: Vec<Document>) -> (r: Vec<IndexEntry>)
    ensures
        entry_views(r@) == entries_of(doc_views(documents@)),
{
    let ghost dv = doc_views(documents@);
    let sorted = sort_by_time(documents);
    let mut entries: Vec<IndexEntry> = Vec::new();
    let mut i: usize = 0;
    proof {
        assert(entry_views(entries@) =~= entries_of(dv).take(0));
    }
    while i < sorted.len()
        invariant
            i <= sorted@.len(),
            doc_views(sorted@) == by_modified(dv),
            entry_views(entries@) == entries_of(dv).take(i as int),
        decreases sorted@.len() - i,
    {
        let d = &sorted[i];
        let ghost prev = entries@;
        entries.push(IndexEntry { title: d.title.clone(), link: d.output_name.clone() });
        proof {
            let pre = entries_of(dv);
            assert(pre.len() == by_modified(dv).len());
            assert(by_modified(dv).len() == sorted@.len());
            assert(prev.len() == pre.take(i as int).len());
            assert(prev.len() == i);
            assert(entries@ == prev.push(entries@[i as int]));
            assert(doc_views(sorted@)[i as int] == sorted@[i as int]@);
            assert(by_modified(dv)[i as int] == sorted@[i as int]@);
            assert(pre[i as int] == entry_of(sorted@[i as int]@));
            assert(entries@[i as int]@ == entry_of(sorted@[i as int]@));
            assert forall|k: int| 0 <= k < i + 1 implies entry_views(entries@)[k] == pre.take(
                i as int + 1,
            )[k] by {
                if k < i {
                    assert(entries@[k] == prev[k]);
                    assert(entry_views(prev)[k] == pre.take(i as int)[k]);
                }
            }
            assert(entry_views(entries@) =~= pre.take(i as int + 1));
        }
        i = i + 1;
    }
    proof {
        assert(entries_of(dv).take(entries_of(dv).len() as int) =~= entries_of(dv));
    }
    entries
}

} // verus!
