//! The deduplication pass: walk the fetched listing in fetch order, record
//! every entry whose identity is not yet in the registry, and hand back the
//! newly recorded entries in reverse discovery order.

use vstd::prelude::*;

use crate::data::{views_of, FileDetail, FileView};
use crate::ident::identity_of;
use crate::registry::{record_of, records_of, SeenFileRegistry};

verus! {

/// The entries of `l` that are new relative to `ids`, in fetch order. An
/// entry is new when its identity is neither in `ids` nor the identity of an
/// earlier new entry of the same listing.
pub open spec fn new_files_spec(ids: Set<int>, l: Seq<FileView>) -> Seq<FileView>
    decreases l.len(),
{
    if l.len() == 0 {
        Seq::empty()
    } else {
        let fid = identity_of(l[0].id);
        if ids.contains(fid) {
            new_files_spec(ids, l.drop_first())
        } else {
            seq![l[0]] + new_files_spec(ids.insert(fid), l.drop_first())
        }
    }
}

/// The recorded identities after the pass: `ids` together with the identity
/// of every listed entry.
pub open spec fn ids_after_spec(ids: Set<int>, l: Seq<FileView>) -> Set<int>
    decreases l.len(),
{
    if l.len() == 0 {
        ids
    } else {
        ids_after_spec(ids.insert(identity_of(l[0].id)), l.drop_first())
    }
}

/// The pass only adds identities: `ids` stays recorded.
pub proof fn lemma_ids_after_grows(ids: Set<int>, l: Seq<FileView>)
    ensures
        ids.subset_of(ids_after_spec(ids, l)),
    decreases l.len(),
{
    if l.len() > 0 {
        let ids2 = ids.insert(identity_of(l[0].id));
        lemma_ids_after_grows(ids2, l.drop_first());
        assert(ids.subset_of(ids2));
    }
}

/// Processing one more entry at the back inserts exactly its identity.
pub proof fn lemma_ids_after_push(ids: Set<int>, l: Seq<FileView>, f: FileView)
    ensures
        ids_after_spec(ids, l.push(f)) == ids_after_spec(ids, l).insert(identity_of(f.id)),
    decreases l.len(),
{
    if l.len() == 0 {
        assert(l.push(f).drop_first() =~= l);
        assert(ids_after_spec(ids, l.push(f)) == ids_after_spec(ids.insert(identity_of(f.id)), l));
    } else {
        assert(l.push(f)[0] == l[0]);
        assert(l.push(f).drop_first() =~= l.drop_first().push(f));
        lemma_ids_after_push(ids.insert(identity_of(l[0].id)), l.drop_first(), f);
    }
}

/// Insertion of an identity that further processing would insert anyway
/// commutes with the pass.
pub proof fn lemma_ids_after_insert_absorbed(ids: Set<int>, l: Seq<FileView>, x: int)
    requires
        ids.contains(x),
    ensures
        ids_after_spec(ids, l).contains(x),
    decreases l.len(),
{
    if l.len() > 0 {
        lemma_ids_after_insert_absorbed(ids.insert(identity_of(l[0].id)), l.drop_first(), x);
    }
}

/// Processing one more entry at the back appends it to the new set exactly
/// when its identity was still unrecorded after the earlier entries.
pub proof fn lemma_new_files_push(ids: Set<int>, l: Seq<FileView>, f: FileView)
    ensures
        new_files_spec(ids, l.push(f)) == if ids_after_spec(ids, l).contains(identity_of(f.id)) {
            new_files_spec(ids, l)
        } else {
            new_files_spec(ids, l).push(f)
        },
    decreases l.len(),
{
    let fid = identity_of(f.id);
    if l.len() == 0 {
        assert(l.push(f)[0] == f);
        assert(l.push(f).drop_first() =~= Seq::<FileView>::empty());
        assert(new_files_spec(ids, l) =~= Seq::<FileView>::empty());
        assert(ids_after_spec(ids, l) == ids);
        if ids.contains(fid) {
            assert(new_files_spec(ids, l.push(f)) == new_files_spec(
                ids,
                Seq::<FileView>::empty(),
            ));
        } else {
            assert(new_files_spec(ids, l.push(f)) == seq![f] + new_files_spec(
                ids.insert(fid),
                Seq::<FileView>::empty(),
            ));
            assert(seq![f] + new_files_spec(ids.insert(fid), Seq::<FileView>::empty())
                =~= new_files_spec(ids, l).push(f));
        }
    } else {
        let gid = identity_of(l[0].id);
        assert(l.push(f)[0] == l[0]);
        assert(l.push(f).drop_first() =~= l.drop_first().push(f));
        if ids.contains(gid) {
            lemma_new_files_push(ids, l.drop_first(), f);
            assert(ids.insert(gid) =~= ids);
            assert(ids_after_spec(ids, l) == ids_after_spec(ids, l.drop_first()));
            assert(new_files_spec(ids, l.push(f)) == new_files_spec(ids, l.drop_first().push(f)));
            assert(new_files_spec(ids, l) == new_files_spec(ids, l.drop_first()));
        } else {
            let ids2 = ids.insert(gid);
            lemma_new_files_push(ids2, l.drop_first(), f);
            assert(ids_after_spec(ids, l) == ids_after_spec(ids2, l.drop_first()));
            assert(new_files_spec(ids, l.push(f)) == seq![l[0]] + new_files_spec(
                ids2,
                l.drop_first().push(f),
            ));
            assert(new_files_spec(ids, l) == seq![l[0]] + new_files_spec(ids2, l.drop_first()));
            if ids_after_spec(ids2, l.drop_first()).contains(fid) {
            } else {
                assert(seq![l[0]] + new_files_spec(ids2, l.drop_first()).push(f) =~= (seq![l[0]]
                    + new_files_spec(ids2, l.drop_first())).push(f));
            }
        }
    }
}

/// After the pass, every listed entry's identity is recorded.
pub proof fn lemma_all_listed_recorded(ids: Set<int>, l: Seq<FileView>)
    ensures
        forall|i: int|
            0 <= i < l.len() ==> ids_after_spec(ids, l).contains(identity_of((#[trigger] l[i]).id)),
    decreases l.len(),
{
    if l.len() > 0 {
        let ids2 = ids.insert(identity_of(l[0].id));
        lemma_ids_after_insert_absorbed(ids2, l.drop_first(), identity_of(l[0].id));
        lemma_all_listed_recorded(ids2, l.drop_first());
        assert forall|i: int| 0 <= i < l.len() implies ids_after_spec(ids, l).contains(
            identity_of((#[trigger] l[i]).id)) by {
            if i > 0 {
                assert(l.drop_first()[i - 1] == l[i]);
            }
        }
    }
}

/// A listing whose identities are all recorded yields no new entries.
pub proof fn lemma_no_new_when_all_recorded(ids: Set<int>, l: Seq<FileView>)
    requires
        forall|i: int| 0 <= i < l.len() ==> ids.contains(identity_of((#[trigger] l[i]).id)),
    ensures
        new_files_spec(ids, l).len() == 0,
    decreases l.len(),
{
    if l.len() > 0 {
        assert(ids.contains(identity_of(l[0].id)));
        assert forall|i: int| 0 <= i < l.drop_first().len() implies ids.contains(
            identity_of((#[trigger] l.drop_first()[i]).id)) by {
            assert(l.drop_first()[i] == l[i + 1]);
        }
        lemma_no_new_when_all_recorded(ids, l.drop_first());
    }
}

/// Idempotence of a run: against an unchanged listing, a second pass starting
/// from the identities the first pass recorded finds nothing new.
pub proof fn lemma_second_pass_empty(ids: Set<int>, l: Seq<FileView>)
    ensures
        new_files_spec(ids_after_spec(ids, l), l).len() == 0,
{
    lemma_all_listed_recorded(ids, l);
    lemma_no_new_when_all_recorded(ids_after_spec(ids, l), l);
}

/// Every new entry comes from the listing.
pub proof fn lemma_new_files_are_listed(ids: Set<int>, l: Seq<FileView>)
    ensures
        forall|k: int|
            0 <= k < new_files_spec(ids, l).len() ==> l.contains(
                #[trigger] new_files_spec(ids, l)[k]),
    decreases l.len(),
{
    if l.len() > 0 {
        let fid = identity_of(l[0].id);
        if ids.contains(fid) {
            lemma_new_files_are_listed(ids, l.drop_first());
            assert forall|k: int| 0 <= k < new_files_spec(ids, l).len() implies l.contains(
                #[trigger] new_files_spec(ids, l)[k]) by {
                let x = new_files_spec(ids, l)[k];
                assert(x == new_files_spec(ids, l.drop_first())[k]);
                assert(l.drop_first().contains(x));
                let i = choose|i: int| 0 <= i < l.drop_first().len() && l.drop_first()[i] == x;
                assert(l[i + 1] == x);
            }
        } else {
            lemma_new_files_are_listed(ids.insert(fid), l.drop_first());
            let nf2 = new_files_spec(ids.insert(fid), l.drop_first());
            assert forall|k: int| 0 <= k < new_files_spec(ids, l).len() implies l.contains(
                #[trigger] new_files_spec(ids, l)[k]) by {
                let x = new_files_spec(ids, l)[k];
                if k == 0 {
                    assert(x == l[0]);
                } else {
                    assert(x == nf2[k - 1]);
                    assert(l.drop_first().contains(x));
                    let i = choose|i: int| 0 <= i < l.drop_first().len() && l.drop_first()[i] == x;
                    assert(l[i + 1] == x);
                }
            }
        }
    }
}

/// A listing of entries whose identities are pairwise distinct and none yet
/// recorded is new in its entirety, in fetch order.
pub proof fn lemma_all_new(ids: Set<int>, l: Seq<FileView>)
    requires
        forall|i: int| 0 <= i < l.len() ==> !ids.contains(identity_of((#[trigger] l[i]).id)),
        forall|i: int, j: int|
            0 <= i < j < l.len() ==> identity_of((#[trigger] l[i]).id) != identity_of(
                (#[trigger] l[j]).id),
    ensures
        new_files_spec(ids, l) == l,
    decreases l.len(),
{
    if l.len() == 0 {
        assert(new_files_spec(ids, l) =~= l);
    } else {
        let fid = identity_of(l[0].id);
        assert(!ids.contains(fid));
        let ids2 = ids.insert(fid);
        assert forall|i: int| 0 <= i < l.drop_first().len() implies !ids2.contains(
            identity_of((#[trigger] l.drop_first()[i]).id)) by {
            assert(l.drop_first()[i] == l[i + 1]);
        }
        assert forall|i: int, j: int| 0 <= i < j < l.drop_first().len() implies identity_of(
            (#[trigger] l.drop_first()[i]).id) != identity_of((#[trigger] l.drop_first()[j]).id) by {
            assert(l.drop_first()[i] == l[i + 1]);
            assert(l.drop_first()[j] == l[j + 1]);
        }
        lemma_all_new(ids2, l.drop_first());
        assert(seq![l[0]] + l.drop_first() =~= l);
    }
}

/// Reverse a vector of file entries.
fn reversed_files(v: Vec<FileDetail>) -> (r: Vec<FileDetail>)
    ensures
        views_of(r@) == views_of(v@).reverse(),
{
    let ghost orig = v@;
    let mut v = v;
    let mut r: Vec<FileDetail> = Vec::new();
    proof {
        assert(orig.take(orig.len() as int) =~= orig);
        assert(views_of(r@) =~= Seq::<FileView>::empty());
        assert(views_of(orig).skip(orig.len() as int).reverse() =~= Seq::<FileView>::empty());
    }
    while v.len() > 0
        invariant
            v@.len() <= orig.len(),
            v@ == orig.take(v@.len() as int),
            views_of(r@) == views_of(orig).skip(v@.len() as int).reverse(),
        decreases v@.len(),
    {
        let ghost n = v@.len() as int;
        let popped = v.pop();
        match popped {
            Some(x) => {
                proof {
                    assert(orig.take(n)[n - 1] == orig[n - 1]);
                    assert(x@ == views_of(orig)[n - 1]);
                    assert(v@ =~= orig.take(n - 1));
                }
                let ghost rprev = r@;
                r.push(x);
                proof {
                    let m = views_of(orig).len() as int;
                    let target = views_of(orig).skip(n - 1).reverse();
                    assert(m == orig.len());
                    assert(1 <= n <= m);
                    assert(views_of(orig).skip(n - 1).len() == m - (n - 1));
                    assert(target.len() == m - n + 1);
                    assert(views_of(rprev) == views_of(orig).skip(n).reverse());
                    assert(views_of(rprev).len() == m - n);
                    assert(r@ == rprev.push(x));
                    assert(views_of(r@).len() == rprev.len() + 1);
                    assert(views_of(r@).len() == target.len());
                    assert forall|t: int| 0 <= t < views_of(r@).len() implies views_of(r@)[t]
                        == target[t] by {
                        assert(target[t] == views_of(orig).skip(n - 1)[m - n + 1 - 1 - t]);
                        assert(target[t] == views_of(orig)[m - 1 - t]);
                        if t < m - n {
                            assert(views_of(r@)[t] == views_of(rprev)[t]);
                            assert(views_of(rprev)[t] == views_of(orig).skip(n).reverse()[t]);
                            assert(views_of(orig).skip(n).reverse()[t] == views_of(orig)[m - 1
                                - t]);
                        } else {
                            assert(views_of(r@)[t] == x@);
                        }
                    }
                    assert(views_of(r@) =~= target);
                }
            },
            None => {
                proof {
                    assert(false);
                }
            },
        }
    }
    proof {
        assert(views_of(orig).skip(0) =~= views_of(orig));
    }
    r
}

/// One deduplication pass.
///
/// Walks `listing` in fetch order; every entry whose identity is not yet in
/// the registry is recorded there and collected. The collected entries come
/// back in reverse discovery order. The registry grows monotonically: no
/// existing row is touched, and afterwards every listed identity is recorded,
/// whatever becomes of the entries downstream.
pub fn diff_and_record(registry: &mut SeenFileRegistry, listing: Vec<FileDetail>) -> (new_files:
    Vec<FileDetail>)
    requires
        old(registry).wf(),
    ensures
        final(registry).wf(),
        final(registry).ids() == ids_after_spec(old(registry).ids(), views_of(listing@)),
        views_of(new_files@) == new_files_spec(old(registry).ids(), views_of(listing@)).reverse(),
        final(registry).rows_view() == old(registry).rows_view() + records_of(
            new_files_spec(old(registry).ids(), views_of(listing@)),
        ),
        old(registry).rows_view().len() <= final(registry).rows_view().len(),
        forall|k: int|
            0 <= k < old(registry).rows_view().len() ==> (#[trigger] final(registry).rows_view()[k])
                == old(registry).rows_view()[k],
        forall|i: int|
            0 <= i < listing@.len() ==> final(registry).ids().contains(
                identity_of((#[trigger] views_of(listing@)[i]).id)),
    {
    let ghost ids0 = old(registry).ids();
    let ghost vs = views_of(listing@);
    let ghost rows0 = old(registry).rows_view();
    let mut picked: Vec<FileDetail> = Vec::new();
    let mut i: usize = 0;
    proof {
        assert(vs.take(0) =~= Seq::<FileView>::empty());
        assert(views_of(picked@) =~= Seq::<FileView>::empty());
        assert(records_of(new_files_spec(ids0, vs.take(0)))
            =~= Seq::<crate::registry::RecordView>::empty());
        assert(rows0 + records_of(new_files_spec(ids0, vs.take(0))) =~= rows0);
    }
    while i < listing.len()
        invariant
            0 <= i <= listing@.len(),
            vs == views_of(listing@),
            ids0 == old(registry).ids(),
            rows0 == old(registry).rows_view(),
            registry.wf(),
            registry.ids() == ids_after_spec(ids0, vs.take(i as int)),
            views_of(picked@) == new_files_spec(ids0, vs.take(i as int)),
            registry.rows_view() == rows0 + records_of(new_files_spec(ids0, vs.take(i as int))),
            rows0.len() <= registry.rows_view().len(),
            forall|k: int|
                0 <= k < rows0.len() ==> (#[trigger] registry.rows_view()[k]) == rows0[k],
        decreases listing@.len() - i,
    {
        let file = &listing[i];
        proof {
            assert(file@ == vs[i as int]);
            assert(vs.take(i + 1) =~= vs.take(i as int).push(vs[i as int]));
            lemma_ids_after_push(ids0, vs.take(i as int), vs[i as int]);
            lemma_new_files_push(ids0, vs.take(i as int), vs[i as int]);
        }
        let fid = crate::ident::file_identity(file.id.as_str());
        if registry.is_seen(fid) {
            proof {
                assert(registry.ids().insert(identity_of(vs[i as int].id)) =~= registry.ids());
            }
        } else {
            let ghost before = *registry;
            let res = registry.record(file);
            match res {
                Ok(()) => {},
                Err(_) => {
                    assert(false);
                },
            }
            picked.push(file.clone());
            proof {
                assert(views_of(picked@) =~= new_files_spec(ids0, vs.take(i as int)).push(
                    vs[i as int]));
                assert(registry.rows_view() == before.rows_view().push(
                    crate::registry::RecordView {
                        id: identity_of(vs[i as int].id),
                        subject: vs[i as int].subject,
                        link_download: vs[i as int].link_download,
                    }));
                assert(registry.rows_view() == before.rows_view().push(record_of(vs[i as int])));
                let nf = new_files_spec(ids0, vs.take(i as int));
                assert(records_of(nf.push(vs[i as int])) =~= records_of(nf).push(
                    record_of(vs[i as int])));
                assert(rows0 + records_of(nf.push(vs[i as int])) =~= (rows0 + records_of(nf)).push(
                    record_of(vs[i as int])));
            }
        }
        i = i + 1;
    }
    proof {
        assert(vs.take(listing@.len() as int) =~= vs);
        lemma_all_listed_recorded(ids0, vs);
    }
    reversed_files(picked)
}

} // verus!
