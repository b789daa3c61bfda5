//! The registry of already-seen file ids: a durable, append-only set of rows
//! keyed by the numeric identity of a file id. Once a row exists for an
//! identity, that identity is never reported as new again.

use vstd::prelude::*;

use crate::data::{FileDetail, FileView, RunError};
use crate::ident::{file_identity, identity_of, MAX_IDENTITY};

verus! {

/// One persisted registry row.
pub struct SeenFileRecord {
    pub id: i64,
    pub subject: String,
    pub link_download: String,
}

/// Mathematical view of a registry row.
pub struct RecordView {
    pub id: int,
    pub subject: Seq<char>,
    pub link_download: Seq<char>,
}

impl View for SeenFileRecord {
    type V = RecordView;

    open spec fn view(&self) -> RecordView {
        RecordView {
            id: self.id as int,
            subject: self.subject@,
            link_download: self.link_download@,
        }
    }
}

/// The row under which a file is recorded: its identity, with the subject and
/// download link it was first seen with.
pub open spec fn record_of(f: FileView) -> RecordView {
    RecordView { id: identity_of(f.id), subject: f.subject, link_download: f.link_download }
}

/// The rows under which a sequence of files is recorded, in order.
pub open spec fn records_of(l: Seq<FileView>) -> Seq<RecordView> {
    l.map_values(|f: FileView| record_of(f))
}

/// Stored rows are consistent: identities pairwise distinct, each within the
/// 32-bit key space.
pub open spec fn rows_consistent(rows: Seq<RecordView>) -> bool {
    &&& forall|j: int, k: int|
        0 <= j < k < rows.len() ==> (#[trigger] rows[j]).id != (#[trigger] rows[k]).id
    &&& forall|k: int| 0 <= k < rows.len() ==> 0 <= (#[trigger] rows[k]).id <= MAX_IDENTITY
}

/// The set of previously observed file identities, with the row each one was
/// first recorded under. Append-only: rows are never updated or deleted.
pub struct SeenFileRegistry {
    rows: Vec<SeenFileRecord>,
}

impl SeenFileRegistry {
    /// The rows, in insertion order.
    pub closed spec fn rows_view(self) -> Seq<RecordView> {
        self.rows@.map_values(|r: SeenFileRecord| r@)
    }

    /// The set of recorded identities.
    pub open spec fn ids(self) -> Set<int> {
        Set::new(|id: int| exists|k: int|
            0 <= k < self.rows_view().len() && (#[trigger] self.rows_view()[k]).id == id)
    }

    /// Well-formed: the stored rows are consistent.
    pub closed spec fn wf(self) -> bool {
        rows_consistent(self.rows_view())
    }

    /// An empty registry.
    pub fn new() -> (r: Self)
        ensures
            r.wf(),
            r.ids() =~= Set::<int>::empty(),
            r.rows_view() =~= Seq::<RecordView>::empty(),
    {
        SeenFileRegistry { rows: Vec::new() }
    }

    /// Number of rows.
    pub fn len(&self) -> (n: usize)
        ensures
            n == self.rows_view().len(),
    {
        self.rows.len()
    }

    /// The row at an insertion position.
    pub fn row(&self, i: usize) -> (r: &SeenFileRecord)
        requires
            i < self.rows_view().len(),
        ensures
            r@ == self.rows_view()[i as int],
    {
        &self.rows[i]
    }

    /// Rebuild a registry from previously persisted rows, in their stored
    /// order. The rows are accepted exactly when they are consistent: no
    /// identity repeats an earlier row's, and every identity lies in the
    /// key space.
    pub fn from_rows(rows: Vec<SeenFileRecord>) -> (r: Result<Self, RunError>)
        ensures
            r is Ok <==> rows_consistent(rows@.map_values(|x: SeenFileRecord| x@)),
            r is Ok ==> r->Ok_0.wf() && r->Ok_0.rows_view() =~= rows@.map_values(
                |x: SeenFileRecord| x@),
            r is Err ==> r->Err_0 == RunError::Storage,
    {
        let mut i: usize = 0;
        let views = Ghost(rows@.map_values(|x: SeenFileRecord| x@));
        while i < rows.len()
            invariant
                0 <= i <= rows.len(),
                views@ == rows@.map_values(|x: SeenFileRecord| x@),
                forall|j: int, k: int|
                    0 <= j < k < i ==> (#[trigger] views@[j]).id != (#[trigger] views@[k]).id,
                forall|k: int| 0 <= k < i ==> 0 <= (#[trigger] views@[k]).id <= MAX_IDENTITY,
            decreases rows.len() - i,
        {
            let id = rows[i].id;
            if id < 0 || id > MAX_IDENTITY {
                assert(views@[i as int].id == id as int);
                assert(!rows_consistent(views@));
                return Err(RunError::Storage);
            }
            let mut j: usize = 0;
            while j < i
                invariant
                    0 <= j <= i < rows.len(),
                    views@ == rows@.map_values(|x: SeenFileRecord| x@),
                    id == views@[i as int].id,
                    forall|k: int| 0 <= k < j ==> (#[trigger] views@[k]).id != id,
                decreases i - j,
            {
                if rows[j].id == id {
                    assert(views@[j as int].id == views@[i as int].id);
                    assert(!rows_consistent(views@));
                    return Err(RunError::Storage);
                }
                j = j + 1;
            }
            i = i + 1;
        }
        Ok(SeenFileRegistry { rows })
    }

    /// Point lookup: has this identity been recorded? Returns `false` for an
    /// identity never inserted.
    pub fn is_seen(&self, id: i64) -> (r: bool)
        ensures
            r == self.ids().contains(id as int),
    {
        let mut k: usize = 0;
        while k < self.rows.len()
            invariant
                0 <= k <= self.rows_view().len(),
                self.rows_view() == self.rows@.map_values(|r: SeenFileRecord| r@),
                forall|j: int| 0 <= j < k ==> (#[trigger] self.rows_view()[j]).id != id as int,
            decreases self.rows.len() - k,
        {
            if self.rows[k].id == id {
                assert(self.rows_view()[k as int].id == id as int);
                assert(self.ids().contains(id as int));
                return true;
            }
            k = k + 1;
        }
        assert(!self.ids().contains(id as int));
        false
    }

    /// Insert the row for a file, keyed by the numeric identity of its id.
    /// Fails with [`RunError::DuplicateKey`], leaving the registry unchanged,
    /// when that identity is already recorded.
    pub fn record(&mut self, file: &FileDetail) -> (r: Result<(), RunError>)
        requires
            old(self).wf(),
        ensures
            final(self).wf(),
            r is Ok <==> !old(self).ids().contains(identity_of(file@.id)),
            r is Err ==> r->Err_0 == RunError::DuplicateKey && *final(self) == *old(self),
            r is Ok ==> final(self).ids() =~= old(self).ids().insert(identity_of(file@.id))
                && final(self).rows_view() =~= old(self).rows_view().push(
                RecordView {
                    id: identity_of(file@.id),
                    subject: file@.subject,
                    link_download: file@.link_download,
                }),
    {
        let id = file_identity(file.id.as_str());
        if self.is_seen(id) {
            return Err(RunError::DuplicateKey);
        }
        let row = SeenFileRecord {
            id,
            subject: file.subject.clone(),
            link_download: file.link_download.clone(),
        };
        self.rows.push(row);
        proof {
            let fid = identity_of(file@.id);
            let ov = old(self).rows_view();
            let nv = self.rows_view();
            assert(nv =~= ov.push(
                RecordView { id: fid, subject: file@.subject, link_download: file@.link_download }));
            assert forall|x: int|
                self.ids().contains(x) <==> old(self).ids().contains(x) || x == fid by {
                if old(self).ids().contains(x) {
                    let k = choose|k: int| 0 <= k < ov.len() && (#[trigger] ov[k]).id == x;
                    assert(nv[k].id == x);
                }
                if x == fid {
                    assert(nv[ov.len() as int].id == x);
                }
                if self.ids().contains(x) {
                    let k = choose|k: int| 0 <= k < nv.len() && (#[trigger] nv[k]).id == x;
                    if k < ov.len() {
                        assert(ov[k].id == x);
                    }
                }
            }
            assert(self.ids() =~= old(self).ids().insert(fid));
        }
        Ok(())
    }
}

} // verus!
