//! The download registry: every tracked download keyed by its id, together
//! with the side table of cancellation handles for the downloads that are
//! still in flight.
//!
//! The registry is a vector of records with pairwise distinct ids; its
//! mathematical value is the map from id to record, plus the set of ids that
//! hold a live cancellation handle.  Handles are process local and are never
//! part of the persisted state.

use vstd::prelude::*;

use crate::record::DownloadInfo;
use crate::record::DownloadInfoView;

verus! {

/// The cancellation handle of one in-flight download.  The handle itself is
/// opaque; cancelling it signals the task that follows the helper process.
#[verifier::external_type_specification]
#[verifier::external_body]
pub struct ExCancellationToken(tokio_util::sync::CancellationToken);

/// Relies on tokio_util's CancellationToken::new: a fresh handle in the
/// non-cancelled state.
pub assume_specification[ tokio_util::sync::CancellationToken::new ]() -> (r:
    tokio_util::sync::CancellationToken);

/// Relies on tokio_util's CancellationToken::cancel: signals the handle, so
/// every task waiting on it wakes up.
pub assume_specification[ tokio_util::sync::CancellationToken::cancel ](
    t: &tokio_util::sync::CancellationToken,
);

/// All active downloads: the records, and the cancellation handles of the
/// downloads still in flight.
pub struct ActiveDownloads {
    pub downloads: Vec<DownloadInfo>,
    pub tokens: Vec<(String, tokio_util::sync::CancellationToken)>,
}

/// The mathematical value of the registry.
pub ghost struct RegistryView {
    /// Records by id.
    pub downloads: Map<Seq<char>, DownloadInfoView>,
    /// Ids holding a live cancellation handle.
    pub handles: Set<Seq<char>>,
}

/// The map from id to record described by a sequence of records; a later
/// record with the same id wins, but under `wf` the ids are distinct.
pub open spec fn records_map_of(rs: Seq<DownloadInfoView>) -> Map<Seq<char>, DownloadInfoView>
    decreases rs.len(),
{
    if rs.len() == 0 {
        Map::empty()
    } else {
        records_map_of(rs.drop_last()).insert(rs.last().id, rs.last())
    }
}

impl ActiveDownloads {
    /// The records as a sequence of record values, in storage order.
    pub open spec fn recs(self) -> Seq<DownloadInfoView> {
        self.downloads@.map_values(|r: DownloadInfo| r@)
    }

    /// The ids holding a handle, in storage order.
    pub open spec fn tok_ids(self) -> Seq<Seq<char>> {
        self.tokens@.map_values(|p: (String, tokio_util::sync::CancellationToken)| p.0@)
    }

    /// Well-formedness: distinct record ids, each record's id field equal to
    /// its key, every record well formed, distinct handle ids, and no handle
    /// on a record in a terminal state.
    pub open spec fn wf(self) -> bool {
        &&& forall|i: int, j: int|
            0 <= i < j < self.recs().len() ==> self.recs()[i].id != self.recs()[j].id
        &&& forall|i: int| 0 <= i < self.recs().len() ==> (#[trigger] self.recs()[i]).wf()
        &&& forall|i: int, j: int|
            0 <= i < j < self.tok_ids().len() ==> self.tok_ids()[i] != self.tok_ids()[j]
        &&& forall|i: int|
            0 <= i < self.recs().len() && (#[trigger] self.recs()[i]).status.spec_is_terminal()
                ==> !self.tok_ids().contains(self.recs()[i].id)
    }
}

impl View for ActiveDownloads {
    type V = RegistryView;

    open spec fn view(&self) -> RegistryView {
        RegistryView { downloads: records_map_of(self.recs()), handles: self.tok_ids().to_set() }
    }
}

impl RegistryView {
    /// Every record sits under its own id; true of the view of every actual
    /// registry (`lemma_records_map_keys_consistent`).
    pub open spec fn keys_consistent(self) -> bool {
        forall|k: Seq<char>| #[trigger] self.downloads.contains_key(k) ==> self.downloads[k].id == k
    }
}

/// The map of a record sequence sends each key to a record carrying that key
/// as its id.
pub proof fn lemma_records_map_keys_consistent(rs: Seq<DownloadInfoView>)
    ensures
        forall|k: Seq<char>| #[trigger]
            records_map_of(rs).contains_key(k) ==> records_map_of(rs)[k].id == k,
    decreases rs.len(),
{
    if rs.len() > 0 {
        lemma_records_map_keys_consistent(rs.drop_last());
    }
}

/// A key is in the map of a record sequence exactly when some record has it
/// as its id.
pub proof fn lemma_records_map_contains(rs: Seq<DownloadInfoView>, k: Seq<char>)
    ensures
        records_map_of(rs).contains_key(k) <==> exists|i: int| 0 <= i < rs.len() && rs[i].id == k,
    decreases rs.len(),
{
    if rs.len() > 0 {
        lemma_records_map_contains(rs.drop_last(), k);
        if rs.last().id == k {
            assert(rs[rs.len() - 1].id == k);
        } else if records_map_of(rs).contains_key(k) {
            let i = choose|i: int| 0 <= i < rs.drop_last().len() && rs.drop_last()[i].id == k;
            assert(rs[i].id == k);
        } else {
            assert forall|i: int| 0 <= i < rs.len() implies rs[i].id != k by {
                if i < rs.len() - 1 {
                    assert(rs.drop_last()[i].id != k);
                }
            }
        }
    }
}

/// With distinct ids, the map of a record sequence sends each record's id to
/// that record.
pub proof fn lemma_records_map_index(rs: Seq<DownloadInfoView>, i: int)
    requires
        forall|p: int, q: int| 0 <= p < q < rs.len() ==> rs[p].id != rs[q].id,
        0 <= i < rs.len(),
    ensures
        records_map_of(rs).contains_key(rs[i].id),
        records_map_of(rs)[rs[i].id] == rs[i],
    decreases rs.len(),
{
    if i == rs.len() - 1 {
        assert(rs.last() == rs[i]);
    } else {
        lemma_records_map_index(rs.drop_last(), i);
        assert(rs.drop_last()[i] == rs[i]);
        assert(rs[i].id != rs[rs.len() - 1].id);
    }
}

/// Replacing the record at one index, keeping its id, replaces that id's
/// entry in the map.
pub proof fn lemma_records_map_update(rs: Seq<DownloadInfoView>, i: int, r: DownloadInfoView)
    requires
        forall|p: int, q: int| 0 <= p < q < rs.len() ==> rs[p].id != rs[q].id,
        0 <= i < rs.len(),
        r.id == rs[i].id,
    ensures
        records_map_of(rs.update(i, r)) == records_map_of(rs).insert(r.id, r),
    decreases rs.len(),
{
    if i == rs.len() - 1 {
        assert(rs.update(i, r).drop_last() =~= rs.drop_last());
        assert(rs.update(i, r).last() == r);
        assert(records_map_of(rs.update(i, r)) =~= records_map_of(rs).insert(r.id, r));
    } else {
        lemma_records_map_update(rs.drop_last(), i, r);
        assert(rs.update(i, r).drop_last() =~= rs.drop_last().update(i, r));
        assert(rs.update(i, r).last() == rs.last());
        assert(rs[i].id != rs[rs.len() - 1].id);
        assert(records_map_of(rs.update(i, r)) =~= records_map_of(rs).insert(r.id, r));
    }
}

/// Appending a record inserts its id into the map.
pub proof fn lemma_records_map_push(rs: Seq<DownloadInfoView>, r: DownloadInfoView)
    ensures
        records_map_of(rs.push(r)) == records_map_of(rs).insert(r.id, r),
{
    assert(rs.push(r).drop_last() =~= rs);
    assert(rs.push(r).last() == r);
}

impl ActiveDownloads {
    /// An empty registry: no records, no handles.
    pub fn new() -> (r: ActiveDownloads)
        ensures
            r.wf(),
            r@.downloads == Map::<Seq<char>, DownloadInfoView>::empty(),
            r@.handles == Set::<Seq<char>>::empty(),
    {
        let r = ActiveDownloads { downloads: Vec::new(), tokens: Vec::new() };
        proof {
            assert(r.recs() =~= Seq::<DownloadInfoView>::empty());
            assert(r.tok_ids() =~= Seq::<Seq<char>>::empty());
            assert(r.tok_ids().to_set() =~= Set::<Seq<char>>::empty());
        }
        r
    }

    /// The index of the record with the given id, if any.
    pub fn find_index(&self, id: &String) -> (r: Option<usize>)
        ensures
            match r {
                Some(i) => i < self.recs().len() && self.recs()[i as int].id == id@,
                None => !self@.downloads.contains_key(id@),
            },
    {
        let n = self.downloads.len();
        let mut i: usize = 0;
        while i < n
            invariant
                n == self.recs().len(),
                i <= n,
                forall|j: int| 0 <= j < i ==> self.recs()[j].id != id@,
            decreases n - i,
        {
            if self.downloads[i].id.eq(id) {
                return Some(i);
            }
            i = i + 1;
        }
        proof {
            lemma_records_map_contains(self.recs(), id@);
        }
        None
    }

    /// Whether a record with the given id exists.
    pub fn contains(&self, id: &String) -> (r: bool)
        ensures
            r == self@.downloads.contains_key(id@),
    {
        let idx = self.find_index(id);
        proof {
            if idx is Some {
                lemma_records_map_contains(self.recs(), id@);
            }
        }
        idx.is_some()
    }

    /// Insert the record under its id, replacing any record already there.
    /// Handles are untouched.
    pub fn upsert(&mut self, rec: DownloadInfo)
        requires
            old(self).wf(),
            rec@.wf(),
            rec@.status.spec_is_terminal() ==> !old(self)@.handles.contains(rec@.id),
        ensures
            final(self).wf(),
            final(self)@.downloads == old(self)@.downloads.insert(rec@.id, rec@),
            final(self)@.handles == old(self)@.handles,
    {
        proof {
            lemma_to_set_contains(self.tok_ids(), rec@.id);
        }
        let idx = self.find_index(&rec.id);
        match idx {
            Some(i) => {
                let ghost oldrecs = self.recs();
                self.downloads[i] = rec;
                proof {
                    assert(self.recs() =~= oldrecs.update(i as int, rec@));
                    lemma_records_map_update(oldrecs, i as int, rec@);
                }
            },
            None => {
                let ghost oldrecs = self.recs();
                self.downloads.push(rec);
                proof {
                    assert(self.recs() =~= oldrecs.push(rec@));
                    lemma_records_map_push(oldrecs, rec@);
                    lemma_records_map_contains(oldrecs, rec@.id);
                }
            },
        }
        proof {
            assert forall|i: int|
                0 <= i < self.recs().len() && (#[trigger] self.recs()[i]).status.spec_is_terminal()
                    implies !self.tok_ids().contains(self.recs()[i].id) by {
                if self.recs()[i].id != rec@.id {
                    assert(exists|j: int|
                        0 <= j < old(self).recs().len() && old(self).recs()[j] == self.recs()[i]);
                }
            }
        }
    }

    /// A clone of every record, in storage order.
    pub fn get_all(&self) -> (r: Vec<DownloadInfo>)
        ensures
            r@.map_values(|x: DownloadInfo| x@) == self.recs(),
    {
        let mut out: Vec<DownloadInfo> = Vec::new();
        let n = self.downloads.len();
        let mut i: usize = 0;
        while i < n
            invariant
                n == self.downloads.len(),
                i <= n,
                out@.map_values(|x: DownloadInfo| x@) =~= self.recs().take(i as int),
            decreases n - i,
        {
            let ghost prev = out@;
            out.push(self.downloads[i].clone());
            proof {
                assert(out@ =~= prev.push(out@.last()));
                assert(out@.map_values(|x: DownloadInfo| x@) =~= prev.map_values(
                    |x: DownloadInfo| x@,
                ).push(out@.last()@));
                assert(out@.last()@ == self.recs()[i as int]);
                assert(out@.map_values(|x: DownloadInfo| x@) =~= self.recs().take(i + 1 as int));
            }
            i = i + 1;
        }
        proof {
            assert(self.recs().take(n as int) =~= self.recs());
        }
        out
    }

    /// The index of the handle for the given id, if any.
    fn find_token_index(&self, id: &String) -> (r: Option<usize>)
        ensures
            match r {
                Some(i) => i < self.tok_ids().len() && self.tok_ids()[i as int] == id@,
                None => !self.tok_ids().contains(id@),
            },
    {
        let n = self.tokens.len();
        let mut i: usize = 0;
        while i < n
            invariant
                n == self.tok_ids().len(),
                i <= n,
                forall|j: int| 0 <= j < i ==> self.tok_ids()[j] != id@,
            decreases n - i,
        {
            if self.tokens[i].0.eq(id) {
                return Some(i);
            }
            i = i + 1;
        }
        None
    }

    /// Whether the given id holds a live cancellation handle.
    pub fn has_token(&self, id: &String) -> (r: bool)
        ensures
            r == self@.handles.contains(id@),
    {
        proof {
            lemma_to_set_contains(self.tok_ids(), id@);
        }
        self.find_token_index(id).is_some()
    }

    /// Store a cancellation handle for the id, replacing any handle already
    /// there.  Records are untouched.
    pub fn insert_token(&mut self, id: String, token: tokio_util::sync::CancellationToken)
        requires
            old(self).wf(),
            old(self)@.downloads.contains_key(id@) ==> !old(self)@.downloads[id@].status.spec_is_terminal(),
        ensures
            final(self).wf(),
            final(self)@.downloads == old(self)@.downloads,
            final(self)@.handles == old(self)@.handles.insert(id@),
    {
        proof {
            assert forall|i: int|
                0 <= i < self.recs().len() && (#[trigger] self.recs()[i]).id == id@ implies !self.recs()[i].status.spec_is_terminal() by {
                lemma_records_map_index(self.recs(), i);
            }
        }
        let ghost oldids = self.tok_ids();
        let ghost idv = id@;
        let idx = self.find_token_index(&id);
        match idx {
            Some(i) => {
                self.tokens[i] = (id, token);
                proof {
                    assert(self.tok_ids() =~= oldids.update(i as int, idv));
                    assert(self.tok_ids() =~= oldids);
                    assert(oldids.to_set().contains(idv));
                    assert(self.tok_ids().to_set() =~= oldids.to_set().insert(idv));
                }
            },
            None => {
                self.tokens.push((id, token));
                proof {
                    assert(self.tok_ids() =~= oldids.push(idv));
                    lemma_to_set_push(oldids, idv);
                }
            },
        }
    }

    /// Remove and return the cancellation handle for the id, if one exists.
    /// Records are untouched.
    pub fn remove_token(&mut self, id: &String) -> (r: Option<
        tokio_util::sync::CancellationToken,
    >)
        requires
            old(self).wf(),
        ensures
            final(self).wf(),
            final(self)@.downloads == old(self)@.downloads,
            final(self)@.handles == old(self)@.handles.remove(id@),
            r is Some <==> old(self)@.handles.contains(id@),
    {
        proof {
            lemma_to_set_contains(self.tok_ids(), id@);
        }
        let ghost oldids = self.tok_ids();
        let idx = self.find_token_index(id);
        match idx {
            Some(i) => {
                let (_, tok) = self.tokens.remove(i);
                proof {
                    assert(self.tok_ids() =~= oldids.remove(i as int));
                    lemma_to_set_remove_distinct(oldids, i as int);
                }
                Some(tok)
            },
            None => {
                proof {
                    assert(self.tok_ids().to_set() =~= self.tok_ids().to_set().remove(id@));
                }
                None
            },
        }
    }
}

/// A sequence contains an element exactly when its set of elements does.
pub proof fn lemma_to_set_contains(s: Seq<Seq<char>>, x: Seq<char>)
    ensures
        s.to_set().contains(x) <==> s.contains(x),
{
    if s.contains(x) {
        assert(s.to_set().contains(x));
    }
}

/// Appending an element to a sequence inserts it into the set of elements.
pub proof fn lemma_to_set_push(s: Seq<Seq<char>>, x: Seq<char>)
    ensures
        s.push(x).to_set() == s.to_set().insert(x),
{
    let t = s.push(x);
    assert forall|y: Seq<char>| t.to_set().contains(y) implies s.to_set().insert(x).contains(
        y,
    ) by {
        let j = choose|j: int| 0 <= j < t.len() && t[j] == y;
        if j < s.len() {
            assert(s[j] == y);
        }
    }
    assert forall|y: Seq<char>| s.to_set().insert(x).contains(y) implies t.to_set().contains(
        y,
    ) by {
        if y == x {
            assert(t[s.len() as int] == y);
        } else {
            let j = choose|j: int| 0 <= j < s.len() && s[j] == y;
            assert(t[j] == y);
        }
    }
    assert(t.to_set() =~= s.to_set().insert(x));
}

/// Removing one element of a duplicate-free sequence removes exactly it from
/// the set of elements.
pub proof fn lemma_to_set_remove_distinct(s: Seq<Seq<char>>, i: int)
    requires
        forall|p: int, q: int| 0 <= p < q < s.len() ==> s[p] != s[q],
        0 <= i < s.len(),
    ensures
        s.remove(i).to_set() == s.to_set().remove(s[i]),
{
    let t = s.remove(i);
    assert forall|x: Seq<char>| t.to_set().contains(x) implies s.to_set().contains(x) && x != s[i] by {
        let j = choose|j: int| 0 <= j < t.len() && t[j] == x;
        if j < i {
            assert(s[j] == x);
        } else {
            assert(s[j + 1] == x);
        }
    }
    assert forall|x: Seq<char>| s.to_set().contains(x) && x != s[i] implies t.to_set().contains(x) by {
        let j = choose|j: int| 0 <= j < s.len() && s[j] == x;
        if j < i {
            assert(t[j] == x);
        } else {
            assert(t[j - 1] == x);
        }
    }
    assert(s.remove(i).to_set() =~= s.to_set().remove(s[i]));
}

} // verus!
