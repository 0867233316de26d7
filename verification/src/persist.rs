//! The registry as one JSON document, `{"downloads":{id:record,...}}`: what
//! is written to disk after every mutation and read back at startup.
//! Cancellation handles are process local and never part of the document.
//!
//! `registry_to_json` and `registry_from_json` are proved equal to their
//! spec twins, and `lemma_registry_roundtrip` shows the parser inverts the
//! serializer: persisting and loading gives the records back unchanged.

use vstd::prelude::*;

use crate::codec::lemma_record_roundtrip;
use crate::codec::parse_record_at;
use crate::codec::ser_record;
use crate::codec::spec_parse_record;
use crate::codec::spec_ser_record;
use crate::json::chars_to_string;
use crate::json::lemma_parse_lit_self;
use crate::json::lemma_string_roundtrip;
use crate::json::parse_lit_at;
use crate::json::parse_string_at;
use crate::json::push_str_chars;
use crate::json::ser_string;
use crate::json::spec_parse_lit;
use crate::json::spec_parse_string;
use crate::json::spec_ser_string;
use crate::json::str_to_chars;
use crate::record::DownloadInfo;
use crate::record::DownloadInfoView;
use crate::record::PROGRESS_FULL;
use crate::registry::ActiveDownloads;
use crate::registry::records_map_of;

verus! {

/// One stored entry: the id as the key, then the record.
pub open spec fn spec_ser_entry(r: DownloadInfoView) -> Seq<char> {
    spec_ser_string(r.id) + ":"@ + spec_ser_record(r)
}

/// The stored entries, comma separated, in registry order.
pub open spec fn spec_ser_entries(rs: Seq<DownloadInfoView>) -> Seq<char>
    decreases rs.len(),
{
    if rs.len() == 0 {
        Seq::<char>::empty()
    } else if rs.len() == 1 {
        spec_ser_entry(rs[0])
    } else {
        spec_ser_entry(rs[0]) + ","@ + spec_ser_entries(rs.drop_first())
    }
}

/// The whole stored document.
pub open spec fn spec_ser_registry(rs: Seq<DownloadInfoView>) -> Seq<char> {
    "{\"downloads\":{"@ + spec_ser_entries(rs) + "}}"@
}

/// Parse one stored entry; the key must equal the record's id.
pub open spec fn spec_parse_entry(s: Seq<char>) -> Option<(DownloadInfoView, Seq<char>)> {
    match spec_parse_string(s) {
        None => None,
        Some((key, s1)) => match spec_parse_lit(s1, ":"@) {
            None => None,
            Some(s2) => match spec_parse_record(s2) {
                None => None,
                Some((r, s3)) => if r.id == key {
                    Some((r, s3))
                } else {
                    None
                },
            },
        },
    }
}

/// Parse one or more comma-separated entries, stopping before a `}`.
pub open spec fn spec_parse_entries_ne(s: Seq<char>) -> Option<
    (Seq<DownloadInfoView>, Seq<char>),
>
    decreases s.len(),
{
    match spec_parse_entry(s) {
        None => None,
        Some((r, rest)) => {
            if rest.len() > 0 && rest[0] == ',' {
                if rest.skip(1).len() < s.len() {
                    match spec_parse_entries_ne(rest.skip(1)) {
                        Some((rs, rest2)) => Some((seq![r] + rs, rest2)),
                        None => None,
                    }
                } else {
                    None
                }
            } else {
                Some((seq![r], rest))
            }
        },
    }
}

/// Parse the stored entries; an immediate `}` means there are none.
pub open spec fn spec_parse_entries(s: Seq<char>) -> Option<(Seq<DownloadInfoView>, Seq<char>)> {
    if s.len() > 0 && s[0] == '}' {
        Some((Seq::<DownloadInfoView>::empty(), s))
    } else {
        spec_parse_entries_ne(s)
    }
}

/// Parse the whole stored document; nothing may follow it.
pub open spec fn spec_parse_registry(s: Seq<char>) -> Option<Seq<DownloadInfoView>> {
    match spec_parse_lit(s, "{\"downloads\":{"@) {
        None => None,
        Some(s1) => match spec_parse_entries(s1) {
            None => None,
            Some((rs, s2)) => match spec_parse_lit(s2, "}}"@) {
                None => None,
                Some(s3) => if s3.len() == 0 {
                    Some(rs)
                } else {
                    None
                },
            },
        },
    }
}

/// What a loaded record sequence must satisfy to become a registry: pairwise
/// distinct ids and well-formed records.
pub open spec fn spec_records_valid(rs: Seq<DownloadInfoView>) -> bool {
    &&& forall|i: int, j: int| 0 <= i < j < rs.len() ==> rs[i].id != rs[j].id
    &&& forall|i: int| 0 <= i < rs.len() ==> (#[trigger] rs[i]).wf()
}

/// The entry parser inverts the entry serializer.
pub proof fn lemma_entry_roundtrip(r: DownloadInfoView, rest: Seq<char>)
    ensures
        spec_parse_entry(spec_ser_entry(r) + rest) == Some((r, rest)),
{
    reveal_strlit(":");
    let t2 = spec_ser_record(r) + rest;
    let t1 = ":"@ + t2;
    let t0 = spec_ser_string(r.id) + t1;
    assert(spec_ser_entry(r) + rest =~= t0);
    lemma_string_roundtrip(r.id, t1);
    lemma_parse_lit_self(":"@, t2);
    lemma_record_roundtrip(r, rest);
}

/// A serialized string has at least its two quotes.
pub proof fn lemma_ser_string_len(s: Seq<char>)
    ensures
        spec_ser_string(s).len() >= 2,
        spec_ser_string(s)[0] == '"',
{
}

/// The entries parser inverts the entries serializer on one or more
/// entries, whenever a `}` follows them.
#[verifier::rlimit(100)]
pub proof fn lemma_entries_ne_roundtrip(rs: Seq<DownloadInfoView>, rest: Seq<char>)
    requires
        rs.len() >= 1,
        rest.len() > 0,
        rest[0] == '}',
    ensures
        spec_parse_entries_ne(spec_ser_entries(rs) + rest) == Some((rs, rest)),
    decreases rs.len(),
{
    reveal_strlit(",");
    lemma_ser_string_len(rs[0].id);
    if rs.len() == 1 {
        let t = spec_ser_entry(rs[0]) + rest;
        assert(spec_ser_entries(rs) + rest =~= t);
        lemma_entry_roundtrip(rs[0], rest);
        assert(seq![rs[0]] =~= rs);
    } else {
        lemma_entries_ne_roundtrip(rs.drop_first(), rest);
        let t2 = spec_ser_entries(rs.drop_first()) + rest;
        let t1 = ","@ + t2;
        let t0 = spec_ser_entry(rs[0]) + t1;
        assert(spec_ser_entries(rs) + rest =~= t0);
        lemma_entry_roundtrip(rs[0], t1);
        assert(t1[0] == ',');
        assert(t1.skip(1) =~= t2);
        assert(t0.len() >= t1.len() + 2);
        assert(seq![rs[0]] + rs.drop_first() =~= rs);
    }
}

/// Law: the document parser inverts the document serializer — persisting a
/// registry and loading the text back yields the very same record sequence.
pub proof fn lemma_registry_roundtrip(rs: Seq<DownloadInfoView>)
    ensures
        spec_parse_registry(spec_ser_registry(rs)) == Some(rs),
{
    reveal_strlit("{\"downloads\":{");
    reveal_strlit("}}");
    let t2 = "}}"@;
    let t1 = spec_ser_entries(rs) + t2;
    let t0 = "{\"downloads\":{"@ + t1;
    assert(spec_ser_registry(rs) =~= t0);
    lemma_parse_lit_self("{\"downloads\":{"@, t1);
    if rs.len() == 0 {
        assert(t1 =~= t2);
        assert(t1[0] == '}');
        lemma_parse_lit_self("}}"@, Seq::<char>::empty());
        assert(t2 =~= "}}"@ + Seq::<char>::empty());
    } else {
        lemma_ser_string_len(rs[0].id);
        assert(t1[0] == '"');
        lemma_entries_ne_roundtrip(rs, t2);
        lemma_parse_lit_self("}}"@, Seq::<char>::empty());
        assert(t2 =~= "}}"@ + Seq::<char>::empty());
    }
}

/// Appending one more record to a non-empty sequence appends a comma and its
/// entry to the stored form.
pub proof fn lemma_ser_entries_snoc(rs: Seq<DownloadInfoView>, r: DownloadInfoView)
    requires
        rs.len() >= 1,
    ensures
        spec_ser_entries(rs.push(r)) == spec_ser_entries(rs) + ","@ + spec_ser_entry(r),
    decreases rs.len(),
{
    if rs.len() == 1 {
        assert(rs.push(r).drop_first() =~= seq![r]);
        assert(rs.push(r)[0] == rs[0]);
        assert(spec_ser_entries(seq![r]) == spec_ser_entry(r));
        assert(spec_ser_entries(rs.push(r)) =~= spec_ser_entries(rs) + ","@ + spec_ser_entry(r));
    } else {
        lemma_ser_entries_snoc(rs.drop_first(), r);
        assert(rs.push(r).drop_first() =~= rs.drop_first().push(r));
        assert(rs.push(r)[0] == rs[0]);
        assert(spec_ser_entries(rs.push(r)) =~= spec_ser_entries(rs) + ","@ + spec_ser_entry(r));
    }
}

/// The registry rendered as its persistent JSON document.
pub fn registry_to_json(reg: &ActiveDownloads) -> (r: String)
    ensures
        r@ == spec_ser_registry(reg.recs()),
{
    let mut out: Vec<char> = Vec::new();
    push_str_chars(&mut out, "{\"downloads\":{");
    let n = reg.downloads.len();
    let mut i: usize = 0;
    while i < n
        invariant
            n == reg.recs().len(),
            i <= n,
            out@ =~= "{\"downloads\":{"@ + spec_ser_entries(reg.recs().take(i as int)),
        decreases n - i,
    {
        let ghost prefix = reg.recs().take(i as int);
        if i > 0 {
            push_str_chars(&mut out, ",");
        }
        ser_string(&mut out, reg.downloads[i].id.as_str());
        push_str_chars(&mut out, ":");
        ser_record(&mut out, &reg.downloads[i]);
        proof {
            reveal_strlit(",");
            reveal_strlit(":");
            let next = reg.recs().take(i + 1 as int);
            assert(next =~= prefix.push(reg.recs()[i as int]));
            if i > 0 {
                lemma_ser_entries_snoc(prefix, reg.recs()[i as int]);
                assert(spec_ser_entry(reg.recs()[i as int]) =~= spec_ser_string(
                    reg.recs()[i as int].id,
                ) + ":"@ + spec_ser_record(reg.recs()[i as int]));
                assert(out@ =~= "{\"downloads\":{"@ + spec_ser_entries(next));
            } else {
                assert(prefix.len() == 0);
                assert(next =~= seq![reg.recs()[0]]);
                assert(spec_ser_entries(next) == spec_ser_entry(reg.recs()[0]));
                assert(out@ =~= "{\"downloads\":{"@ + spec_ser_entries(next));
            }
        }
        i = i + 1;
    }
    push_str_chars(&mut out, "}}");
    proof {
        assert(reg.recs().take(n as int) =~= reg.recs());
        assert(out@ =~= spec_ser_registry(reg.recs()));
    }
    chars_to_string(&out)
}

/// Parse one stored entry at `i`.
pub fn parse_entry_at(v: &Vec<char>, i: usize) -> (r: Option<(DownloadInfo, usize)>)
    requires
        i <= v@.len(),
    ensures
        match r {
            Some((rec, j)) => {
                &&& i < j <= v@.len()
                &&& spec_parse_entry(v@.skip(i as int)) == Some((rec@, v@.skip(j as int)))
            },
            None => spec_parse_entry(v@.skip(i as int)) is None,
        },
{
    let (key, s1) = match parse_string_at(v, i) {
        Some(x) => x,
        None => {
            return None;
        },
    };
    let s2 = match parse_lit_at(v, s1, ":") {
        Some(j) => j,
        None => {
            return None;
        },
    };
    let (rec, s3) = match parse_record_at(v, s2) {
        Some(x) => x,
        None => {
            return None;
        },
    };
    if rec.id.eq(&key) {
        proof {
            reveal_strlit(":");
            assert(v@.skip(i as int).len() > v@.skip(s3 as int).len());
        }
        Some((rec, s3))
    } else {
        None
    }
}

/// Parse one or more comma-separated entries at `i`.
pub fn parse_entries_ne_at(v: &Vec<char>, i: usize) -> (r: Option<(Vec<DownloadInfo>, usize)>)
    requires
        i <= v@.len(),
    ensures
        match r {
            Some((recs, j)) => {
                &&& i <= j <= v@.len()
                &&& spec_parse_entries_ne(v@.skip(i as int)) == Some(
                    (recs@.map_values(|x: DownloadInfo| x@), v@.skip(j as int)),
                )
            },
            None => spec_parse_entries_ne(v@.skip(i as int)) is None,
        },
    decreases v@.len() - i,
{
    let n = v.len();
    let (rec, j) = match parse_entry_at(v, i) {
        Some(x) => x,
        None => {
            return None;
        },
    };
    if j < n && v[j] == ',' {
        proof {
            assert(v@.skip(i as int).len() == n - i);
            let rest = v@.skip(j as int);
            assert(rest[0] == ',');
            assert(rest.skip(1) =~= v@.skip(j + 1 as int));
            assert(rest.skip(1).len() < v@.skip(i as int).len());
        }
        match parse_entries_ne_at(v, j + 1) {
            Some((mut recs, j2)) => {
                let ghost tailviews = recs@.map_values(|x: DownloadInfo| x@);
                recs.insert(0, rec);
                proof {
                    assert(recs@.map_values(|x: DownloadInfo| x@) =~= seq![rec@] + tailviews);
                }
                Some((recs, j2))
            },
            None => None,
        }
    } else {
        proof {
            let rest = v@.skip(j as int);
            if j < n {
                assert(rest[0] == v@[j as int]);
            } else {
                assert(rest.len() == 0);
            }
        }
        let mut recs: Vec<DownloadInfo> = Vec::new();
        recs.push(rec);
        proof {
            assert(recs@.map_values(|x: DownloadInfo| x@) =~= seq![recs@[0]@]);
        }
        Some((recs, j))
    }
}

/// Parse the whole stored document; `None` when the text is not exactly one
/// well-formed document.
pub fn parse_registry(text: &str) -> (r: Option<Vec<DownloadInfo>>)
    ensures
        match r {
            Some(recs) => spec_parse_registry(text@) == Some(
                recs@.map_values(|x: DownloadInfo| x@),
            ),
            None => spec_parse_registry(text@) is None,
        },
{
    let v = str_to_chars(text);
    proof {
        assert(v@.skip(0) =~= text@);
    }
    let s1 = match parse_lit_at(&v, 0, "{\"downloads\":{") {
        Some(j) => j,
        None => {
            return None;
        },
    };
    let n = v.len();
    let (recs, s2) = if s1 < n && v[s1] == '}' {
        let empty_recs: Vec<DownloadInfo> = Vec::new();
        proof {
            assert(v@.skip(s1 as int)[0] == '}');
            assert(Seq::<DownloadInfoView>::empty() =~= empty_recs@.map_values(
                |x: DownloadInfo| x@,
            ));
        }
        (empty_recs, s1)
    } else {
        proof {
            if s1 < n {
                assert(v@.skip(s1 as int)[0] == v@[s1 as int]);
            } else {
                assert(v@.skip(s1 as int).len() == 0);
            }
        }
        match parse_entries_ne_at(&v, s1) {
            Some(x) => x,
            None => {
                return None;
            },
        }
    };
    let s3 = match parse_lit_at(&v, s2, "}}") {
        Some(j) => j,
        None => {
            return None;
        },
    };
    if s3 == n {
        proof {
            assert(v@.skip(s3 as int).len() == 0);
        }
        Some(recs)
    } else {
        proof {
            assert(v@.skip(s3 as int).len() > 0);
        }
        None
    }
}

/// Check that parsed records can stand as a registry: distinct ids and
/// well-formed fields.
pub fn validate_records(recs: &Vec<DownloadInfo>) -> (r: bool)
    ensures
        r == spec_records_valid(recs@.map_values(|x: DownloadInfo| x@)),
{
    let ghost views = recs@.map_values(|x: DownloadInfo| x@);
    let n = recs.len();
    let mut i: usize = 0;
    while i < n
        invariant
            n == recs@.len(),
            views == recs@.map_values(|x: DownloadInfo| x@),
            i <= n,
            forall|p: int, q: int| 0 <= p < q < i ==> views[p].id != views[q].id,
            forall|p: int| 0 <= p < i ==> (#[trigger] views[p]).wf(),
        decreases n - i,
    {
        let rec = &recs[i];
        let ok_fields = rec.progress <= PROGRESS_FULL && rec.extraction_progress <= PROGRESS_FULL
            && (!rec.extracted || rec.extracted_path.is_some());
        if !ok_fields {
            return false;
        }
        let mut p: usize = 0;
        while p < i
            invariant
                i < n,
                n == recs@.len(),
                views == recs@.map_values(|x: DownloadInfo| x@),
                p <= i,
                forall|q: int| 0 <= q < p ==> views[q].id != views[i as int].id,
            decreases i - p,
        {
            if recs[p].id.eq(&recs[i].id) {
                proof {
                    assert(views[p as int].id == views[i as int].id);
                }
                return false;
            }
            p = p + 1;
        }
        i = i + 1;
    }
    proof {
        if !spec_records_valid(views) {
            assert(false);
        }
    }
    true
}

/// Load a registry from its persistent JSON document.  `None` when the text
/// is not one well-formed document with distinct, well-formed records.  The
/// loaded registry holds no cancellation handles: they are process local and
/// are never persisted.
pub fn registry_from_json(text: &str) -> (r: Option<ActiveDownloads>)
    ensures
        match r {
            Some(reg) => {
                &&& spec_parse_registry(text@) is Some
                &&& reg.recs() == spec_parse_registry(text@)->Some_0
                &&& spec_records_valid(reg.recs())
                &&& reg.wf()
                &&& reg@.handles == Set::<Seq<char>>::empty()
            },
            None => spec_parse_registry(text@) is None || !spec_records_valid(
                spec_parse_registry(text@)->Some_0,
            ),
        },
{
    let recs = match parse_registry(text) {
        Some(x) => x,
        None => {
            return None;
        },
    };
    if !validate_records(&recs) {
        return None;
    }
    let reg = ActiveDownloads { downloads: recs, tokens: Vec::new() };
    proof {
        assert(reg.tok_ids() =~= Seq::<Seq<char>>::empty());
        assert(reg.tok_ids().to_set() =~= Set::<Seq<char>>::empty());
        assert forall|i: int|
            0 <= i < reg.recs().len() && (#[trigger] reg.recs()[i]).status.spec_is_terminal()
                implies !reg.tok_ids().contains(reg.recs()[i].id) by {}
    }
    Some(reg)
}

/// Law: persisting a registry and loading the text back succeeds and yields
/// the same id-to-record map; handles are excluded, as they are never
/// persisted.
pub proof fn lemma_persist_load_same_records(reg: &ActiveDownloads)
    requires
        reg.wf(),
    ensures
        spec_parse_registry(spec_ser_registry(reg.recs())) == Some(reg.recs()),
        spec_records_valid(reg.recs()),
        records_map_of(spec_parse_registry(spec_ser_registry(reg.recs()))->Some_0)
            == reg@.downloads,
{
    lemma_registry_roundtrip(reg.recs());
}

} // verus!
