//! The history of imports, for undoing the last one and for spotting
//! files whose content was imported before.

use vstd::prelude::*;
use crate::clock::now_rfc3339;
use crate::hashing::{hash_seen, hex_lower, is_conflict, sha256};
use crate::model::{opt_view, ImportError};
use crate::table::{entries_map, entry_keys, keys_unique, lemma_entries_map, NameTable};

verus! {

/// A record of one import: its id, the file imported, the entities it
/// created, when, in which format, and the content hash of the file when
/// it could be computed.
#[derive(Clone, Debug, PartialEq)]
pub struct ImportRecord {
    pub id: u128,
    pub source_path: String,
    pub entity_ids: Vec<u128>,
    pub imported_at: String,
    pub format: String,
    pub content_hash: Option<String>,
}

/// The mathematical value of an import record.
pub struct RecordV {
    pub id: u128,
    pub source_path: Seq<char>,
    pub entity_ids: Seq<u128>,
    pub imported_at: Seq<char>,
    pub format: Seq<char>,
    pub content_hash: Option<Seq<char>>,
}

impl View for ImportRecord {
    type V = RecordV;

    open spec fn view(&self) -> RecordV {
        RecordV {
            id: self.id,
            source_path: self.source_path@,
            entity_ids: self.entity_ids@,
            imported_at: self.imported_at@,
            format: self.format@,
            content_hash: opt_view(self.content_hash),
        }
    }
}

/// The mathematical value of a list of records.
pub open spec fn records_view(v: Seq<ImportRecord>) -> Seq<RecordV> {
    v.map_values(|r: ImportRecord| r@)
}

/// A copy of a record, field by field.
pub fn copy_record(r: &ImportRecord) -> (c: ImportRecord)
    ensures
        c@ == r@,
{
    let mut ids: Vec<u128> = Vec::new();
    let mut i: usize = 0;
    while i < r.entity_ids.len()
        invariant
            i <= r.entity_ids.len(),
            ids@ == r.entity_ids@.take(i as int),
        decreases r.entity_ids.len() - i,
    {
        ids.push(r.entity_ids[i]);
        assert(ids@ =~= r.entity_ids@.take(i + 1));
        i += 1;
    }
    assert(r.entity_ids@.take(r.entity_ids.len() as int) =~= r.entity_ids@);
    ImportRecord {
        id: r.id,
        source_path: r.source_path.clone(),
        entity_ids: ids,
        imported_at: r.imported_at.clone(),
        format: r.format.clone(),
        content_hash: match &r.content_hash {
            Some(h) => Some(h.clone()),
            None => None,
        },
    }
}

/// The imports made, in order, and the content hash last recorded for
/// each imported file.
pub struct ImportHistory {
    records: Vec<ImportRecord>,
    hashes: NameTable<String>,
}

/// The mathematical value of a list of `(file, hash)` pairs.
pub open spec fn pairs_view(v: Seq<(String, String)>) -> Seq<(Seq<char>, Seq<char>)> {
    v.map_values(|p: (String, String)| (p.0@, p.1@))
}

/// The hash table after recording an import: the record's hash, when it
/// has one, is now the hash of its file.
pub open spec fn hashes_after(hashes: Map<Seq<char>, Seq<char>>, r: RecordV) -> Map<Seq<char>, Seq<char>> {
    match r.content_hash {
        Some(h) => hashes.insert(r.source_path, h),
        None => hashes,
    }
}

impl ImportHistory {
    /// The history is well formed: each file has one recorded hash.
    pub closed spec fn wf(&self) -> bool {
        self.hashes.wf()
    }

    /// The records, oldest first.
    pub closed spec fn records(&self) -> Seq<RecordV> {
        records_view(self.records@)
    }

    /// The content hash recorded for each imported file.
    pub closed spec fn hashes(&self) -> Map<Seq<char>, Seq<char>> {
        self.hashes@.map_values(|h: String| h@)
    }

    /// The recorded `(file, hash)` pairs, in the order in which the files
    /// were first recorded.
    pub closed spec fn hash_entries(&self) -> Seq<(Seq<char>, Seq<char>)> {
        pairs_view(self.hashes.entries())
    }

    /// An empty history.
    pub fn new() -> (h: Self)
        ensures
            h.wf(),
            h.records() == Seq::<RecordV>::empty(),
            h.hashes() == Map::<Seq<char>, Seq<char>>::empty(),
    {
        let h = ImportHistory { records: Vec::new(), hashes: NameTable::new() };
        assert(h.records() =~= Seq::<RecordV>::empty());
        assert(h.hashes() =~= Map::<Seq<char>, Seq<char>>::empty());
        h
    }

    /// Add a record at the end; its content hash, when it has one, becomes
    /// the hash of its file.
    pub fn record(&mut self, record: ImportRecord)
        requires
            old(self).wf(),
        ensures
            final(self).wf(),
            final(self).records() == old(self).records().push(record@),
            final(self).hashes() == hashes_after(old(self).hashes(), record@),
    {
        let ghost rv = record@;
        match &record.content_hash {
            Some(h) => {
                let ghost before = self.hashes@;
                self.hashes.insert(record.source_path.clone(), h.clone());
                assert(self.hashes@.map_values(|x: String| x@) =~= before.map_values(
                    |x: String| x@,
                ).insert(rv.source_path, rv.content_hash->0));
            },
            None => {},
        }
        self.records.push(record);
        assert(self.records() =~= old(self).records().push(rv));
    }

    /// Take the last record off, if there is one. The recorded hashes stay.
    pub fn undo_last(&mut self) -> (r: Option<ImportRecord>)
        requires
            old(self).wf(),
        ensures
            final(self).wf(),
            final(self).hashes() == old(self).hashes(),
            old(self).records().len() == 0 ==> r is None && final(self).records() == old(self).records(),
            old(self).records().len() > 0 ==> (r matches Some(x) && x@ == old(self).records().last())
                && final(self).records() == old(self).records().drop_last(),
    {
        let r = self.records.pop();
        proof {
            if old(self).records().len() > 0 {
                assert(self.records() =~= old(self).records().drop_last());
            } else {
                assert(self.records() =~= old(self).records());
            }
        }
        r
    }

    /// The records, oldest first.
    pub fn history(&self) -> (v: Vec<ImportRecord>)
        ensures
            records_view(v@) == self.records(),
    {
        let mut v: Vec<ImportRecord> = Vec::new();
        let mut i: usize = 0;
        while i < self.records.len()
            invariant
                i <= self.records@.len(),
                records_view(v@) == records_view(self.records@).take(i as int),
            decreases self.records@.len() - i,
        {
            let c = copy_record(&self.records[i]);
            let ghost before = records_view(v@);
            v.push(c);
            assert(records_view(v@) =~= before.push(self.records@[i as int]@));
            assert(records_view(self.records@).take(i + 1) =~= records_view(self.records@).take(
                i as int,
            ).push(self.records@[i as int]@));
            i += 1;
        }
        assert(records_view(self.records@).take(self.records@.len() as int) =~= records_view(
            self.records@,
        ));
        v
    }

    /// The recorded hashes as `(file, hash)` pairs, each file once, in the
    /// order in which the files were first recorded.
    pub fn content_hashes(&self) -> (v: Vec<(String, String)>)
        requires
            self.wf(),
        ensures
            keys_unique(v@),
            entries_map(v@).map_values(|h: String| h@) == self.hashes(),
            pairs_view(v@) == self.hash_entries(),
    {
        proof {
            self.hashes.lemma_entries();
        }
        let src = self.hashes.entry_list();
        let mut v: Vec<(String, String)> = Vec::new();
        let mut i: usize = 0;
        while i < src.len()
            invariant
                i <= src@.len(),
                v@.len() == i,
                forall|k: int| 0 <= k < i ==> (#[trigger] v@[k]).0@ == src@[k].0@ && v@[k].1@ == src@[k].1@,
            decreases src@.len() - i,
        {
            v.push((src[i].0.clone(), src[i].1.clone()));
            i += 1;
        }
        proof {
            lemma_entries_map_views(v@, src@);
            assert(pairs_view(v@) =~= pairs_view(src@));
        }
        v
    }
}

/// Two lists of entries with the same keys and values in order describe
/// the same map, and the same keys in order.
proof fn lemma_entries_map_views(a: Seq<(String, String)>, b: Seq<(String, String)>)
    requires
        a.len() == b.len(),
        forall|k: int| 0 <= k < a.len() ==> (#[trigger] a[k]).0@ == b[k].0@ && a[k].1@ == b[k].1@,
    ensures
        entries_map(a).map_values(|h: String| h@) == entries_map(b).map_values(|h: String| h@),
        entry_keys(a) == entry_keys(b),
        keys_unique(b) ==> keys_unique(a),
    decreases a.len(),
{
    if a.len() > 0 {
        lemma_entries_map_views(a.drop_last(), b.drop_last());
        let ma = entries_map(a.drop_last());
        let mb = entries_map(b.drop_last());
        assert(a.drop_last().len() == b.drop_last().len());
        assert(ma.insert(a.last().0@, a.last().1).map_values(|h: String| h@) =~= ma.map_values(
            |h: String| h@,
        ).insert(a.last().0@, a.last().1@));
        assert(mb.insert(b.last().0@, b.last().1).map_values(|h: String| h@) =~= mb.map_values(
            |h: String| h@,
        ).insert(b.last().0@, b.last().1@));
        assert(a.last().0@ == b.last().0@ && a.last().1@ == b.last().1@);
        assert(entries_map(a).map_values(|h: String| h@) =~= entries_map(b).map_values(|h: String| h@));
        assert(entry_keys(a) =~= entry_keys(b));
    } else {
        assert(entries_map(a).map_values(|h: String| h@) =~= entries_map(b).map_values(|h: String| h@));
        assert(entry_keys(a) =~= entry_keys(b));
    }
    if keys_unique(b) {
        assert forall|i: int, j: int| 0 <= i < j < a.len() implies (#[trigger] a[i]).0@ != (
        #[trigger] a[j]).0@ by {
            assert(b[i].0@ != b[j].0@);
        }
    }
}

/// A fresh random id (`uuid::Uuid::new_v4`, as a 128-bit number). Nothing
/// is claimed of the value: it is random.
#[verifier::external_body]
fn new_id() -> u128 {
    uuid::Uuid::new_v4().as_u128()
}

/// Record an import of `source_path`, whose file had the content hash
/// `content_hash` (`None` when it could not be read), made with id `id`
/// at `imported_at`; the record is returned.
pub fn record_import_at(
    history: &mut ImportHistory,
    source_path: &str,
    entity_ids: Vec<u128>,
    format: &str,
    content_hash: Option<String>,
    id: u128,
    imported_at: &str,
) -> (r: Result<ImportRecord, ImportError>)
    requires
        old(history).wf(),
    ensures
        final(history).wf(),
        r matches Ok(rec) && rec@ == (RecordV {
            id,
            source_path: source_path@,
            entity_ids: entity_ids@,
            imported_at: imported_at@,
            format: format@,
            content_hash: opt_view(content_hash),
        }) && final(history).records() == old(history).records().push(rec@) && final(history).hashes()
            == hashes_after(old(history).hashes(), rec@),
{
    let record = ImportRecord {
        id,
        source_path: source_path.to_string(),
        entity_ids,
        imported_at: imported_at.to_string(),
        format: format.to_string(),
        content_hash,
    };
    let copy = copy_record(&record);
    history.record(copy);
    Ok(record)
}

/// Record an import of `source_path` with a fresh id, stamped with the
/// current time; the record is returned.
pub fn record_import(
    history: &mut ImportHistory,
    source_path: &str,
    entity_ids: Vec<u128>,
    format: &str,
    content_hash: Option<String>,
) -> (r: Result<ImportRecord, ImportError>)
    requires
        old(history).wf(),
    ensures
        final(history).wf(),
        r matches Ok(rec) && rec.source_path@ == source_path@ && rec.entity_ids@ == entity_ids@
            && rec.format@ == format@ && opt_view(rec.content_hash) == opt_view(content_hash)
            && final(history).records() == old(history).records().push(rec@) && final(history).hashes()
            == hashes_after(old(history).hashes(), rec@),
{
    let id = new_id();
    let now = now_rfc3339();
    record_import_at(history, source_path, entity_ids, format, content_hash, id, now.as_str())
}

/// Take back the last import: its record, or `None` when there is none.
pub fn undo_last_import(history: &mut ImportHistory) -> (r: Result<Option<ImportRecord>, ImportError>)
    requires
        old(history).wf(),
    ensures
        final(history).wf(),
        final(history).hashes() == old(history).hashes(),
        old(history).records().len() == 0 ==> r == Ok::<Option<ImportRecord>, ImportError>(None)
            && final(history).records() == old(history).records(),
        old(history).records().len() > 0 ==> (r matches Ok(Some(x)) && x@ == old(history).records().last())
            && final(history).records() == old(history).records().drop_last(),
{
    Ok(history.undo_last())
}

/// The records of all imports, oldest first.
pub fn get_import_history(history: &ImportHistory) -> (v: Vec<ImportRecord>)
    ensures
        records_view(v@) == history.records(),
{
    history.history()
}

/// The content hash recorded for each imported file, as `(file, hash)`
/// pairs, each file once.
pub fn get_content_hashes(history: &ImportHistory) -> (v: Vec<(String, String)>)
    requires
        history.wf(),
    ensures
        keys_unique(v@),
        entries_map(v@).map_values(|h: String| h@) == history.hashes(),
        pairs_view(v@) == history.hash_entries(),
{
    history.content_hashes()
}

/// The hashes of previously imported content (see `get_content_hashes`).
pub fn get_previous_hashes(history: &ImportHistory) -> (v: Vec<(String, String)>)
    requires
        history.wf(),
    ensures
        keys_unique(v@),
        entries_map(v@).map_values(|h: String| h@) == history.hashes(),
        pairs_view(v@) == history.hash_entries(),
{
    get_content_hashes(history)
}

/// Undoing right after recording an import gives back that record and
/// leaves the records as they were before it.
pub proof fn law_undo_reverts_record(
    before: Seq<RecordV>,
    between: Seq<RecordV>,
    after: Seq<RecordV>,
    recorded: RecordV,
    undone: RecordV,
)
    requires
        between == before.push(recorded),
        undone == between.last(),
        after == between.drop_last(),
    ensures
        undone == recorded,
        after == before,
{
    assert(after =~= before);
}

/// The previously imported hashes are the recorded content hashes: the two
/// lookups on one history give the same pairs in the same order.
pub proof fn law_previous_hashes_are_content_hashes(
    history: ImportHistory,
    content: Seq<(String, String)>,
    previous: Seq<(String, String)>,
)
    requires
        pairs_view(content) == history.hash_entries(),
        pairs_view(previous) == history.hash_entries(),
    ensures
        pairs_view(previous) == pairs_view(content),
        previous.len() == content.len(),
        forall|i: int|
            0 <= i < previous.len() ==> (#[trigger] previous[i]).0@ == content[i].0@ && previous[i].1@
                == content[i].1@,
{
    assert(pairs_view(previous).len() == previous.len());
    assert(pairs_view(content).len() == content.len());
    assert forall|i: int| 0 <= i < previous.len() implies (#[trigger] previous[i]).0@ == content[i].0@
        && previous[i].1@ == content[i].1@ by {
        assert(pairs_view(previous)[i] == (previous[i].0@, previous[i].1@));
        assert(pairs_view(content)[i] == (content[i].0@, content[i].1@));
    }
}

/// After an import of a file whose content hash was known is recorded,
/// the content hashes looked up afterwards hold that file with that hash.
pub proof fn law_recorded_hash_is_returned(
    lookup: Seq<(String, String)>,
    before: Map<Seq<char>, Seq<char>>,
    recorded: RecordV,
    hash: Seq<char>,
)
    requires
        keys_unique(lookup),
        entries_map(lookup).map_values(|h: String| h@) == hashes_after(before, recorded),
        recorded.content_hash == Some(hash),
    ensures
        exists|i: int|
            0 <= i < lookup.len() && (#[trigger] lookup[i]).0@ == recorded.source_path && lookup[i].1@
                == hash,
{
    lemma_entries_map(lookup);
    let m = entries_map(lookup);
    assert(m.map_values(|h: String| h@).dom().contains(recorded.source_path));
    assert(m.dom().contains(recorded.source_path));
    let i = choose|i: int| 0 <= i < lookup.len() && lookup[i].0@ == recorded.source_path;
    assert(m[lookup[i].0@] == lookup[i].1);
    assert(m.map_values(|h: String| h@)[recorded.source_path] == hash);
    assert(lookup[i].1@ == hash);
}

/// Once an import of some content is recorded with its content hash, a
/// file holding the same bytes is in conflict with the previous imports.
pub proof fn law_recorded_hash_conflicts(
    previous: Seq<(String, String)>,
    before: Map<Seq<char>, Seq<char>>,
    recorded: RecordV,
    bytes: Vec<u8>,
)
    requires
        keys_unique(previous),
        entries_map(previous).map_values(|h: String| h@) == hashes_after(before, recorded),
        recorded.content_hash == Some(hex_lower(sha256(bytes@))),
    ensures
        is_conflict(Some(bytes), previous),
{
    law_recorded_hash_is_returned(previous, before, recorded, hex_lower(sha256(bytes@)));
    let i = choose|i: int|
        0 <= i < previous.len() && (#[trigger] previous[i]).0@ == recorded.source_path && previous[i].1@
            == hex_lower(sha256(bytes@));
    assert(hash_seen(previous, hex_lower(sha256(bytes@))));
}

} // verus!
