//! A write-once registry from content identifiers to the records of accepted
//! files, and the path by which a file is accepted into it.
use vstd::prelude::*;
use crate::chars::same_text;
use crate::content::{
    classification, classify_content, extension_fits, extension_matches, lowercased, overruns_cr2_matcher,
    sniffed_as_image, sniffed_as_video, sniffed_type, trimmed, ContentGroup,
};
use crate::error::ValidationError;
use crate::identifier::{content_id_of, generate_id};

verus! {

/// What is kept of an accepted file: the path it was read from, the storage
/// location chosen for its group, and the group.
#[derive(Debug, Clone, PartialEq, Eq)]
pub struct FileRecord {
    pub source_path: String,
    pub storage_group_path: String,
    pub content_group: ContentGroup,
}

/// A record as (source path, storage location, group).
pub type RecordView = (Seq<char>, Seq<char>, ContentGroup);

impl View for FileRecord {
    type V = RecordView;

    open spec fn view(&self) -> RecordView {
        (self.source_path@, self.storage_group_path@, self.content_group)
    }
}

/// What `insert` leaves and returns: a new identifier gets the record; a
/// known one keeps its record and the call fails.
pub open spec fn insert_outcome(m: Map<Seq<char>, RecordView>, id: Seq<char>, record: RecordView) -> (
    Map<Seq<char>, RecordView>,
    Result<(), ValidationError>,
) {
    if m.contains_key(id) {
        (m, Err(ValidationError::AlreadyExists))
    } else {
        (m.insert(id, record), Ok(()))
    }
}

/// What `lookup` returns.
pub open spec fn lookup_outcome(m: Map<Seq<char>, RecordView>, id: Seq<char>) -> Result<
    RecordView,
    ValidationError,
> {
    if m.contains_key(id) {
        Ok(m[id])
    } else {
        Err(ValidationError::NotFound)
    }
}

/// The storage location of each group.
pub open spec fn storage_path(group: ContentGroup) -> Seq<char> {
    match group {
        ContentGroup::Image => "sec.upload/images/"@,
        ContentGroup::Video => "sec.upload/videos/"@,
    }
}

/// The storage location where files of `group` are kept.
pub fn storage_group_path(group: ContentGroup) -> (r: String)
    ensures
        r@ == storage_path(group),
{
    match group {
        ContentGroup::Image => "sec.upload/images/".to_owned(),
        ContentGroup::Video => "sec.upload/videos/".to_owned(),
    }
}

/// What accepting a file leaves and returns: the content must be an image or
/// a video of a known type, the file name's extension must fit that type,
/// and the content's identifier must be new; then the record is stored under
/// the identifier, which is returned.
pub open spec fn accept_outcome(m: Map<Seq<char>, RecordView>, path: Seq<char>, bytes: Seq<u8>) -> (
    Map<Seq<char>, RecordView>,
    Result<Seq<char>, ValidationError>,
) {
    match classification(sniffed_as_video(bytes), sniffed_as_image(bytes), sniffed_type(bytes)) {
        Err(e) => (m, Err(e)),
        Ok((group, t)) => if !extension_fits(lowercased(trimmed(path)), t.0) {
            (m, Err(ValidationError::ExtensionMismatch))
        } else {
            let id = content_id_of(bytes);
            match insert_outcome(m, id, (path, storage_path(group), group)) {
                (m2, Ok(_)) => (m2, Ok(id)),
                (m2, Err(e)) => (m2, Err(e)),
            }
        },
    }
}

/// An identifier result as text.
pub open spec fn id_result_view(r: Result<String, ValidationError>) -> Result<
    Seq<char>,
    ValidationError,
> {
    match r {
        Ok(s) => Ok(s@),
        Err(e) => Err(e),
    }
}

/// Records of accepted files, keyed by content identifier. A key, once
/// present, keeps its record: nothing replaces or removes it.
pub struct Registry {
    entries: Vec<(String, FileRecord)>,
    records: Ghost<Map<Seq<char>, RecordView>>,
}

impl View for Registry {
    type V = Map<Seq<char>, RecordView>;

    closed spec fn view(&self) -> Map<Seq<char>, RecordView> {
        self.records@
    }
}

/// Keys are unique, and the entries hold exactly the map of records.
spec fn entries_hold(entries: Seq<(String, FileRecord)>, records: Map<Seq<char>, RecordView>) -> bool {
    &&& forall|i: int, j: int|
        0 <= i < j < entries.len() ==> #[trigger] entries[i].0@ != #[trigger] entries[j].0@
    &&& forall|i: int|
        0 <= i < entries.len() ==> records.contains_key(#[trigger] entries[i].0@) && records[entries[
            i
        ].0@] == entries[i].1@
    &&& forall|k: Seq<char>| #[trigger]
        records.contains_key(k) ==> exists|i: int| 0 <= i < entries.len() && #[trigger] entries[i].0@ == k
}

impl Registry {
    #[verifier::type_invariant]
    spec fn well_formed(self) -> bool {
        entries_hold(self.entries@, self.records@)
    }

    /// An empty registry.
    pub fn new() -> (r: Registry)
        ensures
            r@ == Map::<Seq<char>, RecordView>::empty(),
    {
        Registry { entries: Vec::new(), records: Ghost(Map::empty()) }
    }

    /// The position of `id` among the entries, if it is there.
    fn position(&self, id: &str) -> (r: Option<usize>)
        ensures
            match r {
                Some(i) => i < self.entries@.len() && self.entries@[i as int].0@ == id@,
                None => !self@.contains_key(id@),
            },
    {
        proof {
            use_type_invariant(self);
        }
        let mut i: usize = 0;
        while i < self.entries.len()
            invariant
                i <= self.entries@.len(),
                forall|j: int| 0 <= j < i ==> #[trigger] self.entries@[j].0@ != id@,
            decreases self.entries@.len() - i,
        {
            if same_text(self.entries[i].0.as_str(), id) {
                return Some(i);
            }
            i += 1;
        }
        None
    }

    /// Whether a record is stored under `id`.
    pub fn contains(&self, id: &str) -> (r: bool)
        ensures
            r == self@.contains_key(id@),
    {
        proof {
            use_type_invariant(self);
        }
        match self.position(id) {
            Some(_) => true,
            None => false,
        }
    }

    /// Stores `record` under `id` if no record is stored there yet; otherwise
    /// fails with `AlreadyExists` and changes nothing.
    pub fn insert(&mut self, id: String, record: FileRecord) -> (r: Result<(), ValidationError>)
        ensures
            (final(self)@, r) == insert_outcome(old(self)@, id@, record@),
    {
        proof {
            use_type_invariant(&*self);
        }
        if self.position(id.as_str()).is_some() {
            return Err(ValidationError::AlreadyExists);
        }
        let ghost key = id@;
        let ghost value = record@;
        let mut current = Registry::new();
        std::mem::swap(self, &mut current);
        proof {
            use_type_invariant(&current);
        }
        let Registry { mut entries, records } = current;
        let ghost before = entries@;
        entries.push((id, record));
        let ghost r = records@.insert(key, value);
        proof {
            assert(!records@.contains_key(key));
            assert(entries@[before.len() as int].0@ == key);
            assert forall|i: int| 0 <= i < before.len() implies #[trigger] entries@[i].0@ != key
                && entries@[i] == before[i] by {
                assert(records@.contains_key(before[i].0@));
            }
            assert forall|i: int, j: int|
                0 <= i < j < entries@.len() implies #[trigger] entries@[i].0@
                != #[trigger] entries@[j].0@ by {
                if j < before.len() {
                    assert(before[i].0@ != before[j].0@);
                }
            }
            assert forall|i: int| 0 <= i < entries@.len() implies r.contains_key(
                #[trigger] entries@[i].0@,
            ) && r[entries@[i].0@] == entries@[i].1@ by {
                if i < before.len() {
                    assert(records@.contains_key(before[i].0@));
                }
            }
            assert forall|k: Seq<char>| #[trigger] r.contains_key(k) implies exists|i: int|
                0 <= i < entries@.len() && #[trigger] entries@[i].0@ == k by {
                if k == key {
                    assert(entries@[before.len() as int].0@ == k);
                } else {
                    assert(records@.contains_key(k));
                    let i = choose|i: int| 0 <= i < before.len() && #[trigger] before[i].0@ == k;
                    assert(entries@[i].0@ == k);
                }
            }
            assert(entries_hold(entries@, r));
        }
        let updated = Registry { entries, records: Ghost(r) };
        *self = updated;
        Ok(())
    }

    /// The record stored under `id`, or `NotFound`.
    pub fn lookup(&self, id: &str) -> (r: Result<&FileRecord, ValidationError>)
        ensures
            match r {
                Ok(record) => lookup_outcome(self@, id@) == Ok::<RecordView, ValidationError>(
                    record@,
                ),
                Err(e) => lookup_outcome(self@, id@) == Err::<RecordView, ValidationError>(e),
            },
    {
        proof {
            use_type_invariant(self);
        }
        match self.position(id) {
            Some(i) => Ok(&self.entries[i].1),
            None => Err(ValidationError::NotFound),
        }
    }

    /// Accepts the file read from `file_path` with content `buffer`: the
    /// content must be an image or a video of a known type, the path's
    /// extension must fit that type, and no record may yet be stored under
    /// the content's identifier. Then a record of the path, the group's
    /// storage location and the group is stored under the identifier, which
    /// is returned.
    pub fn accept_file(&mut self, file_path: &str, buffer: &[u8]) -> (r: Result<
        String,
        ValidationError,
    >)
        requires
            !overruns_cr2_matcher(buffer@),
        ensures
            (final(self)@, id_result_view(r)) == accept_outcome(old(self)@, file_path@, buffer@),
    {
        let (group, subtype) = match classify_content(buffer) {
            Err(e) => {
                return Err(e);
            },
            Ok(c) => c,
        };
        if !extension_matches(file_path, &subtype) {
            return Err(ValidationError::ExtensionMismatch);
        }
        let id = generate_id(buffer);
        let record = FileRecord {
            source_path: file_path.to_owned(),
            storage_group_path: storage_group_path(group),
            content_group: group,
        };
        match self.insert(id.clone(), record) {
            Ok(()) => Ok(id),
            Err(e) => Err(e),
        }
    }
}

/// A record that was inserted is the one found under its identifier.
pub proof fn lemma_insert_then_lookup(
    m: Map<Seq<char>, RecordView>,
    id: Seq<char>,
    record: RecordView,
)
    requires
        insert_outcome(m, id, record).1 is Ok,
    ensures
        lookup_outcome(insert_outcome(m, id, record).0, id) == Ok::<RecordView, ValidationError>(
            record,
        ),
{
}

/// A second insertion under an identifier fails with `AlreadyExists`,
/// whatever its record, and the first record stays.
pub proof fn lemma_second_insert_fails(
    m: Map<Seq<char>, RecordView>,
    id: Seq<char>,
    first: RecordView,
    second: RecordView,
)
    requires
        insert_outcome(m, id, first).1 is Ok,
    ensures
        ({
            let m1 = insert_outcome(m, id, first).0;
            &&& insert_outcome(m1, id, second) == (m1, Err::<(), ValidationError>(
                ValidationError::AlreadyExists,
            ))
            &&& lookup_outcome(insert_outcome(m1, id, second).0, id) == Ok::<
                RecordView,
                ValidationError,
            >(first)
        }),
{
}

/// An identifier that was never inserted is not found.
pub proof fn lemma_lookup_unknown(m: Map<Seq<char>, RecordView>, id: Seq<char>)
    requires
        !m.contains_key(id),
    ensures
        lookup_outcome(m, id) == Err::<RecordView, ValidationError>(ValidationError::NotFound),
{
}

/// Write-once: no insertion changes the record of a key already present.
pub proof fn lemma_insert_keeps_records(
    m: Map<Seq<char>, RecordView>,
    id: Seq<char>,
    record: RecordView,
    k: Seq<char>,
)
    requires
        m.contains_key(k),
    ensures
        insert_outcome(m, id, record).0.contains_key(k),
        insert_outcome(m, id, record).0[k] == m[k],
{
}

/// Accepting the same content twice under the same path: the second time the
/// same identifier is derived, it is already present, and nothing changes.
pub proof fn lemma_accept_twice(m: Map<Seq<char>, RecordView>, path: Seq<char>, bytes: Seq<u8>)
    requires
        accept_outcome(m, path, bytes).1 is Ok,
    ensures
        ({
            let m1 = accept_outcome(m, path, bytes).0;
            &&& accept_outcome(m, path, bytes).1 == Ok::<Seq<char>, ValidationError>(
                content_id_of(bytes),
            )
            &&& accept_outcome(m1, path, bytes) == (m1, Err::<Seq<char>, ValidationError>(
                ValidationError::AlreadyExists,
            ))
        }),
{
}

} // verus!
