//! What a session keeps for its extensions: one JSON record for each extension
//! and version of its format.

use vstd::prelude::*;
use vstd::string::*;

use crate::json::{Json, JsonView};
use crate::text::same;

verus! {

/// The record of one extension.
#[derive(Debug, PartialEq, Eq)]
pub struct Record {
    pub extension: String,
    pub version: String,
    pub state: Json,
}

/// What a record holds.
pub struct RecordView {
    pub extension: Seq<char>,
    pub version: Seq<char>,
    pub state: JsonView,
}

impl View for Record {
    type V = RecordView;

    open spec fn view(&self) -> RecordView {
        RecordView {
            extension: self.extension@,
            version: self.version@,
            state: self.state@,
        }
    }
}

impl Clone for Record {
    fn clone(&self) -> (r: Self)
        ensures
            r@ == self@,
    {
        Record {
            extension: self.extension.clone(),
            version: self.version.clone(),
            state: self.state.clone(),
        }
    }
}

/// The name of an extension and the version of its record.
pub type Key = (Seq<char>, Seq<char>);

pub open spec fn key_of(record: RecordView) -> Key {
    (record.extension, record.version)
}

/// The state in the first record under `key`.
pub open spec fn lookup(records: Seq<RecordView>, key: Key) -> Option<JsonView>
    decreases records.len(),
{
    if records.len() == 0 {
        None
    } else if key_of(records[0]) == key {
        Some(records[0].state)
    } else {
        lookup(records.drop_first(), key)
    }
}

/// What a list of records holds under each key.
pub open spec fn recorded(records: Seq<RecordView>) -> Map<Key, JsonView> {
    Map::new(
        |key: Key| lookup(records, key) is Some,
        |key: Key| lookup(records, key)->0,
    )
}

/// The records after one is set: in the place of the one under its key, or at the
/// end where there is none.
pub open spec fn placed(records: Seq<RecordView>, record: RecordView) -> Seq<RecordView>
    decreases records.len(),
{
    if records.len() == 0 {
        seq![record]
    } else if key_of(records[0]) == key_of(record) {
        records.update(0, record)
    } else {
        seq![records[0]] + placed(records.drop_first(), record)
    }
}

proof fn lemma_placed_over(records: Seq<RecordView>, i: int, record: RecordView)
    requires
        0 <= i < records.len(),
        key_of(records[i]) == key_of(record),
        forall|j: int| 0 <= j < i ==> key_of(#[trigger] records[j]) != key_of(record),
    ensures
        placed(records, record) == records.update(i, record),
    decreases records.len(),
{
    if i > 0 {
        assert(key_of(records[0]) != key_of(record));
        let rest = records.drop_first();
        assert forall|j: int| 0 <= j < i - 1 implies key_of(#[trigger] rest[j]) != key_of(
            record,
        ) by {
            assert(rest[j] == records[j + 1]);
        }
        lemma_placed_over(rest, i - 1, record);
        assert(seq![records[0]] + rest.update(i - 1, record) =~= records.update(i, record));
    }
}

proof fn lemma_placed_last(records: Seq<RecordView>, record: RecordView)
    requires
        forall|j: int| 0 <= j < records.len() ==> key_of(#[trigger] records[j]) != key_of(record),
    ensures
        placed(records, record) == records.push(record),
    decreases records.len(),
{
    if records.len() > 0 {
        assert(key_of(records[0]) != key_of(record));
        let rest = records.drop_first();
        assert forall|j: int| 0 <= j < rest.len() implies key_of(#[trigger] rest[j]) != key_of(
            record,
        ) by {
            assert(rest[j] == records[j + 1]);
        }
        lemma_placed_last(rest, record);
        assert(seq![records[0]] + rest.push(record) =~= records.push(record));
    } else {
        assert(records.push(record) =~= seq![record]);
    }
}

/// The records of a session's extensions.
#[derive(Debug, PartialEq, Eq)]
pub struct ExtensionData {
    records: Vec<Record>,
}

impl View for ExtensionData {
    type V = Map<Key, JsonView>;

    closed spec fn view(&self) -> Map<Key, JsonView> {
        recorded(self.record_views())
    }
}

proof fn lemma_lookup_update(records: Seq<RecordView>, i: int, record: RecordView, key: Key)
    requires
        0 <= i < records.len(),
        key_of(records[i]) == key_of(record),
        forall|j: int| 0 <= j < i ==> key_of(#[trigger] records[j]) != key_of(record),
    ensures
        lookup(records.update(i, record), key) == if key == key_of(record) {
            Some(record.state)
        } else {
            lookup(records, key)
        },
    decreases records.len(),
{
    let updated = records.update(i, record);
    if i == 0 {
        assert(updated.drop_first() =~= records.drop_first());
    } else {
        assert(key_of(records[0]) != key_of(record));
        assert(updated[0] == records[0]);
        let rest = records.drop_first();
        assert forall|j: int| 0 <= j < i - 1 implies key_of(#[trigger] rest[j]) != key_of(
            record,
        ) by {
            assert(rest[j] == records[j + 1]);
        }
        assert(updated.drop_first() =~= rest.update(i - 1, record));
        lemma_lookup_update(rest, i - 1, record, key);
    }
}

proof fn lemma_lookup_push(records: Seq<RecordView>, record: RecordView, key: Key)
    requires
        forall|j: int| 0 <= j < records.len() ==> key_of(#[trigger] records[j]) != key_of(record),
    ensures
        lookup(records.push(record), key) == if key == key_of(record) {
            Some(record.state)
        } else {
            lookup(records, key)
        },
    decreases records.len(),
{
    let pushed = records.push(record);
    if records.len() == 0 {
        assert(pushed.drop_first() =~= records);
    } else {
        assert(key_of(records[0]) != key_of(record));
        assert(pushed[0] == records[0]);
        let rest = records.drop_first();
        assert forall|j: int| 0 <= j < rest.len() implies key_of(#[trigger] rest[j]) != key_of(
            record,
        ) by {
            assert(rest[j] == records[j + 1]);
        }
        assert(pushed.drop_first() =~= rest.push(record));
        lemma_lookup_push(rest, record, key);
    }
}

impl ExtensionData {
    /// The records, in the order in which they were first set.
    pub closed spec fn record_views(&self) -> Seq<RecordView> {
        self.records@.map_values(|r: Record| r@)
    }

    pub fn new() -> (r: Self)
        ensures
            r@ == Map::<Key, JsonView>::empty(),
            r.record_views() == Seq::<RecordView>::empty(),
    {
        let r = ExtensionData { records: Vec::new() };
        assert(r.record_views() =~= Seq::empty());
        assert(r@ =~= Map::empty());
        r
    }

    /// The record of `extension` in `version`.
    pub fn get_extension_state(&self, extension: &str, version: &str) -> (r: Option<&Json>)
        ensures
            self@.contains_key((extension@, version@)) == (r is Some),
            r is Some ==> r->0@ == self@[(extension@, version@)],
    {
        let ghost all = self.record_views();
        let ghost key = (extension@, version@);
        let mut i: usize = 0;
        assert(all.skip(0) =~= all);
        while i < self.records.len()
            invariant
                i <= self.records@.len(),
                all == self.record_views(),
                key == (extension@, version@),
                lookup(all, key) == lookup(all.skip(i as int), key),
            decreases self.records@.len() - i,
        {
            assert(all.skip(i as int)[0] == self.records@[i as int]@);
            assert(all.skip(i as int).drop_first() =~= all.skip(i + 1));
            if same(self.records[i].extension.as_str(), extension) && same(
                self.records[i].version.as_str(),
                version,
            ) {
                return Some(&self.records[i].state);
            }
            i += 1;
        }
        None
    }

    /// Replaces the record of `extension` in `version`, leaving all others alone.
    pub fn set_extension_state(&mut self, extension: &str, version: &str, state: Json)
        ensures
            final(self)@ == old(self)@.insert((extension@, version@), state@),
            final(self).record_views() == placed(
                old(self).record_views(),
                RecordView { extension: extension@, version: version@, state: state@ },
            ),
    {
        let ghost all = self.record_views();
        let ghost record = RecordView { extension: extension@, version: version@, state: state@ };
        let mut i: usize = 0;
        while i < self.records.len() && !(same(self.records[i].extension.as_str(), extension)
            && same(self.records[i].version.as_str(), version))
            invariant
                i <= self.records@.len(),
                self.records == old(self).records,
                all == self.record_views(),
                record.extension == extension@,
                record.version == version@,
                forall|j: int| 0 <= j < i ==> key_of(#[trigger] all[j]) != key_of(record),
            decreases self.records@.len() - i,
        {
            assert(all[i as int] == self.records@[i as int]@);
            i += 1;
        }
        let replacement = Record {
            extension: extension.to_owned(),
            version: version.to_owned(),
            state,
        };
        assert(replacement@ == record);
        if i < self.records.len() {
            assert(all[i as int] == self.records@[i as int]@);
            self.records.set(i, replacement);
            proof {
                assert(self.record_views() =~= all.update(i as int, record));
                lemma_placed_over(all, i as int, record);
                assert forall|key: Key| true implies #[trigger] lookup(self.record_views(), key)
                    == if key == key_of(record) {
                    Some(record.state)
                } else {
                    lookup(all, key)
                } by {
                    lemma_lookup_update(all, i as int, record, key);
                }
            }
        } else {
            self.records.push(replacement);
            proof {
                assert(self.record_views() =~= all.push(record));
                lemma_placed_last(all, record);
                assert forall|key: Key| true implies #[trigger] lookup(self.record_views(), key)
                    == if key == key_of(record) {
                    Some(record.state)
                } else {
                    lookup(all, key)
                } by {
                    lemma_lookup_push(all, record, key);
                }
            }
        }
        assert(self@ =~= old(self)@.insert((extension@, version@), state@));
    }

    /// The records, in the order in which they were first set.
    pub fn records(&self) -> (r: &Vec<Record>)
        ensures
            r@.map_values(|r: Record| r@) == self.record_views(),
            self@ == recorded(self.record_views()),
    {
        &self.records
    }
}

impl Clone for ExtensionData {
    fn clone(&self) -> (r: Self)
        ensures
            r@ == self@,
            r.record_views() == self.record_views(),
    {
        let mut records: Vec<Record> = Vec::new();
        let mut i: usize = 0;
        while i < self.records.len()
            invariant
                i <= self.records@.len(),
                records@.len() == i,
                forall|j: int| 0 <= j < i ==> (#[trigger] records@[j])@ == self.records@[j]@,
            decreases self.records@.len() - i,
        {
            records.push(self.records[i].clone());
            i += 1;
        }
        let r = ExtensionData { records };
        assert(r.record_views() =~= self.record_views());
        r
    }
}

/// What is held under a key is the state of the first record under it.
pub proof fn the_first_record_counts(records: Seq<RecordView>, i: int)
    requires
        0 <= i < records.len(),
        forall|j: int| 0 <= j < i ==> key_of(#[trigger] records[j]) != key_of(records[i]),
    ensures
        recorded(records).contains_key((records[i].extension, records[i].version)),
        recorded(records)[(records[i].extension, records[i].version)] == records[i].state,
{
    lemma_first_record(records, i, (records[i].extension, records[i].version));
}

proof fn lemma_first_record(records: Seq<RecordView>, i: int, key: Key)
    requires
        0 <= i < records.len(),
        (records[i].extension, records[i].version) == key,
        forall|j: int| 0 <= j < i ==> key_of(#[trigger] records[j]) != key,
    ensures
        lookup(records, key) == Some(records[i].state),
    decreases i,
{
    if i > 0 {
        assert(key_of(records[0]) != key);
        let rest = records.drop_first();
        assert forall|j: int| 0 <= j < i - 1 implies key_of(#[trigger] rest[j]) != key by {
            assert(rest[j] == records[j + 1]);
        }
        lemma_first_record(rest, i - 1, key);
    }
}

/// Nothing is held under a key that no record has.
pub proof fn no_record_no_state(records: Seq<RecordView>, key: Key)
    requires
        forall|j: int| 0 <= j < records.len() ==> key_of(#[trigger] records[j]) != key,
    ensures
        !recorded(records).contains_key(key),
    decreases records.len(),
{
    if records.len() > 0 {
        assert(key_of(records[0]) != key);
        let rest = records.drop_first();
        assert forall|j: int| 0 <= j < rest.len() implies key_of(#[trigger] rest[j]) != key by {
            assert(rest[j] == records[j + 1]);
        }
        no_record_no_state(rest, key);
        assert(!recorded(rest).contains_key(key));
    }
}

/// Setting a record leaves all others as they are and where they are, and adds
/// one, at the end, only where there was none under its key.
pub proof fn the_other_records_stay(records: Seq<RecordView>, record: RecordView, j: int)
    requires
        0 <= j < records.len(),
    ensures
        records.len() <= placed(records, record).len() <= records.len() + 1,
        key_of(records[j]) != key_of(record) ==> placed(records, record)[j] == records[j],
        key_of(records[j]) == key_of(record) ==> placed(records, record).len() == records.len(),
        placed(records, record).len() > records.len() ==> placed(records, record).last() == record,
        placed(records, record).contains(record),
    decreases records.len(),
{
    let first = key_of(records[0]) == key_of(record);
    if first {
        assert(placed(records, record)[0] == record);
    } else {
        let rest = records.drop_first();
        let after = placed(rest, record);
        let now = placed(records, record);
        assert(now == seq![records[0]] + after);
        if rest.len() > 0 {
            let k = if j > 0 {
                j - 1
            } else {
                0
            };
            the_other_records_stay(rest, record, k);
            if j > 0 {
                assert(rest[k] == records[j]);
                assert(now[j] == after[k]);
            }
            let p = after.index_of(record);
            assert(now[p + 1] == record);
        } else {
            assert(after == seq![record]);
            assert(now[1] == record);
        }
    }
}

} // verus!
