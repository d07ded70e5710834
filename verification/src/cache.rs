//! The identity map of a transaction: one entry per `(schema, id)`, each
//! with its dirty state and its row.

use std::collections::HashMap;
use vstd::prelude::*;
use crate::data::{duplicate_row, row_view, ObjectId, Value, ValueView};
use crate::object::{Schema, SchemaView};

verus! {

/// Where a cached object stands relative to the stored row.
#[derive(Clone, Copy, PartialEq, Eq, Structural, Debug)]
pub enum ObjectState {
    /// In sync with the stored row as of the last read or insert.
    Clean,
    /// Handed out for writing since then.
    Modified,
    /// Deletion requested, not yet flushed.
    Removed,
}

impl ObjectState {
    /// The place of a state in the order `Clean`, `Modified`, `Removed`.
    pub open spec fn rank(self) -> int {
        match self {
            ObjectState::Clean => 0,
            ObjectState::Modified => 1,
            ObjectState::Removed => 2,
        }
    }
}

/// What one cache entry denotes.
pub struct EntryView {
    pub schema: SchemaView,
    pub id: ObjectId,
    pub state: ObjectState,
    pub row: Seq<ValueView>,
}

/// One cached object: its key, its dirty state and its row.
pub struct CacheEntry {
    schema: Schema,
    id: ObjectId,
    state: ObjectState,
    row: Vec<Value>,
}

impl View for CacheEntry {
    type V = EntryView;

    closed spec fn view(&self) -> EntryView {
        EntryView {
            schema: self.schema@,
            id: self.id,
            state: self.state,
            row: row_view(self.row@),
        }
    }
}

/// The entry at `slot` has the key `(schema, id)`.
pub open spec fn holds_at(entries: Seq<EntryView>, schema: SchemaView, id: ObjectId, slot: int) -> bool {
    &&& 0 <= slot < entries.len()
    &&& entries[slot].schema == schema
    &&& entries[slot].id == id
}

/// Some entry has the key `(schema, id)`.
pub open spec fn cached(entries: Seq<EntryView>, schema: SchemaView, id: ObjectId) -> bool {
    exists|slot: int| holds_at(entries, schema, id, slot)
}

/// No two entries have the same key.
pub open spec fn keys_distinct(entries: Seq<EntryView>) -> bool {
    forall|i: int, j: int|
        0 <= i < j < entries.len() ==> !(#[trigger] entries[i].schema == #[trigger] entries[j].schema
            && entries[i].id == entries[j].id)
}

/// Every row has the shape of its entry's schema: one value per field, each
/// of the field's scalar kind.
pub open spec fn rows_in_shape(entries: Seq<EntryView>) -> bool {
    forall|slot: int|
        0 <= slot < entries.len() ==> (#[trigger] entries[slot]).schema.admits(entries[slot].row)
}

/// In a map without a repeated key, the slot that holds a key is the only
/// one.
pub proof fn lemma_slot_is_unique(
    entries: Seq<EntryView>,
    schema: SchemaView,
    id: ObjectId,
    slot: int,
)
    requires
        keys_distinct(entries),
        holds_at(entries, schema, id, slot),
    ensures
        cached(entries, schema, id),
        (choose|s: int| holds_at(entries, schema, id, s)) == slot,
{
    let chosen = choose|s: int| holds_at(entries, schema, id, s);
    assert(holds_at(entries, schema, id, chosen));
    if chosen < slot {
        assert(entries[chosen].schema == entries[slot].schema);
    }
    if slot < chosen {
        assert(entries[slot].schema == entries[chosen].schema);
    }
}

/// Entries that keep their keys keep them distinct.
pub proof fn lemma_same_keys_stay_distinct(before: Seq<EntryView>, after: Seq<EntryView>)
    requires
        keys_distinct(before),
        after.len() == before.len(),
        forall|slot: int|
            0 <= slot < before.len() ==> (#[trigger] after[slot]).schema == before[slot].schema
                && after[slot].id == before[slot].id,
    ensures
        keys_distinct(after),
{
    assert forall|i: int, j: int| 0 <= i < j < after.len() implies !(#[trigger] after[i].schema
        == #[trigger] after[j].schema && after[i].id == after[j].id) by {
        assert(before[i].schema == after[i].schema);
        assert(before[j].schema == after[j].schema);
    }
}

/// A new entry under a key that is not cached keeps the keys distinct.
pub proof fn lemma_new_key_stays_distinct(before: Seq<EntryView>, fresh: EntryView)
    requires
        keys_distinct(before),
        !cached(before, fresh.schema, fresh.id),
    ensures
        keys_distinct(before.push(fresh)),
{
    let after = before.push(fresh);
    assert forall|i: int, j: int| 0 <= i < j < after.len() implies !(#[trigger] after[i].schema
        == #[trigger] after[j].schema && after[i].id == after[j].id) by {
        if j < before.len() {
            assert(before[i].schema == after[i].schema);
            assert(before[j].schema == after[j].schema);
        } else {
            assert(!holds_at(before, fresh.schema, fresh.id, i));
        }
    }
}

/// The entries after a fresh object with the key `(schema, id)` was
/// installed: a new `Clean` entry at the end, or, where the key was cached
/// already, a `Clean` entry with the new row in its place.
pub open spec fn installed(
    entries: Seq<EntryView>,
    schema: SchemaView,
    id: ObjectId,
    row: Seq<ValueView>,
) -> Seq<EntryView> {
    let fresh = EntryView { schema, id, state: ObjectState::Clean, row };
    if cached(entries, schema, id) {
        entries.update(choose|slot: int| holds_at(entries, schema, id, slot), fresh)
    } else {
        entries.push(fresh)
    }
}

/// The slot of the entry installed by [`installed`].
pub open spec fn installed_slot(entries: Seq<EntryView>, schema: SchemaView, id: ObjectId) -> int {
    if cached(entries, schema, id) {
        choose|slot: int| holds_at(entries, schema, id, slot)
    } else {
        entries.len() as int
    }
}

/// The entries after the object at `slot` was handed out for writing and
/// left with `row`.
pub open spec fn written(entries: Seq<EntryView>, slot: int, row: Seq<ValueView>) -> Seq<EntryView> {
    entries.update(
        slot,
        EntryView {
            schema: entries[slot].schema,
            id: entries[slot].id,
            state: ObjectState::Modified,
            row,
        },
    )
}

/// The entries after the object at `slot` was marked for deletion.
pub open spec fn removed(entries: Seq<EntryView>, slot: int) -> Seq<EntryView> {
    entries.update(
        slot,
        EntryView {
            schema: entries[slot].schema,
            id: entries[slot].id,
            state: ObjectState::Removed,
            row: entries[slot].row,
        },
    )
}

/// The slots listed under an id are slots of entries with that id, and
/// every entry's slot is listed under its id.
pub open spec fn index_fits(index: Map<i64, Vec<usize>>, ids: Seq<i64>) -> bool {
    &&& forall|id: i64, j: int|
        index.contains_key(id) && 0 <= j < index[id]@.len() ==> (#[trigger] index[id]@[j])
            < ids.len() && ids[index[id]@[j] as int] == id
    &&& forall|slot: int|
        0 <= slot < ids.len() ==> index.contains_key(#[trigger] ids[slot]) && exists|j: int|
            0 <= j < index[ids[slot]]@.len() && #[trigger] index[ids[slot]]@[j] == slot
}

/// Listing a new last slot under its id keeps the index fitting.
pub proof fn lemma_index_grows(
    index: Map<i64, Vec<usize>>,
    ids: Seq<i64>,
    id: i64,
    list: Vec<usize>,
)
    requires
        index_fits(index, ids),
        ids.len() <= usize::MAX,
        list@ == (if index.contains_key(id) {
            index[id]@
        } else {
            Seq::empty()
        }).push(ids.len() as usize),
    ensures
        index_fits(index.insert(id, list), ids.push(id)),
{
    let after = index.insert(id, list);
    let grown = ids.push(id);
    let n = ids.len() as int;
    assert forall|k: i64, j: int| after.contains_key(k) && 0 <= j < after[k]@.len() implies (
    #[trigger] after[k]@[j]) < grown.len() && grown[after[k]@[j] as int] == k by {
        if k == id {
            if j < list@.len() - 1 {
                assert(index.contains_key(id));
                assert(list@[j] == index[id]@[j]);
            }
        } else {
            assert(after[k] == index[k]);
            assert(index[k]@[j] < ids.len());
        }
    }
    assert forall|slot: int| 0 <= slot < grown.len() implies after.contains_key(
        #[trigger] grown[slot],
    ) && exists|j: int|
        0 <= j < after[grown[slot]]@.len() && #[trigger] after[grown[slot]]@[j] == slot by {
        if slot < n {
            assert(index.contains_key(ids[slot]));
            let j = choose|j: int|
                0 <= j < index[ids[slot]]@.len() && #[trigger] index[ids[slot]]@[j] == slot;
            if ids[slot] == id {
                assert(list@[j] == index[id]@[j]);
                assert(after[grown[slot]]@[j] == slot);
            } else {
                assert(after[grown[slot]] == index[ids[slot]]);
                assert(after[grown[slot]]@[j] == slot);
            }
        } else {
            assert(after[grown[slot]]@[list@.len() - 1] == slot);
        }
    }
}

/// The identity map: the entries in the order in which they were made, and
/// an index from each id to the slots of the entries with that id.
pub struct Cache {
    entries: Vec<CacheEntry>,
    index: HashMap<i64, Vec<usize>>,
}

impl Cache {
    /// What the cache holds, in the order in which the entries were made.
    pub closed spec fn entries(&self) -> Seq<EntryView> {
        self.entries@.map_values(|e: CacheEntry| e@)
    }

    /// The ids of the entries, slot by slot.
    pub closed spec fn ids(&self) -> Seq<i64> {
        self.entries@.map_values(|e: CacheEntry| e.id.0)
    }

    /// The index lists every entry's slot under its id, and nothing else.
    pub closed spec fn indexed(&self) -> bool {
        index_fits(self.index@, self.ids())
    }

    /// No key occurs twice, every row has the shape of its schema, and the
    /// index fits the entries.
    pub open spec fn wf(&self) -> bool {
        keys_distinct(self.entries()) && rows_in_shape(self.entries()) && self.indexed()
    }

    /// An empty cache.
    pub fn new() -> (cache: Cache)
        ensures
            cache.entries() == Seq::<EntryView>::empty(),
            cache.wf(),
    {
        let cache = Cache { entries: Vec::new(), index: HashMap::new() };
        assert(cache.entries() =~= Seq::<EntryView>::empty());
        cache
    }

    /// The number of entries.
    pub fn len(&self) -> (n: usize)
        ensures
            n == self.entries().len(),
    {
        self.entries.len()
    }

    /// The slot of the entry with the key `(schema, id)`, if there is one:
    /// looked up among the slots that the index lists under the id.
    pub fn find(&self, schema: &Schema, id: ObjectId) -> (found: Option<usize>)
        requires
            self.wf(),
        ensures
            match found {
                Some(slot) => holds_at(self.entries(), schema@, id, slot as int) && forall|other: int|
                    holds_at(self.entries(), schema@, id, other) ==> slot == other,
                None => !cached(self.entries(), schema@, id),
            },
    {
        broadcast use vstd::std_specs::hash::group_hash_axioms;

        let listed = match self.index.get(&id.0) {
            Some(listed) => listed,
            None => {
                assert forall|slot: int| !holds_at(self.entries(), schema@, id, slot) by {
                    if holds_at(self.entries(), schema@, id, slot) {
                        assert(self.ids()[slot] == id.0);
                    }
                }
                return None;
            },
        };
        let mut j: usize = 0;
        while j < listed.len()
            invariant
                j <= listed.len(),
                self.wf(),
                self.index@.contains_key(id.0),
                listed == self.index@[id.0],
                forall|k: int| 0 <= k < j ==> self.entries()[listed[k] as int].schema != schema@,
            decreases listed.len() - j,
        {
            let slot = listed[j];
            assert(self.index@[id.0]@[j as int] < self.ids().len());
            assert(self.ids()[slot as int] == id.0);
            if self.entries[slot].schema.same_as(schema) {
                assert(holds_at(self.entries(), schema@, id, slot as int));
                assert forall|other: int|
                    holds_at(self.entries(), schema@, id, other) implies slot == other by {
                    lemma_slot_is_unique(self.entries(), schema@, id, slot as int);
                    lemma_slot_is_unique(self.entries(), schema@, id, other);
                }
                return Some(slot);
            }
            j += 1;
        }
        assert forall|slot: int| !holds_at(self.entries(), schema@, id, slot) by {
            if holds_at(self.entries(), schema@, id, slot) {
                assert(self.ids()[slot] == id.0);
                let under = self.index@[self.ids()[slot]]@;
                let k = choose|k: int| 0 <= k < under.len() && #[trigger] under[k] == slot;
                assert(self.entries()[listed[k] as int].schema != schema@);
            }
        }
        None
    }

    /// Installs a fresh object under the key `(schema, id)` and yields its
    /// slot. The entry is `Clean`: the stored row is in sync with it.
    pub fn install(&mut self, schema: Schema, id: ObjectId, row: Vec<Value>) -> (slot: usize)
        requires
            old(self).wf(),
            schema@.admits(row_view(row@)),
        ensures
            final(self).wf(),
            final(self).entries() == installed(old(self).entries(), schema@, id, row_view(row@)),
            slot == installed_slot(old(self).entries(), schema@, id),
            holds_at(final(self).entries(), schema@, id, slot as int),
    {
        broadcast use vstd::std_specs::hash::group_hash_axioms;

        let ghost before = self.entries();
        let ghost ids_before = self.ids();
        let fresh = CacheEntry { schema, id, state: ObjectState::Clean, row };
        match self.find(&schema, id) {
            Some(slot) => {
                proof {
                    lemma_slot_is_unique(before, schema@, id, slot as int);
                }
                self.entries[slot] = fresh;
                assert(self.entries() =~= before.update(slot as int, fresh@));
                assert(self.ids() =~= ids_before);
                proof {
                    lemma_same_keys_stay_distinct(before, self.entries());
                }
                slot
            },
            None => {
                let slot = self.entries.len();
                let mut listed = match self.index.get(&id.0) {
                    Some(listed) => listed.clone(),
                    None => Vec::new(),
                };
                listed.push(slot);
                self.entries.push(fresh);
                assert(self.entries() =~= before.push(fresh@));
                assert(self.ids() =~= ids_before.push(id.0));
                proof {
                    lemma_new_key_stays_distinct(before, fresh@);
                    lemma_index_grows(self.index@, ids_before, id.0, listed);
                }
                self.index.insert(id.0, listed);
                slot
            },
        }
    }

    /// The dirty state of the entry at `slot`.
    pub fn state(&self, slot: usize) -> (state: ObjectState)
        requires
            slot < self.entries().len(),
        ensures
            state == self.entries()[slot as int].state,
    {
        self.entries[slot].state
    }

    /// The id of the entry at `slot`.
    pub fn id(&self, slot: usize) -> (id: ObjectId)
        requires
            slot < self.entries().len(),
        ensures
            id == self.entries()[slot as int].id,
    {
        self.entries[slot].id
    }

    /// The schema of the entry at `slot`.
    pub fn schema(&self, slot: usize) -> (schema: &Schema)
        requires
            slot < self.entries().len(),
        ensures
            schema@ == self.entries()[slot as int].schema,
    {
        &self.entries[slot].schema
    }

    /// The row of the entry at `slot`, for reading.
    pub fn row(&self, slot: usize) -> (row: &Vec<Value>)
        requires
            slot < self.entries().len(),
        ensures
            row_view(row@) == self.entries()[slot as int].row,
    {
        &self.entries[slot].row
    }

    /// Marks the entry at `slot` as handed out for writing. The entry is
    /// `Modified` from then on, whether or not its row is written to.
    pub fn touch(&mut self, slot: usize)
        requires
            old(self).wf(),
            slot < old(self).entries().len(),
            old(self).entries()[slot as int].state != ObjectState::Removed,
        ensures
            final(self).entries() == written(
                old(self).entries(),
                slot as int,
                old(self).entries()[slot as int].row,
            ),
            final(self).wf(),
    {
        let ghost before = self.entries();
        let ghost ids_before = self.ids();
        self.entries[slot].state = ObjectState::Modified;
        assert(self.entries() =~= written(before, slot as int, before[slot as int].row));
        assert(self.ids() =~= ids_before);
        proof {
            lemma_same_keys_stay_distinct(before, self.entries());
        }
    }

    /// Writes a row of the schema's shape to the entry at `slot`. The
    /// entry is `Modified` from then on.
    pub fn put(&mut self, slot: usize, row: Vec<Value>)
        requires
            old(self).wf(),
            slot < old(self).entries().len(),
            old(self).entries()[slot as int].state != ObjectState::Removed,
            old(self).entries()[slot as int].schema.admits(row_view(row@)),
        ensures
            final(self).entries() == written(old(self).entries(), slot as int, row_view(row@)),
            final(self).wf(),
    {
        let ghost before = self.entries();
        let ghost ids_before = self.ids();
        self.entries[slot].state = ObjectState::Modified;
        self.entries[slot].row = row;
        assert(self.entries() =~= written(before, slot as int, row_view(row@)));
        assert(self.ids() =~= ids_before);
        proof {
            lemma_same_keys_stay_distinct(before, self.entries());
        }
    }

    /// Marks the entry at `slot` for deletion.
    pub fn remove(&mut self, slot: usize)
        requires
            old(self).wf(),
            slot < old(self).entries().len(),
        ensures
            final(self).entries() == removed(old(self).entries(), slot as int),
            final(self).wf(),
    {
        let ghost before = self.entries();
        let ghost ids_before = self.ids();
        self.entries[slot].state = ObjectState::Removed;
        assert(self.entries() =~= removed(before, slot as int));
        assert(self.ids() =~= ids_before);
        proof {
            lemma_same_keys_stay_distinct(before, self.entries());
        }
    }

    /// The writes that a commit owes the stored rows: in the order of the
    /// entries, an update for each `Modified` one, a delete for each
    /// `Removed` one, nothing for a `Clean` one. Every update carries a row
    /// of its schema's shape.
    pub fn pending_writes(&self) -> (writes: Vec<Write>)
        requires
            self.wf(),
        ensures
            writes@.map_values(|w: Write| w@) == pending(self.entries()),
            forall|k: int| 0 <= k < writes.len() ==> write_in_shape(#[trigger] writes[k]@),
    {
        let mut writes: Vec<Write> = Vec::new();
        let mut i: usize = 0;
        assert(self.entries().take(0) =~= Seq::<EntryView>::empty());
        while i < self.entries.len()
            invariant
                i <= self.entries.len(),
                writes@.map_values(|w: Write| w@) == pending(self.entries().take(i as int)),
            decreases self.entries.len() - i,
        {
            let entry = &self.entries[i];
            let ghost done = writes@.map_values(|w: Write| w@);
            proof {
                let upto = self.entries().take(i + 1);
                assert(upto.drop_last() =~= self.entries().take(i as int));
                assert(upto.last() == entry@);
            }
            match entry.state {
                ObjectState::Clean => {},
                ObjectState::Modified => {
                    let write = Write::Update {
                        id: entry.id,
                        schema: entry.schema,
                        row: duplicate_row(entry.row.as_slice()),
                    };
                    writes.push(write);
                    assert(writes@.map_values(|w: Write| w@) =~= done.push(write@));
                },
                ObjectState::Removed => {
                    let write = Write::Delete { id: entry.id, schema: entry.schema };
                    writes.push(write);
                    assert(writes@.map_values(|w: Write| w@) =~= done.push(write@));
                },
            }
            i += 1;
        }
        assert(self.entries().take(self.entries.len() as int) =~= self.entries());
        assert forall|k: int| 0 <= k < writes.len() implies write_in_shape(
            #[trigger] writes[k]@,
        ) by {
            assert(writes@.map_values(|w: Write| w@)[k] == writes[k]@);
            lemma_pending_is_owed(self.entries(), k);
        }
        writes
    }
}

/// One write that a commit sends to the stored rows.
#[derive(Debug)]
pub enum Write {
    Update { id: ObjectId, schema: Schema, row: Vec<Value> },
    Delete { id: ObjectId, schema: Schema },
}

/// What a [`Write`] denotes.
pub enum WriteView {
    Update { id: ObjectId, schema: SchemaView, row: Seq<ValueView> },
    Delete { id: ObjectId, schema: SchemaView },
}

impl View for Write {
    type V = WriteView;

    open spec fn view(&self) -> WriteView {
        match *self {
            Write::Update { id, schema, row } => WriteView::Update {
                id,
                schema: schema@,
                row: row_view(row@),
            },
            Write::Delete { id, schema } => WriteView::Delete { id, schema: schema@ },
        }
    }
}

/// The write that a commit owes one entry, if any.
pub open spec fn write_for(entry: EntryView) -> Option<WriteView> {
    match entry.state {
        ObjectState::Clean => None,
        ObjectState::Modified => Some(
            WriteView::Update { id: entry.id, schema: entry.schema, row: entry.row },
        ),
        ObjectState::Removed => Some(WriteView::Delete { id: entry.id, schema: entry.schema }),
    }
}

/// The writes that a commit owes the entries, in their order.
pub open spec fn pending(entries: Seq<EntryView>) -> Seq<WriteView>
    decreases entries.len(),
{
    if entries.len() == 0 {
        Seq::empty()
    } else {
        let before = pending(entries.drop_last());
        match write_for(entries.last()) {
            Some(write) => before.push(write),
            None => before,
        }
    }
}

/// An update carries a row of its schema's shape.
pub open spec fn write_in_shape(write: WriteView) -> bool {
    match write {
        WriteView::Update { schema, row, .. } => schema.admits(row),
        WriteView::Delete { .. } => true,
    }
}

/// Every write that is owed is owed to an entry.
pub proof fn lemma_pending_is_owed(entries: Seq<EntryView>, k: int)
    requires
        0 <= k < pending(entries).len(),
    ensures
        exists|slot: int|
            0 <= slot < entries.len() && write_for(#[trigger] entries[slot]) == Some(
                pending(entries)[k],
            ),
    decreases entries.len(),
{
    let rest = entries.drop_last();
    let last = entries.len() - 1;
    if k < pending(rest).len() {
        lemma_pending_is_owed(rest, k);
        let slot = choose|slot: int|
            0 <= slot < rest.len() && write_for(#[trigger] rest[slot]) == Some(pending(rest)[k]);
        assert(entries[slot] == rest[slot]);
        assert(pending(entries)[k] == pending(rest)[k]);
    } else {
        assert(write_for(entries[last]) == Some(pending(entries)[k]));
    }
}

} // verus!
