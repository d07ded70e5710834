//! The transaction: one engine transaction, the identity map over it, and
//! the handles through which cached objects are read and changed.

use std::marker::PhantomData;
use vstd::prelude::*;
use crate::cache::{
    cached, holds_at, installed, installed_slot, keys_distinct, lemma_pending_is_owed,
    lemma_slot_is_unique, pending, removed, rows_in_shape, write_for, write_in_shape, written,
    Cache, EntryView, ObjectState, Write, WriteView,
};
use crate::data::{duplicate_row, row_view, ObjectId, Value, ValueView};
use crate::error::{ErrorView, OrmError};
use crate::object::{conforms, Object, Schema, SchemaView};
use crate::storage::{engine_failure, no_ctx, object_ctx, schema_ctx, StorageTransaction};

verus! {

/// How a transaction ends.
#[derive(Clone, Copy, PartialEq, Eq, Structural, Debug)]
pub enum Ending {
    Commit,
    Rollback,
}

/// The writes sent to the stored rows when a transaction ends: what the
/// entries owe on commit, nothing on rollback.
pub open spec fn closing(entries: Seq<EntryView>, ending: Ending) -> Seq<WriteView> {
    match ending {
        Ending::Commit => pending(entries),
        Ending::Rollback => Seq::empty(),
    }
}

/// A `Clean` entry.
pub open spec fn clean_entry(schema: SchemaView, id: ObjectId, row: Seq<ValueView>) -> EntryView {
    EntryView { schema, id, state: ObjectState::Clean, row }
}

/// What a lookup in the identity map finds.
#[derive(Clone, Copy, PartialEq, Eq, Structural, Debug)]
pub enum Resolution {
    /// The object is cached at this slot and may be handed out.
    Hit(usize),
    /// The object is cached, but was deleted within the transaction.
    Shadowed,
    /// The object is not cached.
    Miss,
}

/// What a [`Resolution`] denotes, with the slot as a position in the
/// sequence of entries.
pub enum ResolutionView {
    Hit(int),
    Shadowed,
    Miss,
}

impl View for Resolution {
    type V = ResolutionView;

    open spec fn view(&self) -> ResolutionView {
        match *self {
            Resolution::Hit(slot) => ResolutionView::Hit(slot as int),
            Resolution::Shadowed => ResolutionView::Shadowed,
            Resolution::Miss => ResolutionView::Miss,
        }
    }
}

/// What a lookup of the key `(schema, id)` finds in the entries.
pub open spec fn resolved(entries: Seq<EntryView>, schema: SchemaView, id: ObjectId) -> ResolutionView {
    if cached(entries, schema, id) {
        let slot = choose|slot: int| holds_at(entries, schema, id, slot);
        if entries[slot].state == ObjectState::Removed {
            ResolutionView::Shadowed
        } else {
            ResolutionView::Hit(slot)
        }
    } else {
        ResolutionView::Miss
    }
}

/// How the identity map and the outcome of creating an object of type `T`
/// stand to the map before it: on success the row is installed, `Clean`,
/// under the id that the engine gave; on failure the map is as it was.
pub open spec fn created<T: Object>(
    before: Seq<EntryView>,
    after: Seq<EntryView>,
    row: Seq<ValueView>,
    outcome: Result<Tx<T>, OrmError>,
) -> bool {
    let schema = T::SCHEMA;
    match outcome {
        Ok(handle) => {
            &&& after == installed(before, schema@, handle.id_spec(), row)
            &&& handle.slot() == installed_slot(before, schema@, handle.id_spec())
        },
        Err(e) => {
            &&& after == before
            &&& engine_failure(e@, no_ctx()) || engine_failure(e@, schema_ctx(&schema))
        },
    }
}

/// How the identity map and the outcome of looking an object of type `T`
/// up by its id stand to the map before it. A cached object is handed out as it is, and the map stays as
/// it was. One deleted within the transaction is not handed out. One that
/// is not cached is read and installed, `Clean`, with a row of the
/// schema's shape. On failure the map is as it was.
pub open spec fn got<T: Object>(
    before: Seq<EntryView>,
    after: Seq<EntryView>,
    id: ObjectId,
    outcome: Result<Tx<T>, OrmError>,
) -> bool {
    let schema = T::SCHEMA;
    let not_found = ErrorView::NotFound { object_id: id, ty_name: schema.ty_name@ };
    match resolved(before, schema@, id) {
        ResolutionView::Hit(slot) => {
            &&& after == before
            &&& match outcome {
                Ok(handle) => handle.slot() == slot && handle.id_spec() == id,
                Err(e) => engine_failure(e@, no_ctx()),
            }
        },
        ResolutionView::Shadowed => {
            &&& after == before
            &&& outcome is Err
            &&& outcome->Err_0@ == not_found || engine_failure(outcome->Err_0@, no_ctx())
        },
        ResolutionView::Miss => match outcome {
            Ok(handle) => {
                &&& handle.slot() == before.len()
                &&& handle.id_spec() == id
                &&& exists|row: Seq<ValueView>|
                    conforms(row, schema) && after == before.push(
                        #[trigger] clean_entry(schema@, id, row),
                    )
            },
            Err(e) => {
                &&& after == before
                &&& e@ == not_found || engine_failure(e@, no_ctx()) || engine_failure(
                    e@,
                    object_ctx(&schema, id),
                )
            },
        },
    }
}

/// A transaction over one engine transaction.
pub struct Transaction<'a> {
    inner: &'a rusqlite::Connection,
    cache: Cache,
}

/// A handle on one cached object of a transaction. Handles are cheap to
/// copy; all handles on one object see the same state and the same row.
pub struct Tx<T> {
    id: ObjectId,
    slot: usize,
    _refers_object: PhantomData<T>,
}

impl<'a> Transaction<'a> {
    /// No key occurs twice in the identity map, and every row has the
    /// shape of its schema.
    pub closed spec fn wf(&self) -> bool {
        self.cache.wf()
    }

    /// A well-formed transaction holds no key twice, and every row in it
    /// has the shape of its schema.
    pub proof fn lemma_keys_distinct(&self)
        requires
            self.wf(),
        ensures
            keys_distinct(self.entries()),
            rows_in_shape(self.entries()),
    {
    }

    /// The connection on which the transaction runs its statements.
    pub closed spec fn connection(&self) -> &'a rusqlite::Connection {
        self.inner
    }

    /// What the identity map holds, in the order in which the entries were
    /// made.
    pub closed spec fn entries(&self) -> Seq<EntryView> {
        self.cache.entries()
    }

    /// Opens a transaction that runs on `inner`, with an empty identity
    /// map.
    pub fn new(inner: &'a rusqlite::Connection) -> (tx: Transaction<'a>)
        ensures
            tx.wf(),
            tx.connection() == inner,
            tx.entries() == Seq::<EntryView>::empty(),
    {
        Transaction { inner, cache: Cache::new() }
    }

    /// Looks the key `(schema, id)` up in the identity map.
    pub fn resolve(&self, schema: &Schema, id: ObjectId) -> (found: Resolution)
        requires
            self.wf(),
        ensures
            found@ == resolved(self.entries(), schema@, id),
            found matches Resolution::Hit(slot) ==> holds_at(self.entries(), schema@, id, slot as int)
                && self.entries()[slot as int].state != ObjectState::Removed,
    {
        match self.cache.find(schema, id) {
            Some(slot) => {
                proof {
                    lemma_slot_is_unique(self.entries(), schema@, id, slot as int);
                }
                if self.cache.state(slot) == ObjectState::Removed {
                    Resolution::Shadowed
                } else {
                    Resolution::Hit(slot)
                }
            },
            None => Resolution::Miss,
        }
    }

    /// Acts on the answer of the existence check for the table of
    /// `schema`: a table that exists is left alone, one that does not is
    /// created.
    pub fn settle_table(&self, exists: bool, schema: &Schema) -> (outcome: Result<(), OrmError>)
        ensures
            exists ==> outcome is Ok,
            outcome matches Err(e) ==> engine_failure(e@, no_ctx()),
    {
        if exists {
            Ok(())
        } else {
            self.inner.create_table(schema)
        }
    }

    /// Makes the table of `schema` ready: asks whether it exists and hands
    /// the answer to [`Transaction::settle_table`].
    fn ensure_table(&self, schema: &Schema) -> (outcome: Result<(), OrmError>)
        ensures
            outcome matches Err(e) ==> engine_failure(e@, no_ctx()),
    {
        let exists = self.inner.table_exists(schema.table_name)?;
        self.settle_table(exists, schema)
    }

    /// Stores a new object and hands out a handle on it. The object is
    /// encoded by its type's codec and installed in the identity map under
    /// the id that the engine gave it; the entry is `Clean`, because the
    /// stored row is in sync with it. On failure the identity map is as it
    /// was.
    pub fn create<T: Object>(&mut self, src_obj: T) -> (outcome: Result<Tx<T>, OrmError>)
        requires
            old(self).wf(),
        ensures
            final(self).wf(),
            final(self).connection() == old(self).connection(),
            exists|row: Vec<Value>|
                #[trigger] call_ensures(T::as_row, (&src_obj,), row) && created(
                    old(self).entries(),
                    final(self).entries(),
                    row_view(row@),
                    outcome,
                ),
            outcome matches Ok(handle) ==> handle.refers_to(final(self))
                && final(self).entries()[handle.slot()].state == ObjectState::Clean,
    {
        let row = src_obj.as_row();
        let ghost encoded = row;
        assert(call_ensures(T::as_row, (&src_obj,), encoded));
        self.ensure_table(&T::SCHEMA)?;
        let id = self.inner.insert_row(&T::SCHEMA, row.as_slice())?;
        let slot = self.cache.install(T::SCHEMA, id, row);
        Ok(Tx { id, slot, _refers_object: PhantomData })
    }

    /// Hands out a handle on the object of type `T` with the given id: the
    /// cached one where there is one, else the stored row, read and
    /// installed as a `Clean` entry. An object deleted within the
    /// transaction is `NotFound`. On failure the identity map is as it was.
    pub fn get<T: Object>(&mut self, id: ObjectId) -> (outcome: Result<Tx<T>, OrmError>)
        requires
            old(self).wf(),
        ensures
            final(self).wf(),
            final(self).connection() == old(self).connection(),
            got(old(self).entries(), final(self).entries(), id, outcome),
            outcome matches Ok(handle) ==> handle.refers_to(final(self))
                && final(self).entries()[handle.slot()].state != ObjectState::Removed,
    {
        self.ensure_table(&T::SCHEMA)?;
        match self.resolve(&T::SCHEMA, id) {
            Resolution::Hit(slot) => Ok(Tx { id, slot, _refers_object: PhantomData }),
            Resolution::Shadowed => Err(OrmError::not_found(id, T::SCHEMA.ty_name)),
            Resolution::Miss => {
                let row = self.inner.select_row(id, &T::SCHEMA)?;
                let ghost fetched = row_view(row@);
                let slot = self.cache.install(T::SCHEMA, id, row);
                assert(self.entries() == old(self).entries().push(
                    clean_entry(T::SCHEMA@, id, fetched),
                ));
                Ok(Tx { id, slot, _refers_object: PhantomData })
            },
        }
    }

    /// Whether the handle stands for an entry of this transaction.
    pub fn holds<T: Object>(&self, handle: &Tx<T>) -> (held: bool)
        ensures
            held == handle.refers_to(self),
    {
        handle.slot < self.cache.len() && self.cache.id(handle.slot) == handle.id
            && self.cache.schema(handle.slot).same_as(&T::SCHEMA)
    }

    /// The writes sent to the stored rows when the transaction ends in the
    /// given way: on commit an update for each `Modified` entry and a
    /// delete for each `Removed` one, in the order of the entries; on
    /// rollback none. Every update carries a row of its schema's shape.
    pub fn closing_writes(&self, ending: Ending) -> (writes: Vec<Write>)
        requires
            self.wf(),
        ensures
            writes@.map_values(|w: Write| w@) == closing(self.entries(), ending),
            forall|k: int| 0 <= k < writes.len() ==> write_in_shape(#[trigger] writes[k]@),
    {
        match ending {
            Ending::Commit => self.cache.pending_writes(),
            Ending::Rollback => {
                let writes: Vec<Write> = Vec::new();
                assert(writes@.map_values(|w: Write| w@) =~= Seq::<WriteView>::empty());
                writes
            },
        }
    }

    /// Sends the writes to the engine, in order. The first failure ends the
    /// pass: it is the failure of one of the writes, mapped in the context
    /// of the object that the write is addressed to. Without writes there
    /// is nothing to fail.
    fn try_apply(&self, writes: &Vec<Write>) -> (outcome: Result<(), OrmError>)
        ensures
            writes.len() == 0 ==> outcome is Ok,
            outcome matches Err(e) ==> exists|k: int|
                0 <= k < writes.len() && failure_of(e@, #[trigger] writes[k]),
    {
        let mut i: usize = 0;
        while i < writes.len()
            invariant
                i <= writes.len(),
            decreases writes.len() - i,
        {
            match &writes[i] {
                Write::Update { id, schema, row } => {
                    match self.inner.update_row(*id, schema, row.as_slice()) {
                        Ok(()) => {},
                        Err(e) => {
                            assert(failure_of(e@, writes[i as int]));
                            return Err(e);
                        },
                    }
                },
                Write::Delete { id, schema } => {
                    match self.inner.delete_row(*id, schema) {
                        Ok(()) => {},
                        Err(e) => {
                            assert(failure_of(e@, writes[i as int]));
                            return Err(e);
                        },
                    }
                },
            }
            i += 1;
        }
        Ok(())
    }

    /// Ends the transaction: sends the writes that this ending owes, then
    /// commits or rolls back the engine transaction. A failed write ends
    /// the pass and leaves the engine transaction to be rolled back when it
    /// is dropped. A failure is either that of the closing statement, or,
    /// on commit, that of the write owed to an entry that is not `Clean`,
    /// mapped in the context of that entry's object.
    pub fn finish(self, ending: Ending) -> (outcome: Result<(), OrmError>)
        requires
            self.wf(),
        ensures
            outcome matches Err(e) ==> engine_failure(e@, no_ctx()) || (ending == Ending::Commit
                && owed_write_failed(self.entries(), e@)),
    {
        let writes = self.closing_writes(ending);
        assert(writes.len() == closing(self.entries(), ending).len());
        match self.try_apply(&writes) {
            Ok(()) => {},
            Err(e) => {
                proof {
                    let k = choose|k: int| 0 <= k < writes.len() && failure_of(e@, #[trigger] writes[k]);
                    assert(writes@.map_values(|w: Write| w@)[k] == writes[k]@);
                    lemma_pending_is_owed(self.entries(), k);
                    let slot = choose|slot: int|
                        0 <= slot < self.entries().len() && write_for(
                            #[trigger] self.entries()[slot],
                        ) == Some(pending(self.entries())[k]);
                    match writes[k] {
                        Write::Update { id, schema, row } => {
                            assert(owes_write_to(self.entries(), slot, schema));
                            assert(engine_failure(e@, object_ctx(&schema, self.entries()[slot].id)));
                        },
                        Write::Delete { id, schema } => {
                            assert(owes_write_to(self.entries(), slot, schema));
                            assert(engine_failure(e@, object_ctx(&schema, self.entries()[slot].id)));
                        },
                    }
                }
                return Err(e);
            },
        }
        match ending {
            Ending::Commit => self.inner.commit(),
            Ending::Rollback => self.inner.rollback(),
        }
    }

    /// Flushes every dirty entry, then commits the engine transaction. A
    /// failure is either that of the commit itself, or that of the write
    /// owed to an entry that is not `Clean`, mapped in the context of that
    /// entry's object.
    pub fn commit(self) -> (outcome: Result<(), OrmError>)
        requires
            self.wf(),
        ensures
            outcome matches Err(e) ==> engine_failure(e@, no_ctx()) || owed_write_failed(
                self.entries(),
                e@,
            ),
    {
        self.finish(Ending::Commit)
    }

    /// Rolls the engine transaction back. Nothing is flushed.
    pub fn rollback(self) -> (outcome: Result<(), OrmError>)
        requires
            self.wf(),
        ensures
            outcome matches Err(e) ==> engine_failure(e@, no_ctx()),
    {
        self.finish(Ending::Rollback)
    }
}

/// `error` is what some engine failure maps to in the context of the
/// object that `write` is addressed to.
pub open spec fn failure_of(error: ErrorView, write: Write) -> bool {
    match write {
        Write::Update { id, schema, .. } => engine_failure(error, object_ctx(&schema, id)),
        Write::Delete { id, schema } => engine_failure(error, object_ctx(&schema, id)),
    }
}

/// The entry at `slot` is not `Clean`, and `schema` is its schema.
pub open spec fn owes_write_to(entries: Seq<EntryView>, slot: int, schema: Schema) -> bool {
    &&& 0 <= slot < entries.len()
    &&& entries[slot].state != ObjectState::Clean
    &&& entries[slot].schema == schema@
}

/// `error` is what some engine failure maps to in the context of the
/// object of an entry that is not `Clean`.
pub open spec fn owed_write_failed(entries: Seq<EntryView>, error: ErrorView) -> bool {
    exists|slot: int, schema: Schema| #[trigger]
        owes_write_to(entries, slot, schema) && engine_failure(
            error,
            object_ctx(&schema, entries[slot].id),
        )
}

impl<T: Object> Tx<T> {
    /// The slot of the identity map that the handle stands for.
    pub closed spec fn slot(&self) -> int {
        self.slot as int
    }

    /// The id of the object.
    pub closed spec fn id_spec(&self) -> ObjectId {
        self.id
    }

    /// The handle stands for an entry of this transaction: an object of
    /// its type with its id.
    pub open spec fn refers_to(&self, tx: &Transaction) -> bool {
        holds_at(tx.entries(), T::SCHEMA@, self.id_spec(), self.slot())
    }

    /// The id of the object.
    pub fn id(&self) -> (id: ObjectId)
        ensures
            id == self.id_spec(),
    {
        self.id
    }

    /// The dirty state of the object.
    pub fn state(&self, tx: &Transaction) -> (state: ObjectState)
        requires
            self.refers_to(tx),
        ensures
            state == tx.entries()[self.slot()].state,
    {
        tx.cache.state(self.slot)
    }

    /// The row of the object, for reading.
    pub fn row<'t>(&self, tx: &'t Transaction) -> (row: &'t Vec<Value>)
        requires
            self.refers_to(tx),
            tx.entries()[self.slot()].state != ObjectState::Removed,
        ensures
            row_view(row@) == tx.entries()[self.slot()].row,
    {
        tx.cache.row(self.slot)
    }

    /// The object as it stands in the cache, decoded by its type's codec
    /// from a copy of its row. The state stays as it is.
    pub fn borrow(&self, tx: &Transaction) -> (object: T)
        requires
            tx.wf(),
            self.refers_to(tx),
            tx.entries()[self.slot()].state != ObjectState::Removed,
        ensures
            exists|row: Vec<Value>|
                row_view(row@) == tx.entries()[self.slot()].row && #[trigger] call_ensures(
                    T::from_row,
                    (row,),
                    object,
                ),
    {
        let row = duplicate_row(tx.cache.row(self.slot).as_slice());
        T::from_row(row)
    }

    /// Hands the object out for writing: decoded by its type's codec from a
    /// copy of its row, to be written back with [`Tx::set`]. The object is
    /// `Modified` from then on, whether or not it is written back.
    pub fn borrow_mut(&self, tx: &mut Transaction) -> (object: T)
        requires
            old(tx).wf(),
            self.refers_to(old(tx)),
            old(tx).entries()[self.slot()].state != ObjectState::Removed,
        ensures
            final(tx).wf(),
            final(tx).connection() == old(tx).connection(),
            final(tx).entries() == written(
                old(tx).entries(),
                self.slot(),
                old(tx).entries()[self.slot()].row,
            ),
            exists|row: Vec<Value>|
                row_view(row@) == old(tx).entries()[self.slot()].row && #[trigger] call_ensures(
                    T::from_row,
                    (row,),
                    object,
                ),
    {
        tx.cache.touch(self.slot);
        let row = duplicate_row(tx.cache.row(self.slot).as_slice());
        T::from_row(row)
    }

    /// Writes an object through the handle: the cached row becomes what
    /// the type's codec encodes it as, and the object is `Modified`. What
    /// is written shows through every handle on the object.
    pub fn set(&self, tx: &mut Transaction, object: &T)
        requires
            old(tx).wf(),
            self.refers_to(old(tx)),
            old(tx).entries()[self.slot()].state != ObjectState::Removed,
        ensures
            final(tx).wf(),
            final(tx).connection() == old(tx).connection(),
            exists|row: Vec<Value>|
                #[trigger] call_ensures(T::as_row, (object,), row) && final(tx).entries() == written(
                    old(tx).entries(),
                    self.slot(),
                    row_view(row@),
                ),
    {
        let row = object.as_row();
        let ghost encoded = row;
        assert(call_ensures(T::as_row, (object,), encoded));
        tx.cache.put(self.slot, row);
    }

    /// Marks the object for deletion. The handle is used up; the object is
    /// `Removed` from then on and is no longer handed out.
    pub fn delete(self, tx: &mut Transaction)
        requires
            old(tx).wf(),
            self.refers_to(old(tx)),
        ensures
            final(tx).wf(),
            final(tx).connection() == old(tx).connection(),
            final(tx).entries() == removed(old(tx).entries(), self.slot()),
    {
        tx.cache.remove(self.slot)
    }
}

impl<T: Object> Clone for Tx<T> {
    fn clone(&self) -> (copy: Tx<T>)
        ensures
            copy.slot() == self.slot(),
            copy.id_spec() == self.id_spec(),
    {
        Tx { id: self.id, slot: self.slot, _refers_object: PhantomData }
    }
}

} // verus!
