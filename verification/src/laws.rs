//! What holds of the identity map across calls.

use vstd::prelude::*;
use crate::cache::{
    cached, holds_at, installed, installed_slot, keys_distinct, lemma_new_key_stays_distinct,
    lemma_pending_is_owed, lemma_same_keys_stay_distinct, lemma_slot_is_unique, pending, removed,
    rows_in_shape, write_for, write_in_shape, written, EntryView, ObjectState, WriteView,
};
use crate::data::{ObjectId, ValueView};
use crate::error::OrmError;
use crate::object::{conforms, Object, SchemaView};
use crate::transaction::{
    clean_entry, closing, created, got, resolved, Ending, ResolutionView, Tx,
};

verus! {

/// Every entry of `before` is in `after` at its slot, under its key, in a
/// state that is not earlier in the order `Clean`, `Modified`, `Removed`.
pub open spec fn moved_forward(before: Seq<EntryView>, after: Seq<EntryView>) -> bool {
    &&& before.len() <= after.len()
    &&& forall|slot: int|
        0 <= slot < before.len() ==> {
            &&& (#[trigger] after[slot]).schema == before[slot].schema
            &&& after[slot].id == before[slot].id
            &&& before[slot].state.rank() <= after[slot].state.rank()
        }
}

/// Handing an object out for writing never moves a state backwards: a
/// `Clean` or `Modified` object becomes `Modified`, every other entry stays
/// as it is.
pub proof fn law_write_moves_forward(entries: Seq<EntryView>, slot: int, row: Seq<ValueView>)
    requires
        0 <= slot < entries.len(),
        entries[slot].state != ObjectState::Removed,
    ensures
        moved_forward(entries, written(entries, slot, row)),
        written(entries, slot, row)[slot].state == ObjectState::Modified,
{
}

/// Deleting never moves a state backwards, and `Removed` is final: the
/// object becomes `Removed` from whatever state it was in, every other
/// entry stays as it is.
pub proof fn law_delete_moves_forward(entries: Seq<EntryView>, slot: int)
    requires
        0 <= slot < entries.len(),
    ensures
        moved_forward(entries, removed(entries, slot)),
        removed(entries, slot)[slot].state == ObjectState::Removed,
{
}

/// Installing an object whose key is not cached leaves every entry as it
/// is and adds a `Clean` one.
pub proof fn law_install_moves_forward(
    entries: Seq<EntryView>,
    schema: SchemaView,
    id: ObjectId,
    row: Seq<ValueView>,
)
    requires
        !cached(entries, schema, id),
    ensures
        moved_forward(entries, installed(entries, schema, id, row)),
        installed(entries, schema, id, row).last().state == ObjectState::Clean,
{
}

/// A lookup by id never moves a state backwards, whatever its outcome.
pub proof fn law_get_moves_forward<T: Object>(
    before: Seq<EntryView>,
    after: Seq<EntryView>,
    id: ObjectId,
    outcome: Result<Tx<T>, OrmError>,
)
    requires
        got(before, after, id, outcome),
    ensures
        moved_forward(before, after),
{
}

/// After an object was deleted, a lookup of its key finds it shadowed: the
/// object is not handed out again within the transaction.
pub proof fn law_removed_is_shadowed(entries: Seq<EntryView>, slot: int)
    requires
        keys_distinct(entries),
        0 <= slot < entries.len(),
    ensures
        resolved(removed(entries, slot), entries[slot].schema, entries[slot].id)
            == ResolutionView::Shadowed,
        keys_distinct(removed(entries, slot)),
{
    let after = removed(entries, slot);
    lemma_same_keys_stay_distinct(entries, after);
    assert(holds_at(after, entries[slot].schema, entries[slot].id, slot));
    lemma_slot_is_unique(after, entries[slot].schema, entries[slot].id, slot);
}

/// A lookup of an object deleted within the transaction fails, and leaves
/// the identity map as it was.
pub proof fn law_get_after_delete_fails<T: Object>(
    entries: Seq<EntryView>,
    slot: int,
    after: Seq<EntryView>,
    outcome: Result<Tx<T>, OrmError>,
)
    requires
        keys_distinct(entries),
        0 <= slot < entries.len(),
        entries[slot].schema == T::SCHEMA@,
        got(removed(entries, slot), after, entries[slot].id, outcome),
    ensures
        outcome is Err,
        after == removed(entries, slot),
{
    law_removed_is_shadowed(entries, slot);
}

/// On commit, every update carries a row of its schema's shape: one value
/// per field, each of the field's scalar kind.
pub proof fn law_updates_in_shape(entries: Seq<EntryView>, k: int)
    requires
        rows_in_shape(entries),
        0 <= k < pending(entries).len(),
    ensures
        write_in_shape(closing(entries, Ending::Commit)[k]),
{
    lemma_pending_is_owed(entries, k);
}

/// A rollback sends no write to the stored rows, whatever the entries'
/// states.
pub proof fn law_rollback_writes_nothing(entries: Seq<EntryView>)
    ensures
        closing(entries, Ending::Rollback) == Seq::<WriteView>::empty(),
{
}

/// A lookup by id keeps the identity map free of repeated keys, and on
/// success the handle's slot holds the key and is not `Removed`.
pub proof fn lemma_got_holds<T: Object>(
    before: Seq<EntryView>,
    after: Seq<EntryView>,
    id: ObjectId,
    handle: Tx<T>,
)
    requires
        keys_distinct(before),
        got(before, after, id, Ok::<Tx<T>, OrmError>(handle)),
    ensures
        keys_distinct(after),
        holds_at(after, T::SCHEMA@, id, handle.slot()),
        after[handle.slot()].state != ObjectState::Removed,
        handle.id_spec() == id,
{
    let schema = T::SCHEMA;
    match resolved(before, schema@, id) {
        ResolutionView::Hit(slot) => {
            let chosen = choose|s: int| holds_at(before, schema@, id, s);
            assert(holds_at(before, schema@, id, chosen));
        },
        ResolutionView::Shadowed => {},
        ResolutionView::Miss => {
            let row = choose|row: Seq<ValueView>|
                conforms(row, schema) && after == before.push(
                    #[trigger] clean_entry(schema@, id, row),
                );
            lemma_new_key_stays_distinct(before, clean_entry(schema@, id, row));
        },
    }
}

/// Two lookups of the same key within a transaction hand out handles with
/// the same id on the same slot, and the second leaves the identity map as
/// the first left it: whatever is written through one handle shows
/// through the other.
pub proof fn law_get_is_unique<T: Object>(
    start: Seq<EntryView>,
    between: Seq<EntryView>,
    end: Seq<EntryView>,
    id: ObjectId,
    first: Tx<T>,
    second: Tx<T>,
)
    requires
        keys_distinct(start),
        got(start, between, id, Ok::<Tx<T>, OrmError>(first)),
        got(between, end, id, Ok::<Tx<T>, OrmError>(second)),
    ensures
        first.id_spec() == second.id_spec(),
        first.slot() == second.slot(),
        end == between,
{
    lemma_got_holds(start, between, id, first);
    lemma_slot_is_unique(between, T::SCHEMA@, id, first.slot());
}

/// An installed object is cached at the slot that was handed out, `Clean`,
/// and the map stays free of repeated keys.
pub proof fn lemma_installed_holds(
    entries: Seq<EntryView>,
    schema: SchemaView,
    id: ObjectId,
    row: Seq<ValueView>,
)
    requires
        keys_distinct(entries),
    ensures
        keys_distinct(installed(entries, schema, id, row)),
        holds_at(
            installed(entries, schema, id, row),
            schema,
            id,
            installed_slot(entries, schema, id),
        ),
        installed(entries, schema, id, row)[installed_slot(entries, schema, id)].state
            == ObjectState::Clean,
        installed(entries, schema, id, row)[installed_slot(entries, schema, id)].row == row,
{
    let after = installed(entries, schema, id, row);
    if cached(entries, schema, id) {
        let slot = choose|s: int| holds_at(entries, schema, id, s);
        assert(holds_at(entries, schema, id, slot));
        lemma_same_keys_stay_distinct(entries, after);
    } else {
        lemma_new_key_stays_distinct(
            entries,
            EntryView { schema, id, state: ObjectState::Clean, row },
        );
    }
}

/// After a creation handed out a handle, a lookup of the handle's id hands
/// out a handle on the same slot and leaves the identity map as it was;
/// the object is `Clean` and holds the row that was created.
pub proof fn law_create_get_parity<T: Object>(
    start: Seq<EntryView>,
    between: Seq<EntryView>,
    end: Seq<EntryView>,
    row: Seq<ValueView>,
    made: Tx<T>,
    found: Tx<T>,
)
    requires
        keys_distinct(start),
        created(start, between, row, Ok::<Tx<T>, OrmError>(made)),
        got(between, end, made.id_spec(), Ok::<Tx<T>, OrmError>(found)),
    ensures
        found.slot() == made.slot(),
        found.id_spec() == made.id_spec(),
        end == between,
        end[made.slot()].state == ObjectState::Clean,
        end[made.slot()].row == row,
{
    lemma_installed_holds(start, T::SCHEMA@, made.id_spec(), row);
    lemma_slot_is_unique(between, T::SCHEMA@, made.id_spec(), made.slot());
}

/// The key that a write is addressed to.
pub open spec fn addressed_to(write: WriteView, schema: SchemaView, id: ObjectId) -> bool {
    match write {
        WriteView::Update { id: to, schema: of, .. } => to == id && of == schema,
        WriteView::Delete { id: to, schema: of } => to == id && of == schema,
    }
}

/// How many of the writes are addressed to the key `(schema, id)`.
pub open spec fn writes_to(writes: Seq<WriteView>, schema: SchemaView, id: ObjectId) -> nat
    decreases writes.len(),
{
    if writes.len() == 0 {
        0
    } else {
        writes_to(writes.drop_last(), schema, id) + if addressed_to(writes.last(), schema, id) {
            1nat
        } else {
            0nat
        }
    }
}

/// Entries that do not hold a key owe it no write.
proof fn lemma_no_entry_no_write(entries: Seq<EntryView>, schema: SchemaView, id: ObjectId)
    requires
        !cached(entries, schema, id),
    ensures
        writes_to(pending(entries), schema, id) == 0,
    decreases entries.len(),
{
    if entries.len() > 0 {
        let rest = entries.drop_last();
        assert(!cached(rest, schema, id)) by {
            if cached(rest, schema, id) {
                let s = choose|s: int| holds_at(rest, schema, id, s);
                assert(holds_at(entries, schema, id, s));
            }
        }
        lemma_no_entry_no_write(rest, schema, id);
        assert(!holds_at(entries, schema, id, entries.len() - 1));
        match write_for(entries.last()) {
            Some(write) => {
                assert(pending(entries).drop_last() =~= pending(rest));
            },
            None => {},
        }
    }
}

/// On commit, every entry gets the write that its state owes, and no
/// other: exactly one update, with its current row, where it is
/// `Modified`; exactly one delete where it is `Removed`; none where it is
/// `Clean`.
pub proof fn law_flush_fidelity(entries: Seq<EntryView>, slot: int)
    requires
        keys_distinct(entries),
        0 <= slot < entries.len(),
    ensures
        closing(entries, Ending::Commit) == pending(entries),
        writes_to(pending(entries), entries[slot].schema, entries[slot].id) == (if entries[slot].state
            == ObjectState::Clean {
            0nat
        } else {
            1nat
        }),
        entries[slot].state == ObjectState::Modified ==> pending(entries).contains(
            WriteView::Update {
                id: entries[slot].id,
                schema: entries[slot].schema,
                row: entries[slot].row,
            },
        ),
        entries[slot].state == ObjectState::Removed ==> pending(entries).contains(
            WriteView::Delete { id: entries[slot].id, schema: entries[slot].schema },
        ),
    decreases entries.len(),
{
    let schema = entries[slot].schema;
    let id = entries[slot].id;
    let rest = entries.drop_last();
    let last = entries.len() - 1;
    assert(keys_distinct(rest)) by {
        assert forall|i: int, j: int| 0 <= i < j < rest.len() implies !(#[trigger] rest[i].schema
            == #[trigger] rest[j].schema && rest[i].id == rest[j].id) by {
            assert(entries[i].schema == rest[i].schema);
            assert(entries[j].schema == rest[j].schema);
        }
    }
    if slot == last {
        assert(!cached(rest, schema, id)) by {
            if cached(rest, schema, id) {
                let s = choose|s: int| holds_at(rest, schema, id, s);
                assert(entries[s].schema == entries[last].schema);
            }
        }
        lemma_no_entry_no_write(rest, schema, id);
        match write_for(entries.last()) {
            Some(write) => {
                assert(pending(entries).drop_last() =~= pending(rest));
                assert(pending(entries).last() == write);
                assert(pending(entries)[pending(entries).len() - 1] == write);
            },
            None => {},
        }
    } else {
        law_flush_fidelity(rest, slot);
        assert(rest[slot] == entries[slot]);
        assert(!(entries[last].schema == schema && entries[last].id == id)) by {
            if entries[last].schema == schema && entries[last].id == id {
                assert(entries[slot].schema == entries[last].schema);
            }
        }
        match write_for(entries.last()) {
            Some(write) => {
                assert(pending(entries).drop_last() =~= pending(rest));
                assert forall|k: int| 0 <= k < pending(rest).len() implies pending(entries)[k]
                    == pending(rest)[k] by {}
                if entries[slot].state == ObjectState::Modified {
                    let w = WriteView::Update { id, schema, row: entries[slot].row };
                    let k = choose|k: int| 0 <= k < pending(rest).len() && pending(rest)[k] == w;
                    assert(pending(entries)[k] == w);
                }
                if entries[slot].state == ObjectState::Removed {
                    let w = WriteView::Delete { id, schema };
                    let k = choose|k: int| 0 <= k < pending(rest).len() && pending(rest)[k] == w;
                    assert(pending(entries)[k] == w);
                }
            },
            None => {},
        }
    }
}

} // verus!
