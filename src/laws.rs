use vstd::prelude::*;
use crate::catalog::{
    LevelModel, has_level, label_of, labelled, labels_unique, seeded,
    lemma_default_labels_distinct,
};
use crate::error::ErrorKind;
use crate::store::{RowModel, StoreModel, ViewModel, ascending, views_ascending};

verus! {

/// A write that a client can ask of the items table.
pub enum ItemOp {
    Create { name: Seq<char>, description: Seq<char>, priority_id: int },
    Delete { id: int },
}

/// The store after `op`, and whether `op` succeeded.
pub open spec fn apply(m: StoreModel, op: ItemOp) -> (StoreModel, bool) {
    match op {
        ItemOp::Create { name, description, priority_id } => {
            let (after, r) = m.create(name, description, priority_id);
            (after, r is Ok)
        },
        ItemOp::Delete { id } => {
            let (after, r) = m.delete(id);
            (after, r is Ok)
        },
    }
}

/// The store after the writes `ops`, in order.
pub open spec fn run(m: StoreModel, ops: Seq<ItemOp>) -> StoreModel
    decreases ops.len(),
{
    if ops.len() == 0 {
        m
    } else {
        run(apply(m, ops[0]).0, ops.drop_first())
    }
}

/// How many of the writes `ops` were creations that succeeded.
pub open spec fn created(m: StoreModel, ops: Seq<ItemOp>) -> nat
    decreases ops.len(),
{
    if ops.len() == 0 {
        0
    } else {
        let (after, ok) = apply(m, ops[0]);
        (if ok && ops[0] is Create { 1nat } else { 0nat }) + created(after, ops.drop_first())
    }
}

/// How many of the writes `ops` were deletions that succeeded.
pub open spec fn deleted(m: StoreModel, ops: Seq<ItemOp>) -> nat
    decreases ops.len(),
{
    if ops.len() == 0 {
        0
    } else {
        let (after, ok) = apply(m, ops[0]);
        (if ok && ops[0] is Delete { 1nat } else { 0nat }) + deleted(after, ops.drop_first())
    }
}

proof fn lemma_label_of_labelled(levels: Seq<LevelModel>, id: int)
    requires
        has_level(levels, id),
    ensures
        labelled(levels, id, label_of(levels, id)),
{
    let c = choose|i: int| 0 <= i < levels.len() && #[trigger] levels[i].id == id;
    assert(levels[c].id == id);
}

proof fn lemma_unique_index(m: StoreModel, k: int)
    requires
        m.wf(),
        0 <= k < m.rows.len(),
    ensures
        m.has_item(m.rows[k].id),
        m.index_of(m.rows[k].id) == k,
{
    let id = m.rows[k].id;
    assert(m.rows[k].id == id);
    let c = m.index_of(id);
    assert(ascending(m.rows));
}

proof fn lemma_create_wf(m: StoreModel, name: Seq<char>, description: Seq<char>, priority_id: int)
    requires
        m.wf(),
    ensures
        m.create(name, description, priority_id).0.wf(),
        m.create(name, description, priority_id).1 is Ok ==> m.create(
            name,
            description,
            priority_id,
        ).0.rows.len() == m.rows.len() + 1,
        m.create(name, description, priority_id).1 is Err ==> m.create(
            name,
            description,
            priority_id,
        ).0 == m,
{
    let (after, r) = m.create(name, description, priority_id);
    if r is Ok {
        let row = RowModel { id: m.next_id, name, description, priority_id };
        assert(after.rows == m.rows.push(row));
        assert forall|i: int| #![trigger after.rows[i]] 0 <= i < after.rows.len() implies 1
            <= after.rows[i].id < after.next_id && has_level(
            after.levels,
            after.rows[i].priority_id,
        ) by {
            if i < m.rows.len() {
                assert(after.rows[i] == m.rows[i]);
            }
        }
        assert forall|i: int, j: int| 0 <= i < j < after.rows.len() implies after.rows[i].id
            < after.rows[j].id by {
            assert(after.rows[i] == m.rows[i]);
            if j < m.rows.len() {
                assert(after.rows[j] == m.rows[j]);
            }
        }
    }
}

proof fn lemma_delete_wf(m: StoreModel, id: int)
    requires
        m.wf(),
    ensures
        m.delete(id).0.wf(),
        m.delete(id).1 is Ok <==> m.has_item(id),
        m.delete(id).1 is Ok ==> m.delete(id).0.rows.len() == m.rows.len() - 1,
        m.delete(id).1 is Ok ==> !m.delete(id).0.has_item(id),
        m.delete(id).1 is Err ==> m.delete(id).0 == m,
{
    let (after, r) = m.delete(id);
    if m.has_item(id) {
        let k = m.index_of(id);
        assert(after.rows == m.rows.remove(k));
        assert forall|a: int| 0 <= a < after.rows.len() implies #[trigger] after.rows[a]
            == m.rows[if a < k { a } else { a + 1 }] by {}
        assert forall|a: int, b: int| 0 <= a < b < after.rows.len() implies after.rows[a].id
            < after.rows[b].id by {
            let oa = if a < k { a } else { a + 1 };
            let ob = if b < k { b } else { b + 1 };
            assert(after.rows[a] == m.rows[oa]);
            assert(after.rows[b] == m.rows[ob]);
        }
        assert forall|i: int| #![trigger after.rows[i]] 0 <= i < after.rows.len() implies 1
            <= after.rows[i].id < after.next_id && has_level(
            after.levels,
            after.rows[i].priority_id,
        ) by {
            let o = if i < k { i } else { i + 1 };
            assert(after.rows[i] == m.rows[o]);
        }
        if after.has_item(id) {
            let a = choose|a: int| 0 <= a < after.rows.len() && #[trigger] after.rows[a].id == id;
            let o = if a < k { a } else { a + 1 };
            assert(after.rows[a] == m.rows[o]);
            assert(m.rows[k].id == id);
            assert(ascending(m.rows));
        }
    }
}

/// Every item that a creation hands back carries the priority reference it was
/// created with, and the label of the level with that identifier in the store
/// as it stands after the write.
pub proof fn law_created_label_matches(
    m: StoreModel,
    name: Seq<char>,
    description: Seq<char>,
    priority_id: int,
)
    requires
        m.wf(),
    ensures
        m.create(name, description, priority_id).1 matches Ok(v) ==> v.priority_id == priority_id
            && labelled(m.create(name, description, priority_id).0.levels, v.priority_id, v.priority_label),
{
    if has_level(m.levels, priority_id) {
        lemma_label_of_labelled(m.levels, priority_id);
    }
}

/// Every item that a listing shows carries the label of the level whose
/// identifier matches its priority reference, at the time of the listing.
pub proof fn law_listed_labels_match(m: StoreModel)
    requires
        m.wf(),
    ensures
        forall|i: int|
            0 <= i < m.list().len() ==> labelled(
                m.levels,
                #[trigger] m.list()[i].priority_id,
                m.list()[i].priority_label,
            ),
{
    assert forall|i: int| 0 <= i < m.list().len() implies labelled(
        m.levels,
        #[trigger] m.list()[i].priority_id,
        m.list()[i].priority_label,
    ) by {
        assert(has_level(m.levels, m.rows[i].priority_id));
        lemma_label_of_labelled(m.levels, m.rows[i].priority_id);
    }
}

/// Creating an item whose priority reference names no level fails with a
/// constraint violation and stores nothing.
pub proof fn law_create_unknown_priority_fails(
    m: StoreModel,
    name: Seq<char>,
    description: Seq<char>,
    priority_id: int,
)
    requires
        m.wf(),
        !has_level(m.levels, priority_id),
    ensures
        m.create(name, description, priority_id) == (m, Err::<ViewModel, ErrorKind>(
            ErrorKind::ConstraintViolation,
        )),
{
}

/// After any run of creations and deletions the listing holds as many items
/// as before, plus the creations that succeeded, minus the deletions that
/// succeeded, in ascending identifier order; from an empty table that is
/// exactly creations minus deletions.
pub proof fn law_list_counts_writes(m: StoreModel, ops: Seq<ItemOp>)
    requires
        m.wf(),
    ensures
        run(m, ops).wf(),
        run(m, ops).list().len() == m.list().len() + created(m, ops) - deleted(m, ops),
        views_ascending(run(m, ops).list()),
    decreases ops.len(),
{
    if ops.len() == 0 {
    } else {
        let (after, ok) = apply(m, ops[0]);
        match ops[0] {
            ItemOp::Create { name, description, priority_id } => {
                lemma_create_wf(m, name, description, priority_id);
            },
            ItemOp::Delete { id } => {
                lemma_delete_wf(m, id);
            },
        }
        law_list_counts_writes(after, ops.drop_first());
    }
    let end = run(m, ops);
    assert forall|i: int, j: int| 0 <= i < j < end.list().len() implies end.list()[i].id
        < end.list()[j].id by {
        assert(end.list()[i].id == end.rows[i].id);
        assert(end.list()[j].id == end.rows[j].id);
    }
}

/// Updating an identifier that names no item fails with `NotFound` and
/// leaves the store unchanged.
pub proof fn law_update_missing_not_found(
    m: StoreModel,
    id: int,
    name: Seq<char>,
    description: Seq<char>,
    priority_id: int,
)
    requires
        m.wf(),
        !m.has_item(id),
    ensures
        m.update(id, name, description, priority_id) == (m, Err::<ViewModel, ErrorKind>(
            ErrorKind::NotFound,
        )),
{
}

/// Deleting an existing item twice: the first deletion succeeds, the second
/// fails with `NotFound` and changes nothing.
pub proof fn law_delete_twice(m: StoreModel, id: int)
    requires
        m.wf(),
        m.has_item(id),
    ensures
        m.delete(id).1 is Ok,
        m.delete(id).0.delete(id) == (m.delete(id).0, Err::<(), ErrorKind>(ErrorKind::NotFound)),
{
    lemma_delete_wf(m, id);
}

/// Seeding twice is seeding once: it never repeats a label, never changes a
/// level that was there, and keeps the store well formed.
pub proof fn law_seeding_idempotent(m: StoreModel)
    requires
        m.wf(),
    ensures
        m.seed().seed() == m.seed(),
        m.seed().wf(),
        labels_unique(m.seed().levels),
        forall|i: int| 0 <= i < m.levels.len() ==> #[trigger] m.seed().levels[i] == m.levels[i],
{
    lemma_default_labels_distinct();
    assert(seeded(m.levels).len() > 0);
    let s = m.seed();
    if m.levels.len() == 0 {
        assert(m.rows.len() == 0 || has_level(m.levels, m.rows[0].priority_id));
        assert forall|i: int| #![trigger s.rows[i]] 0 <= i < s.rows.len() implies false by {
            assert(has_level(m.levels, m.rows[i].priority_id));
        }
    }
}

} // verus!
