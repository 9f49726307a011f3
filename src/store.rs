use vstd::prelude::*;
use crate::catalog::{Catalog, LevelModel, has_level, label_of, levels_wf, seeded};
use crate::error::ErrorKind;

verus! {

/// A stored item: the row of the items table.
pub struct ItemRow {
    pub id: i64,
    pub name: String,
    pub description: String,
    pub priority_id: i32,
}

/// The mathematical form of a stored item.
pub struct RowModel {
    pub id: int,
    pub name: Seq<char>,
    pub description: Seq<char>,
    pub priority_id: int,
}

impl View for ItemRow {
    type V = RowModel;

    open spec fn view(&self) -> RowModel {
        RowModel {
            id: self.id as int,
            name: self.name@,
            description: self.description@,
            priority_id: self.priority_id as int,
        }
    }
}

/// An item joined with the label of its priority level: the only shape that
/// the store hands out.
pub struct ItemView {
    pub id: i64,
    pub name: String,
    pub description: String,
    pub priority_id: i32,
    pub priority_label: String,
}

/// The mathematical form of an item view.
pub struct ViewModel {
    pub id: int,
    pub name: Seq<char>,
    pub description: Seq<char>,
    pub priority_id: int,
    pub priority_label: Seq<char>,
}

impl View for ItemView {
    type V = ViewModel;

    open spec fn view(&self) -> ViewModel {
        ViewModel {
            id: self.id as int,
            name: self.name@,
            description: self.description@,
            priority_id: self.priority_id as int,
            priority_label: self.priority_label@,
        }
    }
}

pub open spec fn view_result(r: Result<ItemView, ErrorKind>) -> Result<ViewModel, ErrorKind> {
    match r {
        Ok(v) => Ok(v@),
        Err(e) => Err(e),
    }
}

pub open spec fn view_option(r: Option<ItemView>) -> Option<ViewModel> {
    match r {
        Some(v) => Some(v@),
        None => None,
    }
}

pub open spec fn views(v: Seq<ItemView>) -> Seq<ViewModel> {
    v.map_values(|x: ItemView| x@)
}

/// Identifiers strictly increase along the sequence.
pub open spec fn ascending(rows: Seq<RowModel>) -> bool {
    forall|i: int, j: int| 0 <= i < j < rows.len() ==> rows[i].id < rows[j].id
}

/// Identifiers strictly increase along a sequence of views.
pub open spec fn views_ascending(v: Seq<ViewModel>) -> bool {
    forall|i: int, j: int| 0 <= i < j < v.len() ==> v[i].id < v[j].id
}

/// The whole store: the priority catalog, the items in order of identifier,
/// and the identifier that the next item will get.
pub struct StoreModel {
    pub levels: Seq<LevelModel>,
    pub rows: Seq<RowModel>,
    pub next_id: int,
}

impl StoreModel {
    /// Rows are kept in ascending identifier order, every identifier lies
    /// below the next one to assign, and every priority reference names a level.
    pub open spec fn wf(self) -> bool {
        &&& levels_wf(self.levels)
        &&& ascending(self.rows)
        &&& 1 <= self.next_id <= i64::MAX
        &&& forall|i: int|
            #![trigger self.rows[i]]
            0 <= i < self.rows.len() ==> 1 <= self.rows[i].id < self.next_id
                && has_level(self.levels, self.rows[i].priority_id)
    }

    pub open spec fn has_item(self, id: int) -> bool {
        exists|i: int| 0 <= i < self.rows.len() && #[trigger] self.rows[i].id == id
    }

    pub open spec fn index_of(self, id: int) -> int {
        choose|i: int| 0 <= i < self.rows.len() && #[trigger] self.rows[i].id == id
    }

    /// A row joined with the label of the level it references.
    pub open spec fn join(self, row: RowModel) -> ViewModel {
        ViewModel {
            id: row.id,
            name: row.name,
            description: row.description,
            priority_id: row.priority_id,
            priority_label: label_of(self.levels, row.priority_id),
        }
    }

    /// Every item, joined, in ascending identifier order.
    pub open spec fn list(self) -> Seq<ViewModel> {
        self.rows.map_values(|r: RowModel| self.join(r))
    }

    /// The item with identifier `id`, joined, if there is one.
    pub open spec fn find(self, id: int) -> Option<ViewModel> {
        if self.has_item(id) {
            Some(self.join(self.rows[self.index_of(id)]))
        } else {
            None
        }
    }

    /// Inserting an item: refused when the priority reference names no level,
    /// or when no identifier is left; otherwise the row gets the next
    /// identifier and the result is that row joined with its label.
    pub open spec fn create(self, name: Seq<char>, description: Seq<char>, priority_id: int) -> (
        StoreModel,
        Result<ViewModel, ErrorKind>,
    ) {
        if !has_level(self.levels, priority_id) {
            (self, Err(ErrorKind::ConstraintViolation))
        } else if self.next_id >= i64::MAX {
            (self, Err(ErrorKind::TransientStoreError))
        } else {
            let row = RowModel { id: self.next_id, name, description, priority_id };
            let after = StoreModel {
                rows: self.rows.push(row),
                next_id: self.next_id + 1,
                ..self
            };
            (after, Ok(after.join(row)))
        }
    }

    /// Replacing all three fields of an item: refused when the item does not
    /// exist, then when the priority reference names no level.
    pub open spec fn update(
        self,
        id: int,
        name: Seq<char>,
        description: Seq<char>,
        priority_id: int,
    ) -> (StoreModel, Result<ViewModel, ErrorKind>) {
        if !self.has_item(id) {
            (self, Err(ErrorKind::NotFound))
        } else if !has_level(self.levels, priority_id) {
            (self, Err(ErrorKind::ConstraintViolation))
        } else {
            let row = RowModel { id, name, description, priority_id };
            let after = StoreModel { rows: self.rows.update(self.index_of(id), row), ..self };
            (after, Ok(after.join(row)))
        }
    }

    /// Removing an item: refused when it does not exist.
    pub open spec fn delete(self, id: int) -> (StoreModel, Result<(), ErrorKind>) {
        if !self.has_item(id) {
            (self, Err(ErrorKind::NotFound))
        } else {
            (StoreModel { rows: self.rows.remove(self.index_of(id)), ..self }, Ok(()))
        }
    }

    /// The store after the catalog is seeded.
    pub open spec fn seed(self) -> StoreModel {
        StoreModel { levels: seeded(self.levels), ..self }
    }
}

/// An in-memory reference model of the item store: the priority catalog and
/// the items table, with the foreign-key check, the join and the identifier
/// order that the relational store provides. It holds no connection to a
/// database.
pub struct ItemStore {
    pub catalog: Catalog,
    pub rows: Vec<ItemRow>,
    pub next_id: i64,
}

impl View for ItemStore {
    type V = StoreModel;

    open spec fn view(&self) -> StoreModel {
        StoreModel {
            levels: self.catalog@,
            rows: self.rows@.map_values(|r: ItemRow| r@),
            next_id: self.next_id as int,
        }
    }
}

impl ItemStore {
    pub open spec fn wf(&self) -> bool {
        self@.wf()
    }

    /// A store with both tables created and empty.
    pub fn new() -> (r: ItemStore)
        ensures
            r.wf(),
            r@.levels.len() == 0,
            r@.rows.len() == 0,
            r@.next_id == 1,
    {
        let r = ItemStore { catalog: Catalog::new(), rows: Vec::new(), next_id: 1 };
        assert(r@.rows =~= Seq::<RowModel>::empty());
        r
    }

    /// Seeds the priority catalog if it is empty.
    pub fn ensure_seeded(&mut self)
        requires
            old(self).wf(),
        ensures
            final(self).wf(),
            final(self)@ == old(self)@.seed(),
    {
        self.catalog.ensure_seeded();
        proof {
            let m = self@;
            assert forall|i: int| 0 <= i < m.rows.len() implies has_level(
                m.levels,
                #[trigger] m.rows[i].priority_id,
            ) by {
                let p = m.rows[i].priority_id;
                let old_levels = old(self)@.levels;
                assert(has_level(old_levels, p));
                if old_levels.len() != 0 {
                    assert(m.levels == old_levels);
                } else {
                    let k = choose|k: int| 0 <= k < old_levels.len() && #[trigger] old_levels[k].id == p;
                    assert(false);
                }
            }
        }
    }

    /// The position of the row with identifier `id`.
    fn position(&self, id: i64) -> (r: Option<usize>)
        requires
            self.wf(),
        ensures
            r is None <==> !self@.has_item(id as int),
            r matches Some(i) ==> i < self.rows@.len() && self@.index_of(id as int) == i,
    {
        let mut i: usize = 0;
        while i < self.rows.len()
            invariant
                self.wf(),
                i <= self.rows@.len(),
                forall|j: int| 0 <= j < i ==> #[trigger] self@.rows[j].id != id,
            decreases self.rows@.len() - i,
        {
            if self.rows[i].id == id {
                proof {
                    assert(self@.rows[i as int].id == id);
                    let c = self@.index_of(id as int);
                    assert(self@.rows[c].id == id);
                    assert(ascending(self@.rows));
                }
                return Some(i);
            }
            i = i + 1;
        }
        None
    }

    /// The row at position `i`, joined with its priority label.
    fn join_row(&self, i: usize) -> (r: ItemView)
        requires
            self.wf(),
            i < self.rows@.len(),
        ensures
            r@ == self@.join(self@.rows[i as int]),
    {
        let row = &self.rows[i];
        assert(self@.rows[i as int] == row@);
        let label = match self.catalog.label(row.priority_id) {
            Some(s) => s,
            None => {
                assert(has_level(self@.levels, self@.rows[i as int].priority_id));
                assert(false);
                String::new()
            },
        };
        ItemView {
            id: row.id,
            name: row.name.clone(),
            description: row.description.clone(),
            priority_id: row.priority_id,
            priority_label: label,
        }
    }

    /// The item with identifier `id`, joined with its priority label.
    pub fn find(&self, id: i64) -> (r: Option<ItemView>)
        requires
            self.wf(),
        ensures
            view_option(r) == self@.find(id as int),
    {
        match self.position(id) {
            Some(i) => Some(self.join_row(i)),
            None => None,
        }
    }

    /// Every item joined with its priority label, in ascending identifier order.
    pub fn list(&self) -> (r: Vec<ItemView>)
        requires
            self.wf(),
        ensures
            views(r@) == self@.list(),
    {
        let mut r: Vec<ItemView> = Vec::new();
        let mut i: usize = 0;
        while i < self.rows.len()
            invariant
                self.wf(),
                i <= self.rows@.len(),
                views(r@) == self@.list().take(i as int),
            decreases self.rows@.len() - i,
        {
            let v = self.join_row(i);
            assert(self@.list()[i as int] == self@.join(self@.rows[i as int]));
            let ghost prev = r@;
            r.push(v);
            assert(views(r@) =~= views(prev).push(v@));
            assert(self@.list().take(i + 1) =~= self@.list().take(i as int).push(self@.list()[i as int]));
            i = i + 1;
        }
        assert(self@.list().take(i as int) =~= self@.list());
        r
    }

    /// Inserts an item and reads it back joined with its priority label.
    /// Fails with `ConstraintViolation`, leaving the store as it was, when
    /// `priority_id` names no level.
    pub fn create(&mut self, name: String, description: String, priority_id: i32) -> (r: Result<
        ItemView,
        ErrorKind,
    >)
        requires
            old(self).wf(),
        ensures
            final(self).wf(),
            (final(self)@, view_result(r)) == old(self)@.create(
                name@,
                description@,
                priority_id as int,
            ),
    {
        if !self.catalog.contains(priority_id) {
            return Err(ErrorKind::ConstraintViolation);
        }
        if self.next_id == i64::MAX {
            return Err(ErrorKind::TransientStoreError);
        }
        let id = self.next_id;
        let ghost before = self@;
        let ghost row = RowModel {
            id: id as int,
            name: name@,
            description: description@,
            priority_id: priority_id as int,
        };
        self.rows.push(ItemRow { id, name, description, priority_id });
        self.next_id = id + 1;
        assert(self@.rows =~= before.rows.push(row));
        proof {
            let m = self@;
            let last = before.rows.len() as int;
            assert(m.rows[last].id == id);
            assert(m.has_item(id as int));
            let c = m.index_of(id as int);
            if c != last {
                assert(before.rows[c] == m.rows[c]);
                assert(m.rows[c].id < before.next_id);
            }
        }
        match self.find(id) {
            Some(v) => Ok(v),
            None => Err(ErrorKind::TransientStoreError),
        }
    }

    /// Replaces the name, description and priority reference of the item with
    /// identifier `id`, and reads it back joined with its priority label.
    /// Fails with `NotFound` when there is no such item, then with
    /// `ConstraintViolation` when `priority_id` names no level; a failure
    /// leaves the store as it was.
    pub fn update(
        &mut self,
        id: i64,
        name: String,
        description: String,
        priority_id: i32,
    ) -> (r: Result<ItemView, ErrorKind>)
        requires
            old(self).wf(),
        ensures
            final(self).wf(),
            (final(self)@, view_result(r)) == old(self)@.update(
                id as int,
                name@,
                description@,
                priority_id as int,
            ),
    {
        let i = match self.position(id) {
            Some(i) => i,
            None => {
                return Err(ErrorKind::NotFound);
            },
        };
        if !self.catalog.contains(priority_id) {
            return Err(ErrorKind::ConstraintViolation);
        }
        let ghost before = self@;
        let ghost row = RowModel {
            id: id as int,
            name: name@,
            description: description@,
            priority_id: priority_id as int,
        };
        assert(before.rows[i as int].id == id);
        self.rows[i] = ItemRow { id, name, description, priority_id };
        assert(self@.rows =~= before.rows.update(i as int, row));
        proof {
            let m = self@;
            assert(m.rows[i as int].id == id);
            assert(m.has_item(id as int));
            let c = m.index_of(id as int);
            if c != i {
                assert(before.rows[c] == m.rows[c]);
            }
        }
        match self.find(id) {
            Some(v) => Ok(v),
            None => Err(ErrorKind::TransientStoreError),
        }
    }

    /// Removes the item with identifier `id`; fails with `NotFound`, leaving
    /// the store as it was, when there is no such item.
    pub fn delete(&mut self, id: i64) -> (r: Result<(), ErrorKind>)
        requires
            old(self).wf(),
        ensures
            final(self).wf(),
            (final(self)@, r) == old(self)@.delete(id as int),
    {
        let i = match self.position(id) {
            Some(i) => i,
            None => {
                return Err(ErrorKind::NotFound);
            },
        };
        let ghost before = self@;
        let _gone = self.rows.remove(i);
        assert(self@.rows =~= before.rows.remove(i as int));
        proof {
            let m = self@;
            assert forall|a: int, b: int| 0 <= a < b < m.rows.len() implies m.rows[a].id
                < m.rows[b].id by {
                let oa = if a < i { a } else { a + 1 };
                let ob = if b < i { b } else { b + 1 };
                assert(m.rows[a] == before.rows[oa]);
                assert(m.rows[b] == before.rows[ob]);
            }
            assert forall|a: int| 0 <= a < m.rows.len() implies #[trigger] m.rows[a]
                == before.rows[if a < i { a } else { a + 1 }] by {}
        }
        Ok(())
    }
}

} // verus!
