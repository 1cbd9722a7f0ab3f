//! The database coordinator: the row store, the fields and the views of one
//! database, kept consistent by operations that update them together.
use vstd::prelude::*;

use crate::block::{Block, RowDocument, RowLookup, RowSlotView, ready_data};
use crate::field::Field;
use crate::order::{
    matching_indexes, move_diff,
    FieldOrder, OrderIdentifiable, OrderObjectPosition, RowOrder, ids_view, index_of_id, moved, position_of, resolved_index, without_ids,
};
use crate::row::{CreateRowParams, Row, RowChange, RowUpdate, validate_row_params};
use crate::record::{RecordCollection, RecordMap};
use crate::view::{CreateDatabaseParams, CreateViewParams, DatabaseLayout, DatabaseView, DatabaseViewChange, is_delete_change, is_insert_change, is_move_change};

verus! {

/// Why a database operation was refused.
#[derive(Debug, PartialEq, Eq, Structural)]
pub enum DatabaseError {
    /// An empty row, view or database id.
    InvalidId,
    /// The row is neither cached nor stored.
    NotFound,
    /// No view has the given id.
    ViewNotFound,
    /// The owning store was torn down.
    StoreUnavailable,
    /// The document lacks a required structural marker.
    SchemaInvalid,
    /// A lower-level failure.
    Internal,
}

/// The position a new row takes in view `v` when created from `view_id`:
/// the caller's position in that view, the end in every other.
pub open spec fn position_in_view(
    v: DatabaseView,
    view_id: Seq<char>,
    pos: OrderObjectPosition,
) -> OrderObjectPosition {
    if v.id@ == view_id {
        pos
    } else {
        OrderObjectPosition::End
    }
}

/// The fields that the first `n` stand-ins of `orders` name, in order,
/// restricted to `wanted` where given.
pub open spec fn fields_in_order(
    fields: Seq<Field>,
    orders: Seq<FieldOrder>,
    wanted: Option<Seq<Seq<char>>>,
    n: int,
) -> Seq<Field>
    decreases n,
{
    if n <= 0 {
        Seq::empty()
    } else {
        let p = fields_in_order(fields, orders, wanted, n - 1);
        let id = orders[n - 1].id@;
        let allowed = match wanted {
            Some(w) => w.contains(id),
            None => true,
        };
        if allowed {
            match crate::order::find(fields, id) {
                Some(f) => p.push(f),
                None => p,
            }
        } else {
            p
        }
    }
}

/// The record collections that each view keeps.
#[derive(Debug, Clone, Copy, PartialEq, Eq, Structural)]
pub enum RecordKind {
    Filter,
    Sort,
    Group,
    Calculation,
}

/// The collection of `kind` in view `v`.
pub open spec fn collection_of(v: DatabaseView, kind: RecordKind) -> RecordCollection {
    match kind {
        RecordKind::Filter => v.filters,
        RecordKind::Sort => v.sorts,
        RecordKind::Group => v.group_settings,
        RecordKind::Calculation => v.calculations,
    }
}

/// View `v` with its collection of `kind` replaced by `c`.
pub open spec fn with_collection(v: DatabaseView, kind: RecordKind, c: RecordCollection) -> DatabaseView {
    match kind {
        RecordKind::Filter => DatabaseView { filters: c, ..v },
        RecordKind::Sort => DatabaseView { sorts: c, ..v },
        RecordKind::Group => DatabaseView { group_settings: c, ..v },
        RecordKind::Calculation => DatabaseView { calculations: c, ..v },
    }
}

/// `t` is `s` with only the view at `k` changed, and there only in its
/// collection of `kind`.
pub open spec fn only_collection_changed(
    s: Seq<DatabaseView>,
    t: Seq<DatabaseView>,
    k: int,
    kind: RecordKind,
) -> bool {
    &&& t.len() == s.len()
    &&& forall|i: int| 0 <= i < s.len() && i != k ==> t[i] == s[i]
    &&& t[k] == with_collection(s[k], kind, collection_of(t[k], kind))
}

/// A snapshot of all data of a database, for export and duplication.
pub struct DatabaseData {
    pub database_id: String,
    pub inline_view_id: String,
    pub views: Vec<DatabaseView>,
    pub fields: Vec<Field>,
    pub rows: Vec<Row>,
}

/// The event a move of `from_id` to `to_id` emits for view `v`: one
/// delete and one insert where both rows are present and distinct, nothing
/// otherwise.
pub open spec fn move_event_of(
    v: DatabaseView,
    from_id: Seq<char>,
    to_id: Seq<char>,
    e: Option<DatabaseViewChange>,
) -> bool {
    match (index_of_id(v.row_orders@, from_id), index_of_id(v.row_orders@, to_id)) {
        (Some(f), Some(t)) => if f != t {
            e matches Some(c) && is_move_change(
                c,
                v.id@,
                move_diff(f, t).0,
                v.row_orders@[f],
                move_diff(f, t).1,
            )
        } else {
            e is None
        },
        _ => e is None,
    }
}

/// The data of the rows that removing `ids[..n]` one after another takes
/// out of the cache `c`: each cached row once, in the order of `ids`.
pub open spec fn removed_rows(
    c: Map<Seq<char>, RowSlotView>,
    ids: Seq<Seq<char>>,
    n: int,
) -> Seq<crate::row::RowView>
    decreases n,
{
    if n <= 0 {
        Seq::empty()
    } else {
        let p = removed_rows(c, ids, n - 1);
        let id = ids[n - 1];
        if !ids.take(n - 1).contains(id) && ready_data(c, id) is Some {
            p.push(ready_data(c, id)->0)
        } else {
            p
        }
    }
}

/// The ids of the first `n` rows that can be created: a non-empty id and
/// well-formed cells.
pub open spec fn accepted_row_ids(rows: Seq<CreateRowParams>, n: int) -> Seq<Seq<char>>
    decreases n,
{
    if n <= 0 {
        Seq::empty()
    } else {
        let p = accepted_row_ids(rows, n - 1);
        let r = rows[n - 1];
        if r.id@.len() > 0 && r.cells.wf() {
            p.push(r.id@)
        } else {
            p
        }
    }
}

/// Two upserts of records with the same id into one collection of a view,
/// as `upsert_view_record` makes them, leave exactly one record with that
/// id: the later one, at the index the first upsert gave it; the
/// collection's length is that after the first upsert, every other record
/// and every other view is unchanged.
pub proof fn law_view_record_upsert_twice(
    s0: Seq<DatabaseView>,
    s1: Seq<DatabaseView>,
    s2: Seq<DatabaseView>,
    k: int,
    kind: RecordKind,
    x: RecordMap,
    y: RecordMap,
)
    requires
        0 <= k < s0.len(),
        collection_of(s0[k], kind).wf(),
        x.id@ == y.id@,
        only_collection_changed(s0, s1, k, kind),
        collection_of(s1[k], kind).items@ == crate::order::upserted(collection_of(s0[k], kind).items@, x),
        only_collection_changed(s1, s2, k, kind),
        collection_of(s2[k], kind).items@ == crate::order::upserted(collection_of(s1[k], kind).items@, y),
    ensures
        ({
            let once = collection_of(s1[k], kind).items@;
            let twice = collection_of(s2[k], kind).items@;
            &&& twice.len() == once.len()
            &&& index_of_id(once, x.id@) matches Some(j) && twice == once.update(j, y)
            &&& forall|j: int| 0 <= j < twice.len() && twice[j].id@ == y.id@ ==> twice[j] == y
            &&& forall|i: int| 0 <= i < s0.len() && i != k ==> s2[i] == s0[i]
        }),
{
    crate::record::law_upsert_twice(collection_of(s0[k], kind).items@, x, y);
}

/// How many rows of the inline view are loaded for the first screen.
pub const FIRST_SCREEN_ROWS: usize = 100;

/// One database: its row store, its fields and its views.
pub struct Database {
    pub database_id: String,
    pub inline_view_id: String,
    pub views: Vec<DatabaseView>,
    pub fields: Vec<Field>,
    pub block: Block,
}

impl Database {
    pub open spec fn wf(&self) -> bool {
        &&& self.block.wf()
        &&& forall|i: int| 0 <= i < self.views@.len() ==> (#[trigger] self.views@[i]).wf()
    }

    /// An empty database with no views and no fields.
    pub fn new(uid: i64, database_id: String, inline_view_id: String) -> (r: Database)
        ensures
            r.wf(),
            r.database_id == database_id,
            r.inline_view_id == inline_view_id,
            r.views@.len() == 0,
            r.fields@.len() == 0,
            r.block.cache() == crate::block::empty_cache(),
    {
        let block = Block::new(uid, database_id.clone());
        Database { database_id, inline_view_id, views: Vec::new(), fields: Vec::new(), block }
    }

    /// Creates a database with its inline view from `params`: the fields in
    /// the given order, then the rows with a non-empty id and well-formed
    /// cells, each at the end of the view. An empty database or view id is
    /// refused.
    pub fn create_with_view(uid: i64, params: CreateDatabaseParams, now: i64) -> (r: Result<
        Database,
        DatabaseError,
    >)
        ensures
            (params.database_id@.len() == 0 || params.view_id@.len() == 0) <==> r is Err,
            r matches Err(e) ==> e == DatabaseError::InvalidId,
            r matches Ok(db) ==> {
                &&& db.wf()
                &&& db.database_id == params.database_id
                &&& db.inline_view_id@ == params.view_id@
                &&& db.views@.len() == 1
                &&& db.views@[0].id@ == params.view_id@
                &&& db.views@[0].database_id@ == params.database_id@
                &&& db.fields@ == crate::order::upserted_all(
                    Seq::empty(),
                    params.fields@,
                    params.fields@.len() as int,
                )
                &&& db.views@[0].field_orders@.len() == params.fields@.len()
                &&& forall|i: int|
                    0 <= i < params.fields@.len() ==> #[trigger] db.views@[0].field_orders@[i].id@
                        == params.fields@[i].id@
                &&& db.views@[0].row_orders@.map_values(|o: RowOrder| o.id@) == accepted_row_ids(
                    params.created_rows@,
                    params.created_rows@.len() as int,
                )
            },
    {
        if params.database_id.as_str().is_empty() || params.view_id.as_str().is_empty() {
            return Err(DatabaseError::InvalidId);
        }
        let (rows, fields, view_params) = params.split();
        let view_id = view_params.view_id.clone();
        let mut db = Database::new(uid, view_params.database_id.clone(), view_id);
        let mut field_orders: Vec<FieldOrder> = Vec::new();
        let mut i: usize = 0;
        while i < fields.len()
            invariant
                i <= fields@.len(),
                field_orders@.len() == i,
                forall|j: int| 0 <= j < i ==> #[trigger] field_orders@[j].id@ == fields@[j].id@,
            decreases fields@.len() - i,
        {
            field_orders.push(FieldOrder::new(fields[i].id.clone()));
            i = i + 1;
        }
        proof {
            assert(db.fields@ =~= Seq::<Field>::empty());
        }
        crate::order::upsert_all(&mut db.fields, fields);
        let ghost all_rows = rows@;
        let ghost db_fields = db.fields;
        let ghost db_views = db.views;
        let ghost db_id = db.database_id;
        let ghost db_inline = db.inline_view_id;
        let mut src = rows;
        let total = src.len();
        let mut row_orders: Vec<RowOrder> = Vec::new();
        let mut k: usize = 0;
        while src.len() > 0
            invariant
                db.block.wf(),
                db.fields == db_fields,
                db.views == db_views,
                db.database_id == db_id,
                db.inline_view_id == db_inline,
                k <= total,
                total == all_rows.len(),
                src@ == all_rows.skip(k as int),
                row_orders@.map_values(|o: RowOrder| o.id@) == accepted_row_ids(all_rows, k as int),
            decreases src@.len(),
        {
            proof {
                assert(all_rows.skip(k as int).remove(0) =~= all_rows.skip(k + 1));
            }
            let row_params = src.remove(0);
            let ghost pre = row_orders@;
            if row_params.cells.is_wf() {
                match validate_row_params(row_params, now) {
                    Ok(p) => {
                        let order = db.block.create_row(p.into_row());
                        row_orders.push(order);
                        proof {
                            assert(row_orders@.map_values(|o: RowOrder| o.id@) =~= pre.map_values(
                                |o: RowOrder| o.id@,
                            ).push(all_rows[k as int].id@));
                        }
                    },
                    Err(_) => {},
                }
            }
            k = k + 1;
        }
        let view = view_params.into_view(row_orders, field_orders);
        db.views.push(view);
        Ok(db)
    }

    /// Adds a view; a view with the same id is replaced in place.
    pub fn insert_view(&mut self, view: DatabaseView)
        requires
            old(self).wf(),
            view.wf(),
        ensures
            final(self).wf(),
            final(self).views@ == crate::order::upserted(old(self).views@, view),
            final(self).block == old(self).block,
            final(self).fields == old(self).fields,
            final(self).inline_view_id == old(self).inline_view_id,
    {
        let ghost s = self.views@;
        let ghost x = view;
        crate::order::upsert(&mut self.views, view);
        proof {
            let t = self.views@;
            assert forall|i: int| 0 <= i < t.len() implies (#[trigger] t[i]).wf() by {
                match index_of_id(s, x.id@) {
                    Some(j) => {
                        crate::order::lemma_index_some(s, x.id@);
                        assert(t == s.update(j, x));
                        if i != j {
                            assert(s[i].wf());
                        }
                    },
                    None => {
                        assert(t == s.push(x));
                        if i < s.len() {
                            assert(s[i].wf());
                        }
                    },
                }
            }
        }
    }

    /// The index of the view `view_id`.
    pub fn index_of_view(&self, view_id: &String) -> (r: Option<usize>)
        ensures
            r matches Some(i) ==> index_of_id(self.views@, view_id@) == Some(i as int),
            r is None ==> index_of_id(self.views@, view_id@) is None,
    {
        position_of(&self.views, view_id)
    }

    /// Creates a row at the end of every view. Returns its stand-in and one
    /// insert event per view.
    pub fn create_row(&mut self, params: CreateRowParams, now: i64) -> (r: Result<
        (RowOrder, Vec<DatabaseViewChange>),
        DatabaseError,
    >)
        requires
            old(self).wf(),
            params.cells.wf(),
        ensures
            final(self).wf(),
            params.id@.len() == 0 <==> r is Err,
            r matches Err(e) ==> e == DatabaseError::InvalidId && final(self).views == old(
                self,
            ).views && final(self).block == old(self).block,
            r matches Ok((order, changes)) ==> {
                &&& order.id@ == params.id@
                &&& order.height == params.height
                &&& final(self).block.cache().dom().contains(params.id@)
                &&& final(self).views@.len() == old(self).views@.len()
                &&& changes@.len() == old(self).views@.len()
                &&& forall|i: int|
                    #![trigger final(self).views@[i]]
                    0 <= i < old(self).views@.len() ==> {
                        let v = old(self).views@[i];
                        &&& final(self).views@[i] == (DatabaseView {
                            row_orders: final(self).views@[i].row_orders,
                            ..v
                        })
                        &&& final(self).views@[i].row_orders@ == v.row_orders@.push(order)
                        &&& is_insert_change(changes@[i], v.id@, order, v.row_orders@.len() as int)
                    }
            },
    {
        if params.id.as_str().is_empty() {
            return Err(DatabaseError::InvalidId);
        }
        let params = params.with_row_position(OrderObjectPosition::End);
        if self.views.len() == 0 {
            let params = match validate_row_params(params, now) {
                Ok(p) => p,
                Err(_) => {
                    return Err(DatabaseError::InvalidId);
                },
            };
            let order = self.block.create_row(params.into_row());
            return Ok((order, Vec::new()));
        }
        let first = self.views[0].id.clone();
        proof {
            crate::order::lemma_first_index_unique(self.views@, first@, 0);
        }
        match self.create_row_in_view(&first, params, now) {
            Ok((_, order, changes)) => {
                proof {
                    assert forall|i: int|
                        #![trigger self.views@[i]]
                        0 <= i < old(self).views@.len() implies {
                            let v = old(self).views@[i];
                            &&& self.views@[i] == (DatabaseView {
                                row_orders: self.views@[i].row_orders,
                                ..v
                            })
                            &&& self.views@[i].row_orders@ == v.row_orders@.push(order)
                            &&& is_insert_change(changes@[i], v.id@, order, v.row_orders@.len() as int)
                        } by {
                        let v = old(self).views@[i];
                        assert(v.row_orders@.insert(v.row_orders@.len() as int, order) =~= v.row_orders@.push(order));
                    }
                }
                Ok((order, changes))
            },
            Err(e) => Err(e),
        }
    }

    /// Removes a row: its stand-in leaves every view first, then the row
    /// leaves the row store. Returns the row's data, if it was cached, and
    /// one delete event per view that held the row.
    pub fn remove_row(&mut self, row_id: &String) -> (r: (Option<Row>, Vec<Option<DatabaseViewChange>>))
        requires
            old(self).wf(),
        ensures
            final(self).wf(),
            final(self).block.cache() == old(self).block.cache().remove(row_id@),
            final(self).views@.len() == old(self).views@.len(),
            forall|i: int|
                #![trigger final(self).views@[i]]
                0 <= i < old(self).views@.len() ==> {
                    let v = old(self).views@[i];
                    &&& final(self).views@[i] == (DatabaseView {
                        row_orders: final(self).views@[i].row_orders,
                        ..v
                    })
                    &&& final(self).views@[i].row_orders@ == match index_of_id(v.row_orders@, row_id@) {
                        Some(k) => v.row_orders@.remove(k),
                        None => v.row_orders@,
                    }
                },
            r.1@.len() == old(self).views@.len(),
            forall|i: int|
                #![trigger r.1@[i]]
                0 <= i < old(self).views@.len() ==> match index_of_id(old(self).views@[i].row_orders@, row_id@) {
                    Some(k) => r.1@[i] matches Some(c) && is_delete_change(c, old(self).views@[i].id@, seq![k]),
                    None => r.1@[i] is None,
                },
            r.0 matches Some(x) ==> crate::block::ready_data(old(self).block.cache(), row_id@) == Some(x@),
            r.0 is None ==> crate::block::ready_data(old(self).block.cache(), row_id@) is None,
    {
        let ghost old_views = self.views@;
        let mut changes: Vec<Option<DatabaseViewChange>> = Vec::new();
        let mut i: usize = 0;
        while i < self.views.len()
            invariant
                self.block == old(self).block,
                self.block.wf(),
                self.views@.len() == old_views.len(),
                i <= old_views.len(),
                changes@.len() == i,
                forall|j: int| i <= j < old_views.len() ==> self.views@[j] == old_views[j],
                forall|j: int| 0 <= j < old_views.len() ==> (#[trigger] old_views[j]).wf(),
                forall|j: int|
                    #![trigger self.views@[j]]
                    0 <= j < i ==> {
                        let v = old_views[j];
                        &&& self.views@[j] == (DatabaseView {
                            row_orders: self.views@[j].row_orders,
                            ..v
                        })
                        &&& self.views@[j].row_orders@ == match index_of_id(v.row_orders@, row_id@) {
                            Some(k) => v.row_orders@.remove(k),
                            None => v.row_orders@,
                        }
                    },
                forall|j: int|
                    #![trigger changes@[j]]
                    0 <= j < i ==> match index_of_id(old_views[j].row_orders@, row_id@) {
                        Some(k) => changes@[j] matches Some(c) && is_delete_change(c, old_views[j].id@, seq![k]),
                        None => changes@[j] is None,
                    },
            decreases old_views.len() - i,
        {
            let change = self.views[i].remove_row_order(row_id);
            changes.push(change);
            i = i + 1;
        }
        let row = self.block.get_row(row_id);
        self.block.delete_row(row_id);
        proof {
            assert forall|k: int| #![trigger changes@[k]] 0 <= k < old_views.len() implies match index_of_id(old_views[k].row_orders@, row_id@) {
                Some(x) => changes@[k] matches Some(c) && is_delete_change(c, old_views[k].id@, seq![x]),
                None => changes@[k] is None,
            } by {}
            assert forall|j: int| 0 <= j < self.views@.len() implies (#[trigger] self.views@[j]).wf() by {
                assert(old_views[j].wf());
            }
        }
        (row, changes)
    }

    /// Removes rows in one step: in every view their stand-ins leave
    /// together and the delete indexes are those before the removal,
    /// ascending; then the rows leave the row store. Returns the data of the
    /// rows that were cached and one delete event per view that held any.
    pub fn remove_rows(&mut self, row_ids: &Vec<String>) -> (r: (Vec<Row>, Vec<Option<DatabaseViewChange>>))
        requires
            old(self).wf(),
        ensures
            final(self).wf(),
            final(self).views@.len() == old(self).views@.len(),
            forall|i: int|
                #![trigger final(self).views@[i]]
                0 <= i < old(self).views@.len() ==> {
                    let v = old(self).views@[i];
                    &&& final(self).views@[i] == (DatabaseView {
                        row_orders: final(self).views@[i].row_orders,
                        ..v
                    })
                    &&& final(self).views@[i].row_orders@ == without_ids(v.row_orders@, ids_view(row_ids@))
                },
            forall|k: Seq<char>|
                #![trigger final(self).block.cache().dom().contains(k)]
                final(self).block.cache().dom().contains(k) == (old(self).block.cache().dom().contains(k)
                    && !ids_view(row_ids@).contains(k)),
            forall|k: Seq<char>|
                #![trigger final(self).block.cache()[k]]
                final(self).block.cache().dom().contains(k) ==> final(self).block.cache()[k] == old(self).block.cache()[k],
            r.0@.map_values(|x: Row| x@) == removed_rows(
                old(self).block.cache(),
                ids_view(row_ids@),
                row_ids@.len() as int,
            ),
            r.1@.len() == old(self).views@.len(),
            forall|i: int|
                #![trigger r.1@[i]]
                0 <= i < old(self).views@.len() ==> {
                    let idx = matching_indexes(
                        old(self).views@[i].row_orders@,
                        ids_view(row_ids@),
                        old(self).views@[i].row_orders@.len() as int,
                    );
                    &&& idx.len() == 0 ==> r.1@[i] is None
                    &&& idx.len() > 0 ==> (r.1@[i] matches Some(c) && is_delete_change(c, old(self).views@[i].id@, idx))
                },
    {
        let ghost old_views = self.views@;
        let mut changes: Vec<Option<DatabaseViewChange>> = Vec::new();
        let mut i: usize = 0;
        while i < self.views.len()
            invariant
                self.block == old(self).block,
                self.block.wf(),
                self.views@.len() == old_views.len(),
                i <= old_views.len(),
                changes@.len() == i,
                forall|j: int| i <= j < old_views.len() ==> self.views@[j] == old_views[j],
                forall|j: int| 0 <= j < old_views.len() ==> (#[trigger] old_views[j]).wf(),
                forall|j: int|
                    #![trigger self.views@[j]]
                    0 <= j < i ==> {
                        let v = old_views[j];
                        &&& self.views@[j] == (DatabaseView {
                            row_orders: self.views@[j].row_orders,
                            ..v
                        })
                        &&& self.views@[j].row_orders@ == without_ids(v.row_orders@, ids_view(row_ids@))
                    },
                forall|j: int|
                    #![trigger changes@[j]]
                    0 <= j < i ==> ({
                        let idx = matching_indexes(old_views[j].row_orders@, ids_view(row_ids@), old_views[j].row_orders@.len() as int);
                        &&& idx.len() == 0 ==> changes@[j] is None
                        &&& idx.len() > 0 ==> (changes@[j] matches Some(c) && is_delete_change(c, old_views[j].id@, idx))
                    }),
            decreases old_views.len() - i,
        {
            let change = self.views[i].remove_row_orders(row_ids);
            changes.push(change);
            i = i + 1;
        }
        let ghost c0 = self.block.cache();
        let ghost views_after = self.views;
        let mut rows: Vec<Row> = Vec::new();
        let mut j: usize = 0;
        while j < row_ids.len()
            invariant
                self.block.wf(),
                self.views == views_after,
                j <= row_ids@.len(),
                c0 == old(self).block.cache(),
                rows@.map_values(|x: Row| x@) == removed_rows(c0, ids_view(row_ids@), j as int),
                forall|k: Seq<char>|
                    #![trigger self.block.cache().dom().contains(k)]
                    self.block.cache().dom().contains(k) == (c0.dom().contains(k)
                        && !ids_view(row_ids@).take(j as int).contains(k)),
                forall|k: Seq<char>|
                    #![trigger self.block.cache()[k]]
                    self.block.cache().dom().contains(k) ==> self.block.cache()[k] == c0[k],
            decreases row_ids@.len() - j,
        {
            let ghost pre_rows = rows@;
            let ghost cur = self.block.cache();
            proof {
                let ids = ids_view(row_ids@);
                let id = row_ids@[j as int]@;
                assert(ids[j as int] == id);
                assert(ready_data(cur, id) == if ids.take(j as int).contains(id) {
                    None
                } else {
                    ready_data(c0, id)
                });
            }
            match self.block.get_row(&row_ids[j]) {
                Some(row) => {
                    rows.push(row);
                    proof {
                        assert(rows@.map_values(|x: Row| x@) =~= pre_rows.map_values(|x: Row| x@).push(rows@.last()@));
                    }
                },
                None => {},
            }
            self.block.delete_row(&row_ids[j]);
            proof {
                let ids = ids_view(row_ids@);
                assert(ids.take(j + 1) =~= ids.take(j as int).push(row_ids@[j as int]@));
                let t0 = ids.take(j as int);
                let t1 = ids.take(j + 1);
                assert forall|k: Seq<char>| t1.contains(k) == (t0.contains(k) || k == row_ids@[j as int]@) by {
                    if k == row_ids@[j as int]@ {
                        assert(t1[j as int] == k);
                    }
                    if t0.contains(k) {
                        let w = choose|w: int| 0 <= w < t0.len() && #[trigger] t0[w] == k;
                        assert(t1[w] == k);
                    }
                    if t1.contains(k) && k != row_ids@[j as int]@ {
                        let w = choose|w: int| 0 <= w < t1.len() && #[trigger] t1[w] == k;
                        assert(t0[w] == k);
                    }
                }
            }
            j = j + 1;
        }
        proof {
            assert forall|k: int| #![trigger changes@[k]] 0 <= k < old_views.len() implies ({
                let idx = matching_indexes(old_views[k].row_orders@, ids_view(row_ids@), old_views[k].row_orders@.len() as int);
                &&& idx.len() == 0 ==> changes@[k] is None
                &&& idx.len() > 0 ==> (changes@[k] matches Some(c) && is_delete_change(c, old_views[k].id@, idx))
            }) by {}
            assert(ids_view(row_ids@).take(row_ids@.len() as int) =~= ids_view(row_ids@));
            assert forall|jj: int| 0 <= jj < self.views@.len() implies (#[trigger] self.views@[jj]).wf() by {
                assert(old_views[jj].wf());
            }
        }
        (rows, changes)
    }

    /// Moves the row `from_id` to the index that `to_id` holds, in every
    /// view that holds both. Returns one move event per view that changed.
    pub fn move_row(&mut self, from_id: &String, to_id: &String) -> (r: Vec<Option<DatabaseViewChange>>)
        requires
            old(self).wf(),
        ensures
            final(self).wf(),
            final(self).block == old(self).block,
            final(self).views@.len() == old(self).views@.len(),
            forall|i: int|
                #![trigger final(self).views@[i]]
                0 <= i < old(self).views@.len() ==> {
                    let v = old(self).views@[i];
                    &&& final(self).views@[i] == (DatabaseView {
                        row_orders: final(self).views@[i].row_orders,
                        ..v
                    })
                    &&& final(self).views@[i].row_orders@ == match (
                        index_of_id(v.row_orders@, from_id@),
                        index_of_id(v.row_orders@, to_id@),
                    ) {
                        (Some(f), Some(t)) => moved(v.row_orders@, f, t),
                        _ => v.row_orders@,
                    }
                },
            r@.len() == old(self).views@.len(),
            forall|i: int|
                #![trigger r@[i]]
                0 <= i < old(self).views@.len() ==> move_event_of(old(self).views@[i], from_id@, to_id@, r@[i]),
    {
        let ghost old_views = self.views@;
        let mut changes: Vec<Option<DatabaseViewChange>> = Vec::new();
        let mut i: usize = 0;
        while i < self.views.len()
            invariant
                self.block == old(self).block,
                self.views@.len() == old_views.len(),
                i <= old_views.len(),
                changes@.len() == i,
                forall|j: int| i <= j < old_views.len() ==> self.views@[j] == old_views[j],
                forall|j: int| 0 <= j < old_views.len() ==> (#[trigger] old_views[j]).wf(),
                forall|j: int|
                    #![trigger self.views@[j]]
                    0 <= j < i ==> {
                        let v = old_views[j];
                        &&& self.views@[j] == (DatabaseView {
                            row_orders: self.views@[j].row_orders,
                            ..v
                        })
                        &&& self.views@[j].row_orders@ == match (
                            index_of_id(v.row_orders@, from_id@),
                            index_of_id(v.row_orders@, to_id@),
                        ) {
                            (Some(f), Some(t)) => moved(v.row_orders@, f, t),
                            _ => v.row_orders@,
                        }
                    },
                forall|j: int|
                    #![trigger changes@[j]]
                    0 <= j < i ==> move_event_of(old_views[j], from_id@, to_id@, changes@[j]),
            decreases old_views.len() - i,
        {
            let ghost v = self.views@[i as int];
            let change = self.views[i].move_row_order(from_id, to_id);
            let moved_now = change.is_some();
            changes.push(change);
            match moved_now {
                true => {},
                false => {
                    proof {
                        if let (Some(f), Some(t)) = (index_of_id(v.row_orders@, from_id@), index_of_id(v.row_orders@, to_id@)) {
                            crate::order::lemma_index_some(v.row_orders@, from_id@);
                            assert(v.row_orders@.remove(f).insert(f, v.row_orders@[f]) =~= v.row_orders@);
                        }
                    }
                },
            }
            i = i + 1;
        }
        proof {
            assert forall|jj: int| 0 <= jj < self.views@.len() implies (#[trigger] self.views@[jj]).wf() by {
                assert(old_views[jj].wf());
            }
        }
        proof {
            assert forall|k: int| #![trigger changes@[k]] 0 <= k < old_views.len() implies move_event_of(old_views[k], from_id@, to_id@, changes@[k]) by {}
        }
        changes
    }

    /// Creates a field. With a view id, that view places the field at
    /// `position` and every other view appends it; without one, every view
    /// places it at `position`. A field with the same id is replaced in
    /// place.
    pub fn create_field(
        &mut self,
        view_id: Option<&String>,
        field: Field,
        position: &OrderObjectPosition,
    )
        requires
            old(self).wf(),
        ensures
            final(self).wf(),
            final(self).block == old(self).block,
            final(self).fields@ == crate::order::upserted(old(self).fields@, field),
            final(self).views@.len() == old(self).views@.len(),
            forall|i: int|
                #![trigger final(self).views@[i]]
                0 <= i < old(self).views@.len() ==> {
                    let v = old(self).views@[i];
                    let pos = match view_id {
                        Some(id) => position_in_view(v, id@, *position),
                        None => *position,
                    };
                    &&& final(self).views@[i] == (DatabaseView {
                        field_orders: final(self).views@[i].field_orders,
                        ..v
                    })
                    &&& final(self).views@[i].field_orders@ == v.field_orders@.insert(
                        resolved_index(v.field_orders@, pos),
                        FieldOrder { id: field.id },
                    )
                },
    {
        let ghost old_views = self.views@;
        let mut i: usize = 0;
        while i < self.views.len()
            invariant
                self.block == old(self).block,
                self.fields == old(self).fields,
                self.views@.len() == old_views.len(),
                i <= old_views.len(),
                forall|j: int| i <= j < old_views.len() ==> self.views@[j] == old_views[j],
                forall|j: int| 0 <= j < old_views.len() ==> (#[trigger] old_views[j]).wf(),
                forall|j: int|
                    #![trigger self.views@[j]]
                    0 <= j < i ==> {
                        let v = old_views[j];
                        let pos = match view_id {
                            Some(id) => position_in_view(v, id@, *position),
                            None => *position,
                        };
                        &&& self.views@[j] == (DatabaseView {
                            field_orders: self.views@[j].field_orders,
                            ..v
                        })
                        &&& self.views@[j].field_orders@ == v.field_orders@.insert(
                            resolved_index(v.field_orders@, pos),
                            FieldOrder { id: field.id },
                        )
                    },
            decreases old_views.len() - i,
        {
            let pos = match view_id {
                Some(id) => if self.views[i].id == *id {
                    position.clone()
                } else {
                    OrderObjectPosition::End
                },
                None => position.clone(),
            };
            self.views[i].insert_field_order(FieldOrder { id: field.id.clone() }, &pos);
            i = i + 1;
        }
        proof {
            assert forall|jj: int| 0 <= jj < self.views@.len() implies (#[trigger] self.views@[jj]).wf() by {
                assert(old_views[jj].wf());
            }
        }
        crate::order::upsert(&mut self.fields, field);
    }

    /// Deletes a field: its stand-in leaves every view, then the field
    /// itself goes.
    pub fn delete_field(&mut self, field_id: &String)
        requires
            old(self).wf(),
        ensures
            final(self).wf(),
            final(self).block == old(self).block,
            final(self).fields@ == match index_of_id(old(self).fields@, field_id@) {
                Some(k) => old(self).fields@.remove(k),
                None => old(self).fields@,
            },
            final(self).views@.len() == old(self).views@.len(),
            forall|i: int|
                #![trigger final(self).views@[i]]
                0 <= i < old(self).views@.len() ==> {
                    let v = old(self).views@[i];
                    &&& final(self).views@[i] == (DatabaseView {
                        field_orders: final(self).views@[i].field_orders,
                        ..v
                    })
                    &&& final(self).views@[i].field_orders@ == match index_of_id(v.field_orders@, field_id@) {
                        Some(k) => v.field_orders@.remove(k),
                        None => v.field_orders@,
                    }
                },
    {
        let ghost old_views = self.views@;
        let mut i: usize = 0;
        while i < self.views.len()
            invariant
                self.block == old(self).block,
                self.fields == old(self).fields,
                self.views@.len() == old_views.len(),
                i <= old_views.len(),
                forall|j: int| i <= j < old_views.len() ==> self.views@[j] == old_views[j],
                forall|j: int| 0 <= j < old_views.len() ==> (#[trigger] old_views[j]).wf(),
                forall|j: int|
                    #![trigger self.views@[j]]
                    0 <= j < i ==> {
                        let v = old_views[j];
                        &&& self.views@[j] == (DatabaseView {
                            field_orders: self.views@[j].field_orders,
                            ..v
                        })
                        &&& self.views@[j].field_orders@ == match index_of_id(v.field_orders@, field_id@) {
                            Some(k) => v.field_orders@.remove(k),
                            None => v.field_orders@,
                        }
                    },
            decreases old_views.len() - i,
        {
            self.views[i].remove_field_order(field_id);
            i = i + 1;
        }
        proof {
            assert forall|jj: int| 0 <= jj < self.views@.len() implies (#[trigger] self.views@[jj]).wf() by {
                assert(old_views[jj].wf());
            }
        }
        crate::order::remove_by_id(&mut self.fields, field_id);
    }

    /// Deletes a view. Deleting the inline view deletes every view of the
    /// database; any other view goes alone. Returns the ids of the deleted
    /// views.
    pub fn delete_view(&mut self, view_id: &String) -> (r: Vec<String>)
        requires
            old(self).wf(),
        ensures
            final(self).wf(),
            final(self).block == old(self).block,
            final(self).fields == old(self).fields,
            view_id@ == old(self).inline_view_id@ ==> final(self).views@.len() == 0
                && r@.map_values(|s: String| s@) == old(self).views@.map_values(
                |v: DatabaseView| v.id@,
            ),
            view_id@ != old(self).inline_view_id@ ==> r@.len() == 1 && r@[0]@ == view_id@
                && final(self).views@ == match index_of_id(old(self).views@, view_id@) {
                Some(k) => old(self).views@.remove(k),
                None => old(self).views@,
            },
    {
        if *view_id == self.inline_view_id {
            let mut ids: Vec<String> = Vec::new();
            let mut i: usize = 0;
            while i < self.views.len()
                invariant
                    i <= self.views@.len(),
                    ids@.map_values(|s: String| s@) == self.views@.take(i as int).map_values(
                        |v: DatabaseView| v.id@,
                    ),
                decreases self.views@.len() - i,
            {
                let ghost pre = ids@;
                ids.push(self.views[i].id.clone());
                proof {
                    assert(self.views@.take(i + 1) =~= self.views@.take(i as int).push(self.views@[i as int]));
                    assert(ids@.map_values(|s: String| s@) =~= pre.map_values(|s: String| s@).push(self.views@[i as int].id@));
                    assert(self.views@.take(i + 1).map_values(|v: DatabaseView| v.id@) =~= self.views@.take(i as int).map_values(|v: DatabaseView| v.id@).push(self.views@[i as int].id@));
                }
                i = i + 1;
            }
            proof {
                assert(self.views@.take(self.views@.len() as int) =~= self.views@);
            }
            self.views = Vec::new();
            ids
        } else {
            let ghost s = self.views@;
            proof {
                if index_of_id(s, view_id@) is Some {
                    crate::order::lemma_index_some(s, view_id@);
                }
            }
            crate::order::remove_by_id(&mut self.views, view_id);
            proof {
                let t = self.views@;
                if let Some(k) = index_of_id(s, view_id@) {
                    assert forall|jj: int| 0 <= jj < t.len() implies (#[trigger] t[jj]).wf() by {
                        if jj < k {
                            assert(t[jj] == s[jj]);
                            assert(s[jj].wf());
                        } else {
                            assert(t[jj] == s[jj + 1]);
                            assert(s[jj + 1].wf());
                        }
                    }
                }
            }
            vec![view_id.clone()]
        }
    }

    /// The index of the row in the view; `None` where the view or the row
    /// is absent.
    pub fn index_of_row(&self, view_id: &String, row_id: &String) -> (r: Option<usize>)
        ensures
            r matches Some(k) ==> index_of_id(self.views@, view_id@) matches Some(t) && index_of_id(
                self.views@[t].row_orders@,
                row_id@,
            ) == Some(k as int),
            r is None ==> (index_of_id(self.views@, view_id@) matches Some(t) ==> index_of_id(
                self.views@[t].row_orders@,
                row_id@,
            ) is None),
    {
        match position_of(&self.views, view_id) {
            Some(t) => self.views[t].index_of_row(row_id),
            None => None,
        }
    }

    /// The index of the field in the view; `None` where the view or the
    /// field is absent.
    pub fn index_of_field(&self, view_id: &String, field_id: &String) -> (r: Option<usize>)
        ensures
            r matches Some(k) ==> index_of_id(self.views@, view_id@) matches Some(t) && index_of_id(
                self.views@[t].field_orders@,
                field_id@,
            ) == Some(k as int),
            r is None ==> (index_of_id(self.views@, view_id@) matches Some(t) ==> index_of_id(
                self.views@[t].field_orders@,
                field_id@,
            ) is None),
    {
        match position_of(&self.views, view_id) {
            Some(t) => self.views[t].index_of_field(field_id),
            None => None,
        }
    }

    /// Whether the view holds the row.
    pub fn contains_row(&self, view_id: &String, row_id: &String) -> (r: bool)
        ensures
            r == (index_of_id(self.views@, view_id@) matches Some(t) && index_of_id(
                self.views@[t].row_orders@,
                row_id@,
            ) is Some),
    {
        self.index_of_row(view_id, row_id).is_some()
    }

    /// The rows of the view in its order; an unresolved row degrades to an
    /// empty placeholder. An absent view has no rows.
    pub fn get_rows_for_view(&self, view_id: &String) -> (r: Vec<Row>)
        ensures
            match index_of_id(self.views@, view_id@) {
                Some(t) => r@.len() == self.views@[t].row_orders@.len() && forall|i: int|
                    0 <= i < r@.len() ==> #[trigger] crate::block::resolved_row(
                        self.block.cache(),
                        self.block.database_id@,
                        self.views@[t].row_orders@[i].id@,
                        r@[i],
                    ),
                None => r@.len() == 0,
            },
    {
        match position_of(&self.views, view_id) {
            Some(t) => self.block.get_rows_from_row_orders(&self.views[t].row_orders),
            None => Vec::new(),
        }
    }

    /// The fields of the view, in the view's field order; with `field_ids`,
    /// only those fields. Stand-ins without a field are skipped.
    pub fn get_fields_in_view(&self, view_id: &String, field_ids: &Option<Vec<String>>) -> (r: Vec<
        Field,
    >)
        ensures
            match index_of_id(self.views@, view_id@) {
                Some(t) => r@ == fields_in_order(
                    self.fields@,
                    self.views@[t].field_orders@,
                    match field_ids {
                        Some(ids) => Some(ids_view(ids@)),
                        None => None,
                    },
                    self.views@[t].field_orders@.len() as int,
                ),
                None => r@.len() == 0,
            },
    {
        let t = match position_of(&self.views, view_id) {
            Some(t) => t,
            None => {
                return Vec::new();
            },
        };
        let orders = &self.views[t].field_orders;
        let ghost wanted = match field_ids {
            Some(ids) => Some(ids_view(ids@)),
            None => None::<Seq<Seq<char>>>,
        };
        let mut out: Vec<Field> = Vec::new();
        let mut i: usize = 0;
        while i < orders.len()
            invariant
                i <= orders@.len(),
                wanted == match field_ids {
                    Some(ids) => Some(ids_view(ids@)),
                    None => None,
                },
                out@ == fields_in_order(self.fields@, orders@, wanted, i as int),
            decreases orders@.len() - i,
        {
            let id = &orders[i].id;
            let allowed = match field_ids {
                Some(ids) => crate::order::contains_id_in(ids, &orders[i]),
                None => true,
            };
            if allowed {
                match crate::order::get_by_id(&self.fields, id) {
                    Some(f) => out.push(f.clone()),
                    None => {},
                }
            }
            i = i + 1;
        }
        out
    }

    /// Creates a view of this database holding the given orders; a view
    /// with the same id is replaced.
    pub fn create_view(
        &mut self,
        params: CreateViewParams,
        field_orders: Vec<FieldOrder>,
        row_orders: Vec<RowOrder>,
    ) -> (r: Result<(), DatabaseError>)
        requires
            old(self).wf(),
        ensures
            final(self).wf(),
            final(self).block == old(self).block,
            final(self).fields == old(self).fields,
            params.view_id@.len() == 0 <==> r is Err,
            r matches Err(e) ==> e == DatabaseError::InvalidId && final(self).views == old(self).views,
            r is Ok ==> (index_of_id(final(self).views@, params.view_id@) matches Some(t) && {
                let v = final(self).views@[t];
                &&& v.database_id@ == old(self).database_id@
                &&& v.name == params.name
                &&& v.layout == params.layout
                &&& v.row_orders == row_orders
                &&& v.field_orders == field_orders
            }),
    {
        if params.view_id.as_str().is_empty() {
            return Err(DatabaseError::InvalidId);
        }
        let params = CreateViewParams { database_id: self.database_id.clone(), ..params };
        let view = params.into_view(row_orders, field_orders);
        let ghost v = view;
        self.insert_view(view);
        proof {
            crate::order::lemma_find_upserted(old(self).views@, v, v.id@);
            crate::order::lemma_index_some(self.views@, v.id@);
        }
        Ok(())
    }

    /// Creates a linked view, then every field it relies on that the
    /// database lacks, appended to every view.
    pub fn create_linked_view(
        &mut self,
        params: CreateViewParams,
        field_orders: Vec<FieldOrder>,
        row_orders: Vec<RowOrder>,
    ) -> (r: Result<(), DatabaseError>)
        requires
            old(self).wf(),
        ensures
            final(self).wf(),
            final(self).block == old(self).block,
            params.view_id@.len() == 0 <==> r is Err,
            r matches Err(e) ==> e == DatabaseError::InvalidId && final(self).views == old(self).views
                && final(self).fields == old(self).fields,
            r is Ok ==> (index_of_id(final(self).views@, params.view_id@) matches Some(k) && {
                let v = final(self).views@[k];
                &&& v.database_id@ == old(self).database_id@
                &&& v.name == params.name
                &&& v.layout == params.layout
                &&& v.row_orders == row_orders
                &&& v.field_orders@.len() >= field_orders@.len()
                &&& v.field_orders@.take(field_orders@.len() as int) == field_orders@
            }),
            r is Ok ==> forall|i: int, j: int|
                0 <= i < final(self).views@.len() && 0 <= j < params.deps_fields@.len()
                    && !crate::order::contains_id(old(self).fields@, params.deps_fields@[j].id@)
                    ==> crate::order::contains_id(
                    #[trigger] final(self).views@[i].field_orders@,
                    #[trigger] params.deps_fields@[j].id@,
                ),
            r is Ok ==> forall|i: int|
                0 <= i < params.deps_fields@.len() ==> crate::order::contains_id(
                    final(self).fields@,
                    #[trigger] params.deps_fields@[i].id@,
                ),
            forall|k: Seq<char>|
                crate::order::contains_id(old(self).fields@, k) ==> #[trigger] crate::order::contains_id(
                    final(self).fields@,
                    k,
                ),
    {
        let ghost deps = params.deps_fields@;
        let ghost view_id = params.view_id@;
        let mut params = params;
        let mut deps_fields: Vec<Field> = Vec::new();
        std::mem::swap(&mut deps_fields, &mut params.deps_fields);
        match self.create_view(params, field_orders, row_orders) {
            Ok(()) => {},
            Err(e) => {
                return Err(e);
            },
        }
        let ghost views_after = self.views@;
        let ghost fields_before = self.fields@;
        let mut src = deps_fields;
        let total = src.len();
        let mut i: usize = 0;
        while src.len() > 0
            invariant
                self.wf(),
                self.block == old(self).block,
                i <= total,
                total == deps.len(),
                src@ == deps.skip(i as int),
                self.views@.len() == views_after.len(),
                forall|j: int| 0 <= j < views_after.len() ==> (#[trigger] self.views@[j]).id == views_after[j].id,
                forall|j: int|
                    0 <= j < views_after.len() ==> #[trigger] self.views@[j] == (DatabaseView {
                        field_orders: self.views@[j].field_orders,
                        ..views_after[j]
                    }),
                forall|j: int|
                    0 <= j < views_after.len() ==> (#[trigger] self.views@[j]).field_orders@.len()
                        >= views_after[j].field_orders@.len() && self.views@[j].field_orders@.take(
                        views_after[j].field_orders@.len() as int,
                    ) == views_after[j].field_orders@,
                fields_before == old(self).fields@,
                forall|k: Seq<char>, vi: int|
                    0 <= vi < views_after.len() && crate::order::contains_id(self.fields@, k)
                        && !crate::order::contains_id(fields_before, k)
                        ==> #[trigger] crate::order::contains_id(self.views@[vi].field_orders@, k),
                index_of_id(views_after, view_id) is Some,
                forall|j: int| 0 <= j < i ==> crate::order::contains_id(self.fields@, #[trigger] deps[j].id@),
                forall|k: Seq<char>|
                    crate::order::contains_id(old(self).fields@, k) ==> #[trigger] crate::order::contains_id(
                        self.fields@,
                        k,
                    ),
            decreases src@.len(),
        {
            proof {
                assert(src@[0] == deps[i as int]);
            }
            let field = src.remove(0);
            let ghost fs = self.fields@;
            let ghost fid = field.id@;
            let ghost vs = self.views@;
            if position_of(&self.fields, &field.id).is_none() {
                self.create_field(None, field, &OrderObjectPosition::End);
                proof {
                    assert forall|vi: int| 0 <= vi < vs.len() implies self.views@[vi].field_orders@
                        == vs[vi].field_orders@.push(FieldOrder { id: deps[i as int].id }) by {
                        assert(vs[vi].field_orders@.insert(vs[vi].field_orders@.len() as int, FieldOrder { id: deps[i as int].id }) =~= vs[vi].field_orders@.push(FieldOrder { id: deps[i as int].id }));
                    }
                    assert forall|j: int| 0 <= j < views_after.len() implies (#[trigger] self.views@[j]).field_orders@.len()
                        >= views_after[j].field_orders@.len() && self.views@[j].field_orders@.take(
                        views_after[j].field_orders@.len() as int,
                    ) == views_after[j].field_orders@ by {
                        assert(vs[j].field_orders@.take(views_after[j].field_orders@.len() as int) == views_after[j].field_orders@);
                        assert(self.views@[j].field_orders@.take(views_after[j].field_orders@.len() as int) =~= vs[j].field_orders@.take(views_after[j].field_orders@.len() as int));
                    }
                    assert forall|k: Seq<char>, vi: int|
                        0 <= vi < views_after.len() && crate::order::contains_id(self.fields@, k)
                            && !crate::order::contains_id(fields_before, k)
                            implies #[trigger] crate::order::contains_id(self.views@[vi].field_orders@, k) by {
                        crate::order::lemma_contains_push(vs[vi].field_orders@, FieldOrder { id: deps[i as int].id }, k);
                        crate::order::lemma_find_upserted(fs, deps[i as int], k);
                        if k != fid {
                            if crate::order::contains_id(self.fields@, k) {
                                let w = choose|w: int| 0 <= w < self.fields@.len() && self.fields@[w].spec_id() == k;
                                crate::order::lemma_first_exists(self.fields@, k, w);
                                crate::order::lemma_index_some(self.fields@, k);
                                crate::order::lemma_index_some(fs, k);
                            }
                            assert(crate::order::contains_id(vs[vi].field_orders@, k));
                        }
                    }
                    crate::order::lemma_find_upserted(fs, deps[i as int], fid);
                    crate::order::lemma_index_some(self.fields@, fid);
                    assert forall|k: Seq<char>| crate::order::contains_id(fs, k) implies #[trigger] crate::order::contains_id(self.fields@, k) by {
                        crate::order::lemma_find_upserted(fs, deps[i as int], k);
                        let w = choose|w: int| 0 <= w < fs.len() && fs[w].spec_id() == k;
                        crate::order::lemma_first_exists(fs, k, w);
                        crate::order::lemma_index_some(fs, k);
                        if k != fid {
                            crate::order::lemma_index_some(self.fields@, k);
                        }
                    }
                }
            } else {
                proof {
                    crate::order::lemma_index_some(fs, fid);
                }
            }
            proof {
                assert(deps.skip(i as int).remove(0) =~= deps.skip(i + 1));
                crate::order::lemma_index_same_ids(views_after, self.views@, view_id);
            }
            i = i + 1;
        }
        proof {
            crate::order::lemma_index_same_ids(views_after, self.views@, view_id);
            let k = index_of_id(views_after, view_id)->0;
            crate::order::lemma_index_some(views_after, view_id);
            assert(self.views@[k] == (DatabaseView { field_orders: self.views@[k].field_orders, ..views_after[k] }));
        }
        Ok(())
    }

    /// Upserts a record into a collection of the view `view_id`. Returns
    /// whether the view exists; nothing changes where it does not.
    pub fn upsert_view_record(&mut self, view_id: &String, kind: RecordKind, record: RecordMap) -> (r:
        bool)
        requires
            old(self).wf(),
        ensures
            final(self).wf(),
            final(self).block == old(self).block,
            final(self).fields == old(self).fields,
            r == index_of_id(old(self).views@, view_id@) is Some,
            match index_of_id(old(self).views@, view_id@) {
                Some(k) => only_collection_changed(old(self).views@, final(self).views@, k, kind)
                    && collection_of(final(self).views@[k], kind).items@ == crate::order::upserted(
                    collection_of(old(self).views@[k], kind).items@,
                    record,
                ),
                None => final(self).views == old(self).views,
            },
    {
        let k = match position_of(&self.views, view_id) {
            Some(k) => k,
            None => {
                return false;
            },
        };
        let ghost s = self.views@;
        match kind {
            RecordKind::Filter => {
                self.views[k].filters.upsert(record);
            },
            RecordKind::Sort => {
                self.views[k].sorts.upsert(record);
            },
            RecordKind::Group => {
                self.views[k].group_settings.upsert(record);
            },
            RecordKind::Calculation => {
                self.views[k].calculations.upsert(record);
            },
        }
        proof {
            assert forall|i: int| 0 <= i < self.views@.len() implies (#[trigger] self.views@[i]).wf() by {
                assert(s[i].wf());
            }
        }
        true
    }

    /// Removes a record from a collection of the view `view_id`. Returns
    /// whether the view exists.
    pub fn remove_view_record(&mut self, view_id: &String, kind: RecordKind, record_id: &String) -> (r:
        bool)
        requires
            old(self).wf(),
        ensures
            final(self).wf(),
            final(self).block == old(self).block,
            final(self).fields == old(self).fields,
            r == index_of_id(old(self).views@, view_id@) is Some,
            match index_of_id(old(self).views@, view_id@) {
                Some(k) => only_collection_changed(old(self).views@, final(self).views@, k, kind)
                    && collection_of(final(self).views@[k], kind).items@ == match index_of_id(
                    collection_of(old(self).views@[k], kind).items@,
                    record_id@,
                ) {
                    Some(j) => collection_of(old(self).views@[k], kind).items@.remove(j),
                    None => collection_of(old(self).views@[k], kind).items@,
                },
                None => final(self).views == old(self).views,
            },
    {
        let k = match position_of(&self.views, view_id) {
            Some(k) => k,
            None => {
                return false;
            },
        };
        let ghost s = self.views@;
        match kind {
            RecordKind::Filter => {
                self.views[k].filters.remove_by_id(record_id);
            },
            RecordKind::Sort => {
                self.views[k].sorts.remove_by_id(record_id);
            },
            RecordKind::Group => {
                self.views[k].group_settings.remove_by_id(record_id);
            },
            RecordKind::Calculation => {
                self.views[k].calculations.remove_by_id(record_id);
            },
        }
        proof {
            assert forall|i: int| 0 <= i < self.views@.len() implies (#[trigger] self.views@[i]).wf() by {
                assert(s[i].wf());
            }
        }
        true
    }

    /// Moves the record `from_id` of a collection of the view `view_id` to
    /// the index that `to_id` holds. Returns whether it moved.
    pub fn move_view_record(
        &mut self,
        view_id: &String,
        kind: RecordKind,
        from_id: &String,
        to_id: &String,
    ) -> (r: bool)
        requires
            old(self).wf(),
        ensures
            final(self).wf(),
            final(self).block == old(self).block,
            final(self).fields == old(self).fields,
            match index_of_id(old(self).views@, view_id@) {
                Some(k) => only_collection_changed(old(self).views@, final(self).views@, k, kind) && (r
                    ==> (index_of_id(collection_of(old(self).views@[k], kind).items@, from_id@)
                    matches Some(f) && index_of_id(
                    collection_of(old(self).views@[k], kind).items@,
                    to_id@,
                ) matches Some(t) && collection_of(final(self).views@[k], kind).items@ == moved(
                    collection_of(old(self).views@[k], kind).items@,
                    f,
                    t,
                ))) && (!r ==> collection_of(final(self).views@[k], kind).items@ == collection_of(
                    old(self).views@[k],
                    kind,
                ).items@) && r == crate::order::movable(
                    collection_of(old(self).views@[k], kind).items@,
                    from_id@,
                    to_id@,
                ),
                None => !r && final(self).views == old(self).views,
            },
    {
        let k = match position_of(&self.views, view_id) {
            Some(k) => k,
            None => {
                return false;
            },
        };
        let ghost s = self.views@;
        let r = match kind {
            RecordKind::Filter => self.views[k].filters.move_record(from_id, to_id),
            RecordKind::Sort => self.views[k].sorts.move_record(from_id, to_id),
            RecordKind::Group => self.views[k].group_settings.move_record(from_id, to_id),
            RecordKind::Calculation => self.views[k].calculations.move_record(from_id, to_id),
        };
        proof {
            assert forall|i: int| 0 <= i < self.views@.len() implies (#[trigger] self.views@[i]).wf() by {
                assert(s[i].wf());
            }
        }
        r
    }

    /// Removes every record of a collection of the view `view_id`. Returns
    /// whether the view exists.
    pub fn clear_view_records(&mut self, view_id: &String, kind: RecordKind) -> (r: bool)
        requires
            old(self).wf(),
        ensures
            final(self).wf(),
            final(self).block == old(self).block,
            final(self).fields == old(self).fields,
            r == index_of_id(old(self).views@, view_id@) is Some,
            match index_of_id(old(self).views@, view_id@) {
                Some(k) => only_collection_changed(old(self).views@, final(self).views@, k, kind)
                    && collection_of(final(self).views@[k], kind).items@.len() == 0,
                None => final(self).views == old(self).views,
            },
    {
        let k = match position_of(&self.views, view_id) {
            Some(k) => k,
            None => {
                return false;
            },
        };
        let ghost s = self.views@;
        match kind {
            RecordKind::Filter => self.views[k].filters.clear(),
            RecordKind::Sort => self.views[k].sorts.clear(),
            RecordKind::Group => self.views[k].group_settings.clear(),
            RecordKind::Calculation => self.views[k].calculations.clear(),
        }
        proof {
            assert forall|i: int| 0 <= i < self.views@.len() implies (#[trigger] self.views@[i]).wf() by {
                assert(s[i].wf());
            }
        }
        true
    }

    /// A copy of the record `record_id` of a collection of the view
    /// `view_id`.
    pub fn get_view_record(&self, view_id: &String, kind: RecordKind, record_id: &String) -> (r:
        Option<RecordMap>)
        ensures
            r matches Some(x) ==> index_of_id(self.views@, view_id@) matches Some(k)
                && crate::order::find(collection_of(self.views@[k], kind).items@, record_id@) matches Some(y)
                && x@ == y@,
            r is None ==> (index_of_id(self.views@, view_id@) matches Some(k) ==> crate::order::find(
                collection_of(self.views@[k], kind).items@,
                record_id@,
            ) is None),
    {
        let k = match position_of(&self.views, view_id) {
            Some(k) => k,
            None => {
                return None;
            },
        };
        let view = &self.views[k];
        let found = match kind {
            RecordKind::Filter => view.filters.get(record_id),
            RecordKind::Sort => view.sorts.get(record_id),
            RecordKind::Group => view.group_settings.get(record_id),
            RecordKind::Calculation => view.calculations.get(record_id),
        };
        match found {
            Some(x) => Some(x.clone()),
            None => None,
        }
    }

    /// A copy of every record of a collection of the view `view_id`, in
    /// order; none where the view is absent.
    pub fn get_all_view_records(&self, view_id: &String, kind: RecordKind) -> (r: Vec<RecordMap>)
        ensures
            match index_of_id(self.views@, view_id@) {
                Some(k) => crate::record::records_view(r@) == crate::record::records_view(
                    collection_of(self.views@[k], kind).items@,
                ),
                None => r@.len() == 0,
            },
    {
        let k = match position_of(&self.views, view_id) {
            Some(k) => k,
            None => {
                return Vec::new();
            },
        };
        let view = &self.views[k];
        match kind {
            RecordKind::Filter => view.filters.get_all(),
            RecordKind::Sort => view.sorts.get_all(),
            RecordKind::Group => view.group_settings.get_all(),
            RecordKind::Calculation => view.calculations.get_all(),
        }
    }

    /// The row `row_id`, or an empty placeholder where it is not cached.
    pub fn get_row(&self, row_id: &String) -> (r: Row)
        ensures
            crate::block::resolved_row(self.block.cache(), self.block.database_id@, row_id@, r),
    {
        match self.block.get_row(row_id) {
            Some(row) => row,
            None => Row::empty(row_id.clone(), self.block.database_id.as_str()),
        }
    }

    /// The cell of `field_id` in the cached row `row_id`.
    pub fn get_cell(&self, row_id: &String, field_id: &String) -> (r: Option<crate::cell::Cell>)
        requires
            self.wf(),
        ensures
            r matches Some(x) ==> crate::block::ready_cell(self.block.cache(), row_id@, field_id@)
                == Some(x@),
            r is None ==> crate::block::ready_cell(self.block.cache(), row_id@, field_id@) is None,
    {
        self.block.get_cell(row_id, field_id)
    }

    /// Looks the row up through the row store, which may request a fetch;
    /// see `Block::get_or_init_row`.
    pub fn get_database_row(&mut self, row_id: &String, local: Option<RowDocument>) -> (r: RowLookup)
        requires
            old(self).wf(),
        ensures
            final(self).wf(),
            final(self).views == old(self).views,
            final(self).fields == old(self).fields,
            final(self).block.cache() == crate::block::cache_after_lookup(
                old(self).block.cache(),
                row_id@,
                match local {
                    Some(doc) => Some(
                        RowSlotView::Ready(crate::block::materialized(old(self).block.uid, row_id@, doc)),
                    ),
                    None => None,
                },
            ),
            r matches RowLookup::Pending(Some(_)) ==> crate::block::lookup_dispatches(
                old(self).block.cache(),
                row_id@,
                local is Some,
            ),
            r matches RowLookup::Pending(None) ==> !crate::block::lookup_dispatches(
                old(self).block.cache(),
                row_id@,
                local is Some,
            ),
    {
        self.block.get_or_init_row(row_id, local)
    }

    /// Commits an update of the row `row_id`; see `Block::update_row`.
    pub fn update_row(&mut self, row_id: &String, update: RowUpdate) -> (r: Vec<RowChange>)
        requires
            old(self).wf(),
            update.row.id@ == row_id@,
            update.row.cells.wf(),
        ensures
            final(self).wf(),
            final(self).views == old(self).views,
            final(self).fields == old(self).fields,
            ready_data(old(self).block.cache(), row_id@) is Some ==> r == update.changes
                && ready_data(final(self).block.cache(), row_id@) == Some(update.row@),
            ready_data(old(self).block.cache(), row_id@) is None ==> r@.len() == 0
                && final(self).block.cache() == old(self).block.cache(),
    {
        self.block.update_row(row_id, update)
    }

    /// The stand-ins of the view's rows, in order; none where the view is
    /// absent.
    pub fn get_row_orders_for_view(&self, view_id: &String) -> (r: Vec<RowOrder>)
        ensures
            match index_of_id(self.views@, view_id@) {
                Some(k) => r@ == self.views@[k].row_orders@,
                None => r@.len() == 0,
            },
    {
        match position_of(&self.views, view_id) {
            Some(k) => crate::order::copy_all(&self.views[k].row_orders),
            None => Vec::new(),
        }
    }

    /// The rows of the inline view, in order.
    pub fn get_all_rows(&self) -> (r: Vec<Row>)
        ensures
            match index_of_id(self.views@, self.inline_view_id@) {
                Some(t) => r@.len() == self.views@[t].row_orders@.len() && forall|i: int|
                    0 <= i < r@.len() ==> #[trigger] crate::block::resolved_row(
                        self.block.cache(),
                        self.block.database_id@,
                        self.views@[t].row_orders@[i].id@,
                        r@[i],
                    ),
                None => r@.len() == 0,
            },
    {
        self.get_rows_for_view(&self.inline_view_id)
    }

    pub fn is_inline_view(&self, view_id: &String) -> (r: bool)
        ensures
            r == (view_id@ == self.inline_view_id@),
    {
        *view_id == self.inline_view_id
    }

    /// Parameters that duplicate the cached row `row_id`: a new id, the
    /// same cells, height and visibility, placed right after the copied row,
    /// stamped `now`.
    pub fn duplicate_row(&self, row_id: &String, new_id: String, now: i64) -> (r: Option<CreateRowParams>)
        ensures
            r is Some == ready_data(self.block.cache(), row_id@) is Some,
            r matches Some(p) ==> {
                let d = ready_data(self.block.cache(), row_id@)->0;
                &&& p.id@ == new_id@
                &&& p.database_id@ == self.database_id@
                &&& p.cells@ == d.cells
                &&& p.height == d.height
                &&& p.visibility == d.visibility
                &&& p.row_position == OrderObjectPosition::After(*row_id)
                &&& p.created_at == now
                &&& p.modified_at == now
            },
    {
        match self.block.get_row(row_id) {
            Some(row) => Some(
                CreateRowParams {
                    id: new_id,
                    database_id: self.database_id.clone(),
                    cells: row.cells,
                    height: row.height,
                    visibility: row.visibility,
                    row_position: OrderObjectPosition::After(row_id.clone()),
                    created_at: now,
                    modified_at: now,
                },
            ),
            None => None,
        }
    }

    /// A snapshot of the database: its views, its fields and the rows of
    /// the inline view, unresolved rows as placeholders.
    pub fn get_database_data(&self) -> (r: DatabaseData)
        ensures
            r.database_id == self.database_id,
            r.inline_view_id == self.inline_view_id,
            r.fields@ == self.fields@,
            r.views@.len() == self.views@.len(),
            forall|i: int|
                0 <= i < self.views@.len() ==> crate::view::same_view(
                    #[trigger] r.views@[i],
                    self.views@[i],
                ),
            match index_of_id(self.views@, self.inline_view_id@) {
                Some(t) => r.rows@.len() == self.views@[t].row_orders@.len() && forall|i: int|
                    0 <= i < r.rows@.len() ==> #[trigger] crate::block::resolved_row(
                        self.block.cache(),
                        self.block.database_id@,
                        self.views@[t].row_orders@[i].id@,
                        r.rows@[i],
                    ),
                None => r.rows@.len() == 0,
            },
    {
        let mut views: Vec<DatabaseView> = Vec::new();
        let mut i: usize = 0;
        while i < self.views.len()
            invariant
                i <= self.views@.len(),
                views@.len() == i,
                forall|j: int|
                    0 <= j < i ==> crate::view::same_view(#[trigger] views@[j], self.views@[j]),
            decreases self.views@.len() - i,
        {
            views.push(self.views[i].clone());
            i = i + 1;
        }
        DatabaseData {
            database_id: self.database_id.clone(),
            inline_view_id: self.inline_view_id.clone(),
            views,
            fields: crate::order::copy_all(&self.fields),
            rows: self.get_all_rows(),
        }
    }

    /// Copies the view `view_id` under a new id, named after it with
    /// `-copy`, stamped `now`, and adds the copy. Returns the copy's id and
    /// name; `None` where the view is absent.
    pub fn duplicate_linked_view(&mut self, view_id: &String, new_id: String, now: i64) -> (r: Option<
        (String, String),
    >)
        requires
            old(self).wf(),
        ensures
            final(self).wf(),
            final(self).block == old(self).block,
            final(self).fields == old(self).fields,
            r is Some == index_of_id(old(self).views@, view_id@) is Some,
            r is None ==> final(self).views == old(self).views,
            r matches Some((id, name)) ==> {
                let src = old(self).views@[index_of_id(old(self).views@, view_id@)->0];
                &&& id@ == new_id@
                &&& name@ == src.name@ + "-copy"@
                &&& index_of_id(final(self).views@, new_id@) matches Some(k) && {
                    let v = final(self).views@[k];
                    &&& v.name@ == name@
                    &&& v.database_id == src.database_id
                    &&& v.layout == src.layout
                    &&& v.row_orders@ == src.row_orders@
                    &&& v.field_orders@ == src.field_orders@
                    &&& v.created_at == now
                    &&& v.modified_at == now
                }
            },
    {
        let k = match position_of(&self.views, view_id) {
            Some(k) => k,
            None => {
                return None;
            },
        };
        proof {
            crate::order::lemma_index_some(self.views@, view_id@);
        }
        let copy = self.views[k].clone();
        let mut name = copy.name.clone();
        name.append("-copy");
        let id = new_id.clone();
        let view = DatabaseView {
            id: new_id,
            name: name.clone(),
            created_at: now,
            modified_at: now,
            ..copy
        };
        let ghost v = view;
        self.insert_view(view);
        proof {
            crate::order::lemma_find_upserted(old(self).views@, v, v.id@);
            crate::order::lemma_index_some(self.views@, v.id@);
        }
        Some((id, name))
    }

    /// Sets the layout of the view `view_id`. Returns whether the view
    /// exists.
    pub fn update_layout_type(&mut self, view_id: &String, layout: DatabaseLayout) -> (r: bool)
        requires
            old(self).wf(),
        ensures
            final(self).wf(),
            final(self).block == old(self).block,
            final(self).fields == old(self).fields,
            r == index_of_id(old(self).views@, view_id@) is Some,
            match index_of_id(old(self).views@, view_id@) {
                Some(k) => final(self).views@ == old(self).views@.update(
                    k,
                    DatabaseView { layout, ..old(self).views@[k] },
                ),
                None => final(self).views == old(self).views,
            },
    {
        let k = match position_of(&self.views, view_id) {
            Some(k) => k,
            None => {
                return false;
            },
        };
        let ghost s = self.views@;
        self.views[k].layout = layout;
        proof {
            assert(self.views@ =~= s.update(k as int, DatabaseView { layout, ..s[k as int] }));
            assert forall|i: int| 0 <= i < self.views@.len() implies (#[trigger] self.views@[i]).wf() by {
                assert(s[i].wf());
            }
        }
        true
    }

    /// Opens an update of the view `view_id` on a whole copy of it; commit
    /// it with `update_database_view`.
    pub fn begin_view_update(&self, view_id: &String) -> (r: Option<crate::view::ViewUpdate>)
        requires
            self.wf(),
        ensures
            r is Some == index_of_id(self.views@, view_id@) is Some,
            r matches Some(u) ==> crate::view::same_view(u.view, self.views@[index_of_id(self.views@, view_id@)->0])
                && u.view.wf(),
    {
        match position_of(&self.views, view_id) {
            Some(k) => {
                proof {
                    crate::order::lemma_index_some(self.views@, view_id@);
                    assert(self.views@[k as int].wf());
                }
                Some(crate::view::ViewUpdate::new(self.views[k].clone()))
            },
            None => None,
        }
    }

    /// Commits a view update: the view with the update's id is replaced in
    /// place. Returns whether such a view exists; nothing changes where it
    /// does not.
    pub fn update_database_view(&mut self, update: crate::view::ViewUpdate) -> (r: bool)
        requires
            old(self).wf(),
            update.view.wf(),
        ensures
            final(self).wf(),
            final(self).block == old(self).block,
            final(self).fields == old(self).fields,
            r == index_of_id(old(self).views@, update.view.id@) is Some,
            r ==> final(self).views@ == old(self).views@.update(
                index_of_id(old(self).views@, update.view.id@)->0,
                update.view,
            ),
            !r ==> final(self).views == old(self).views,
    {
        let view = update.done();
        match position_of(&self.views, &view.id) {
            Some(_) => {
                self.insert_view(view);
                proof {
                    crate::order::lemma_index_some(old(self).views@, view.id@);
                }
                true
            },
            None => false,
        }
    }

    /// A whole copy of every view, in order.
    pub fn get_all_views(&self) -> (r: Vec<DatabaseView>)
        ensures
            r@.len() == self.views@.len(),
            forall|i: int| 0 <= i < r@.len() ==> crate::view::same_view(#[trigger] r@[i], self.views@[i]),
    {
        let mut views: Vec<DatabaseView> = Vec::new();
        let mut i: usize = 0;
        while i < self.views.len()
            invariant
                i <= self.views@.len(),
                views@.len() == i,
                forall|j: int|
                    0 <= j < i ==> crate::view::same_view(#[trigger] views@[j], self.views@[j]),
            decreases self.views@.len() - i,
        {
            views.push(self.views[i].clone());
            i = i + 1;
        }
        views
    }

    /// One stand-in per field of the database, in the fields' order.
    pub fn get_all_field_orders(&self) -> (r: Vec<FieldOrder>)
        ensures
            r@.len() == self.fields@.len(),
            forall|i: int| 0 <= i < r@.len() ==> (#[trigger] r@[i]).id == self.fields@[i].id,
    {
        let mut orders: Vec<FieldOrder> = Vec::new();
        let mut i: usize = 0;
        while i < self.fields.len()
            invariant
                i <= self.fields@.len(),
                orders@.len() == i,
                forall|j: int| 0 <= j < i ==> (#[trigger] orders@[j]).id == self.fields@[j].id,
            decreases self.fields@.len() - i,
        {
            orders.push(FieldOrder { id: self.fields[i].id.clone() });
            i = i + 1;
        }
        orders
    }

    /// The layout of the view `view_id`.
    pub fn get_database_view_layout(&self, view_id: &String) -> (r: Option<DatabaseLayout>)
        ensures
            r == match index_of_id(self.views@, view_id@) {
                Some(k) => Some(self.views@[k].layout),
                None => None::<DatabaseLayout>,
            },
    {
        match position_of(&self.views, view_id) {
            Some(k) => Some(self.views[k].layout),
            None => None,
        }
    }

    /// The ids of the rows that fill the first screen: the first
    /// `FIRST_SCREEN_ROWS` rows of the inline view, in order. The caller
    /// hands them, with what the local store holds for each, to
    /// `Block::batch_load_rows`.
    pub fn first_screen_row_ids(&self) -> (r: Vec<String>)
        ensures
            match index_of_id(self.views@, self.inline_view_id@) {
                Some(t) => {
                    let orders = self.views@[t].row_orders@;
                    let n = if orders.len() < FIRST_SCREEN_ROWS {
                        orders.len() as int
                    } else {
                        FIRST_SCREEN_ROWS as int
                    };
                    &&& r@.len() == n
                    &&& forall|i: int| 0 <= i < n ==> (#[trigger] r@[i])@ == orders[i].id@
                },
                None => r@.len() == 0,
            },
    {
        let t = match position_of(&self.views, &self.inline_view_id) {
            Some(t) => t,
            None => {
                return Vec::new();
            },
        };
        let orders = &self.views[t].row_orders;
        let mut ids: Vec<String> = Vec::new();
        let mut i: usize = 0;
        while i < orders.len() && i < FIRST_SCREEN_ROWS
            invariant
                i <= orders@.len(),
                i <= FIRST_SCREEN_ROWS,
                ids@.len() == i,
                forall|j: int| 0 <= j < i ==> (#[trigger] ids@[j])@ == orders@[j].id@,
            decreases orders@.len() - i,
        {
            ids.push(orders[i].id.clone());
            i = i + 1;
        }
        ids
    }

    /// The detail of the cached row `row_id`: its data, its metadata and
    /// its document id; `None` where the row is not cached with data or its
    /// id is not a UUID.
    pub fn get_row_detail(&self, row_id: &String) -> (r: Option<crate::row::RowDetail>)
        requires
            self.wf(),
        ensures
            r is Some == (ready_data(self.block.cache(), row_id@) is Some && crate::ids::is_uuid_text(
                row_id@,
            )),
            r matches Some(d) ==> Some(d.row@) == ready_data(self.block.cache(), row_id@)
                && Some(d.meta) == match crate::block::ready_row(self.block.cache(), row_id@) {
                Some(v) => Some(v.meta),
                None => None::<crate::row::RowMeta>,
            } && d.document_id@ == crate::ids::namespaced_id(row_id@, "document_id"@),
    {
        match (self.block.get_row(row_id), self.block.get_row_meta(row_id)) {
            (Some(row), Some(meta)) => {
                proof {
                    crate::block::lemma_ready_row_id(self.block.cache(), row_id@);
                }
                crate::row::RowDetail::new(row, meta)
            },
            _ => None,
        }
    }

    /// The cell of `field_id` of every row of the view, in the view's order;
    /// rows that are not cached give no cell. An absent view gives none.
    pub fn get_cells_for_field(&self, view_id: &String, field_id: &String) -> (r: Vec<
        crate::cell::RowCell,
    >)
        requires
            self.wf(),
        ensures
            match index_of_id(self.views@, view_id@) {
                Some(t) => r@.len() == self.views@[t].row_orders@.len() && forall|i: int|
                    0 <= i < r@.len() ==> {
                        let id = self.views@[t].row_orders@[i].id@;
                        &&& (#[trigger] r@[i]).row_id@ == id
                        &&& match r@[i].cell {
                            Some(c) => crate::block::ready_cell(self.block.cache(), id, field_id@)
                                == Some(c@),
                            None => crate::block::ready_cell(self.block.cache(), id, field_id@) is None,
                        }
                    },
                None => r@.len() == 0,
            },
    {
        let t = match position_of(&self.views, view_id) {
            Some(t) => t,
            None => {
                return Vec::new();
            },
        };
        let orders = &self.views[t].row_orders;
        let mut cells: Vec<crate::cell::RowCell> = Vec::new();
        let mut i: usize = 0;
        while i < orders.len()
            invariant
                self.wf(),
                i <= orders@.len(),
                cells@.len() == i,
                forall|j: int|
                    0 <= j < i ==> {
                        let id = orders@[j].id@;
                        &&& (#[trigger] cells@[j]).row_id@ == id
                        &&& match cells@[j].cell {
                            Some(c) => crate::block::ready_cell(self.block.cache(), id, field_id@)
                                == Some(c@),
                            None => crate::block::ready_cell(self.block.cache(), id, field_id@) is None,
                        }
                    },
            decreases orders@.len() - i,
        {
            let id = &orders[i].id;
            let cell = self.block.get_cell(id, field_id);
            cells.push(crate::cell::RowCell::new(id.clone(), cell));
            i = i + 1;
        }
        cells
    }

    /// Creates a row from `view_id`: the row is materialized in the row
    /// store, then its stand-in goes into every view, at the caller's
    /// position in `view_id` and at the end of every other view. Returns the
    /// index the row took in `view_id`, its stand-in and one insert event
    /// per view.
    pub fn create_row_in_view(&mut self, view_id: &String, params: CreateRowParams, now: i64) -> (r:
        Result<(usize, RowOrder, Vec<DatabaseViewChange>), DatabaseError>)
        requires
            old(self).wf(),
            params.cells.wf(),
        ensures
            final(self).wf(),
            params.id@.len() == 0 ==> r == Err::<(usize, RowOrder, Vec<DatabaseViewChange>), DatabaseError>(DatabaseError::InvalidId),
            params.id@.len() > 0 && index_of_id(old(self).views@, view_id@) is None ==> r == Err::<
                (usize, RowOrder, Vec<DatabaseViewChange>),
                DatabaseError,
            >(DatabaseError::ViewNotFound),
            r is Err ==> final(self).views == old(self).views && final(self).block == old(
                self,
            ).block,
            params.id@.len() > 0 && index_of_id(old(self).views@, view_id@) is Some ==> r is Ok,
            r matches Ok((index, order, changes)) ==> {
                &&& order.id@ == params.id@
                &&& order.height == params.height
                &&& final(self).block.cache().dom().contains(params.id@)
                &&& final(self).views@.len() == old(self).views@.len()
                &&& changes@.len() == old(self).views@.len()
                &&& forall|i: int|
                    #![trigger final(self).views@[i]]
                    0 <= i < old(self).views@.len() ==> {
                        let v = old(self).views@[i];
                        let k = resolved_index(
                            v.row_orders@,
                            position_in_view(v, view_id@, params.row_position),
                        );
                        &&& final(self).views@[i] == (DatabaseView {
                            row_orders: final(self).views@[i].row_orders,
                            ..v
                        })
                        &&& final(self).views@[i].row_orders@ == v.row_orders@.insert(k, order)
                        &&& is_insert_change(changes@[i], v.id@, order, k)
                    }
                &&& index_of_id(old(self).views@, view_id@) matches Some(t) && index == resolved_index(
                    old(self).views@[t].row_orders@,
                    params.row_position,
                )
            },
    {
        if params.id.as_str().is_empty() {
            return Err(DatabaseError::InvalidId);
        }
        let target = match position_of(&self.views, view_id) {
            Some(t) => t,
            None => {
                return Err(DatabaseError::ViewNotFound);
            },
        };
        let params = match validate_row_params(params, now) {
            Ok(p) => p,
            Err(_) => {
                return Err(DatabaseError::InvalidId);
            },
        };
        let position = params.row_position.clone();
        let order = self.block.create_row(params.into_row());
        let ghost old_views = self.views@;
        let mut changes: Vec<DatabaseViewChange> = Vec::new();
        let mut index: usize = 0;
        let mut i: usize = 0;
        while i < self.views.len()
            invariant
                self.block.wf(),
                self.block.cache().dom().contains(order.id@),
                0 <= target < old_views.len(),
                old_views[target as int].id@ == view_id@,
                self.views@.len() == old_views.len(),
                i <= old_views.len(),
                changes@.len() == i,
                forall|j: int| i <= j < old_views.len() ==> self.views@[j] == old_views[j],
                forall|j: int| 0 <= j < old_views.len() ==> (#[trigger] old_views[j]).wf(),
                forall|j: int|
                    #![trigger self.views@[j]]
                    0 <= j < i ==> {
                        let v = old_views[j];
                        let k = resolved_index(
                            v.row_orders@,
                            position_in_view(v, view_id@, position),
                        );
                        &&& self.views@[j] == (DatabaseView {
                            row_orders: self.views@[j].row_orders,
                            ..v
                        })
                        &&& self.views@[j].row_orders@ == v.row_orders@.insert(k, order)
                        &&& is_insert_change(changes@[j], v.id@, order, k)
                    },
                target < i ==> index == resolved_index(
                    old_views[target as int].row_orders@,
                    position,
                ),
            decreases old_views.len() - i,
        {
            let pos = if self.views[i].id == *view_id {
                position.clone()
            } else {
                OrderObjectPosition::End
            };
            let (k, change) = self.views[i].insert_row_order(order.clone(), &pos);
            if i == target {
                index = k;
            }
            changes.push(change);
            i = i + 1;
        }
        proof {
            assert forall|j: int| 0 <= j < self.views@.len() implies (#[trigger] self.views@[j]).wf() by {
                assert(old_views[j].wf());
            }
        }
        Ok((index, order, changes))
    }
}

} // verus!
