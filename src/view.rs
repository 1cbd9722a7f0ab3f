//! Views: per-view orderings of rows and fields, layout settings and record
//! collections, with the structural diff events their mutations emit.
use vstd::prelude::*;

use crate::cell::Cell;
use crate::field::Field;
use crate::order::{
    FieldOrder, OrderIdentifiable, OrderObjectPosition, RowOrder, apply_move_diff, ids_view,
    index_of_id, insert_at_position, matching_indexes, move_by_id, move_diff, moved, position_of,
    remove_by_id, remove_ids, resolved_index, upsert, upserted, upserted_all, upsert_all,
    unique_ids, without_ids,
};
use crate::record::{FilterMap, GroupSettingMap, RecordCollection, RecordMap, SortMap};
use crate::row::CreateRowParams;

verus! {

/// How a view lays out its rows.
#[derive(Debug, Clone, Copy, PartialEq, Eq, Structural)]
pub enum DatabaseLayout {
    Grid,
    Board,
    Calendar,
}

pub open spec fn layout_name(layout: DatabaseLayout) -> Seq<char> {
    match layout {
        DatabaseLayout::Grid => "grid"@,
        DatabaseLayout::Board => "board"@,
        DatabaseLayout::Calendar => "calendar"@,
    }
}

impl DatabaseLayout {
    pub fn as_str(&self) -> (r: &'static str)
        ensures
            r@ == layout_name(*self),
    {
        match self {
            DatabaseLayout::Grid => "grid",
            DatabaseLayout::Board => "board",
            DatabaseLayout::Calendar => "calendar",
        }
    }
}

/// The settings a view keeps for one layout.
#[derive(Debug, PartialEq)]
pub struct LayoutSetting {
    pub layout: DatabaseLayout,
    pub setting: Cell,
}

impl OrderIdentifiable for LayoutSetting {
    open spec fn spec_id(&self) -> Seq<char> {
        layout_name(self.layout)
    }

    fn identify_id(&self) -> (r: String) {
        String::from_str(self.layout.as_str())
    }

    fn has_id(&self, id: &String) -> (r: bool) {
        String::from_str(self.layout.as_str()) == *id
    }
}

/// A structural change of a view, as observers receive it. The consumer
/// applies the inserts, in order, and then the deletes.
#[derive(Debug)]
pub enum DatabaseViewChange {
    DidUpdateRowOrders {
        database_view_id: String,
        is_local_change: bool,
        insert_row_orders: Vec<(RowOrder, usize)>,
        delete_row_indexes: Vec<usize>,
    },
}

/// The id and name of a view.
pub struct ViewDescription {
    pub id: String,
    pub name: String,
}

/// One view of a database.
pub struct DatabaseView {
    pub id: String,
    pub database_id: String,
    pub name: String,
    pub layout: DatabaseLayout,
    pub layout_settings: Vec<LayoutSetting>,
    pub filters: RecordCollection,
    pub group_settings: RecordCollection,
    pub sorts: RecordCollection,
    pub calculations: RecordCollection,
    pub row_orders: Vec<RowOrder>,
    pub field_orders: Vec<FieldOrder>,
    pub created_at: i64,
    pub modified_at: i64,
}

/// The change of an insert of `order` at index `i`.
pub open spec fn is_insert_change(c: DatabaseViewChange, view_id: Seq<char>, order: RowOrder, i: int) -> bool {
    match c {
        DatabaseViewChange::DidUpdateRowOrders {
            database_view_id,
            is_local_change,
            insert_row_orders,
            delete_row_indexes,
        } => {
            &&& database_view_id@ == view_id
            &&& is_local_change
            &&& insert_row_orders@.len() == 1
            &&& insert_row_orders@[0].0 == order
            &&& insert_row_orders@[0].1 == i
            &&& delete_row_indexes@.len() == 0
        },
    }
}

/// The change of the deletes at `idx`, in order, with no insert.
pub open spec fn is_delete_change(c: DatabaseViewChange, view_id: Seq<char>, idx: Seq<int>) -> bool {
    match c {
        DatabaseViewChange::DidUpdateRowOrders {
            database_view_id,
            is_local_change,
            insert_row_orders,
            delete_row_indexes,
        } => {
            &&& database_view_id@ == view_id
            &&& is_local_change
            &&& insert_row_orders@.len() == 0
            &&& delete_row_indexes@.map_values(|i: usize| i as int) == idx
        },
    }
}

/// The change of a move: one delete at `del` and one insert of `order` at
/// `ins`.
pub open spec fn is_move_change(
    c: DatabaseViewChange,
    view_id: Seq<char>,
    del: int,
    order: RowOrder,
    ins: int,
) -> bool {
    match c {
        DatabaseViewChange::DidUpdateRowOrders {
            database_view_id,
            is_local_change,
            insert_row_orders,
            delete_row_indexes,
        } => {
            &&& database_view_id@ == view_id
            &&& is_local_change
            &&& insert_row_orders@.len() == 1
            &&& insert_row_orders@[0].0 == order
            &&& insert_row_orders@[0].1 == ins
            &&& delete_row_indexes@.len() == 1
            &&& delete_row_indexes@[0] == del
        },
    }
}

impl Clone for LayoutSetting {
    fn clone(&self) -> (r: LayoutSetting)
        ensures
            r.layout == self.layout,
            r.setting@ == self.setting@,
    {
        LayoutSetting { layout: self.layout, setting: self.setting.clone() }
    }
}

fn copy_layout_settings(v: &Vec<LayoutSetting>) -> (r: Vec<LayoutSetting>)
    ensures
        r@.len() == v@.len(),
        forall|i: int|
            0 <= i < v@.len() ==> (#[trigger] r@[i]).layout == v@[i].layout && r@[i].setting@
                == v@[i].setting@,
        unique_ids(v@) ==> unique_ids(r@),
{
    let mut r: Vec<LayoutSetting> = Vec::new();
    let mut i: usize = 0;
    while i < v.len()
        invariant
            i <= v@.len(),
            r@.len() == i,
            forall|j: int|
                0 <= j < i ==> (#[trigger] r@[j]).layout == v@[j].layout && r@[j].setting@
                    == v@[j].setting@,
        decreases v@.len() - i,
    {
        r.push(v[i].clone());
        i = i + 1;
    }
    proof {
        if unique_ids(v@) {
            assert forall|a: int, b: int| 0 <= a < b < r@.len() implies r@[a].spec_id() != r@[b].spec_id() by {
                assert(r@[a].layout == v@[a].layout);
                assert(r@[b].layout == v@[b].layout);
            }
        }
    }
    r
}

fn copy_collection(c: &RecordCollection) -> (r: RecordCollection)
    ensures
        crate::record::records_view(r.items@) == crate::record::records_view(c.items@),
{
    RecordCollection { items: c.get_all() }
}

/// `a` is a whole copy of `b`: the same ids, name, layout, timestamps,
/// orders, records and layout settings.
pub open spec fn same_view(a: DatabaseView, b: DatabaseView) -> bool {
    &&& a.id == b.id
    &&& a.database_id == b.database_id
    &&& a.name == b.name
    &&& a.layout == b.layout
    &&& a.row_orders@ == b.row_orders@
    &&& a.field_orders@ == b.field_orders@
    &&& a.created_at == b.created_at
    &&& a.modified_at == b.modified_at
    &&& crate::record::records_view(a.filters.items@) == crate::record::records_view(b.filters.items@)
    &&& crate::record::records_view(a.sorts.items@) == crate::record::records_view(b.sorts.items@)
    &&& crate::record::records_view(a.group_settings.items@) == crate::record::records_view(
        b.group_settings.items@,
    )
    &&& crate::record::records_view(a.calculations.items@) == crate::record::records_view(
        b.calculations.items@,
    )
    &&& a.layout_settings@.len() == b.layout_settings@.len()
    &&& forall|i: int|
        0 <= i < a.layout_settings@.len() ==> (#[trigger] a.layout_settings@[i]).layout
            == b.layout_settings@[i].layout && a.layout_settings@[i].setting@
            == b.layout_settings@[i].setting@
}

impl Clone for DatabaseView {
    /// A copy with the same ids, settings, records and orders.
    fn clone(&self) -> (r: DatabaseView)
        ensures
            same_view(r, *self),
            self.wf() ==> r.wf(),
    {
        let r = DatabaseView {
            id: self.id.clone(),
            database_id: self.database_id.clone(),
            name: self.name.clone(),
            layout: self.layout,
            layout_settings: copy_layout_settings(&self.layout_settings),
            filters: copy_collection(&self.filters),
            group_settings: copy_collection(&self.group_settings),
            sorts: copy_collection(&self.sorts),
            calculations: copy_collection(&self.calculations),
            row_orders: crate::order::copy_all(&self.row_orders),
            field_orders: crate::order::copy_all(&self.field_orders),
            created_at: self.created_at,
            modified_at: self.modified_at,
        };
        proof {
            if self.wf() {
                crate::record::lemma_same_records_unique(self.filters.items@, r.filters.items@);
                crate::record::lemma_same_records_unique(self.sorts.items@, r.sorts.items@);
                crate::record::lemma_same_records_unique(self.group_settings.items@, r.group_settings.items@);
                crate::record::lemma_same_records_unique(self.calculations.items@, r.calculations.items@);
            }
        }
        r
    }
}

impl OrderIdentifiable for DatabaseView {
    open spec fn spec_id(&self) -> Seq<char> {
        self.id@
    }

    fn identify_id(&self) -> (r: String) {
        self.id.clone()
    }

    fn has_id(&self, id: &String) -> (r: bool) {
        self.id == *id
    }
}

impl DatabaseView {
    pub open spec fn wf(&self) -> bool {
        &&& self.filters.wf()
        &&& self.group_settings.wf()
        &&& self.sorts.wf()
        &&& self.calculations.wf()
        &&& unique_ids(self.layout_settings@)
    }

    /// An empty view of the given database.
    pub fn new(id: String, database_id: String, name: String, layout: DatabaseLayout) -> (r:
        DatabaseView)
        ensures
            r.wf(),
            r.id == id,
            r.database_id == database_id,
            r.name == name,
            r.layout == layout,
            r.row_orders@.len() == 0,
            r.field_orders@.len() == 0,
            r.filters.items@.len() == 0,
            r.sorts.items@.len() == 0,
            r.group_settings.items@.len() == 0,
    {
        DatabaseView {
            id,
            database_id,
            name,
            layout,
            layout_settings: Vec::new(),
            filters: RecordCollection::new(),
            group_settings: RecordCollection::new(),
            sorts: RecordCollection::new(),
            calculations: RecordCollection::new(),
            row_orders: Vec::new(),
            field_orders: Vec::new(),
            created_at: 0,
            modified_at: 0,
        }
    }

    /// Inserts a row stand-in at the place `pos` describes and emits the
    /// insert at the index it took.
    pub fn insert_row_order(&mut self, order: RowOrder, pos: &OrderObjectPosition) -> (r: (
        usize,
        DatabaseViewChange,
    ))
        ensures
            r.0 as int == resolved_index(old(self).row_orders@, *pos),
            final(self).row_orders@ == old(self).row_orders@.insert(r.0 as int, order),
            is_insert_change(r.1, old(self).id@, order, r.0 as int),
            *final(self) == (DatabaseView { row_orders: final(self).row_orders, ..*old(self) }),
    {
        let copy = order.clone();
        let i = insert_at_position(&mut self.row_orders, order, pos);
        let change = DatabaseViewChange::DidUpdateRowOrders {
            database_view_id: self.id.clone(),
            is_local_change: true,
            insert_row_orders: vec![(copy, i)],
            delete_row_indexes: Vec::new(),
        };
        (i, change)
    }

    /// Removes the stand-in of the row `row_id`. An absent row is a no-op
    /// and emits nothing.
    pub fn remove_row_order(&mut self, row_id: &String) -> (r: Option<DatabaseViewChange>)
        ensures
            match index_of_id(old(self).row_orders@, row_id@) {
                Some(i) => final(self).row_orders@ == old(self).row_orders@.remove(i) && (r matches Some(
                    c,
                ) && is_delete_change(c, old(self).id@, seq![i])),
                None => final(self).row_orders@ == old(self).row_orders@ && r is None,
            },
            *final(self) == (DatabaseView { row_orders: final(self).row_orders, ..*old(self) }),
    {
        match remove_by_id(&mut self.row_orders, row_id) {
            Some(i) => {
                let deleted = vec![i];
                proof {
                    assert(deleted@.map_values(|k: usize| k as int) =~= seq![i as int]);
                }
                let change = DatabaseViewChange::DidUpdateRowOrders {
                    database_view_id: self.id.clone(),
                    is_local_change: true,
                    insert_row_orders: Vec::new(),
                    delete_row_indexes: deleted,
                };
                Some(change)
            },
            None => None,
        }
    }

    /// Removes in one step the stand-ins of all rows in `row_ids` and emits
    /// their indexes in the order before the removal, ascending. Nothing is
    /// emitted where no row matched.
    pub fn remove_row_orders(&mut self, row_ids: &Vec<String>) -> (r: Option<DatabaseViewChange>)
        ensures
            final(self).row_orders@ == without_ids(old(self).row_orders@, ids_view(row_ids@)),
            ({
                let idx = matching_indexes(
                    old(self).row_orders@,
                    ids_view(row_ids@),
                    old(self).row_orders@.len() as int,
                );
                &&& idx.len() == 0 ==> r is None
                &&& idx.len() > 0 ==> (r matches Some(c) && is_delete_change(c, old(self).id@, idx))
            }),
            *final(self) == (DatabaseView { row_orders: final(self).row_orders, ..*old(self) }),
    {
        let idx = remove_ids(&mut self.row_orders, row_ids);
        if idx.len() == 0 {
            return None;
        }
        Some(
            DatabaseViewChange::DidUpdateRowOrders {
                database_view_id: self.id.clone(),
                is_local_change: true,
                insert_row_orders: Vec::new(),
                delete_row_indexes: idx,
            },
        )
    }

    /// Moves the stand-in of `from_id` to the index that `to_id` holds and
    /// emits one delete and one insert that replay the move. Emits nothing
    /// and changes nothing where either row is absent or both are the same.
    pub fn move_row_order(&mut self, from_id: &String, to_id: &String) -> (r: Option<
        DatabaseViewChange,
    >)
        ensures
            r matches Some(c) ==> {
                &&& index_of_id(old(self).row_orders@, from_id@) matches Some(f)
                &&& index_of_id(old(self).row_orders@, to_id@) matches Some(t)
                &&& f != t
                &&& final(self).row_orders@ == moved(old(self).row_orders@, f, t)
                &&& is_move_change(
                    c,
                    old(self).id@,
                    move_diff(f, t).0,
                    old(self).row_orders@[f],
                    move_diff(f, t).1,
                )
                &&& final(self).row_orders@ == apply_move_diff(
                    old(self).row_orders@,
                    move_diff(f, t).0,
                    old(self).row_orders@[f],
                    move_diff(f, t).1,
                )
            },
            r is None ==> final(self).row_orders@ == old(self).row_orders@ && (index_of_id(
                old(self).row_orders@,
                from_id@,
            ) is None || index_of_id(old(self).row_orders@, to_id@) is None || index_of_id(
                old(self).row_orders@,
                from_id@,
            ) == index_of_id(old(self).row_orders@, to_id@)),
            *final(self) == (DatabaseView { row_orders: final(self).row_orders, ..*old(self) }),
    {
        let ghost s = self.row_orders@;
        let f = match position_of(&self.row_orders, from_id) {
            Some(f) => f,
            None => {
                return None;
            },
        };
        let moving = self.row_orders[f].clone();
        match move_by_id(&mut self.row_orders, from_id, to_id) {
            Some((d, i)) => Some(
                DatabaseViewChange::DidUpdateRowOrders {
                    database_view_id: self.id.clone(),
                    is_local_change: true,
                    insert_row_orders: vec![(moving, i)],
                    delete_row_indexes: vec![d],
                },
            ),
            None => None,
        }
    }

    /// Inserts a field stand-in at the place `pos` describes; returns the
    /// index it took.
    pub fn insert_field_order(&mut self, order: FieldOrder, pos: &OrderObjectPosition) -> (r:
        usize)
        ensures
            r as int == resolved_index(old(self).field_orders@, *pos),
            final(self).field_orders@ == old(self).field_orders@.insert(r as int, order),
            *final(self) == (DatabaseView { field_orders: final(self).field_orders, ..*old(self) }),
    {
        insert_at_position(&mut self.field_orders, order, pos)
    }

    /// Removes the stand-in of the field `field_id`, if present.
    pub fn remove_field_order(&mut self, field_id: &String) -> (r: Option<usize>)
        ensures
            match index_of_id(old(self).field_orders@, field_id@) {
                Some(i) => r == Some(i as usize) && final(self).field_orders@ == old(
                    self,
                ).field_orders@.remove(i),
                None => r is None && final(self).field_orders@ == old(self).field_orders@,
            },
            *final(self) == (DatabaseView { field_orders: final(self).field_orders, ..*old(self) }),
    {
        remove_by_id(&mut self.field_orders, field_id)
    }

    /// Moves the field stand-in `from_id` to the index that `to_id` holds.
    pub fn move_field_order(&mut self, from_id: &String, to_id: &String) -> (r: bool)
        ensures
            r ==> (index_of_id(old(self).field_orders@, from_id@) matches Some(f) && index_of_id(
                old(self).field_orders@,
                to_id@,
            ) matches Some(t) && final(self).field_orders@ == moved(old(self).field_orders@, f, t)),
            !r ==> final(self).field_orders@ == old(self).field_orders@,
            r == crate::order::movable(old(self).field_orders@, from_id@, to_id@),
            *final(self) == (DatabaseView { field_orders: final(self).field_orders, ..*old(self) }),
    {
        move_by_id(&mut self.field_orders, from_id, to_id).is_some()
    }

    /// The index of the row `row_id` in this view.
    pub fn index_of_row(&self, row_id: &String) -> (r: Option<usize>)
        ensures
            r matches Some(i) ==> index_of_id(self.row_orders@, row_id@) == Some(i as int),
            r is None ==> index_of_id(self.row_orders@, row_id@) is None,
    {
        position_of(&self.row_orders, row_id)
    }

    /// The index of the field `field_id` in this view.
    pub fn index_of_field(&self, field_id: &String) -> (r: Option<usize>)
        ensures
            r matches Some(i) ==> index_of_id(self.field_orders@, field_id@) == Some(i as int),
            r is None ==> index_of_id(self.field_orders@, field_id@) is None,
    {
        position_of(&self.field_orders, field_id)
    }

    /// Whether this view holds the row `row_id`.
    pub fn contains_row(&self, row_id: &String) -> (r: bool)
        ensures
            r == index_of_id(self.row_orders@, row_id@) is Some,
    {
        position_of(&self.row_orders, row_id).is_some()
    }

    pub fn description(&self) -> (r: ViewDescription)
        ensures
            r.id == self.id,
            r.name == self.name,
    {
        ViewDescription { id: self.id.clone(), name: self.name.clone() }
    }
}

/// What a caller supplies to create a view.
pub struct CreateViewParams {
    pub database_id: String,
    pub view_id: String,
    pub name: String,
    pub layout: DatabaseLayout,
    pub layout_settings: Vec<LayoutSetting>,
    pub filters: Vec<FilterMap>,
    pub groups: Vec<GroupSettingMap>,
    pub sorts: Vec<SortMap>,
    /// Fields the view relies on, created with it where missing.
    pub deps_fields: Vec<Field>,
}

impl CreateViewParams {
    pub fn new(database_id: String, view_id: String, name: String, layout: DatabaseLayout) -> (r:
        CreateViewParams)
        ensures
            r.database_id == database_id,
            r.view_id == view_id,
            r.name == name,
            r.layout == layout,
            r.layout_settings@.len() == 0,
            r.filters@.len() == 0,
            r.groups@.len() == 0,
            r.sorts@.len() == 0,
            r.deps_fields@.len() == 0,
    {
        CreateViewParams {
            database_id,
            view_id,
            name,
            layout,
            layout_settings: Vec::new(),
            filters: Vec::new(),
            groups: Vec::new(),
            sorts: Vec::new(),
            deps_fields: Vec::new(),
        }
    }

    /// The view these parameters describe, holding the given orders; its
    /// records keep one element per id.
    pub fn into_view(self, row_orders: Vec<RowOrder>, field_orders: Vec<FieldOrder>) -> (r:
        DatabaseView)
        ensures
            r.wf(),
            r.id == self.view_id,
            r.database_id == self.database_id,
            r.name == self.name,
            r.layout == self.layout,
            r.row_orders == row_orders,
            r.field_orders == field_orders,
            r.filters.items@ == upserted_all(Seq::empty(), self.filters@, self.filters@.len() as int),
            r.group_settings.items@ == upserted_all(Seq::empty(), self.groups@, self.groups@.len() as int),
            r.sorts.items@ == upserted_all(Seq::empty(), self.sorts@, self.sorts@.len() as int),
    {
        let CreateViewParams {
            database_id,
            view_id,
            name,
            layout,
            layout_settings,
            filters,
            groups,
            sorts,
            deps_fields,
        } = self;
        let mut view = DatabaseView::new(view_id, database_id, name, layout);
        assert(view.filters.items@ =~= Seq::<RecordMap>::empty());
        assert(view.group_settings.items@ =~= Seq::<RecordMap>::empty());
        assert(view.sorts.items@ =~= Seq::<RecordMap>::empty());
        view.filters.extend(filters);
        view.group_settings.extend(groups);
        view.sorts.extend(sorts);
        upsert_all(&mut view.layout_settings, layout_settings);
        view.row_orders = row_orders;
        view.field_orders = field_orders;
        view
    }
}

/// What a caller supplies to create a database with its first view.
pub struct CreateDatabaseParams {
    pub database_id: String,
    pub view_id: String,
    pub name: String,
    pub layout: DatabaseLayout,
    pub layout_settings: Vec<LayoutSetting>,
    pub filters: Vec<FilterMap>,
    pub groups: Vec<GroupSettingMap>,
    pub sorts: Vec<SortMap>,
    pub created_rows: Vec<CreateRowParams>,
    pub fields: Vec<Field>,
}

impl CreateDatabaseParams {
    /// Parameters that recreate `view`, with the given fields and rows.
    pub fn from_view(view: DatabaseView, fields: Vec<Field>, rows: Vec<CreateRowParams>) -> (r:
        CreateDatabaseParams)
        ensures
            r.database_id == view.database_id,
            r.view_id == view.id,
            r.name == view.name,
            r.layout == view.layout,
            r.layout_settings == view.layout_settings,
            r.filters == view.filters.items,
            r.groups == view.group_settings.items,
            r.sorts == view.sorts.items,
            r.created_rows == rows,
            r.fields == fields,
    {
        CreateDatabaseParams {
            database_id: view.database_id,
            view_id: view.id,
            name: view.name,
            layout: view.layout,
            layout_settings: view.layout_settings,
            filters: view.filters.items,
            groups: view.group_settings.items,
            sorts: view.sorts.items,
            created_rows: rows,
            fields,
        }
    }

    /// The rows, the fields and the parameters of the first view.
    pub fn split(self) -> (r: (Vec<CreateRowParams>, Vec<Field>, CreateViewParams))
        ensures
            r.0 == self.created_rows,
            r.1 == self.fields,
            r.2.database_id == self.database_id,
            r.2.view_id == self.view_id,
            r.2.name == self.name,
            r.2.layout == self.layout,
            r.2.layout_settings == self.layout_settings,
            r.2.filters == self.filters,
            r.2.groups == self.groups,
            r.2.sorts == self.sorts,
            r.2.deps_fields@.len() == 0,
    {
        (
            self.created_rows,
            self.fields,
            CreateViewParams {
                database_id: self.database_id,
                view_id: self.view_id,
                name: self.name,
                layout: self.layout,
                layout_settings: self.layout_settings,
                filters: self.filters,
                groups: self.groups,
                sorts: self.sorts,
                deps_fields: Vec::new(),
            },
        )
    }
}

/// A scoped mutable view of one view's settings and records, committed
/// with `done`.
pub struct ViewUpdate {
    pub view: DatabaseView,
}

impl ViewUpdate {
    pub fn new(view: DatabaseView) -> (r: ViewUpdate)
        ensures
            r.view == view,
    {
        ViewUpdate { view }
    }

    pub fn set_name(self, name: String) -> (r: ViewUpdate)
        ensures
            r.view == (DatabaseView { name, ..self.view }),
    {
        ViewUpdate { view: DatabaseView { name, ..self.view } }
    }

    pub fn set_layout_type(self, layout: DatabaseLayout) -> (r: ViewUpdate)
        ensures
            r.view == (DatabaseView { layout, ..self.view }),
    {
        ViewUpdate { view: DatabaseView { layout, ..self.view } }
    }

    /// Writes each layout's settings, replacing earlier settings of the
    /// same layout.
    pub fn set_layout_settings(self, settings: Vec<LayoutSetting>) -> (r: ViewUpdate)
        ensures
            r.view == (DatabaseView { layout_settings: r.view.layout_settings, ..self.view }),
            r.view.layout_settings@ == upserted_all(
                self.view.layout_settings@,
                settings@,
                settings@.len() as int,
            ),
            self.view.wf() ==> r.view.wf(),
    {
        let mut view = self.view;
        upsert_all(&mut view.layout_settings, settings);
        ViewUpdate { view }
    }

    /// Writes the settings of one layout.
    pub fn update_layout_settings(self, layout: DatabaseLayout, setting: Cell) -> (r: ViewUpdate)
        ensures
            r.view == (DatabaseView { layout_settings: r.view.layout_settings, ..self.view }),
            r.view.layout_settings@ == upserted(
                self.view.layout_settings@,
                LayoutSetting { layout, setting },
            ),
            self.view.wf() ==> r.view.wf(),
    {
        let mut view = self.view;
        upsert(&mut view.layout_settings, LayoutSetting { layout, setting });
        ViewUpdate { view }
    }

    /// Drops the settings of one layout.
    pub fn remove_layout_setting(self, layout: DatabaseLayout) -> (r: ViewUpdate)
        ensures
            r.view == (DatabaseView { layout_settings: r.view.layout_settings, ..self.view }),
            r.view.layout_settings@ == match index_of_id(self.view.layout_settings@, layout_name(layout)) {
                Some(k) => self.view.layout_settings@.remove(k),
                None => self.view.layout_settings@,
            },
            self.view.wf() ==> r.view.wf() && !crate::order::contains_id(
                r.view.layout_settings@,
                layout_name(layout),
            ),
    {
        let mut view = self.view;
        let key = String::from_str(layout.as_str());
        let ghost s = view.layout_settings@;
        proof {
            if index_of_id(s, key@) is Some {
                crate::order::lemma_index_some(s, key@);
            }
        }
        remove_by_id(&mut view.layout_settings, &key);
        proof {
            let t = view.layout_settings@;
            if unique_ids(s) {
                match index_of_id(s, key@) {
                    Some(k) => {
                        crate::order::lemma_unique_remove(s, k);
                    },
                    None => {
                        assert forall|j: int| 0 <= j < t.len() implies t[j].spec_id() != key@ by {
                            assert(!(0 <= j < s.len() && s[j].spec_id() == key@));
                        }
                    },
                }
            }
        }
        ViewUpdate { view }
    }

    /// Upserts each filter, in order.
    pub fn set_filters(self, filters: Vec<FilterMap>) -> (r: ViewUpdate)
        ensures
            r.view == (DatabaseView { filters: r.view.filters, ..self.view }),
            r.view.filters.items@ == upserted_all(self.view.filters.items@, filters@, filters@.len() as int),
            self.view.wf() ==> r.view.wf(),
    {
        let mut view = self.view;
        view.filters.extend(filters);
        ViewUpdate { view }
    }

    /// Upserts one filter.
    pub fn update_filters(self, filter: FilterMap) -> (r: ViewUpdate)
        ensures
            r.view == (DatabaseView { filters: r.view.filters, ..self.view }),
            r.view.filters.items@ == upserted(self.view.filters.items@, filter),
            self.view.wf() ==> r.view.wf(),
    {
        let mut view = self.view;
        view.filters.upsert(filter);
        ViewUpdate { view }
    }

    /// Upserts each group setting, in order.
    pub fn set_groups(self, groups: Vec<GroupSettingMap>) -> (r: ViewUpdate)
        ensures
            r.view == (DatabaseView { group_settings: r.view.group_settings, ..self.view }),
            r.view.group_settings.items@ == upserted_all(self.view.group_settings.items@, groups@, groups@.len() as int),
            self.view.wf() ==> r.view.wf(),
    {
        let mut view = self.view;
        view.group_settings.extend(groups);
        ViewUpdate { view }
    }

    /// Upserts one group setting.
    pub fn update_groups(self, group: GroupSettingMap) -> (r: ViewUpdate)
        ensures
            r.view == (DatabaseView { group_settings: r.view.group_settings, ..self.view }),
            r.view.group_settings.items@ == upserted(self.view.group_settings.items@, group),
            self.view.wf() ==> r.view.wf(),
    {
        let mut view = self.view;
        view.group_settings.upsert(group);
        ViewUpdate { view }
    }

    /// Upserts each sort, in order.
    pub fn set_sorts(self, sorts: Vec<SortMap>) -> (r: ViewUpdate)
        ensures
            r.view == (DatabaseView { sorts: r.view.sorts, ..self.view }),
            r.view.sorts.items@ == upserted_all(self.view.sorts.items@, sorts@, sorts@.len() as int),
            self.view.wf() ==> r.view.wf(),
    {
        let mut view = self.view;
        view.sorts.extend(sorts);
        ViewUpdate { view }
    }

    /// Upserts one sort.
    pub fn update_sorts(self, sort: SortMap) -> (r: ViewUpdate)
        ensures
            r.view == (DatabaseView { sorts: r.view.sorts, ..self.view }),
            r.view.sorts.items@ == upserted(self.view.sorts.items@, sort),
            self.view.wf() ==> r.view.wf(),
    {
        let mut view = self.view;
        view.sorts.upsert(sort);
        ViewUpdate { view }
    }

    pub fn done(self) -> (r: DatabaseView)
        ensures
            r == self.view,
    {
        self.view
    }
}

} // verus!
