//! The stored form of rows, views and databases: maps whose entries may be
//! missing, read into the library's types with the defaults that older or
//! partial documents need.
use vstd::prelude::*;

use crate::cell::{Cell, Cells};
use crate::database::{Database, DatabaseError};
use crate::field::Field;
use crate::order::{FieldOrder, RowOrder, unique_ids, upserted_all};
use crate::record::{RecordCollection, RecordMap};
use crate::row::{DEFAULT_ROW_HEIGHT, Row, clamp_height, height_of};
use crate::view::{DatabaseLayout, DatabaseView, LayoutSetting, ViewDescription};

verus! {

/// The data map of a row's document.
pub struct RowMap {
    pub id: Option<String>,
    pub database_id: Option<String>,
    pub visibility: Option<bool>,
    pub height: Option<i64>,
    pub created_at: Option<i64>,
    pub last_modified: Option<i64>,
    pub cells: Option<Cells>,
}

/// The row id of a row's data map.
pub fn row_id_from_map_ref(map: &RowMap) -> (r: Option<String>)
    ensures
        r == map.id,
{
    match &map.id {
        Some(id) => Some(id.clone()),
        None => None,
    }
}

/// The stand-in and creation time of a row's data map: the height
/// defaults to the default row height, the creation time to zero.
pub fn row_order_from_map_ref(map: &RowMap) -> (r: Option<(RowOrder, i64)>)
    ensures
        r is Some == map.id is Some,
        r matches Some((o, t)) ==> o.id == map.id->0 && o.height == match map.height {
            Some(h) => height_of(h),
            None => DEFAULT_ROW_HEIGHT,
        } && t == match map.created_at {
            Some(c) => c,
            None => 0,
        },
{
    let id = match &map.id {
        Some(id) => id.clone(),
        None => {
            return None;
        },
    };
    let height = match map.height {
        Some(h) => clamp_height(h),
        None => DEFAULT_ROW_HEIGHT,
    };
    let created_at = match map.created_at {
        Some(c) => c,
        None => 0,
    };
    Some((RowOrder { id, height }, created_at))
}

/// The cell of `field_id` in a row's data map.
pub fn cell_from_map_ref(map: &RowMap, field_id: &String) -> (r: Option<Cell>)
    ensures
        r matches Some(c) ==> map.cells matches Some(cells) && cells.cell_spec(field_id@) == Some(c@),
        r is None ==> (map.cells matches Some(cells) ==> cells.cell_spec(field_id@) is None),
{
    match &map.cells {
        Some(cells) => match cells.cell_for_field_id(field_id) {
            Some(c) => Some(c.clone()),
            None => None,
        },
        None => None,
    }
}

/// Reads a row from its data map. The id is required; a missing database
/// id reads as empty, visibility as visible, height as the default row
/// height, timestamps as `now`, cells as none. Malformed cells read as
/// none.
pub fn row_from_map_ref(map: RowMap, now: i64) -> (r: Option<Row>)
    ensures
        r is Some == map.id is Some,
        r matches Some(row) ==> {
            &&& row.id == map.id->0
            &&& row.database_id@ == match map.database_id {
                Some(d) => d@,
                None => Seq::<char>::empty(),
            }
            &&& row.visibility == match map.visibility {
                Some(v) => v,
                None => true,
            }
            &&& row.height == match map.height {
                Some(h) => height_of(h),
                None => DEFAULT_ROW_HEIGHT,
            }
            &&& row.created_at == match map.created_at {
                Some(c) => c,
                None => now,
            }
            &&& row.modified_at == match map.last_modified {
                Some(c) => c,
                None => now,
            }
            &&& row.cells.wf()
            &&& match map.cells {
                Some(c) => if c.wf() {
                    row.cells == c
                } else {
                    row.cells@.len() == 0
                },
                None => row.cells@.len() == 0,
            }
        },
{
    let RowMap { id, database_id, visibility, height, created_at, last_modified, cells } = map;
    let id = match id {
        Some(id) => id,
        None => {
            return None;
        },
    };
    let database_id = match database_id {
        Some(d) => d,
        None => String::new(),
    };
    let cells = match cells {
        Some(c) => if c.is_wf() {
            c
        } else {
            Cells::new()
        },
        None => Cells::new(),
    };
    Some(
        Row {
            id,
            database_id,
            cells,
            height: match height {
                Some(h) => clamp_height(h),
                None => DEFAULT_ROW_HEIGHT,
            },
            visibility: match visibility {
                Some(v) => v,
                None => true,
            },
            created_at: match created_at {
                Some(c) => c,
                None => now,
            },
            modified_at: match last_modified {
                Some(c) => c,
                None => now,
            },
        },
    )
}

/// The stored code of a layout.
pub open spec fn layout_of_code(code: i64) -> Option<DatabaseLayout> {
    if code == 0 {
        Some(DatabaseLayout::Grid)
    } else if code == 1 {
        Some(DatabaseLayout::Board)
    } else if code == 2 {
        Some(DatabaseLayout::Calendar)
    } else {
        None
    }
}

pub fn layout_from_code(code: i64) -> (r: Option<DatabaseLayout>)
    ensures
        r == layout_of_code(code),
{
    if code == 0 {
        Some(DatabaseLayout::Grid)
    } else if code == 1 {
        Some(DatabaseLayout::Board)
    } else if code == 2 {
        Some(DatabaseLayout::Calendar)
    } else {
        None
    }
}

/// The map of one view.
pub struct ViewMap {
    pub id: Option<String>,
    pub name: Option<String>,
    pub database_id: Option<String>,
    pub layout: Option<i64>,
    pub layout_settings: Option<Vec<LayoutSetting>>,
    pub filters: Option<Vec<RecordMap>>,
    pub groups: Option<Vec<RecordMap>>,
    pub sorts: Option<Vec<RecordMap>>,
    pub row_orders: Option<Vec<RowOrder>>,
    pub field_orders: Option<Vec<FieldOrder>>,
    pub created_at: Option<i64>,
    pub modified_at: Option<i64>,
}

/// The view id of a view's map.
pub fn view_id_from_map_ref(map: &ViewMap) -> (r: Option<String>)
    ensures
        r == map.id,
{
    match &map.id {
        Some(id) => Some(id.clone()),
        None => None,
    }
}

/// The id and name of a view's map; the id is required, a missing name
/// reads as empty.
pub fn view_description_from_value(map: &ViewMap) -> (r: Option<ViewDescription>)
    ensures
        r is Some == map.id is Some,
        r matches Some(d) ==> d.id == map.id->0 && d.name@ == match map.name {
            Some(n) => n@,
            None => Seq::<char>::empty(),
        },
{
    let id = match &map.id {
        Some(id) => id.clone(),
        None => {
            return None;
        },
    };
    let name = match &map.name {
        Some(n) => n.clone(),
        None => String::new(),
    };
    Some(ViewDescription { id, name })
}

fn records_or_empty(records: Option<Vec<RecordMap>>) -> (r: RecordCollection)
    ensures
        r.wf(),
        r.items@ == match records {
            Some(v) => upserted_all(Seq::empty(), v@, v@.len() as int),
            None => Seq::<RecordMap>::empty(),
        },
{
    let mut c = RecordCollection::new();
    assert(c.items@ =~= Seq::<RecordMap>::empty());
    match records {
        Some(v) => c.extend(v),
        None => {},
    }
    c
}

/// Whether a view's map has what a view needs: an id, a name and a known
/// layout code.
pub open spec fn readable_view(map: ViewMap) -> bool {
    &&& map.id is Some
    &&& map.name is Some
    &&& map.layout is Some
    &&& layout_of_code(map.layout->0) is Some
}

/// Reads a view from its map. The id, the name and a known layout code are
/// required; every other entry defaults to empty or zero. Records keep one
/// element per id, the later one winning at the earlier one's place.
pub fn view_from_map_ref(map: ViewMap) -> (r: Option<DatabaseView>)
    ensures
        r is Some == readable_view(map),
        r matches Some(v) ==> {
            &&& v.wf()
            &&& v.id == map.id->0
            &&& v.name == map.name->0
            &&& Some(v.layout) == layout_of_code(map.layout->0)
            &&& v.database_id@ == match map.database_id {
                Some(d) => d@,
                None => Seq::<char>::empty(),
            }
            &&& v.row_orders@ == match map.row_orders {
                Some(o) => o@,
                None => Seq::<RowOrder>::empty(),
            }
            &&& v.field_orders@ == match map.field_orders {
                Some(o) => o@,
                None => Seq::<FieldOrder>::empty(),
            }
            &&& v.filters.items@ == match map.filters {
                Some(f) => upserted_all(Seq::empty(), f@, f@.len() as int),
                None => Seq::<RecordMap>::empty(),
            }
            &&& v.group_settings.items@ == match map.groups {
                Some(g) => upserted_all(Seq::empty(), g@, g@.len() as int),
                None => Seq::<RecordMap>::empty(),
            }
            &&& v.sorts.items@ == match map.sorts {
                Some(o) => upserted_all(Seq::empty(), o@, o@.len() as int),
                None => Seq::<RecordMap>::empty(),
            }
            &&& v.layout_settings@ == match map.layout_settings {
                Some(l) => upserted_all(Seq::empty(), l@, l@.len() as int),
                None => Seq::<LayoutSetting>::empty(),
            }
            &&& v.calculations.items@.len() == 0
            &&& v.created_at == match map.created_at {
                Some(c) => c,
                None => 0,
            }
            &&& v.modified_at == match map.modified_at {
                Some(c) => c,
                None => 0,
            }
        },
{
    let ViewMap {
        id,
        name,
        database_id,
        layout,
        layout_settings,
        filters,
        groups,
        sorts,
        row_orders,
        field_orders,
        created_at,
        modified_at,
    } = map;
    let id = match id {
        Some(id) => id,
        None => {
            return None;
        },
    };
    let name = match name {
        Some(n) => n,
        None => {
            return None;
        },
    };
    let layout = match layout {
        Some(code) => match layout_from_code(code) {
            Some(l) => l,
            None => {
                return None;
            },
        },
        None => {
            return None;
        },
    };
    let mut settings: Vec<LayoutSetting> = Vec::new();
    assert(settings@ =~= Seq::<LayoutSetting>::empty());
    match layout_settings {
        Some(s) => crate::order::upsert_all(&mut settings, s),
        None => {},
    }
    Some(
        DatabaseView {
            id,
            database_id: match database_id {
                Some(d) => d,
                None => String::new(),
            },
            name,
            layout,
            layout_settings: settings,
            filters: records_or_empty(filters),
            group_settings: records_or_empty(groups),
            sorts: records_or_empty(sorts),
            calculations: RecordCollection::new(),
            row_orders: match row_orders {
                Some(o) => o,
                None => Vec::new(),
            },
            field_orders: match field_orders {
                Some(o) => o,
                None => Vec::new(),
            },
            created_at: match created_at {
                Some(c) => c,
                None => 0,
            },
            modified_at: match modified_at {
                Some(c) => c,
                None => 0,
            },
        },
    )
}

/// The ids of the readable views among the first `n` maps, in order.
pub open spec fn readable_view_ids(maps: Seq<ViewMap>, n: int) -> Seq<Seq<char>>
    decreases n,
{
    if n <= 0 {
        Seq::empty()
    } else {
        let p = readable_view_ids(maps, n - 1);
        if readable_view(maps[n - 1]) {
            p.push(maps[n - 1].id->0@)
        } else {
            p
        }
    }
}

/// The metadata map of a database.
pub struct MetaMap {
    pub inline_view_id: Option<String>,
}

/// The root map of a database document and its required sub-maps.
pub struct DatabaseRoot {
    pub database_id: Option<String>,
    pub fields: Option<Vec<Field>>,
    pub views: Option<Vec<ViewMap>>,
    pub metas: Option<MetaMap>,
}

/// A database document: it holds a database where its root map is there.
pub struct DatabaseDocument {
    pub root: Option<DatabaseRoot>,
}

/// Whether the document holds a database.
pub fn is_database_collab(doc: &DatabaseDocument) -> (r: bool)
    ensures
        r == doc.root is Some,
{
    doc.root.is_some()
}

/// The inline view id that the document records, if any.
pub fn get_inline_view_id(doc: &DatabaseDocument) -> (r: Option<String>)
    ensures
        r == match doc.root {
            Some(root) => match root.metas {
                Some(m) => m.inline_view_id,
                None => None,
            },
            None => None,
        },
{
    match &doc.root {
        Some(root) => match &root.metas {
            Some(m) => match &m.inline_view_id {
                Some(id) => Some(id.clone()),
                None => None,
            },
            None => None,
        },
        None => None,
    }
}

/// Records a new inline view id; a document without a database or
/// without its metadata map is left alone. Returns whether it changed.
pub fn reset_inline_view_id(doc: &mut DatabaseDocument, inline_view_id: String) -> (r: bool)
    ensures
        r == (old(doc).root matches Some(root) && root.metas is Some),
        r ==> final(doc).root == Some(
            DatabaseRoot {
                metas: Some(MetaMap { inline_view_id: Some(inline_view_id) }),
                ..old(doc).root->0
            },
        ),
        !r ==> *final(doc) == *old(doc),
{
    match &mut doc.root {
        Some(root) => match &mut root.metas {
            Some(m) => {
                m.inline_view_id = Some(inline_view_id);
                true
            },
            None => false,
        },
        None => false,
    }
}

/// Whether the document carries every structural marker a database needs:
/// the root map with its database id, fields, views and metadata maps, and
/// the inline view id.
pub open spec fn has_markers(doc: DatabaseDocument) -> bool {
    doc.root matches Some(root) && root.database_id is Some && root.fields is Some
        && root.views is Some && (root.metas matches Some(m) && m.inline_view_id is Some)
}

impl Database {
    /// Opens a stored database. An empty database id is refused; a document
    /// that lacks a structural marker, or whose fields repeat an id, is
    /// malformed and refused before anything else happens. Views that
    /// cannot be read are left out.
    pub fn open(uid: i64, database_id: &String, doc: DatabaseDocument) -> (r: Result<
        Database,
        DatabaseError,
    >)
        ensures
            database_id@.len() == 0 ==> r == Err::<Database, DatabaseError>(DatabaseError::InvalidId),
            database_id@.len() > 0 && !has_markers(doc) ==> r == Err::<Database, DatabaseError>(
                DatabaseError::SchemaInvalid,
            ),
            database_id@.len() > 0 && has_markers(doc) && !unique_ids(doc.root->0.fields->0@)
                ==> r == Err::<Database, DatabaseError>(DatabaseError::SchemaInvalid),
            database_id@.len() > 0 && has_markers(doc) && unique_ids(doc.root->0.fields->0@) ==> r is Ok,
            r matches Ok(db) ==> {
                &&& db.wf()
                &&& db.database_id == *database_id
                &&& db.inline_view_id == doc.root->0.metas->0.inline_view_id->0
                &&& db.fields == doc.root->0.fields->0
                &&& db.views@.map_values(|v: DatabaseView| v.id@) == readable_view_ids(
                    doc.root->0.views->0@,
                    doc.root->0.views->0@.len() as int,
                )
                &&& db.block.cache() == crate::block::empty_cache()
            },
    {
        if database_id.as_str().is_empty() {
            return Err(DatabaseError::InvalidId);
        }
        let DatabaseDocument { root } = doc;
        let root = match root {
            Some(root) => root,
            None => {
                return Err(DatabaseError::SchemaInvalid);
            },
        };
        let DatabaseRoot { database_id: stored_id, fields, views, metas } = root;
        if stored_id.is_none() {
            return Err(DatabaseError::SchemaInvalid);
        }
        let fields = match fields {
            Some(f) => f,
            None => {
                return Err(DatabaseError::SchemaInvalid);
            },
        };
        let views = match views {
            Some(v) => v,
            None => {
                return Err(DatabaseError::SchemaInvalid);
            },
        };
        let inline_view_id = match metas {
            Some(MetaMap { inline_view_id: Some(id) }) => id,
            _ => {
                return Err(DatabaseError::SchemaInvalid);
            },
        };
        if !crate::order::has_unique_ids(&fields) {
            return Err(DatabaseError::SchemaInvalid);
        }
        let mut db = Database::new(uid, database_id.clone(), inline_view_id);
        db.fields = fields;
        let ghost all = views@;
        let mut src = views;
        let total = src.len();
        let mut i: usize = 0;
        while src.len() > 0
            invariant
                db.wf(),
                db.database_id == *database_id,
                db.inline_view_id == inline_view_id,
                db.fields == fields,
                db.block.cache() == crate::block::empty_cache(),
                i <= total,
                total == all.len(),
                src@ == all.skip(i as int),
                db.views@.map_values(|v: DatabaseView| v.id@) == readable_view_ids(all, i as int),
            decreases src@.len(),
        {
            proof {
                assert(all.skip(i as int).remove(0) =~= all.skip(i + 1));
            }
            let map = src.remove(0);
            match view_from_map_ref(map) {
                Some(view) => {
                    let ghost pre = db.views@;
                    db.views.push(view);
                    proof {
                        assert(db.views@.map_values(|v: DatabaseView| v.id@) =~= pre.map_values(
                            |v: DatabaseView| v.id@,
                        ).push(all[i as int].id->0@));
                        assert forall|j: int| 0 <= j < db.views@.len() implies (#[trigger] db.views@[j]).wf() by {
                            if j < pre.len() {
                                assert(db.views@[j] == pre[j]);
                            }
                        }
                    }
                },
                None => {},
            }
            i = i + 1;
        }
        Ok(db)
    }
}

} // verus!
