//! Rows: their data, the typed updates applied to them, the change events
//! those updates emit, and the materialized row that holds one row's state.
use vstd::prelude::*;

use crate::cell::{Cell, CellEntry, Cells, CellsUpdate, FieldCell, lookup, stamped_cell};
use crate::ids::{derive_meta_id, is_uuid_text, namespaced_id, random_uuid, timestamp};
use crate::order::RowOrder;
use crate::order::OrderObjectPosition;

verus! {

/// Height a row gets when none is given.
pub const DEFAULT_ROW_HEIGHT: i32 = 60;

/// A stored height as a row height: negative heights read as zero, and
/// heights beyond `i32` as the largest one.
pub open spec fn height_of(h: i64) -> i32 {
    if h < 0 {
        0
    } else if h > i32::MAX as i64 {
        i32::MAX
    } else {
        h as i32
    }
}

pub fn clamp_height(h: i64) -> (r: i32)
    ensures
        r == height_of(h),
        r >= 0,
{
    if h < 0 {
        0
    } else if h > i32::MAX as i64 {
        i32::MAX
    } else {
        h as i32
    }
}

/// The kinds of metadata whose ids derive from a row id.
pub enum RowMetaKey {
    DocumentId,
    IconId,
    CoverId,
    IsDocumentEmpty,
}

pub open spec fn meta_key_text(key: RowMetaKey) -> Seq<char> {
    match key {
        RowMetaKey::DocumentId => "document_id"@,
        RowMetaKey::IconId => "icon_id"@,
        RowMetaKey::CoverId => "cover_id"@,
        RowMetaKey::IsDocumentEmpty => "is_document_empty"@,
    }
}

impl RowMetaKey {
    pub fn as_str(&self) -> (r: &'static str)
        ensures
            r@ == meta_key_text(*self),
    {
        match self {
            RowMetaKey::DocumentId => "document_id",
            RowMetaKey::IconId => "icon_id",
            RowMetaKey::CoverId => "cover_id",
            RowMetaKey::IsDocumentEmpty => "is_document_empty",
        }
    }
}

/// The id of the metadata object `key` of the row `row_id`: derived from
/// the row id by a namespaced hash where the row id is a UUID, a random UUID
/// otherwise.
pub fn meta_id_from_meta_type(row_id: &str, key: RowMetaKey) -> (r: String)
    ensures
        is_uuid_text(row_id@) ==> r@ == namespaced_id(row_id@, meta_key_text(key)),
{
    match derive_meta_id(row_id, key.as_str()) {
        Some(id) => id,
        None => random_uuid(),
    }
}

/// The id of the document attached to the row `row_id`.
pub fn database_row_document_id_from_row_id(row_id: &str) -> (r: String)
    ensures
        is_uuid_text(row_id@) ==> r@ == namespaced_id(row_id@, "document_id"@),
{
    meta_id_from_meta_type(row_id, RowMetaKey::DocumentId)
}

/// One record of a database.
#[derive(Debug, PartialEq)]
pub struct Row {
    pub id: String,
    pub database_id: String,
    pub cells: Cells,
    pub height: i32,
    pub visibility: bool,
    pub created_at: i64,
    pub modified_at: i64,
}

pub struct RowView {
    pub id: Seq<char>,
    pub database_id: Seq<char>,
    pub cells: Seq<(Seq<char>, Seq<CellEntry>)>,
    pub height: i32,
    pub visibility: bool,
    pub created_at: i64,
    pub modified_at: i64,
}

impl View for Row {
    type V = RowView;

    open spec fn view(&self) -> RowView {
        RowView {
            id: self.id@,
            database_id: self.database_id@,
            cells: self.cells@,
            height: self.height,
            visibility: self.visibility,
            created_at: self.created_at,
            modified_at: self.modified_at,
        }
    }
}

impl Clone for Row {
    fn clone(&self) -> (r: Row)
        ensures
            r@ == self@,
            forall|k: Seq<char>| #![auto] r.cells.cell_spec(k) == self.cells.cell_spec(k),
            self.cells.wf() ==> r.cells.wf(),
    {
        Row {
            id: self.id.clone(),
            database_id: self.database_id.clone(),
            cells: self.cells.clone(),
            height: self.height,
            visibility: self.visibility,
            created_at: self.created_at,
            modified_at: self.modified_at,
        }
    }
}

impl Row {
    /// A row with no cells, the default height, visible, stamped now.
    pub fn new(id: String, database_id: &str) -> (r: Row)
        ensures
            r.id@ == id@,
            r.database_id@ == database_id@,
            r.cells@.len() == 0,
            r.cells.wf(),
            r.height == DEFAULT_ROW_HEIGHT,
            r.visibility,
            r.created_at == r.modified_at,
    {
        let now = timestamp();
        Row {
            id,
            database_id: database_id.to_owned(),
            cells: Cells::new(),
            height: DEFAULT_ROW_HEIGHT,
            visibility: true,
            created_at: now,
            modified_at: now,
        }
    }

    /// The placeholder for a row that cannot be resolved: no cells, the
    /// default height, visible, timestamps zero.
    pub fn empty(row_id: String, database_id: &str) -> (r: Row)
        ensures
            r.id@ == row_id@,
            r.database_id@ == database_id@,
            r.cells@.len() == 0,
            r.cells.wf(),
            r.height == DEFAULT_ROW_HEIGHT,
            r.visibility,
            r.created_at == 0,
            r.modified_at == 0,
    {
        Row {
            id: row_id,
            database_id: database_id.to_owned(),
            cells: Cells::new(),
            height: DEFAULT_ROW_HEIGHT,
            visibility: true,
            created_at: 0,
            modified_at: 0,
        }
    }

    pub fn is_empty(&self) -> (r: bool)
        ensures
            r == (self.cells@.len() == 0),
    {
        self.cells.is_empty()
    }

    pub fn document_id(&self) -> (r: String)
        ensures
            is_uuid_text(self.id@) ==> r@ == namespaced_id(self.id@, "document_id"@),
    {
        meta_id_from_meta_type(self.id.as_str(), RowMetaKey::DocumentId)
    }

    pub fn icon_id(&self) -> (r: String)
        ensures
            is_uuid_text(self.id@) ==> r@ == namespaced_id(self.id@, "icon_id"@),
    {
        meta_id_from_meta_type(self.id.as_str(), RowMetaKey::IconId)
    }

    pub fn cover_id(&self) -> (r: String)
        ensures
            is_uuid_text(self.id@) ==> r@ == namespaced_id(self.id@, "cover_id"@),
    {
        meta_id_from_meta_type(self.id.as_str(), RowMetaKey::CoverId)
    }

    /// The stand-in of this row inside a view.
    pub fn row_order(&self) -> (r: RowOrder)
        ensures
            r.id@ == self.id@,
            r.height == self.height,
    {
        RowOrder::new(self.id.clone(), self.height)
    }
}

/// What a caller supplies to create a row.
pub struct CreateRowParams {
    pub id: String,
    pub database_id: String,
    pub cells: Cells,
    pub height: i32,
    pub visibility: bool,
    pub row_position: OrderObjectPosition,
    pub created_at: i64,
    pub modified_at: i64,
}

impl CreateRowParams {
    /// Parameters for a row with no cells, the default height, visible,
    /// appended at the end, stamped now.
    pub fn new(id: String, database_id: String) -> (r: CreateRowParams)
        ensures
            r.id@ == id@,
            r.database_id@ == database_id@,
            r.cells@.len() == 0,
            r.cells.wf(),
            r.height == DEFAULT_ROW_HEIGHT,
            r.visibility,
            r.row_position == OrderObjectPosition::End,
            r.created_at == r.modified_at,
    {
        let now = timestamp();
        CreateRowParams {
            id,
            database_id,
            cells: Cells::new(),
            height: DEFAULT_ROW_HEIGHT,
            visibility: true,
            row_position: OrderObjectPosition::End,
            created_at: now,
            modified_at: now,
        }
    }

    pub fn with_cells(self, cells: Cells) -> (r: CreateRowParams)
        ensures
            r == (CreateRowParams { cells, ..self }),
    {
        CreateRowParams { cells, ..self }
    }

    pub fn with_height(self, height: i32) -> (r: CreateRowParams)
        ensures
            r == (CreateRowParams { height, ..self }),
    {
        CreateRowParams { height, ..self }
    }

    pub fn with_visibility(self, visibility: bool) -> (r: CreateRowParams)
        ensures
            r == (CreateRowParams { visibility, ..self }),
    {
        CreateRowParams { visibility, ..self }
    }

    pub fn with_row_position(self, row_position: OrderObjectPosition) -> (r: CreateRowParams)
        ensures
            r == (CreateRowParams { row_position, ..self }),
    {
        CreateRowParams { row_position, ..self }
    }

    /// The row these parameters describe.
    pub fn into_row(self) -> (r: Row)
        ensures
            r.id == self.id,
            r.database_id == self.database_id,
            r.cells == self.cells,
            r.height == self.height,
            r.visibility == self.visibility,
            r.created_at == self.created_at,
            r.modified_at == self.modified_at,
    {
        Row {
            id: self.id,
            database_id: self.database_id,
            cells: self.cells,
            height: self.height,
            visibility: self.visibility,
            created_at: self.created_at,
            modified_at: self.modified_at,
        }
    }
}

/// Why a request on rows was refused.
#[derive(Debug, PartialEq, Eq, Structural)]
pub enum RowError {
    /// The row id is empty.
    InvalidRowId,
}

/// Checks creation parameters: the id must not be empty, and a zero
/// timestamp is replaced by `now`.
pub fn validate_row_params(params: CreateRowParams, now: i64) -> (r: Result<
    CreateRowParams,
    RowError,
>)
    ensures
        params.id@.len() == 0 <==> r is Err,
        r matches Err(e) ==> e == RowError::InvalidRowId,
        r matches Ok(p) ==> {
            &&& p.id == params.id
            &&& p.database_id == params.database_id
            &&& p.cells == params.cells
            &&& p.height == params.height
            &&& p.visibility == params.visibility
            &&& p.row_position == params.row_position
            &&& p.created_at == if params.created_at == 0 {
                now
            } else {
                params.created_at
            }
            &&& p.modified_at == if params.modified_at == 0 {
                now
            } else {
                params.modified_at
            }
        },
{
    if params.id.as_str().is_empty() {
        return Err(RowError::InvalidRowId);
    }
    let created_at = if params.created_at == 0 {
        now
    } else {
        params.created_at
    };
    let modified_at = if params.modified_at == 0 {
        now
    } else {
        params.modified_at
    };
    Ok(CreateRowParams { created_at, modified_at, ..params })
}

/// A typed change of one row, as observers receive it.
#[derive(Debug)]
pub enum RowChange {
    DidUpdateVisibility { value: bool },
    DidUpdateHeight { value: i32 },
    DidUpdateCell { key: String, value: Cell },
    DidUpdateRowComment,
}

pub enum RowChangeView {
    Visibility(bool),
    Height(i32),
    Cell(Seq<char>, Seq<CellEntry>),
    Comment,
}

impl View for RowChange {
    type V = RowChangeView;

    open spec fn view(&self) -> RowChangeView {
        match self {
            RowChange::DidUpdateVisibility { value } => RowChangeView::Visibility(*value),
            RowChange::DidUpdateHeight { value } => RowChangeView::Height(*value),
            RowChange::DidUpdateCell { key, value } => RowChangeView::Cell(key@, value@),
            RowChange::DidUpdateRowComment => RowChangeView::Comment,
        }
    }
}

pub open spec fn changes_view(v: Seq<RowChange>) -> Seq<RowChangeView> {
    v.map_values(|c: RowChange| c@)
}

/// A scoped mutable view of one row: setters apply to the row and record
/// the change each emits; the whole is committed at once.
pub struct RowUpdate {
    pub row: Row,
    pub now: i64,
    pub changes: Vec<RowChange>,
}

impl RowUpdate {
    pub fn new(row: Row, now: i64) -> (r: RowUpdate)
        ensures
            r.row == row,
            r.now == now,
            r.changes@.len() == 0,
    {
        RowUpdate { row, now, changes: Vec::new() }
    }

    pub fn set_height(self, height: i32) -> (r: RowUpdate)
        ensures
            r.row == (Row { height, ..self.row }),
            r.now == self.now,
            changes_view(r.changes@) == changes_view(self.changes@).push(
                RowChangeView::Height(height),
            ),
    {
        let RowUpdate { row, now, mut changes } = self;
        changes.push(RowChange::DidUpdateHeight { value: height });
        proof {
            assert(changes_view(changes@) =~= changes_view(self.changes@).push(
                RowChangeView::Height(height),
            ));
        }
        RowUpdate { row: Row { height, ..row }, now, changes }
    }

    pub fn set_visibility(self, visibility: bool) -> (r: RowUpdate)
        ensures
            r.row == (Row { visibility, ..self.row }),
            r.now == self.now,
            changes_view(r.changes@) == changes_view(self.changes@).push(
                RowChangeView::Visibility(visibility),
            ),
    {
        let RowUpdate { row, now, mut changes } = self;
        changes.push(RowChange::DidUpdateVisibility { value: visibility });
        proof {
            assert(changes_view(changes@) =~= changes_view(self.changes@).push(
                RowChangeView::Visibility(visibility),
            ));
        }
        RowUpdate { row: Row { visibility, ..row }, now, changes }
    }

    /// Moves the row to a new id and database; the metadata ids follow the
    /// row id, as they derive from it.
    pub fn set_row_id(self, id: String, database_id: String) -> (r: RowUpdate)
        ensures
            r.row == (Row { id, database_id, ..self.row }),
            r.now == self.now,
            r.changes == self.changes,
    {
        let RowUpdate { row, now, changes } = self;
        RowUpdate { row: Row { id, database_id, ..row }, now, changes }
    }

    pub fn set_created_at(self, created_at: i64) -> (r: RowUpdate)
        ensures
            r.row == (Row { created_at, ..self.row }),
            r.now == self.now,
            r.changes == self.changes,
    {
        let RowUpdate { row, now, changes } = self;
        RowUpdate { row: Row { created_at, ..row }, now, changes }
    }

    pub fn set_last_modified(self, modified_at: i64) -> (r: RowUpdate)
        ensures
            r.row == (Row { modified_at, ..self.row }),
            r.now == self.now,
            r.changes == self.changes,
    {
        let RowUpdate { row, now, changes } = self;
        RowUpdate { row: Row { modified_at, ..row }, now, changes }
    }

    /// Writes `cell` into the cell of field `key`, stamped with the time of
    /// this update, and records the cell as it now stands.
    pub fn update_cells(self, key: &String, cell: Cell) -> (r: RowUpdate)
        requires
            cell.wf(),
        ensures
            r.now == self.now,
            r.row.id == self.row.id,
            r.row.database_id == self.row.database_id,
            r.row.height == self.row.height,
            r.row.visibility == self.row.visibility,
            r.row.created_at == self.row.created_at,
            r.row.modified_at == self.row.modified_at,
            forall|k: Seq<char>|
                #![auto]
                k != key@ ==> r.row.cells.cell_spec(k) == self.row.cells.cell_spec(k),
            r.row.cells.cell_spec(key@) matches Some(c) && (forall|k: Seq<char>|
                #![auto]
                lookup(c, k) == stamped_cell(self.row.cells.cell_spec(key@), cell@, self.now, k))
                && changes_view(r.changes@) == changes_view(self.changes@).push(
                RowChangeView::Cell(key@, c),
            ),
            self.row.cells.wf() ==> r.row.cells.wf(),
    {
        let RowUpdate { row, now, mut changes } = self;
        let Row { id, database_id, cells, height, visibility, created_at, modified_at } = row;
        let cells = CellsUpdate::new(cells, now).insert_cell(key, cell).done();
        let current = match cells.cell_for_field_id(key) {
            Some(c) => c.clone(),
            None => Cell::new(),
        };
        let ghost cur = current@;
        changes.push(RowChange::DidUpdateCell { key: key.clone(), value: current });
        proof {
            assert(changes_view(changes@) =~= changes_view(self.changes@).push(
                RowChangeView::Cell(key@, cur),
            ));
        }
        RowUpdate {
            row: Row { id, database_id, cells, height, visibility, created_at, modified_at },
            now,
            changes,
        }
    }

    /// Sets the cell of each field that `cells` names, replacing that
    /// field's earlier cell, and records one change per field.
    pub fn set_cells(self, cells: Cells) -> (r: RowUpdate)
        requires
            cells.wf(),
        ensures
            r.now == self.now,
            r.row.id == self.row.id,
            r.row.database_id == self.row.database_id,
            r.row.height == self.row.height,
            r.row.visibility == self.row.visibility,
            r.row.created_at == self.row.created_at,
            r.row.modified_at == self.row.modified_at,
            forall|k: Seq<char>|
                #![auto]
                r.row.cells.cell_spec(k) == match cells.cell_spec(k) {
                    Some(c) => Some(c),
                    None => self.row.cells.cell_spec(k),
                },
            changes_view(r.changes@) == changes_view(self.changes@) + cells@.map_values(
                |e: (Seq<char>, Seq<CellEntry>)| RowChangeView::Cell(e.0, e.1),
            ),
            self.row.cells.wf() ==> r.row.cells.wf(),
    {
        let RowUpdate { row, now, mut changes } = self;
        let Row { id, database_id, cells: mut target, height, visibility, created_at, modified_at } =
            row;
        let ghost t0 = target;
        let ghost all = cells.entries@;
        let mut src = cells.entries;
        let ghost n = all.len();
        let ghost done_view = cells@;
        let total = src.len();
        assert(n == total);
        let mut i: usize = 0;
        while src.len() > 0
            invariant
                0 <= i <= n,
                n == all.len(),
                n <= usize::MAX,
                src@ == all.skip(i as int),
                done_view == all.map_values(|fc: FieldCell| crate::cell::field_cell_view(fc)),
                crate::order::unique_ids(all),
                forall|j: int| 0 <= j < all.len() ==> all[j].cell.wf(),
                t0.wf() ==> target.wf(),
                forall|k: Seq<char>|
                    #![auto]
                    target.cell_spec(k) == match crate::cell::cell_of(all.take(i as int), k) {
                        Some(c) => Some(c),
                        None => t0.cell_spec(k),
                    },
                changes_view(changes@) == changes_view(self.changes@) + done_view.take(
                    i as int,
                ).map_values(|e: (Seq<char>, Seq<CellEntry>)| RowChangeView::Cell(e.0, e.1)),
            decreases src@.len(),
        {
            proof {
                assert(src@[0] == all[i as int]);
            }
            let fc = src.remove(0);
            let FieldCell { field_id, cell } = fc;
            let ev = cell.clone();
            let ghost pre = target;
            let ghost pre_changes = changes@;
            changes.push(RowChange::DidUpdateCell { key: field_id.clone(), value: ev });
            proof {
                assert(changes@ == pre_changes.push(changes@.last()));
                assert(changes_view(changes@) =~= changes_view(pre_changes).push(
                    RowChangeView::Cell(all[i as int].field_id@, all[i as int].cell@),
                ));
                assert(done_view[i as int] == (all[i as int].field_id@, all[i as int].cell@));
            }
            target.insert(field_id, cell);
            proof {
                let t = all.take(i as int);
                let t1 = all.take(i + 1);
                assert(t1 == t.push(all[i as int]));
                assert forall|j: int| 0 <= j < t.len() implies t[j].field_id@ != all[i as int].field_id@ by {
                    assert(t[j] == all[j]);
                }
                lemma_cell_of_push(t, all[i as int]);
                assert forall|k: Seq<char>| #![auto] target.cell_spec(k) == match crate::cell::cell_of(t1, k) {
                    Some(c) => Some(c),
                    None => t0.cell_spec(k),
                } by {
                    lemma_cell_of_push(t, all[i as int]);
                }
                assert(all.skip(i as int).remove(0) =~= all.skip(i + 1));
                assert(done_view.take(i + 1) =~= done_view.take(i as int).push(done_view[i as int]));
                assert(changes_view(changes@) =~= changes_view(self.changes@) + done_view.take(
                    i + 1,
                ).map_values(|e: (Seq<char>, Seq<CellEntry>)| RowChangeView::Cell(e.0, e.1)));
            }
            i = i + 1;
        }
        proof {
            assert(all.skip(i as int).len() == 0);
            assert(all.take(i as int) =~= all);
            assert(done_view.take(i as int) =~= done_view);
        }
        RowUpdate {
            row: Row { id, database_id, cells: target, height, visibility, created_at, modified_at },
            now,
            changes,
        }
    }

    pub fn done(self) -> (r: Row)
        ensures
            r == self.row,
    {
        self.row
    }
}

/// Metadata of a row kept beside its data.
#[derive(Debug, PartialEq)]
pub struct RowMeta {
    pub icon_url: Option<String>,
    pub cover_url: Option<String>,
    pub is_document_empty: bool,
}

impl Clone for RowMeta {
    fn clone(&self) -> (r: RowMeta)
        ensures
            r == *self,
    {
        RowMeta {
            icon_url: match &self.icon_url {
                Some(s) => Some(s.clone()),
                None => None,
            },
            cover_url: match &self.cover_url {
                Some(s) => Some(s.clone()),
                None => None,
            },
            is_document_empty: self.is_document_empty,
        }
    }
}

impl RowMeta {
    /// No icon, no cover, an empty document.
    pub fn empty() -> (r: RowMeta)
        ensures
            r.icon_url is None,
            r.cover_url is None,
            r.is_document_empty,
    {
        RowMeta { icon_url: None, cover_url: None, is_document_empty: true }
    }
}

/// A scoped mutable view of a row's metadata.
pub struct RowMetaUpdate {
    pub meta: RowMeta,
}

impl RowMetaUpdate {
    pub fn new(meta: RowMeta) -> (r: RowMetaUpdate)
        ensures
            r.meta == meta,
    {
        RowMetaUpdate { meta }
    }

    pub fn insert_icon(self, icon_url: String) -> (r: RowMetaUpdate)
        ensures
            r.meta == (RowMeta { icon_url: Some(icon_url), ..self.meta }),
    {
        RowMetaUpdate { meta: RowMeta { icon_url: Some(icon_url), ..self.meta } }
    }

    pub fn insert_cover(self, cover_url: String) -> (r: RowMetaUpdate)
        ensures
            r.meta == (RowMeta { cover_url: Some(cover_url), ..self.meta }),
    {
        RowMetaUpdate { meta: RowMeta { cover_url: Some(cover_url), ..self.meta } }
    }

    pub fn update_is_document_empty(self, is_document_empty: bool) -> (r: RowMetaUpdate)
        ensures
            r.meta == (RowMeta { is_document_empty, ..self.meta }),
    {
        RowMetaUpdate { meta: RowMeta { is_document_empty, ..self.meta } }
    }

    pub fn done(self) -> (r: RowMeta)
        ensures
            r == self.meta,
    {
        self.meta
    }
}

/// A row with its metadata and the id of its attached document.
pub struct RowDetail {
    pub row: Row,
    pub meta: RowMeta,
    pub document_id: String,
}

impl RowDetail {
    /// The detail of `row`; `None` where the row id is not a UUID, as its
    /// document id cannot be derived then.
    pub fn new(row: Row, meta: RowMeta) -> (r: Option<RowDetail>)
        ensures
            r is Some == is_uuid_text(row.id@),
            r matches Some(d) ==> d.row == row && d.meta == meta && d.document_id@
                == namespaced_id(row.id@, "document_id"@),
    {
        match derive_meta_id(row.id.as_str(), RowMetaKey::DocumentId.as_str()) {
            Some(document_id) => Some(RowDetail { row, meta, document_id }),
            None => None,
        }
    }
}

pub struct DatabaseRowView {
    pub uid: i64,
    pub row_id: Seq<char>,
    pub data: Option<RowView>,
    pub meta: RowMeta,
}

/// The view-level form of `DatabaseRow::wf`.
pub open spec fn row_view_wf(v: DatabaseRowView) -> bool {
    v.data matches Some(r) ==> r.id == v.row_id && crate::cell::cells_view_wf(r.cells)
}

/// The in-memory state of one row's document: its data, once written, and
/// its metadata.
pub struct DatabaseRow {
    pub uid: i64,
    pub row_id: String,
    pub data: Option<Row>,
    pub meta: RowMeta,
}

impl View for DatabaseRow {
    type V = DatabaseRowView;

    open spec fn view(&self) -> DatabaseRowView {
        DatabaseRowView {
            uid: self.uid,
            row_id: self.row_id@,
            data: match self.data {
                Some(r) => Some(r@),
                None => None,
            },
            meta: self.meta,
        }
    }
}

impl Clone for DatabaseRow {
    fn clone(&self) -> (r: DatabaseRow)
        ensures
            r@ == self@,
            self.wf() ==> r.wf(),
    {
        DatabaseRow {
            uid: self.uid,
            row_id: self.row_id.clone(),
            data: match &self.data {
                Some(row) => Some(row.clone()),
                None => None,
            },
            meta: self.meta.clone(),
        }
    }
}

impl DatabaseRow {
    pub open spec fn wf(&self) -> bool {
        self.data matches Some(r) ==> r.id@ == self.row_id@ && r.cells.wf()
    }

    pub proof fn lemma_wf_view(&self)
        ensures
            self.wf() <==> row_view_wf(self@),
    {
        if let Some(r) = self.data {
            r.cells.lemma_wf_view();
        }
    }

    /// Materializes a row from its loaded document.
    pub fn new(uid: i64, row_id: String, data: Option<Row>, meta: RowMeta) -> (r: DatabaseRow)
        requires
            data matches Some(x) ==> x.id@ == row_id@ && x.cells.wf(),
        ensures
            r.wf(),
            r.uid == uid,
            r.row_id == row_id,
            r.data == data,
            r.meta == meta,
    {
        DatabaseRow { uid, row_id, data, meta }
    }

    pub open spec fn create_view(uid: i64, row: Row) -> DatabaseRowView {
        DatabaseRowView {
            uid,
            row_id: row.id@,
            data: Some(row@),
            meta: RowMeta { icon_url: None, cover_url: None, is_document_empty: true },
        }
    }

    /// Materializes a row that the caller supplies in full.
    pub fn create(uid: i64, row: Row) -> (r: DatabaseRow)
        requires
            row.cells.wf(),
        ensures
            r.wf(),
            r.uid == uid,
            r.row_id@ == row.id@,
            r.data == Some(row),
            r.meta == (RowMeta { icon_url: None, cover_url: None, is_document_empty: true }),
            r@ == DatabaseRow::create_view(uid, row),
    {
        let row_id = row.id.clone();
        DatabaseRow { uid, row_id, data: Some(row), meta: RowMeta::empty() }
    }

    /// A copy of the row's data; `None` until the document holds a row.
    pub fn get_row(&self) -> (r: Option<Row>)
        ensures
            r is Some == self.data is Some,
            r matches Some(x) ==> x@ == self.data->0@ && (self.wf() ==> x.cells.wf()),
    {
        match &self.data {
            Some(row) => Some(row.clone()),
            None => None,
        }
    }

    pub fn get_row_meta(&self) -> (r: RowMeta)
        ensures
            r == self.meta,
    {
        self.meta.clone()
    }

    pub fn get_row_order(&self) -> (r: Option<RowOrder>)
        ensures
            r is Some == self.data is Some,
            r matches Some(o) ==> o.id@ == self.data->0.id@ && o.height == self.data->0.height,
    {
        match &self.data {
            Some(row) => Some(row.row_order()),
            None => None,
        }
    }

    /// A copy of the cell of `field_id`.
    pub fn get_cell(&self, field_id: &String) -> (r: Option<Cell>)
        ensures
            r matches Some(c) ==> self.data matches Some(x) && x.cells.cell_spec(field_id@) == Some(
                c@,
            ),
            r is None ==> (self.data matches Some(x) ==> x.cells.cell_spec(field_id@) is None),
    {
        match &self.data {
            Some(row) => match row.cells.cell_for_field_id(field_id) {
                Some(c) => Some(c.clone()),
                None => None,
            },
            None => None,
        }
    }

    /// Opens an update of this row at time `now`: the modification stamp is
    /// refreshed first. `None` while the document holds no row.
    pub fn begin_update(&self, now: i64) -> (r: Option<RowUpdate>)
        requires
            self.wf(),
        ensures
            r is Some == self.data is Some,
            r matches Some(u) ==> {
                &&& u.now == now
                &&& u.changes@.len() == 0
                &&& u.row@ == (RowView { modified_at: now, ..self.data->0@ })
                &&& forall|k: Seq<char>|
                    #![auto]
                    u.row.cells.cell_spec(k) == self.data->0.cells.cell_spec(k)
                &&& u.row.cells.wf()
            },
    {
        match &self.data {
            Some(row) => {
                let copy = row.clone();
                Some(RowUpdate::new(copy, now).set_last_modified(now))
            },
            None => None,
        }
    }

    /// Commits an update: the row takes the updated data at once and the
    /// changes it recorded are returned as one batch.
    pub fn update(&mut self, update: RowUpdate) -> (r: Vec<RowChange>)
        requires
            old(self).wf(),
            update.row.id@ == old(self).row_id@,
            update.row.cells.wf(),
        ensures
            final(self).wf(),
            final(self).data == Some(update.row),
            final(self).row_id == old(self).row_id,
            final(self).meta == old(self).meta,
            final(self).uid == old(self).uid,
            r == update.changes,
    {
        let RowUpdate { row, now, changes } = update;
        self.data = Some(row);
        changes
    }

    /// Commits an update of the metadata.
    pub fn update_meta(&mut self, update: RowMetaUpdate)
        ensures
            final(self).meta == update.meta,
            final(self).data == old(self).data,
            final(self).row_id == old(self).row_id,
            final(self).uid == old(self).uid,
    {
        self.meta = update.meta;
    }
}

proof fn lemma_cell_of_push(t: Seq<FieldCell>, x: FieldCell)
    requires
        forall|j: int| 0 <= j < t.len() ==> t[j].field_id@ != x.field_id@,
    ensures
        forall|k: Seq<char>|
            #![auto]
            crate::cell::cell_of(t.push(x), k) == match crate::cell::cell_of(t, k) {
                Some(c) => Some(c),
                None => if k == x.field_id@ {
                    Some(x.cell@)
                } else {
                    None
                },
            },
{
    assert forall|k: Seq<char>| #![auto] crate::cell::cell_of(t.push(x), k) == match crate::cell::cell_of(t, k) {
        Some(c) => Some(c),
        None => if k == x.field_id@ {
            Some(x.cell@)
        } else {
            None
        },
    } by {
        let t1 = t.push(x);
        match crate::order::index_of_id(t, k) {
            Some(m) => {
                crate::order::lemma_index_some(t, k);
                crate::order::lemma_first_index_unique(t1, k, m);
            },
            None => {
                assert forall|j: int| 0 <= j < t.len() implies t[j].field_id@ != k by {
                    assert(!(0 <= j < t.len() && t[j].field_id@ == k));
                }
                if k == x.field_id@ {
                    crate::order::lemma_first_index_unique(t1, k, t.len() as int);
                } else {
                    assert forall|j: int| 0 <= j < t1.len() implies t1[j].field_id@ != k by {}
                    crate::order::lemma_no_first_none(t1, k);
                }
            },
        }
    }
}

} // verus!
