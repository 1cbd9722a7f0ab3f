use collab_database::cell::{
    get_field_type_from_cell, new_cell_builder, AnyValue, Cell, Cells, CellsUpdate, RowCell,
    CREATED_AT, LAST_MODIFIED,
};
use collab_database::ids::{gen_database_sort_id, gen_field_id, gen_row_id, timestamp};
use collab_database::row::{
    database_row_document_id_from_row_id, CreateRowParams, DatabaseRow, Row, RowChange,
    RowDetail, RowMeta, RowMetaKey, RowMetaUpdate, RowUpdate,
};
use collab_database::row_observer::{
    row_changes_from_event, EntryChange, EntryEvent, EventValue, MapEvent, PathSegment,
};

fn text_cell(s: &str) -> Cell {
    let mut c = Cell::new();
    c.insert("data".to_string(), AnyValue::Str(s.to_string()));
    c
}

#[test]
fn row_defaults() {
    let row = Row::new("r1".to_string(), "d1");
    assert_eq!(row.height, 60);
    assert!(row.visibility);
    assert!(row.is_empty());
    assert_eq!(row.created_at, row.modified_at);
    assert!(row.created_at > 0);
    let empty = Row::empty("r2".to_string(), "d1");
    assert_eq!(empty.created_at, 0);
    assert_eq!(empty.height, 60);
    let params = CreateRowParams::new("r3".to_string(), "d1".to_string())
        .with_height(80)
        .with_visibility(false);
    assert_eq!(params.height, 80);
    assert!(!params.visibility);
}

#[test]
fn meta_ids_derive_from_row_id() {
    let row_id = "43f6c30f-9d23-470c-a0dd-8819f08dcf2c";
    let row = Row::new(row_id.to_string(), "d1");
    let doc = row.document_id();
    assert_eq!(doc.len(), 36);
    assert_ne!(doc, row_id);
    assert_eq!(doc, database_row_document_id_from_row_id(row_id));
    assert_eq!(doc, row.document_id());
    assert_ne!(doc, row.icon_id());
    assert_ne!(row.icon_id(), row.cover_id());
    assert_eq!(RowMetaKey::DocumentId.as_str(), "document_id");
    assert_eq!(RowMetaKey::IsDocumentEmpty.as_str(), "is_document_empty");
    // A row id that is not a UUID gets a fresh random id each time.
    let odd = Row::new("not-a-uuid".to_string(), "d1");
    assert_eq!(odd.document_id().len(), 36);
    assert_ne!(odd.document_id(), odd.document_id());
    assert!(RowDetail::new(odd, RowMeta::empty()).is_none());
    assert!(RowDetail::new(row, RowMeta::empty()).is_some());
}

#[test]
fn generated_ids_have_their_shapes() {
    assert_eq!(gen_row_id().len(), 36);
    assert_ne!(gen_row_id(), gen_row_id());
    assert_eq!(gen_field_id().len(), 6);
    let sort = gen_database_sort_id();
    assert!(sort.starts_with("s:"));
    assert_eq!(sort.len(), 8);
    assert!(timestamp() > 1_600_000_000);
}

#[test]
fn cells_update_stamps_cells() {
    let mut first = Cell::new();
    first.insert("data".to_string(), AnyValue::Str("hello".to_string()));
    let cells = CellsUpdate::new(Cells::new(), 100)
        .insert_cell(&"f1".to_string(), first)
        .done();
    let c = cells.cell_for_field_id(&"f1".to_string()).unwrap();
    assert_eq!(c.get(&CREATED_AT.to_string()), Some(&AnyValue::Int(100)));
    assert_eq!(c.get(&LAST_MODIFIED.to_string()), Some(&AnyValue::Int(100)));
    let cells = CellsUpdate::new(cells, 200)
        .insert(&"f1".to_string(), text_cell("world"))
        .done();
    let c = cells.cell_for_field_id(&"f1".to_string()).unwrap();
    assert_eq!(c.get(&CREATED_AT.to_string()), Some(&AnyValue::Int(100)));
    assert_eq!(c.get(&LAST_MODIFIED.to_string()), Some(&AnyValue::Int(200)));
    assert_eq!(
        c.get(&"data".to_string()),
        Some(&AnyValue::Str("world".to_string()))
    );
    let cells = CellsUpdate::new(cells, 300).clear(&"f1".to_string()).done();
    assert!(cells
        .cell_for_field_id(&"f1".to_string())
        .unwrap()
        .entries
        .is_empty());
    assert!(cells.cell_for_field_id(&"f2".to_string()).is_none());
}

#[test]
fn field_type_cells() {
    let c = new_cell_builder(3);
    assert_eq!(get_field_type_from_cell(&c), Some(3));
    assert_eq!(get_field_type_from_cell(&Cell::new()), None);
    let rc = RowCell::new("r1".to_string(), Some(c));
    assert_eq!(rc.row_id, "r1");
}

#[test]
fn materialized_row_update_refreshes_modified_at_and_emits_changes() {
    let mut row = Row::new("r1".to_string(), "d1");
    row.created_at = 5;
    row.modified_at = 5;
    let mut db_row = DatabaseRow::create(1, row);
    let update = db_row
        .begin_update(50)
        .unwrap()
        .set_height(90)
        .set_visibility(false)
        .update_cells(&"f1".to_string(), text_cell("x"));
    let changes = db_row.update(update);
    assert_eq!(changes.len(), 3);
    assert!(matches!(changes[0], RowChange::DidUpdateHeight { value: 90 }));
    assert!(matches!(changes[1], RowChange::DidUpdateVisibility { value: false }));
    match &changes[2] {
        RowChange::DidUpdateCell { key, value } => {
            assert_eq!(key, "f1");
            assert_eq!(value.get(&"data".to_string()), Some(&AnyValue::Str("x".to_string())));
        },
        _ => panic!("expected a cell change"),
    }
    let stored = db_row.get_row().unwrap();
    assert_eq!(stored.height, 90);
    assert!(!stored.visibility);
    assert_eq!(stored.modified_at, 50);
    assert_eq!(stored.created_at, 5);
    assert!(db_row.get_cell(&"f1".to_string()).is_some());
    assert_eq!(db_row.get_row_order().unwrap().height, 90);
}

#[test]
fn set_cells_replaces_per_field_and_reports_each() {
    let row = Row::new("r1".to_string(), "d1");
    let mut cells = Cells::new();
    cells.insert("f1".to_string(), text_cell("a"));
    cells.insert("f2".to_string(), text_cell("b"));
    let u = RowUpdate::new(row, 7).set_cells(cells);
    assert_eq!(u.changes.len(), 2);
    let row = u.done();
    assert_eq!(row.cells.entries.len(), 2);
}

#[test]
fn meta_update() {
    let mut db_row = DatabaseRow::create(1, Row::new("r1".to_string(), "d1"));
    let update = RowMetaUpdate::new(db_row.get_row_meta())
        .insert_icon("icon".to_string())
        .update_is_document_empty(false);
    db_row.update_meta(update);
    let meta = db_row.get_row_meta();
    assert_eq!(meta.icon_url, Some("icon".to_string()));
    assert!(!meta.is_document_empty);
    assert_eq!(meta.cover_url, None);
}

#[test]
fn row_observer_translates_events() {
    let event = MapEvent {
        path: vec![],
        target: EventValue::Any(AnyValue::Null),
        keys: vec![
            EntryEvent {
                key: "height".to_string(),
                change: EntryChange::Updated(
                    EventValue::Any(AnyValue::Int(60)),
                    EventValue::Any(AnyValue::Int(100)),
                ),
            },
            EntryEvent {
                key: "visibility".to_string(),
                change: EntryChange::Updated(
                    EventValue::Any(AnyValue::Bool(true)),
                    EventValue::Any(AnyValue::Bool(false)),
                ),
            },
            EntryEvent {
                key: "other".to_string(),
                change: EntryChange::Updated(
                    EventValue::Any(AnyValue::Int(1)),
                    EventValue::Any(AnyValue::Int(2)),
                ),
            },
            EntryEvent {
                key: "height".to_string(),
                change: EntryChange::Inserted(EventValue::Any(AnyValue::Int(3))),
            },
        ],
    };
    let changes = row_changes_from_event(&event);
    assert_eq!(changes.len(), 2);
    assert!(matches!(changes[0], RowChange::DidUpdateHeight { value: 100 }));
    assert!(matches!(changes[1], RowChange::DidUpdateVisibility { value: false }));

    let inserted = MapEvent {
        path: vec![PathSegment::Key("cells".to_string())],
        target: EventValue::Any(AnyValue::Null),
        keys: vec![EntryEvent {
            key: "f9".to_string(),
            change: EntryChange::Inserted(EventValue::Nested(text_cell("new"))),
        }],
    };
    let changes = row_changes_from_event(&inserted);
    assert_eq!(changes.len(), 1);
    match &changes[0] {
        RowChange::DidUpdateCell { key, .. } => assert_eq!(key, "f9"),
        _ => panic!("expected a cell change"),
    }

    let updated = MapEvent {
        path: vec![
            PathSegment::Key("cells".to_string()),
            PathSegment::Key("f3".to_string()),
        ],
        target: EventValue::Nested(text_cell("upd")),
        keys: vec![
            EntryEvent {
                key: "data".to_string(),
                change: EntryChange::Updated(
                    EventValue::Any(AnyValue::Str("old".to_string())),
                    EventValue::Any(AnyValue::Str("upd".to_string())),
                ),
            },
            EntryEvent {
                key: "data".to_string(),
                change: EntryChange::Removed(EventValue::Any(AnyValue::Null)),
            },
        ],
    };
    let changes = row_changes_from_event(&updated);
    assert_eq!(changes.len(), 1);
    match &changes[0] {
        RowChange::DidUpdateCell { key, value } => {
            assert_eq!(key, "f3");
            assert_eq!(value.get(&"data".to_string()), Some(&AnyValue::Str("upd".to_string())));
        },
        _ => panic!("expected a cell change"),
    }
}
