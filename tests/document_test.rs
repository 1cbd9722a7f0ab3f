use collab_database::row::database_row_document_id_from_row_id;
use collab_database::cell::{AnyValue, Cell, CellEntry, Cells, FieldCell};
use collab_database::database::{Database, DatabaseError};
use collab_database::document::{
    cell_from_map_ref, get_inline_view_id, is_database_collab, reset_inline_view_id,
    row_from_map_ref, row_id_from_map_ref, row_order_from_map_ref, view_description_from_value,
    view_from_map_ref, view_id_from_map_ref, DatabaseDocument, DatabaseRoot, MetaMap, RowMap,
    ViewMap,
};
use collab_database::field::Field;
use collab_database::order::RowOrder;
use collab_database::record::RecordMap;
use collab_database::view::DatabaseLayout;

fn empty_row_map() -> RowMap {
    RowMap {
        id: None,
        database_id: None,
        visibility: None,
        height: None,
        created_at: None,
        last_modified: None,
        cells: None,
    }
}

fn view_map(id: &str, layout: i64) -> ViewMap {
    ViewMap {
        id: Some(id.to_string()),
        name: Some("grid".to_string()),
        database_id: None,
        layout: Some(layout),
        layout_settings: None,
        filters: None,
        groups: None,
        sorts: None,
        row_orders: None,
        field_orders: None,
        created_at: None,
        modified_at: None,
    }
}

#[test]
fn row_maps_read_with_defaults() {
    assert!(row_from_map_ref(empty_row_map(), 9).is_none());
    let map = RowMap {
        id: Some("r1".to_string()),
        ..empty_row_map()
    };
    assert_eq!(row_id_from_map_ref(&map), Some("r1".to_string()));
    let (order, created) = row_order_from_map_ref(&map).unwrap();
    assert_eq!(order, RowOrder::new("r1".to_string(), 60));
    assert_eq!(created, 0);
    let row = row_from_map_ref(map, 9).unwrap();
    assert_eq!(row.database_id, "");
    assert!(row.visibility);
    assert_eq!(row.height, 60);
    assert_eq!(row.created_at, 9);
    assert_eq!(row.modified_at, 9);
    assert!(row.is_empty());

    let dup = Cell {
        entries: vec![
            CellEntry { key: "k".to_string(), value: AnyValue::Int(1) },
            CellEntry { key: "k".to_string(), value: AnyValue::Int(2) },
        ],
    };
    let malformed = Cells { entries: vec![FieldCell { field_id: "f".to_string(), cell: dup }] };
    let map = RowMap {
        id: Some("r2".to_string()),
        height: Some(44),
        visibility: Some(false),
        created_at: Some(3),
        cells: Some(malformed),
        ..empty_row_map()
    };
    assert!(cell_from_map_ref(&map, &"f".to_string()).is_some());
    let row = row_from_map_ref(map, 9).unwrap();
    assert_eq!(row.height, 44);
    assert!(!row.visibility);
    assert_eq!(row.created_at, 3);
    assert!(row.is_empty());
}

#[test]
fn view_maps_need_id_name_and_layout() {
    assert!(view_from_map_ref(view_map("v1", 7)).is_none());
    let mut missing_name = view_map("v1", 0);
    missing_name.name = None;
    let d = view_description_from_value(&missing_name).unwrap();
    assert_eq!(d.name, "");
    assert!(view_from_map_ref(missing_name).is_none());
    let mut map = view_map("v1", 1);
    map.filters = Some(vec![
        RecordMap { id: "f".to_string(), data: Cell::new() },
        RecordMap { id: "f".to_string(), data: Cell::new() },
    ]);
    assert_eq!(view_id_from_map_ref(&map), Some("v1".to_string()));
    let view = view_from_map_ref(map).unwrap();
    assert_eq!(view.layout, DatabaseLayout::Board);
    assert_eq!(view.filters.items.len(), 1);
    assert_eq!(view.database_id, "");
    assert_eq!(view.created_at, 0);
}

fn document() -> DatabaseDocument {
    DatabaseDocument {
        root: Some(DatabaseRoot {
            database_id: Some("d1".to_string()),
            fields: Some(vec![Field::new("f1".to_string(), "Name".to_string(), 0, true)]),
            views: Some(vec![view_map("v1", 0), view_map("bad", 9)]),
            metas: Some(MetaMap { inline_view_id: Some("v1".to_string()) }),
        }),
    }
}

#[test]
fn opening_validates_structural_markers() {
    let db = Database::open(1, &"d1".to_string(), document()).unwrap();
    assert_eq!(db.inline_view_id, "v1");
    assert_eq!(db.views.len(), 1);
    assert_eq!(
        Database::open(1, &"".to_string(), document()).err(),
        Some(DatabaseError::InvalidId)
    );
    assert_eq!(
        Database::open(1, &"d1".to_string(), DatabaseDocument { root: None }).err(),
        Some(DatabaseError::SchemaInvalid)
    );
    let mut no_views = document();
    no_views.root.as_mut().unwrap().views = None;
    assert_eq!(
        Database::open(1, &"d1".to_string(), no_views).err(),
        Some(DatabaseError::SchemaInvalid)
    );
    let mut no_metas = document();
    no_metas.root.as_mut().unwrap().metas = None;
    assert_eq!(
        Database::open(1, &"d1".to_string(), no_metas).err(),
        Some(DatabaseError::SchemaInvalid)
    );
}

#[test]
fn inline_view_id_in_documents() {
    let mut doc = document();
    assert!(is_database_collab(&doc));
    assert_eq!(get_inline_view_id(&doc), Some("v1".to_string()));
    assert!(reset_inline_view_id(&mut doc, "v9".to_string()));
    assert_eq!(get_inline_view_id(&doc), Some("v9".to_string()));
    let mut empty = DatabaseDocument { root: None };
    assert!(!is_database_collab(&empty));
    assert!(!reset_inline_view_id(&mut empty, "v9".to_string()));
    assert_eq!(get_inline_view_id(&empty), None);
}

#[test]
fn heights_are_clamped() {
    let map = RowMap { id: Some("r".to_string()), height: Some(-5), ..empty_row_map() };
    assert_eq!(row_from_map_ref(map, 1).unwrap().height, 0);
    let map = RowMap { id: Some("r".to_string()), height: Some(1i64 << 40), ..empty_row_map() };
    assert_eq!(row_from_map_ref(map, 1).unwrap().height, i32::MAX);
}

#[test]
fn uuid_text_forms_derive_the_same_ids() {
    let plain = database_row_document_id_from_row_id("43f6c30f-9d23-470c-a0dd-8819f08dcf2c");
    let simple = database_row_document_id_from_row_id("43f6c30f9d23470ca0dd8819f08dcf2c");
    let braced = database_row_document_id_from_row_id("{43f6c30f-9d23-470c-a0dd-8819f08dcf2c}");
    let urn = database_row_document_id_from_row_id("URN:uuid:43f6c30f-9d23-470c-a0dd-8819f08dcf2c");
    assert_eq!(plain, simple);
    assert_eq!(plain, braced);
    assert_eq!(plain, urn);
}
