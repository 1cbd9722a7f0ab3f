use collab_database::cell::{AnyValue, Cell, Cells};
use collab_database::database::RecordKind;
use collab_database::record::RecordMap;
use collab_database::database::{Database, DatabaseError};
use collab_database::field::Field;
use collab_database::order::{FieldOrder, OrderObjectPosition};
use collab_database::row::CreateRowParams;
use collab_database::view::{
    CreateDatabaseParams, CreateViewParams, DatabaseLayout, DatabaseViewChange,
};
use collab_database::workspace::{DatabaseMeta, WorkspaceDatabaseBody};

fn db() -> Database {
    let params = CreateDatabaseParams {
        database_id: "d1".to_string(),
        view_id: "v1".to_string(),
        name: "grid".to_string(),
        layout: DatabaseLayout::Grid,
        layout_settings: vec![],
        filters: vec![],
        groups: vec![],
        sorts: vec![],
        created_rows: vec![],
        fields: vec![Field::new("f1".to_string(), "Name".to_string(), 0, true)],
    };
    Database::create_with_view(1, params, 10).unwrap()
}

fn row_ids(db: &Database, view: usize) -> Vec<String> {
    db.views[view].row_orders.iter().map(|o| o.id.clone()).collect()
}

fn change_parts(c: &DatabaseViewChange) -> (Vec<(String, usize)>, Vec<usize>) {
    match c {
        DatabaseViewChange::DidUpdateRowOrders {
            insert_row_orders,
            delete_row_indexes,
            ..
        } => (
            insert_row_orders.iter().map(|(o, i)| (o.id.clone(), *i)).collect(),
            delete_row_indexes.clone(),
        ),
    }
}

#[test]
fn create_rows_at_end_into_empty_view() {
    let mut db = db();
    let created = ["r1", "r2", "r3", "r4"];
    for (pos, id) in created.iter().enumerate() {
        let (order, changes) = db
            .create_row(CreateRowParams::new(id.to_string(), "d1".to_string()), 10)
            .unwrap();
        assert_eq!(order.id, *id);
        assert_eq!(changes.len(), 1);
        let (inserted, deleted) = change_parts(&changes[0]);
        assert!(deleted.is_empty());
        assert_eq!(inserted, vec![(id.to_string(), pos)]);
    }
    assert_eq!(row_ids(&db, 0), vec!["r1", "r2", "r3", "r4"]);
}

#[test]
fn create_row_in_view_positions_only_the_origin() {
    let mut db = db();
    db.create_view(
        CreateViewParams::new("d1".to_string(), "v2".to_string(), "board".to_string(), DatabaseLayout::Board),
        vec![],
        vec![],
    )
    .unwrap();
    for id in ["r1", "r2"] {
        db.create_row(CreateRowParams::new(id.to_string(), "d1".to_string()), 10)
            .unwrap();
    }
    let params = CreateRowParams::new("r0".to_string(), "d1".to_string())
        .with_row_position(OrderObjectPosition::Start);
    let (index, order, changes) = db.create_row_in_view(&"v2".to_string(), params, 10).unwrap();
    assert_eq!(index, 0);
    assert_eq!(order.id, "r0");
    assert_eq!(changes.len(), 2);
    assert_eq!(row_ids(&db, 0), vec!["r1", "r2", "r0"]);
    assert_eq!(row_ids(&db, 1), vec!["r0", "r1", "r2"]);
    let bad = CreateRowParams::new("".to_string(), "d1".to_string());
    assert_eq!(
        db.create_row_in_view(&"v1".to_string(), bad, 10).unwrap_err(),
        DatabaseError::InvalidId
    );
    let params = CreateRowParams::new("r9".to_string(), "d1".to_string());
    assert_eq!(
        db.create_row_in_view(&"nope".to_string(), params, 10).unwrap_err(),
        DatabaseError::ViewNotFound
    );
}

#[test]
fn remove_and_move_rows_across_views() {
    let mut db = db();
    for id in ["a", "b", "c", "d"] {
        db.create_row(CreateRowParams::new(id.to_string(), "d1".to_string()), 10)
            .unwrap();
    }
    let changes = db.move_row(&"a".to_string(), &"c".to_string());
    assert_eq!(changes.len(), 1);
    let (inserted, deleted) = change_parts(changes[0].as_ref().unwrap());
    assert_eq!(deleted, vec![0]);
    assert_eq!(inserted, vec![("a".to_string(), 3)]);
    assert_eq!(row_ids(&db, 0), vec!["b", "c", "a", "d"]);

    let (rows, changes) = db.remove_rows(&vec!["c".to_string(), "b".to_string()]);
    assert_eq!(rows.len(), 2);
    let (_, deleted) = change_parts(changes[0].as_ref().unwrap());
    assert_eq!(deleted, vec![0, 1]);
    assert_eq!(row_ids(&db, 0), vec!["a", "d"]);
    assert!(db.block.get_row(&"b".to_string()).is_none());

    let (row, changes) = db.remove_row(&"a".to_string());
    assert_eq!(row.unwrap().id, "a");
    let (_, deleted) = change_parts(changes[0].as_ref().unwrap());
    assert_eq!(deleted, vec![0]);
    let (row, changes) = db.remove_row(&"a".to_string());
    assert!(row.is_none());
    assert!(changes[0].is_none());
    assert!(db.move_row(&"a".to_string(), &"d".to_string())[0].is_none());
    assert_eq!(row_ids(&db, 0), vec!["d"]);
    assert!(db.contains_row(&"v1".to_string(), &"d".to_string()));
    assert_eq!(db.index_of_row(&"v1".to_string(), &"d".to_string()), Some(0));
    let rows = db.get_rows_for_view(&"v1".to_string());
    assert_eq!(rows.len(), 1);
}

#[test]
fn fields_are_placed_per_view() {
    let mut db = db();
    db.create_view(
        CreateViewParams::new("d1".to_string(), "v2".to_string(), "board".to_string(), DatabaseLayout::Board),
        vec![FieldOrder::new("f1".to_string())],
        vec![],
    )
    .unwrap();
    let v2 = "v2".to_string();
    db.create_field(
        Some(&v2),
        Field::new("f2".to_string(), "Status".to_string(), 3, false),
        &OrderObjectPosition::Start,
    );
    assert_eq!(db.index_of_field(&"v1".to_string(), &"f2".to_string()), Some(1));
    assert_eq!(db.index_of_field(&"v2".to_string(), &"f2".to_string()), Some(0));
    let names: Vec<String> = db
        .get_fields_in_view(&"v2".to_string(), &None)
        .iter()
        .map(|f| f.id.clone())
        .collect();
    assert_eq!(names, vec!["f2", "f1"]);
    let only = db.get_fields_in_view(&"v1".to_string(), &Some(vec!["f2".to_string()]));
    assert_eq!(only.len(), 1);
    db.delete_field(&"f2".to_string());
    assert_eq!(db.index_of_field(&"v2".to_string(), &"f2".to_string()), None);
    assert_eq!(db.fields.len(), 1);
}

#[test]
fn linked_view_creates_missing_fields_and_inline_delete_clears() {
    let mut db = db();
    let mut params = CreateViewParams::new(
        "d1".to_string(),
        "v3".to_string(),
        "linked".to_string(),
        DatabaseLayout::Grid,
    );
    params.deps_fields = vec![
        Field::new("f1".to_string(), "Name".to_string(), 0, true),
        Field::new("f5".to_string(), "Date".to_string(), 2, false),
    ];
    db.create_linked_view(params, vec![], vec![]).unwrap();
    assert_eq!(db.fields.len(), 2);
    assert_eq!(db.views.len(), 2);
    assert_eq!(db.index_of_field(&"v1".to_string(), &"f5".to_string()), Some(1));
    let empty = CreateViewParams::new("d1".to_string(), "".to_string(), "x".to_string(), DatabaseLayout::Grid);
    assert_eq!(db.create_view(empty, vec![], vec![]).unwrap_err(), DatabaseError::InvalidId);
    assert_eq!(db.delete_view(&"v3".to_string()), vec!["v3".to_string()]);
    assert_eq!(db.views.len(), 1);
    db.create_view(
        CreateViewParams::new("d1".to_string(), "v4".to_string(), "b".to_string(), DatabaseLayout::Board),
        vec![],
        vec![],
    )
    .unwrap();
    assert_eq!(db.delete_view(&"v1".to_string()), vec!["v1".to_string(), "v4".to_string()]);
    assert!(db.views.is_empty());
}

#[test]
fn database_creation_validates_ids_and_rows() {
    let params = CreateDatabaseParams {
        database_id: "".to_string(),
        view_id: "v1".to_string(),
        name: "grid".to_string(),
        layout: DatabaseLayout::Grid,
        layout_settings: vec![],
        filters: vec![],
        groups: vec![],
        sorts: vec![],
        created_rows: vec![],
        fields: vec![],
    };
    assert_eq!(
        Database::create_with_view(1, params, 10).err(),
        Some(DatabaseError::InvalidId)
    );
    let mut rows = vec![
        CreateRowParams::new("r1".to_string(), "d1".to_string()),
        CreateRowParams::new("".to_string(), "d1".to_string()),
    ];
    rows[0].cells = Cells::new();
    let params = CreateDatabaseParams {
        database_id: "d1".to_string(),
        view_id: "v1".to_string(),
        name: "grid".to_string(),
        layout: DatabaseLayout::Grid,
        layout_settings: vec![],
        filters: vec![],
        groups: vec![],
        sorts: vec![],
        created_rows: rows,
        fields: vec![],
    };
    let db = Database::create_with_view(1, params, 10).unwrap();
    assert_eq!(row_ids(&db, 0), vec!["r1"]);
    assert_eq!(db.inline_view_id, "v1");
}

#[test]
fn workspace_registry() {
    let mut body = WorkspaceDatabaseBody::create();
    body.add_database(
        &"d1".to_string(),
        &vec!["v1".to_string(), "v2".to_string(), "v1".to_string()],
        5,
    );
    body.add_database(&"d2".to_string(), &vec!["v3".to_string()], 6);
    assert!(body.contains(&"d1".to_string()));
    let meta = body.get_database_meta(&"d1".to_string()).unwrap();
    assert_eq!(meta.linked_views, vec!["v1".to_string(), "v2".to_string()]);
    assert_eq!(
        body.get_database_meta_with_view_id(&"v3".to_string()).unwrap().database_id,
        "d2"
    );
    assert!(body.get_database_meta_with_view_id(&"v9".to_string()).is_none());
    assert!(body.update_database(
        &"d1".to_string(),
        DatabaseMeta {
            database_id: "ignored".to_string(),
            created_at: 5,
            linked_views: vec!["v1".to_string(), "v2".to_string(), "v7".to_string()],
        }
    ));
    assert_eq!(body.get_all_database_meta()[0].database_id, "d1");
    assert_eq!(body.get_all_database_meta()[0].linked_views.len(), 3);
    body.delete_database(&"d1".to_string());
    assert!(!body.contains(&"d1".to_string()));
    assert_eq!(body.get_all_database_meta().len(), 1);
    assert!(WorkspaceDatabaseBody::open(None).is_err());
    assert!(WorkspaceDatabaseBody::open(Some(vec![])).is_ok());
}

#[test]
fn view_records_and_copies() {
    let mut db = db();
    let v1 = "v1".to_string();
    let mut data = Cell::new();
    data.insert("condition".to_string(), AnyValue::Int(1));
    assert!(db.upsert_view_record(&v1, RecordKind::Filter, RecordMap { id: "filter_id".to_string(), data: data.clone() }));
    assert!(db.upsert_view_record(&v1, RecordKind::Sort, RecordMap { id: "s1".to_string(), data: Cell::new() }));
    assert!(db.upsert_view_record(&v1, RecordKind::Sort, RecordMap { id: "s2".to_string(), data: Cell::new() }));
    assert!(db.move_view_record(&v1, RecordKind::Sort, &"s2".to_string(), &"s1".to_string()));
    let sorts: Vec<String> = db.get_all_view_records(&v1, RecordKind::Sort).iter().map(|r| r.id.clone()).collect();
    assert_eq!(sorts, vec!["s2", "s1"]);
    assert!(db.get_view_record(&v1, RecordKind::Filter, &"filter_id".to_string()).is_some());
    assert!(db.remove_view_record(&v1, RecordKind::Filter, &"filter_id".to_string()));
    assert!(db.get_view_record(&v1, RecordKind::Filter, &"filter_id".to_string()).is_none());
    assert!(db.clear_view_records(&v1, RecordKind::Sort));
    assert!(db.get_all_view_records(&v1, RecordKind::Sort).is_empty());
    assert!(!db.upsert_view_record(&"nope".to_string(), RecordKind::Group, RecordMap { id: "g".to_string(), data }));

    assert!(db.update_layout_type(&v1, DatabaseLayout::Board));
    assert_eq!(db.views[0].layout, DatabaseLayout::Board);
    let (id, name) = db.duplicate_linked_view(&v1, "v1c".to_string(), 99).unwrap();
    assert_eq!(id, "v1c");
    assert_eq!(name, "grid-copy");
    assert_eq!(db.views.len(), 2);
    assert_eq!(db.views[1].created_at, 99);
    assert!(db.duplicate_linked_view(&"nope".to_string(), "x".to_string(), 1).is_none());
}

#[test]
fn rows_read_duplicate_and_export() {
    let mut db = db();
    db.create_row(CreateRowParams::new("r1".to_string(), "d1".to_string()).with_height(70), 10)
        .unwrap();
    let copy = db.duplicate_row(&"r1".to_string(), "r2".to_string(), 50).unwrap();
    assert_eq!(copy.id, "r2");
    assert_eq!(copy.height, 70);
    assert_eq!(copy.created_at, 50);
    assert_eq!(copy.row_position, OrderObjectPosition::After("r1".to_string()));
    let (index, _, _) = db.create_row_in_view(&"v1".to_string(), copy, 50).unwrap();
    assert_eq!(index, 1);
    assert!(db.duplicate_row(&"ghost".to_string(), "r3".to_string(), 1).is_none());
    let placeholder = db.get_row(&"ghost".to_string());
    assert!(placeholder.is_empty());
    assert_eq!(placeholder.created_at, 0);
    assert_eq!(db.get_row(&"r2".to_string()).height, 70);
    let data = db.get_database_data();
    assert_eq!(data.rows.len(), 2);
    assert_eq!(data.views.len(), 1);
    assert_eq!(data.fields.len(), 1);
    assert_eq!(db.get_all_rows().len(), 2);
    assert_eq!(db.get_row_orders_for_view(&"v1".to_string()).len(), 2);
    assert!(db.is_inline_view(&"v1".to_string()));
}

#[test]
fn view_reads_cells_details_and_first_screen() {
    let mut db = db();
    let id = "43f6c30f-9d23-470c-a0dd-8819f08dcf2c";
    let mut cells = Cells::new();
    let mut cell = Cell::new();
    cell.insert("data".to_string(), AnyValue::Int(5));
    cells.insert("f1".to_string(), cell);
    db.create_row(CreateRowParams::new(id.to_string(), "d1".to_string()).with_cells(cells), 10)
        .unwrap();
    db.create_row(CreateRowParams::new("plain".to_string(), "d1".to_string()), 10)
        .unwrap();
    let cells = db.get_cells_for_field(&"v1".to_string(), &"f1".to_string());
    assert_eq!(cells.len(), 2);
    assert_eq!(cells[0].row_id, id);
    assert!(cells[0].cell.is_some());
    assert!(cells[1].cell.is_none());
    assert!(db.get_row_detail(&id.to_string()).is_some());
    assert!(db.get_row_detail(&"plain".to_string()).is_none());
    assert_eq!(db.first_screen_row_ids(), vec![id.to_string(), "plain".to_string()]);
    assert_eq!(db.get_all_views().len(), 1);
    assert_eq!(db.get_all_field_orders()[0].id, "f1");
    assert_eq!(db.get_database_view_layout(&"v1".to_string()), Some(DatabaseLayout::Grid));
    assert_eq!(db.get_database_view_layout(&"zz".to_string()), None);
}

#[test]
fn moves_report_whether_they_moved() {
    let mut db = db();
    let v1 = "v1".to_string();
    db.upsert_view_record(&v1, RecordKind::Sort, RecordMap { id: "s1".to_string(), data: Cell::new() });
    assert!(!db.move_view_record(&v1, RecordKind::Sort, &"s1".to_string(), &"s1".to_string()));
    assert!(!db.move_view_record(&v1, RecordKind::Sort, &"s1".to_string(), &"s9".to_string()));
    assert!(!db.views[0].clone().move_field_order(&"f1".to_string(), &"f1".to_string()));
}

#[test]
fn scoped_view_update_commits_in_place() {
    let mut db = db();
    let update = db.begin_view_update(&"v1".to_string()).unwrap();
    let update = update.set_name("renamed".to_string());
    assert!(db.update_database_view(update));
    assert_eq!(db.views[0].name, "renamed");
    assert!(db.begin_view_update(&"zz".to_string()).is_none());
}
