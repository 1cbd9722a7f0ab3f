use collab_database::block::{Block, BlockEvent, FetchRequest, RowDocument, RowLookup};
use collab_database::cell::{AnyValue, Cell, Cells};
use collab_database::order::RowOrder;
use collab_database::row::{Row, RowMeta, RowMetaUpdate};

const ROW_A: &str = "7d2148fc-2d5a-4b6e-8a1b-4a0a5e1c1a11";
const ROW_B: &str = "0b0f1a52-98c2-4a48-8f25-2f1a7d1f5b22";

fn doc(id: &str) -> RowDocument {
    RowDocument {
        data: Some(Row::new(id.to_string(), "d1")),
        meta: RowMeta::empty(),
    }
}

#[test]
fn missing_row_is_pending_then_resolved_without_second_fetch() {
    let mut block = Block::new(1, "d1".to_string());
    let id = ROW_A.to_string();
    let first = block.get_or_init_row(&id, None);
    match first {
        RowLookup::Pending(Some(FetchRequest::FetchRow { row_id, seq })) => {
            assert_eq!(row_id, id);
            assert_eq!(seq, 0);
        },
        _ => panic!("expected one dispatched fetch"),
    }
    for _ in 0..5 {
        assert!(matches!(
            block.get_or_init_row(&id, None),
            RowLookup::Pending(None)
        ));
    }
    assert_eq!(block.sequence, 1);
    let event = block.did_fetch_row(&id, Some(doc(ROW_A)));
    match event {
        Some(BlockEvent::DidFetchRow(details)) => {
            assert_eq!(details.len(), 1);
            assert_eq!(details[0].row.id, id);
            assert_eq!(details[0].document_id.len(), 36);
        },
        _ => panic!("expected a fetch event"),
    }
    match block.get_or_init_row(&id, None) {
        RowLookup::Ready(Some(row)) => assert_eq!(row.id, id),
        _ => panic!("expected the fetched row"),
    }
    assert_eq!(block.sequence, 1);
}

#[test]
fn failed_fetch_allows_a_new_fetch() {
    let mut block = Block::new(1, "d1".to_string());
    let id = ROW_A.to_string();
    assert!(matches!(block.get_or_init_row(&id, None), RowLookup::Pending(Some(_))));
    assert!(block.did_fetch_row(&id, None).is_none());
    match block.get_or_init_row(&id, None) {
        RowLookup::Pending(Some(FetchRequest::FetchRow { seq, .. })) => assert_eq!(seq, 1),
        _ => panic!("expected a second fetch"),
    }
}

#[test]
fn local_rows_load_synchronously() {
    let mut block = Block::new(1, "d1".to_string());
    let id = ROW_B.to_string();
    match block.get_or_init_row(&id, Some(doc(ROW_B))) {
        RowLookup::Ready(Some(row)) => assert_eq!(row.id, id),
        _ => panic!("expected a local row"),
    }
    assert_eq!(block.sequence, 0);
    assert!(block.get_row(&id).is_some());
    // A document whose row belongs elsewhere is materialized without data.
    let other = "other".to_string();
    assert!(matches!(
        block.get_or_init_row(&other, Some(doc(ROW_A))),
        RowLookup::Ready(None)
    ));
}

#[test]
fn batch_load_partitions_local_and_missing() {
    let mut block = Block::new(1, "d1".to_string());
    let (event, request) = block.batch_load_rows(vec![
        (ROW_A.to_string(), Some(doc(ROW_A))),
        ("m1".to_string(), None),
        (ROW_B.to_string(), Some(doc(ROW_B))),
        ("m2".to_string(), None),
    ]);
    match event {
        BlockEvent::DidFetchRow(details) => assert_eq!(details.len(), 2),
    }
    match request {
        Some(FetchRequest::BatchFetchRow { row_ids, seq }) => {
            assert_eq!(row_ids, vec!["m1".to_string(), "m2".to_string()]);
            assert_eq!(seq, 0);
        },
        _ => panic!("expected one batch fetch"),
    }
    let (_, request) = block.batch_load_rows(vec![(ROW_A.to_string(), Some(doc(ROW_A)))]);
    assert!(request.is_none());
}

#[test]
fn reads_degrade_to_placeholders_and_cells_resolve() {
    let mut block = Block::new(1, "d1".to_string());
    let mut row = Row::new(ROW_A.to_string(), "d1");
    let mut cell = Cell::new();
    cell.insert("data".to_string(), AnyValue::Int(42));
    let mut cells = Cells::new();
    cells.insert("f1".to_string(), cell);
    row.cells = cells;
    let order = block.create_row(row);
    assert_eq!(order, RowOrder::new(ROW_A.to_string(), 60));
    let rows = block.get_rows_from_row_orders(&vec![
        order.clone(),
        RowOrder::new("ghost".to_string(), 60),
    ]);
    assert_eq!(rows.len(), 2);
    assert_eq!(rows[0].cells.entries.len(), 1);
    assert_eq!(rows[1].id, "ghost");
    assert_eq!(rows[1].database_id, "d1");
    assert!(rows[1].is_empty());
    let c = block
        .get_cell(&ROW_A.to_string(), &"f1".to_string())
        .unwrap();
    assert_eq!(c.get(&"data".to_string()), Some(&AnyValue::Int(42)));
    assert!(block.get_cell(&ROW_A.to_string(), &"f2".to_string()).is_none());
    assert!(block.get_cell(&"ghost".to_string(), &"f1".to_string()).is_none());
    assert_eq!(
        block.get_row_document_id(&ROW_A.to_string()).unwrap().len(),
        36
    );
    assert!(block.get_row_document_id(&"ghost".to_string()).is_none());
}

#[test]
fn updates_and_deletes_go_through_the_cache() {
    let mut block = Block::new(1, "d1".to_string());
    let id = ROW_A.to_string();
    let orders = block.create_rows(vec![Row::new(id.clone(), "d1")]);
    assert_eq!(orders.len(), 1);
    let update = block.begin_row_update(&id, 77).unwrap().set_height(33);
    let changes = block.update_row(&id, update);
    assert_eq!(changes.len(), 1);
    let row = block.get_row(&id).unwrap();
    assert_eq!(row.height, 33);
    assert_eq!(row.modified_at, 77);
    assert!(block.update_row_meta(&id, RowMetaUpdate::new(RowMeta::empty()).insert_cover("c".to_string())));
    assert_eq!(block.get_row_meta(&id).unwrap().cover_url, Some("c".to_string()));
    assert!(block.delete_row(&id).is_some());
    assert!(block.delete_row(&id).is_none());
    assert!(block.get_row(&id).is_none());
    assert!(block.begin_row_update(&id, 1).is_none());
}
