use collab_database::cell::{AnyValue, Cell};
use collab_database::order::OrderObjectPosition;
use collab_database::record::{RecordCollection, RecordMap};
use collab_database::view::{DatabaseLayout, DatabaseView, ViewUpdate};

fn record(id: &str, value: i64) -> RecordMap {
    let mut data = Cell::new();
    data.insert("condition".to_string(), AnyValue::Int(value));
    RecordMap {
        id: id.to_string(),
        data,
    }
}

fn condition(r: &RecordMap) -> Option<AnyValue> {
    r.data.get(&"condition".to_string()).cloned()
}

#[test]
fn upsert_is_not_duplicate_insert() {
    let mut c = RecordCollection::new();
    c.upsert(record("f0", 0));
    assert_eq!(c.upsert(record("f1", 1)), 1);
    c.upsert(record("f2", 2));
    assert_eq!(c.upsert(record("f1", 10)), 1);
    assert_eq!(c.upsert(record("f1", 11)), 1);
    let all = c.get_all();
    assert_eq!(all.len(), 3);
    assert_eq!(all[1].id, "f1");
    assert_eq!(condition(&all[1]), Some(AnyValue::Int(11)));
    assert_eq!(all.iter().filter(|r| r.id == "f1").count(), 1);
}

#[test]
fn record_collection_operations() {
    let mut c = RecordCollection::new();
    c.upsert(record("a", 1));
    c.upsert(record("b", 2));
    c.upsert(record("c", 3));
    assert_eq!(c.index_of(&"c".to_string()), Some(2));
    assert!(c.move_record(&"c".to_string(), &"a".to_string()));
    let order: Vec<String> = c.get_all().iter().map(|r| r.id.clone()).collect();
    assert_eq!(order, vec!["c", "a", "b"]);
    assert_eq!(c.remove_by_id(&"a".to_string()), Some(1));
    assert_eq!(c.remove_by_id(&"a".to_string()), None);
    let at = c.upsert_at(record("z", 9), &OrderObjectPosition::Start);
    assert_eq!(at, 0);
    assert_eq!(c.upsert_at(record("b", 7), &OrderObjectPosition::Start), 2);
    assert_eq!(condition(c.get(&"b".to_string()).unwrap()), Some(AnyValue::Int(7)));
    c.clear();
    assert!(c.get_all().is_empty());
}

#[test]
fn view_update_upserts_records() {
    let view = DatabaseView::new(
        "v1".to_string(),
        "d1".to_string(),
        "board".to_string(),
        DatabaseLayout::Board,
    );
    let view = ViewUpdate::new(view)
        .set_filters(vec![record("filter_id", 123), record("filter_id", 124)])
        .update_sorts(record("sort_id", 1))
        .update_sorts(record("sort_id", 2))
        .set_groups(vec![record("group_id", 5)])
        .update_groups(record("g2", 6))
        .update_filters(record("f2", 1))
        .set_name("renamed".to_string())
        .set_layout_type(DatabaseLayout::Calendar)
        .done();
    assert_eq!(view.name, "renamed");
    assert_eq!(view.layout, DatabaseLayout::Calendar);
    let filters = view.filters.get_all();
    assert_eq!(filters.len(), 2);
    assert_eq!(condition(&filters[0]), Some(AnyValue::Int(124)));
    let sorts = view.sorts.get_all();
    assert_eq!(sorts.len(), 1);
    assert_eq!(condition(&sorts[0]), Some(AnyValue::Int(2)));
    assert_eq!(view.group_settings.get_all().len(), 2);
}

#[test]
fn view_update_layout_settings() {
    let view = DatabaseView::new(
        "v1".to_string(),
        "d1".to_string(),
        "cal".to_string(),
        DatabaseLayout::Calendar,
    );
    let mut setting = Cell::new();
    setting.insert("first_day".to_string(), AnyValue::Int(1));
    let view = ViewUpdate::new(view)
        .update_layout_settings(DatabaseLayout::Calendar, setting.clone())
        .update_layout_settings(DatabaseLayout::Board, Cell::new())
        .update_layout_settings(DatabaseLayout::Calendar, setting)
        .remove_layout_setting(DatabaseLayout::Board)
        .done();
    assert_eq!(view.layout_settings.len(), 1);
    assert_eq!(view.layout_settings[0].layout, DatabaseLayout::Calendar);
}
