use collab_database::order::{
    insert_at_position, move_by_id, remove_by_id, remove_ids, FieldOrder, OrderObjectPosition,
    RowOrder,
};
use collab_database::view::{DatabaseLayout, DatabaseView, DatabaseViewChange};

fn ro(id: &str) -> RowOrder {
    RowOrder::new(id.to_string(), 60)
}

fn ids(v: &[RowOrder]) -> Vec<String> {
    v.iter().map(|o| o.id.clone()).collect()
}

fn view_with(rows: &[&str]) -> DatabaseView {
    let mut view = DatabaseView::new(
        "v1".to_string(),
        "d1".to_string(),
        "grid".to_string(),
        DatabaseLayout::Grid,
    );
    for r in rows {
        view.insert_row_order(ro(r), &OrderObjectPosition::End);
    }
    view
}

fn parts(c: &DatabaseViewChange) -> (String, Vec<(String, usize)>, Vec<usize>) {
    match c {
        DatabaseViewChange::DidUpdateRowOrders {
            database_view_id,
            insert_row_orders,
            delete_row_indexes,
            ..
        } => (
            database_view_id.clone(),
            insert_row_orders
                .iter()
                .map(|(o, i)| (o.id.clone(), *i))
                .collect(),
            delete_row_indexes.clone(),
        ),
    }
}

#[test]
fn removing_absent_row_is_noop() {
    let mut view = view_with(&["a", "b", "c"]);
    assert!(view.remove_row_order(&"zz".to_string()).is_none());
    assert_eq!(ids(&view.row_orders), vec!["a", "b", "c"]);
    assert!(view.remove_row_orders(&vec!["x".to_string(), "y".to_string()]).is_none());
    assert_eq!(ids(&view.row_orders), vec!["a", "b", "c"]);
    let (_, _, deleted) = parts(&view.remove_row_order(&"b".to_string()).unwrap());
    assert_eq!(deleted, vec![1]);
    assert!(view.remove_row_order(&"b".to_string()).is_none());
    assert_eq!(ids(&view.row_orders), vec!["a", "c"]);
}

#[test]
fn positional_insertion() {
    let mut v = vec![ro("a"), ro("b"), ro("c")];
    assert_eq!(insert_at_position(&mut v, ro("s"), &OrderObjectPosition::Start), 0);
    assert_eq!(ids(&v), vec!["s", "a", "b", "c"]);
    assert_eq!(insert_at_position(&mut v, ro("e"), &OrderObjectPosition::End), 4);
    assert_eq!(ids(&v), vec!["s", "a", "b", "c", "e"]);
    let at = insert_at_position(&mut v, ro("x"), &OrderObjectPosition::After("a".to_string()));
    assert_eq!(at, 2);
    assert_eq!(ids(&v), vec!["s", "a", "x", "b", "c", "e"]);
    let at = insert_at_position(&mut v, ro("y"), &OrderObjectPosition::Before("c".to_string()));
    assert_eq!(at, 4);
    assert_eq!(ids(&v), vec!["s", "a", "x", "b", "y", "c", "e"]);
    // A reference that is gone falls back to the end, before and after alike.
    let at = insert_at_position(&mut v, ro("p"), &OrderObjectPosition::After("gone".to_string()));
    assert_eq!(at, 7);
    let at = insert_at_position(&mut v, ro("q"), &OrderObjectPosition::Before("gone".to_string()));
    assert_eq!(at, 8);
    assert_eq!(ids(&v), vec!["s", "a", "x", "b", "y", "c", "e", "p", "q"]);
}

#[test]
fn positional_insertion_of_fields() {
    let mut v = vec![FieldOrder::new("f1".to_string())];
    let at = insert_at_position(
        &mut v,
        FieldOrder::new("f0".to_string()),
        &OrderObjectPosition::default(),
    );
    assert_eq!(at, 1);
    assert_eq!(v[1].id, "f0");
}

#[test]
fn move_diff_shape() {
    let mut view = view_with(&["a", "b", "c", "d"]);
    let change = view
        .move_row_order(&"a".to_string(), &"c".to_string())
        .unwrap();
    let (view_id, inserted, deleted) = parts(&change);
    assert_eq!(view_id, "v1");
    assert_eq!(deleted, vec![0]);
    assert_eq!(inserted, vec![("a".to_string(), 3)]);
    assert_eq!(ids(&view.row_orders), vec!["b", "c", "a", "d"]);

    // Moving back to the front.
    let change = view
        .move_row_order(&"a".to_string(), &"b".to_string())
        .unwrap();
    let (_, inserted, deleted) = parts(&change);
    assert_eq!(deleted, vec![3]);
    assert_eq!(inserted, vec![("a".to_string(), 0)]);
    assert_eq!(ids(&view.row_orders), vec!["a", "b", "c", "d"]);
}

#[test]
fn move_diff_replays_on_a_copy() {
    let before = vec![ro("a"), ro("b"), ro("c"), ro("d")];
    let mut v = before.clone();
    let (del, ins) = move_by_id(&mut v, &"a".to_string(), &"c".to_string()).unwrap();
    let mut replay = before.clone();
    replay.insert(ins, before[0].clone());
    replay.remove(del);
    assert_eq!(ids(&replay), ids(&v));
    assert!(move_by_id(&mut v, &"a".to_string(), &"a".to_string()).is_none());
    assert!(move_by_id(&mut v, &"a".to_string(), &"zz".to_string()).is_none());
    assert_eq!(ids(&v), vec!["b", "c", "a", "d"]);
}

#[test]
fn batch_delete_indexes_are_pre_removal_and_ascending() {
    let mut view = view_with(&["a", "b", "c", "d"]);
    let change = view
        .remove_row_orders(&vec!["b".to_string(), "c".to_string()])
        .unwrap();
    let (_, inserted, deleted) = parts(&change);
    assert!(inserted.is_empty());
    assert_eq!(deleted, vec![1, 2]);
    assert_eq!(ids(&view.row_orders), vec!["a", "d"]);

    let mut view = view_with(&["a", "b", "c", "d"]);
    let (_, _, deleted) = parts(
        &view
            .remove_row_orders(&vec!["d".to_string(), "b".to_string()])
            .unwrap(),
    );
    assert_eq!(deleted, vec![1, 3]);
    assert_eq!(ids(&view.row_orders), vec!["a", "c"]);
}

#[test]
fn remove_ids_on_plain_orders() {
    let mut v = vec![ro("a"), ro("b"), ro("c")];
    let idx = remove_ids(&mut v, &vec!["c".to_string(), "a".to_string()]);
    assert_eq!(idx, vec![0, 2]);
    assert_eq!(ids(&v), vec!["b"]);
    assert_eq!(remove_by_id(&mut v, &"b".to_string()), Some(0));
    assert_eq!(remove_by_id(&mut v, &"b".to_string()), None);
}

#[test]
fn field_orders_in_view() {
    let mut view = view_with(&[]);
    view.insert_field_order(FieldOrder::new("f1".to_string()), &OrderObjectPosition::End);
    view.insert_field_order(FieldOrder::new("f2".to_string()), &OrderObjectPosition::Start);
    assert_eq!(view.index_of_field(&"f2".to_string()), Some(0));
    assert!(view.move_field_order(&"f2".to_string(), &"f1".to_string()));
    assert_eq!(view.index_of_field(&"f2".to_string()), Some(1));
    assert_eq!(view.remove_field_order(&"f1".to_string()), Some(0));
    assert_eq!(view.remove_field_order(&"f1".to_string()), None);
}
