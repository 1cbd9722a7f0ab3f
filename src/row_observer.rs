//! Interpretation of raw mutation events of a row's document as typed row
//! changes.
use vstd::prelude::*;

use crate::cell::{AnyValue, Cell};
use crate::row::{RowChange, RowChangeView, changes_view};

verus! {

/// Key of the sub-map holding a row's cells.
pub const ROW_CELLS: &'static str = "cells";

/// Key of a row's height.
pub const ROW_HEIGHT: &'static str = "height";

/// Key of a row's visibility.
pub const ROW_VISIBILITY: &'static str = "visibility";

/// One step of the path from the row's data map to a changed map.
pub enum PathSegment {
    Key(String),
    Index(u32),
}

/// A value seen in a mutation event: a plain value or a nested map.
pub enum EventValue {
    Any(AnyValue),
    Nested(Cell),
}

/// How one key of a map changed.
pub enum EntryChange {
    Inserted(EventValue),
    Updated(EventValue, EventValue),
    Removed(EventValue),
}

/// The change of one key.
pub struct EntryEvent {
    pub key: String,
    pub change: EntryChange,
}

/// A mutation of one map: where it sits, its new contents and the keys that
/// changed.
pub struct MapEvent {
    pub path: Vec<PathSegment>,
    pub target: EventValue,
    pub keys: Vec<EntryEvent>,
}

pub open spec fn under_cells(path: Seq<PathSegment>) -> bool {
    path.len() > 0 && (path[0] matches PathSegment::Key(k) && k@ == ROW_CELLS@)
}

/// The typed change, if any, that one changed key stands for. A cell
/// inserted under the cells map names its field by the key; a cell updated
/// in place names it by the last step of the path.
pub open spec fn change_of_entry(
    path: Seq<PathSegment>,
    target: EventValue,
    key: Seq<char>,
    change: EntryChange,
) -> Option<RowChangeView> {
    if under_cells(path) {
        match change {
            EntryChange::Inserted(EventValue::Nested(c)) => Some(RowChangeView::Cell(key, c@)),
            EntryChange::Updated(_, _) => match (path.last(), target) {
                (PathSegment::Key(k), EventValue::Nested(c)) => Some(RowChangeView::Cell(k@, c@)),
                _ => None,
            },
            _ => None,
        }
    } else {
        match change {
            EntryChange::Updated(_, EventValue::Any(AnyValue::Int(h))) => if key == ROW_HEIGHT@ {
                Some(RowChangeView::Height(crate::row::height_of(h)))
            } else {
                None
            },
            EntryChange::Updated(_, EventValue::Any(AnyValue::Bool(b))) => if key
                == ROW_VISIBILITY@ {
                Some(RowChangeView::Visibility(b))
            } else {
                None
            },
            _ => None,
        }
    }
}

/// The typed changes of the first `n` changed keys, in order.
pub open spec fn changes_of_event(event: MapEvent, n: int) -> Seq<RowChangeView>
    decreases n,
{
    if n <= 0 {
        Seq::empty()
    } else {
        let p = changes_of_event(event, n - 1);
        let e = event.keys@[n - 1];
        match change_of_entry(event.path@, event.target, e.key@, e.change) {
            Some(c) => p.push(c),
            None => p,
        }
    }
}

fn is_key(seg: &PathSegment, text: &str) -> (r: bool)
    ensures
        r == (seg matches PathSegment::Key(k) && k@ == text@),
{
    match seg {
        PathSegment::Key(k) => {
            let t = String::from_str(text);
            *k == t
        },
        PathSegment::Index(_) => false,
    }
}

fn change_for_key(event: &MapEvent, in_cells: bool, e: &EntryEvent) -> (r: Option<RowChange>)
    requires
        in_cells == under_cells(event.path@),
    ensures
        match r {
            Some(c) => change_of_entry(event.path@, event.target, e.key@, e.change) == Some(c@),
            None => change_of_entry(event.path@, event.target, e.key@, e.change) is None,
        },
{
    if in_cells {
        match &e.change {
            EntryChange::Inserted(EventValue::Nested(c)) => Some(
                RowChange::DidUpdateCell { key: e.key.clone(), value: c.clone() },
            ),
            EntryChange::Updated(_, _) => {
                let n = event.path.len();
                if n == 0 {
                    return None;
                }
                match (&event.path[n - 1], &event.target) {
                    (PathSegment::Key(k), EventValue::Nested(c)) => Some(
                        RowChange::DidUpdateCell { key: k.clone(), value: c.clone() },
                    ),
                    _ => None,
                }
            },
            _ => None,
        }
    } else {
        match &e.change {
            EntryChange::Updated(_, EventValue::Any(AnyValue::Int(h))) => {
                if e.key == String::from_str(ROW_HEIGHT) {
                    Some(RowChange::DidUpdateHeight { value: crate::row::clamp_height(*h) })
                } else {
                    None
                }
            },
            EntryChange::Updated(_, EventValue::Any(AnyValue::Bool(b))) => {
                if e.key == String::from_str(ROW_VISIBILITY) {
                    Some(RowChange::DidUpdateVisibility { value: *b })
                } else {
                    None
                }
            },
            _ => None,
        }
    }
}

/// Translates one mutation of a row's data map into the typed changes it
/// stands for, in the order of its keys; keys that stand for none are
/// skipped.
pub fn row_changes_from_event(event: &MapEvent) -> (r: Vec<RowChange>)
    ensures
        changes_view(r@) == changes_of_event(*event, event.keys@.len() as int),
{
    let in_cells = event.path.len() > 0 && is_key(&event.path[0], ROW_CELLS);
    let mut r: Vec<RowChange> = Vec::new();
    let mut i: usize = 0;
    while i < event.keys.len()
        invariant
            i <= event.keys@.len(),
            in_cells == under_cells(event.path@),
            changes_view(r@) == changes_of_event(*event, i as int),
        decreases event.keys@.len() - i,
    {
        let ghost pre = r@;
        match change_for_key(event, in_cells, &event.keys[i]) {
            Some(c) => {
                r.push(c);
                proof {
                    assert(changes_view(r@) =~= changes_view(pre).push(r@.last()@));
                }
            },
            None => {},
        }
        i = i + 1;
    }
    r
}

} // verus!
