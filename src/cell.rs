//! Cells: small dynamically typed maps, keyed per field of a row.
use vstd::prelude::*;

use crate::order::{
    copy_all, find, get_by_id, lemma_find_upserted, index_of_id, unique_ids, upsert, upserted,
    OrderCopy, OrderIdentifiable,
};

verus! {

/// Key of the cell attribute that records the field's type.
pub const FIELD_TYPE: &'static str = "field_type";

/// Key of the timestamp set when a cell is first written.
pub const CREATED_AT: &'static str = "created_at";

/// Key of the timestamp refreshed on every write.
pub const LAST_MODIFIED: &'static str = "last_modified";

/// A value held by a cell attribute.
#[derive(Debug, PartialEq)]
pub enum AnyValue {
    Null,
    Bool(bool),
    Int(i64),
    Str(String),
}

impl Clone for AnyValue {
    fn clone(&self) -> (r: AnyValue)
        ensures
            r == *self,
    {
        match self {
            AnyValue::Null => AnyValue::Null,
            AnyValue::Bool(b) => AnyValue::Bool(*b),
            AnyValue::Int(i) => AnyValue::Int(*i),
            AnyValue::Str(s) => AnyValue::Str(s.clone()),
        }
    }
}

/// One attribute of a cell.
#[derive(Debug, PartialEq)]
pub struct CellEntry {
    pub key: String,
    pub value: AnyValue,
}

impl OrderIdentifiable for CellEntry {
    open spec fn spec_id(&self) -> Seq<char> {
        self.key@
    }

    fn identify_id(&self) -> (r: String) {
        self.key.clone()
    }

    fn has_id(&self, id: &String) -> (r: bool) {
        self.key == *id
    }
}

impl OrderCopy for CellEntry {
    fn copy_order(&self) -> (r: Self) {
        CellEntry { key: self.key.clone(), value: self.value.clone() }
    }
}

/// The value under `k` in a list of attributes.
pub open spec fn lookup(s: Seq<CellEntry>, k: Seq<char>) -> Option<AnyValue> {
    match find(s, k) {
        Some(e) => Some(e.value),
        None => None,
    }
}

/// After an upsert of an attribute, its key reads the new value and every
/// other key reads what it read before.
pub proof fn lemma_lookup_upserted(s: Seq<CellEntry>, x: CellEntry, k: Seq<char>)
    ensures
        lookup(upserted(s, x), k) == if k == x.key@ {
            Some(x.value)
        } else {
            lookup(s, k)
        },
{
    lemma_find_upserted(s, x, k);
}

/// A cell: a map from attribute key to value, keys unique.
#[derive(Debug, PartialEq)]
pub struct Cell {
    pub entries: Vec<CellEntry>,
}

impl View for Cell {
    type V = Seq<CellEntry>;

    open spec fn view(&self) -> Seq<CellEntry> {
        self.entries@
    }
}

impl Clone for Cell {
    fn clone(&self) -> (r: Cell)
        ensures
            r@ == self@,
    {
        Cell { entries: copy_all(&self.entries) }
    }
}

impl Cell {
    pub open spec fn get_spec(&self, k: Seq<char>) -> Option<AnyValue> {
        lookup(self.entries@, k)
    }

    pub open spec fn wf(&self) -> bool {
        unique_ids(self.entries@)
    }

    pub fn new() -> (r: Cell)
        ensures
            r.entries@.len() == 0,
            r.wf(),
    {
        Cell { entries: Vec::new() }
    }

    /// Whether no two attributes share a key.
    pub fn is_wf(&self) -> (r: bool)
        ensures
            r == self.wf(),
    {
        crate::order::has_unique_ids(&self.entries)
    }

    pub fn get(&self, key: &String) -> (r: Option<&AnyValue>)
        ensures
            r matches Some(v) ==> self.get_spec(key@) == Some(*v),
            r is None ==> self.get_spec(key@) is None,
    {
        match get_by_id(&self.entries, key) {
            Some(e) => Some(&e.value),
            None => None,
        }
    }

    /// Sets `key` to `value`, replacing an earlier value in place.
    pub fn insert(&mut self, key: String, value: AnyValue)
        ensures
            forall|k: Seq<char>|
                #![auto]
                final(self).get_spec(k) == if k == key@ {
                    Some(value)
                } else {
                    old(self).get_spec(k)
                },
            old(self).wf() ==> final(self).wf(),
    {
        let ghost s = self.entries@;
        let e = CellEntry { key, value };
        let ghost x = e;
        upsert(&mut self.entries, e);
        proof {
            assert forall|k: Seq<char>| #![auto] lookup(upserted(s, x), k) == if k == x.key@ {
                Some(x.value)
            } else {
                lookup(s, k)
            } by {
                lemma_lookup_upserted(s, x, k);
            }
        }
    }

    /// Writes every attribute of `other` into this cell, keeping attributes
    /// that `other` does not name.
    pub fn fill_from(&mut self, other: &Cell)
        requires
            other.wf(),
        ensures
            forall|k: Seq<char>|
                #![auto]
                final(self).get_spec(k) == match other.get_spec(k) {
                    Some(v) => Some(v),
                    None => old(self).get_spec(k),
                },
            old(self).wf() ==> final(self).wf(),
    {
        let ghost s0 = *self;
        let mut i: usize = 0;
        while i < other.entries.len()
            invariant
                i <= other.entries@.len(),
                other.wf(),
                s0.wf() ==> self.wf(),
                forall|k: Seq<char>|
                    #![auto]
                    self.get_spec(k) == match lookup(other.entries@.take(i as int), k) {
                        Some(v) => Some(v),
                        None => s0.get_spec(k),
                    },
            decreases other.entries@.len() - i,
        {
            let e = other.entries[i].copy_order();
            let ghost pre = *self;
            self.insert(e.key, e.value);
            proof {
                let t = other.entries@.take(i as int);
                let t1 = other.entries@.take(i + 1);
                assert forall|k: Seq<char>| #![auto] lookup(t1, k) == if lookup(t, k) is Some {
                    lookup(t, k)
                } else if k == e.key@ {
                    Some(e.value)
                } else {
                    None::<AnyValue>
                } by {
                    lemma_lookup_prefix_step(other.entries@, i as int, k);
                }
                assert forall|j: int| 0 <= j < t.len() implies t[j].spec_id() != e.key@ by {
                    assert(t[j] == other.entries@[j]);
                }
                crate::order::lemma_no_first_none(t, e.key@);
                assert forall|k: Seq<char>| #![auto] self.get_spec(k) == match lookup(t1, k) {
                    Some(v) => Some(v),
                    None => s0.get_spec(k),
                } by {
                    lemma_lookup_prefix_step(other.entries@, i as int, k);
                }
            }
            i = i + 1;
        }
        proof {
            assert(other.entries@.take(other.entries@.len() as int) == other.entries@);
        }
    }
}

proof fn lemma_lookup_prefix_step(s: Seq<CellEntry>, i: int, k: Seq<char>)
    requires
        0 <= i < s.len(),
    ensures
        lookup(s.take(i + 1), k) == if lookup(s.take(i), k) is Some {
            lookup(s.take(i), k)
        } else if k == s[i].key@ {
            Some(s[i].value)
        } else {
            None::<AnyValue>
        },
{
    let t = s.take(i);
    let t1 = s.take(i + 1);
    assert(t1 == t.push(s[i]));
    match index_of_id(t, k) {
        Some(m) => {
            crate::order::lemma_index_some(t, k);
            crate::order::lemma_first_index_unique(t1, k, m);
        },
        None => {
            assert forall|j: int| 0 <= j < t.len() implies t[j].spec_id() != k by {
                assert(!(0 <= j < t.len() && t[j].spec_id() == k));
            }
            if k == s[i].key@ {
                crate::order::lemma_first_index_unique(t1, k, i);
            } else {
                assert forall|j: int| 0 <= j < t1.len() implies t1[j].spec_id() != k by {}
                crate::order::lemma_no_first_none(t1, k);
            }
        },
    }
}

/// The cell of one field in a row.
#[derive(Debug, PartialEq)]
pub struct FieldCell {
    pub field_id: String,
    pub cell: Cell,
}

impl OrderIdentifiable for FieldCell {
    open spec fn spec_id(&self) -> Seq<char> {
        self.field_id@
    }

    fn identify_id(&self) -> (r: String) {
        self.field_id.clone()
    }

    fn has_id(&self, id: &String) -> (r: bool) {
        self.field_id == *id
    }
}

/// The cells of a row, keyed by field id; absence of a field id means no
/// value was entered.
#[derive(Debug, PartialEq)]
pub struct Cells {
    pub entries: Vec<FieldCell>,
}

/// The cell stored under `k`, as a list of attributes.
pub open spec fn cell_of(s: Seq<FieldCell>, k: Seq<char>) -> Option<Seq<CellEntry>> {
    match find(s, k) {
        Some(fc) => Some(fc.cell@),
        None => None,
    }
}

pub open spec fn field_cell_view(fc: FieldCell) -> (Seq<char>, Seq<CellEntry>) {
    (fc.field_id@, fc.cell@)
}

impl View for Cells {
    type V = Seq<(Seq<char>, Seq<CellEntry>)>;

    open spec fn view(&self) -> Seq<(Seq<char>, Seq<CellEntry>)> {
        self.entries@.map_values(|fc: FieldCell| field_cell_view(fc))
    }
}

/// The view-level form of `Cells::wf`.
pub open spec fn cells_view_wf(v: Seq<(Seq<char>, Seq<CellEntry>)>) -> bool {
    &&& forall|a: int, b: int| 0 <= a < b < v.len() ==> v[a].0 != v[b].0
    &&& forall|i: int| 0 <= i < v.len() ==> unique_ids(#[trigger] v[i].1)
}

/// The cell of field `k` in the view of cells: the first pair with that key.
pub open spec fn view_cell_of(v: Seq<(Seq<char>, Seq<CellEntry>)>, k: Seq<char>) -> Option<
    Seq<CellEntry>,
>
    decreases v.len(),
{
    if v.len() == 0 {
        None
    } else if v[0].0 == k {
        Some(v[0].1)
    } else {
        view_cell_of(v.drop_first(), k)
    }
}

/// Looking a field up in the cells agrees with looking it up in their view.
pub proof fn lemma_cell_of_view(s: Seq<FieldCell>, k: Seq<char>)
    ensures
        cell_of(s, k) == view_cell_of(s.map_values(|fc: FieldCell| field_cell_view(fc)), k),
    decreases s.len(),
{
    let v = s.map_values(|fc: FieldCell| field_cell_view(fc));
    if s.len() == 0 {
        crate::order::lemma_no_first_none(s, k);
    } else if s[0].field_id@ == k {
        crate::order::lemma_first_index_unique(s, k, 0);
    } else {
        let t = s.drop_first();
        lemma_cell_of_view(t, k);
        assert(v.drop_first() =~= t.map_values(|fc: FieldCell| field_cell_view(fc)));
        match crate::order::index_of_id(t, k) {
            Some(m) => {
                crate::order::lemma_index_some(t, k);
                assert forall|j: int| 0 <= j < m + 1 implies s[j].spec_id() != k by {
                    if j > 0 {
                        assert(s[j] == t[j - 1]);
                    }
                }
                crate::order::lemma_first_index_unique(s, k, m + 1);
            },
            None => {
                assert forall|j: int| 0 <= j < s.len() implies s[j].spec_id() != k by {
                    if j > 0 {
                        assert(s[j] == t[j - 1]);
                        assert(!(0 <= j - 1 < t.len() && t[j - 1].spec_id() == k));
                    }
                }
                crate::order::lemma_no_first_none(s, k);
            },
        }
    }
}

impl Cells {
    pub proof fn lemma_wf_view(&self)
        ensures
            self.wf() <==> cells_view_wf(self@),
            forall|k: Seq<char>| #![auto] self.cell_spec(k) == view_cell_of(self@, k),
    {
        let v = self@;
        let s = self.entries@;
        assert forall|k: Seq<char>| #![auto] self.cell_spec(k) == view_cell_of(self@, k) by {
            lemma_cell_of_view(s, k);
        }
        if cells_view_wf(v) {
            assert forall|a: int, b: int| 0 <= a < b < s.len() implies s[a].spec_id()
                != s[b].spec_id() by {
                assert(v[a].0 != v[b].0);
            }
            assert forall|i: int| 0 <= i < s.len() implies s[i].cell.wf() by {
                assert(unique_ids(v[i].1));
            }
        }
        if self.wf() {
            assert forall|a: int, b: int| 0 <= a < b < v.len() implies v[a].0 != v[b].0 by {
                assert(s[a].spec_id() != s[b].spec_id());
            }
            assert forall|i: int| 0 <= i < v.len() implies unique_ids(#[trigger] v[i].1) by {
                assert(s[i].cell.wf());
            }
        }
    }

    pub open spec fn cell_spec(&self, field_id: Seq<char>) -> Option<Seq<CellEntry>> {
        cell_of(self.entries@, field_id)
    }

    /// Same field ids at the same places, with equal cells.
    pub open spec fn same_as(&self, other: &Cells) -> bool {
        &&& self.entries@.len() == other.entries@.len()
        &&& forall|i: int|
            0 <= i < self.entries@.len() ==> self.entries@[i].field_id@
                == other.entries@[i].field_id@ && self.entries@[i].cell@
                == other.entries@[i].cell@
    }

    pub open spec fn wf(&self) -> bool {
        &&& unique_ids(self.entries@)
        &&& forall|i: int| 0 <= i < self.entries@.len() ==> self.entries@[i].cell.wf()
    }

    pub fn new() -> (r: Cells)
        ensures
            r.entries@.len() == 0,
            r.wf(),
    {
        Cells { entries: Vec::new() }
    }

    /// Whether field ids are unique and every cell's keys are unique.
    pub fn is_wf(&self) -> (r: bool)
        ensures
            r == self.wf(),
    {
        if !crate::order::has_unique_ids(&self.entries) {
            return false;
        }
        let mut i: usize = 0;
        while i < self.entries.len()
            invariant
                i <= self.entries@.len(),
                forall|j: int| 0 <= j < i ==> self.entries@[j].cell.wf(),
            decreases self.entries@.len() - i,
        {
            if !self.entries[i].cell.is_wf() {
                return false;
            }
            i = i + 1;
        }
        true
    }

    pub fn is_empty(&self) -> (r: bool)
        ensures
            r == (self.entries@.len() == 0),
    {
        self.entries.len() == 0
    }

    pub fn into_inner(self) -> (r: Vec<FieldCell>)
        ensures
            r@ == self.entries@,
    {
        self.entries
    }

    /// The cell of the given field.
    pub fn cell_for_field_id(&self, field_id: &String) -> (r: Option<&Cell>)
        ensures
            r matches Some(c) ==> self.cell_spec(field_id@) == Some(c@),
            r is None ==> self.cell_spec(field_id@) is None,
    {
        match get_by_id(&self.entries, field_id) {
            Some(fc) => Some(&fc.cell),
            None => None,
        }
    }

    /// Sets the cell of `field_id`, replacing an earlier one in place.
    pub fn insert(&mut self, field_id: String, cell: Cell)
        ensures
            forall|k: Seq<char>|
                #![auto]
                final(self).cell_spec(k) == if k == field_id@ {
                    Some(cell@)
                } else {
                    old(self).cell_spec(k)
                },
            old(self).wf() && cell.wf() ==> final(self).wf(),
    {
        let ghost s = self.entries@;
        let fc = FieldCell { field_id, cell };
        let ghost x = fc;
        upsert(&mut self.entries, fc);
        proof {
            assert forall|k: Seq<char>| #![auto] cell_of(upserted(s, x), k) == if k == x.field_id@ {
                Some(x.cell@)
            } else {
                cell_of(s, k)
            } by {
                lemma_find_upserted(s, x, k);
            }
            let t = self.entries@;
            if unique_ids(s) && (forall|i: int| 0 <= i < s.len() ==> s[i].cell.wf()) && x.cell.wf() {
                assert forall|i: int| 0 <= i < t.len() implies t[i].cell.wf() by {
                    match crate::order::index_of_id(s, x.spec_id()) {
                        Some(j) => {
                            crate::order::lemma_index_some(s, x.spec_id());
                            assert(t == s.update(j, x));
                        },
                        None => {
                            assert(t == s.push(x));
                        },
                    }
                }
            }
        }
    }
}

impl Clone for Cells {
    fn clone(&self) -> (r: Cells)
        ensures
            r.same_as(self),
            r@ == self@,
            forall|k: Seq<char>| #![auto] r.cell_spec(k) == self.cell_spec(k),
            self.wf() ==> r.wf(),
    {
        let mut v: Vec<FieldCell> = Vec::new();
        let mut i: usize = 0;
        while i < self.entries.len()
            invariant
                i <= self.entries@.len(),
                v@.len() == i,
                forall|j: int|
                    0 <= j < i ==> v@[j].field_id@ == self.entries@[j].field_id@
                        && v@[j].cell@ == self.entries@[j].cell@,
            decreases self.entries@.len() - i,
        {
            let fc = &self.entries[i];
            v.push(FieldCell { field_id: fc.field_id.clone(), cell: fc.cell.clone() });
            i = i + 1;
        }
        let r = Cells { entries: v };
        proof {
            assert(r@ =~= self@);
            assert forall|k: Seq<char>| #![auto] r.cell_spec(k) == self.cell_spec(k) by {
                crate::order::lemma_index_same_ids(r.entries@, self.entries@, k);
                if let Some(j) = crate::order::index_of_id(self.entries@, k) {
                    crate::order::lemma_index_some(self.entries@, k);
                }
            }
            if self.wf() {
                assert forall|a: int, b: int| 0 <= a < b < r.entries@.len() implies r.entries@[a].spec_id()
                    != r.entries@[b].spec_id() by {
                    assert(self.entries@[a].spec_id() != self.entries@[b].spec_id());
                }
                assert forall|i: int| 0 <= i < r.entries@.len() implies r.entries@[i].cell.wf() by {
                    assert(self.entries@[i].cell.wf());
                }
            }
        }
        r
    }
}

/// Builds the cells of one row in a write: each write stamps the cell.
pub struct CellsUpdate {
    pub cells: Cells,
    pub now: i64,
}

/// The attributes of the cell under `key` after `insert_cell(key, cell)` at
/// time `now`: the written attributes over the earlier ones, a creation
/// stamp only where none was, and a fresh modification stamp.
pub open spec fn stamped_cell(
    prev: Option<Seq<CellEntry>>,
    cell: Seq<CellEntry>,
    now: i64,
    k: Seq<char>,
) -> Option<AnyValue> {
    let before = match prev {
        Some(p) => lookup(p, k),
        None => None,
    };
    if k == LAST_MODIFIED@ {
        Some(AnyValue::Int(now))
    } else if lookup(cell, k) is Some {
        lookup(cell, k)
    } else if k == CREATED_AT@ && before is None {
        Some(AnyValue::Int(now))
    } else {
        before
    }
}

impl CellsUpdate {
    pub fn new(cells: Cells, now: i64) -> (r: CellsUpdate)
        ensures
            r.cells == cells,
            r.now == now,
    {
        CellsUpdate { cells, now }
    }

    /// Writes the attributes of `cell` into the cell of field `key`,
    /// creating it if needed.
    pub fn insert_cell(self, key: &String, cell: Cell) -> (r: CellsUpdate)
        requires
            cell.wf(),
        ensures
            r.now == self.now,
            forall|k: Seq<char>|
                #![auto]
                k != key@ ==> r.cells.cell_spec(k) == self.cells.cell_spec(k),
            r.cells.cell_spec(key@) matches Some(c) && forall|k: Seq<char>|
                #![auto]
                lookup(c, k) == stamped_cell(self.cells.cell_spec(key@), cell@, self.now, k),
            self.cells.wf() ==> r.cells.wf(),
    {
        let CellsUpdate { mut cells, now } = self;
        let ghost prev = cells.cell_spec(key@);
        let mut target = match cells.cell_for_field_id(key) {
            Some(c) => c.clone(),
            None => {
                let e = Cell::new();
                proof {
                    assert forall|k: Seq<char>| #![auto] e.get_spec(k) is None by {
                        crate::order::lemma_no_first_none(e.entries@, k);
                    }
                }
                e
            },
        };
        let ghost t0 = target;
        assert(forall|k: Seq<char>|
            #![auto]
            t0.get_spec(k) == match prev {
                Some(p) => lookup(p, k),
                None => None,
            });
        assert(cells.wf() ==> target.wf()) by {
            if cells.wf() && prev is Some {
                crate::order::lemma_index_some(cells.entries@, key@);
            }
        }
        let created = String::from_str(CREATED_AT);
        if target.get(&created).is_none() {
            target.insert(created, AnyValue::Int(now));
        }
        let ghost t1 = target;
        assert(forall|k: Seq<char>|
            #![auto]
            t1.get_spec(k) == if k == CREATED_AT@ && t0.get_spec(k) is None {
                Some(AnyValue::Int(now))
            } else {
                t0.get_spec(k)
            });
        target.fill_from(&cell);
        target.insert(String::from_str(LAST_MODIFIED), AnyValue::Int(now));
        let ghost t3 = target;
        assert(forall|k: Seq<char>|
            #![auto]
            t3.get_spec(k) == stamped_cell(prev, cell@, now, k));
        cells.insert(key.clone(), target);
        assert(cells.cell_spec(key@) == Some(t3@));
        assert forall|k: Seq<char>| #![auto] lookup(t3@, k) == stamped_cell(prev, cell@, now, k) by {
            assert(t3.get_spec(k) == stamped_cell(prev, cell@, now, k));
        }
        CellsUpdate { cells, now }
    }

    /// Writes `cell` into the field `key`.
    pub fn insert(self, key: &String, cell: Cell) -> (r: CellsUpdate)
        requires
            cell.wf(),
        ensures
            r.now == self.now,
            forall|k: Seq<char>|
                #![auto]
                k != key@ ==> r.cells.cell_spec(k) == self.cells.cell_spec(k),
            r.cells.cell_spec(key@) matches Some(c) && forall|k: Seq<char>|
                #![auto]
                lookup(c, k) == stamped_cell(self.cells.cell_spec(key@), cell@, self.now, k),
            self.cells.wf() ==> r.cells.wf(),
    {
        self.insert_cell(key, cell)
    }

    /// Empties the cell of field `key`, creating it if needed.
    pub fn clear(self, key: &String) -> (r: CellsUpdate)
        ensures
            r.now == self.now,
            forall|k: Seq<char>|
                #![auto]
                k != key@ ==> r.cells.cell_spec(k) == self.cells.cell_spec(k),
            r.cells.cell_spec(key@) == Some(Seq::<CellEntry>::empty()),
            self.cells.wf() ==> r.cells.wf(),
    {
        let CellsUpdate { mut cells, now } = self;
        cells.insert(key.clone(), Cell::new());
        CellsUpdate { cells, now }
    }

    pub fn done(self) -> (r: Cells)
        ensures
            r == self.cells,
    {
        self.cells
    }
}

/// The field type a cell records, if it records one as an integer.
pub fn get_field_type_from_cell(cell: &Cell) -> (r: Option<i64>)
    ensures
        r == match cell.get_spec(FIELD_TYPE@) {
            Some(AnyValue::Int(t)) => Some(t),
            _ => None::<i64>,
        },
{
    match cell.get(&String::from_str(FIELD_TYPE)) {
        Some(AnyValue::Int(t)) => Some(*t),
        _ => None,
    }
}

/// A new cell that records only its field type.
pub fn new_cell_builder(field_type: i64) -> (r: Cell)
    ensures
        r.wf(),
        r.get_spec(FIELD_TYPE@) == Some(AnyValue::Int(field_type)),
        forall|k: Seq<char>| #![auto] k != FIELD_TYPE@ ==> r.get_spec(k) is None,
{
    let mut c = Cell::new();
    proof {
        assert forall|k: Seq<char>| #![auto] c.get_spec(k) is None by {
            crate::order::lemma_no_first_none(c.entries@, k);
        }
    }
    c.insert(String::from_str(FIELD_TYPE), AnyValue::Int(field_type));
    c
}

/// The cell of one row for one field; `None` where nothing was written.
pub struct RowCell {
    pub row_id: String,
    pub cell: Option<Cell>,
}

impl RowCell {
    pub fn new(row_id: String, cell: Option<Cell>) -> (r: RowCell)
        ensures
            r.row_id == row_id,
            r.cell == cell,
    {
        RowCell { row_id, cell }
    }
}

} // verus!
