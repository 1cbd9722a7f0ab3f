//! Record collections: ordered arrays of id-keyed map records (filters,
//! sorts, group settings, calculations) with upsert semantics.
use vstd::prelude::*;

use crate::cell::{Cell, CellEntry};
use crate::order::{
    OrderIdentifiable, OrderObjectPosition, find, get_by_id, index_of_id, insert_at_position,
    lemma_index_some, move_by_id, moved, position_of, remove_by_id, resolved_index, unique_ids,
    upsert, upserted,
};

verus! {

/// One record: its caller-assigned id and its contents.
#[derive(Debug, PartialEq)]
pub struct RecordMap {
    pub id: String,
    pub data: Cell,
}

impl View for RecordMap {
    type V = (Seq<char>, Seq<CellEntry>);

    open spec fn view(&self) -> (Seq<char>, Seq<CellEntry>) {
        (self.id@, self.data@)
    }
}

impl Clone for RecordMap {
    fn clone(&self) -> (r: RecordMap)
        ensures
            r@ == self@,
    {
        RecordMap { id: self.id.clone(), data: self.data.clone() }
    }
}

impl OrderIdentifiable for RecordMap {
    open spec fn spec_id(&self) -> Seq<char> {
        self.id@
    }

    fn identify_id(&self) -> (r: String) {
        self.id.clone()
    }

    fn has_id(&self, id: &String) -> (r: bool) {
        self.id == *id
    }
}

pub type FilterMap = RecordMap;

pub type SortMap = RecordMap;

pub type GroupSettingMap = RecordMap;

pub type CalculationMap = RecordMap;

pub open spec fn records_view(s: Seq<RecordMap>) -> Seq<(Seq<char>, Seq<CellEntry>)> {
    s.map_values(|r: RecordMap| r@)
}

/// An ordered collection of records whose ids are unique.
pub struct RecordCollection {
    pub items: Vec<RecordMap>,
}

impl RecordCollection {
    pub open spec fn wf(&self) -> bool {
        unique_ids(self.items@)
    }

    pub fn new() -> (r: RecordCollection)
        ensures
            r.items@.len() == 0,
            r.wf(),
    {
        RecordCollection { items: Vec::new() }
    }

    /// Replaces the record with the same id in place, or appends it.
    /// Returns the index the record holds.
    pub fn upsert(&mut self, record: RecordMap) -> (r: usize)
        ensures
            final(self).items@ == upserted(old(self).items@, record),
            r < final(self).items@.len(),
            final(self).items@[r as int] == record,
            old(self).wf() ==> final(self).wf(),
    {
        upsert(&mut self.items, record)
    }

    /// Upserts every record of `records`, in order.
    pub fn extend(&mut self, records: Vec<RecordMap>)
        ensures
            final(self).items@ == crate::order::upserted_all(
                old(self).items@,
                records@,
                records@.len() as int,
            ),
            old(self).wf() ==> final(self).wf(),
    {
        crate::order::upsert_all(&mut self.items, records);
    }

    /// Replaces the record with the same id in place, or inserts it at the
    /// place `pos` describes.
    pub fn upsert_at(&mut self, record: RecordMap, pos: &OrderObjectPosition) -> (r: usize)
        ensures
            index_of_id(old(self).items@, record.id@) is Some ==> final(self).items@ == upserted(
                old(self).items@,
                record,
            ),
            index_of_id(old(self).items@, record.id@) is None ==> r as int == resolved_index(
                old(self).items@,
                *pos,
            ) && final(self).items@ == old(self).items@.insert(r as int, record),
            r < final(self).items@.len(),
            final(self).items@[r as int] == record,
            old(self).wf() ==> final(self).wf(),
    {
        let ghost s = self.items@;
        match position_of(&self.items, &record.id) {
            Some(_) => upsert(&mut self.items, record),
            None => {
                let i = insert_at_position(&mut self.items, record, pos);
                proof {
                    if unique_ids(s) {
                        assert forall|j: int| 0 <= j < s.len() implies s[j].spec_id()
                            != record.id@ by {
                            assert(!(0 <= j < s.len() && s[j].spec_id() == record.id@));
                        }
                        crate::order::lemma_unique_insert(s, i as int, record);
                    }
                }
                i
            },
        }
    }

    /// Removes the record with the given id; an absent id changes nothing.
    pub fn remove_by_id(&mut self, id: &String) -> (r: Option<usize>)
        ensures
            r matches Some(i) ==> index_of_id(old(self).items@, id@) == Some(i as int)
                && final(self).items@ == old(self).items@.remove(i as int),
            r is None ==> index_of_id(old(self).items@, id@) is None && final(self).items@ == old(
                self,
            ).items@,
            old(self).wf() ==> final(self).wf(),
    {
        let ghost s0 = self.items@;
        proof {
            if index_of_id(s0, id@) is Some {
                lemma_index_some(s0, id@);
            }
        }
        let r = remove_by_id(&mut self.items, id);
        proof {
            if let Some(i) = r {
                let s = old(self).items@;
                let t = self.items@;
                lemma_index_some(s, id@);
                if unique_ids(s) {
                    crate::order::lemma_unique_remove(s, i as int);
                }
            }
        }
        r
    }

    /// Moves the record `from_id` to the index that `to_id` holds.
    pub fn move_record(&mut self, from_id: &String, to_id: &String) -> (r: bool)
        ensures
            r ==> (index_of_id(old(self).items@, from_id@) matches Some(f) && index_of_id(
                old(self).items@,
                to_id@,
            ) matches Some(t) && final(self).items@ == moved(old(self).items@, f, t)),
            !r ==> final(self).items@ == old(self).items@,
            r == crate::order::movable(old(self).items@, from_id@, to_id@),
            old(self).wf() ==> final(self).wf(),
    {
        let ghost s = self.items@;
        let r = move_by_id(&mut self.items, from_id, to_id);
        proof {
            if let Some(d) = r {
                let f = index_of_id(s, from_id@)->0;
                let t = index_of_id(s, to_id@)->0;
                lemma_index_some(s, from_id@);
                lemma_index_some(s, to_id@);
                if unique_ids(s) {
                    crate::order::lemma_unique_moved(s, f, t);
                }
            }
        }
        r.is_some()
    }

    pub fn index_of(&self, id: &String) -> (r: Option<usize>)
        ensures
            r matches Some(i) ==> index_of_id(self.items@, id@) == Some(i as int),
            r is None ==> index_of_id(self.items@, id@) is None,
    {
        position_of(&self.items, id)
    }

    pub fn get(&self, id: &String) -> (r: Option<&RecordMap>)
        ensures
            r == match find(self.items@, id@) {
                Some(x) => Some(&x),
                None => None::<&RecordMap>,
            },
    {
        let r = get_by_id(&self.items, id);
        r
    }

    pub fn clear(&mut self)
        ensures
            final(self).items@.len() == 0,
            final(self).wf(),
    {
        self.items = Vec::new();
    }

    /// A copy of every record, in order.
    pub fn get_all(&self) -> (r: Vec<RecordMap>)
        ensures
            records_view(r@) == records_view(self.items@),
    {
        let mut r: Vec<RecordMap> = Vec::new();
        let mut i: usize = 0;
        while i < self.items.len()
            invariant
                i <= self.items@.len(),
                records_view(r@) == records_view(self.items@.take(i as int)),
            decreases self.items@.len() - i,
        {
            let ghost pre = r@;
            r.push(self.items[i].clone());
            proof {
                assert(self.items@.take(i + 1) == self.items@.take(i as int).push(self.items@[i as int]));
                assert(records_view(r@) =~= records_view(pre).push(self.items@[i as int]@));
                assert(records_view(self.items@.take(i + 1)) =~= records_view(self.items@.take(i as int)).push(self.items@[i as int]@));
            }
            i = i + 1;
        }
        proof {
            assert(self.items@.take(self.items@.len() as int) == self.items@);
        }
        r
    }
}

/// Records with the same ids at the same places keep ids unique alike.
pub proof fn lemma_same_records_unique(s: Seq<RecordMap>, t: Seq<RecordMap>)
    requires
        unique_ids(s),
        records_view(s) == records_view(t),
    ensures
        unique_ids(t),
{
    assert(s.len() == records_view(s).len());
    assert(t.len() == records_view(t).len());
    assert forall|a: int, b: int| 0 <= a < b < t.len() implies t[a].spec_id() != t[b].spec_id() by {
        assert(records_view(s)[a] == records_view(t)[a]);
        assert(records_view(s)[b] == records_view(t)[b]);
        assert(s[a].spec_id() != s[b].spec_id());
    }
}

/// Upserting two records with the same id one after the other leaves
/// exactly one element with that id: the later record, at the index the
/// first upsert gave it. The result is that of upserting the later record
/// alone.
pub proof fn law_upsert_twice(s: Seq<RecordMap>, x: RecordMap, y: RecordMap)
    requires
        unique_ids(s),
        x.id@ == y.id@,
    ensures
        ({
            let once = upserted(s, x);
            let twice = upserted(once, y);
            &&& twice == upserted(s, y)
            &&& twice.len() == once.len()
            &&& index_of_id(twice, y.id@) == index_of_id(once, x.id@)
            &&& find(twice, y.id@) == Some(y)
            &&& unique_ids(twice)
            &&& forall|j: int| 0 <= j < twice.len() && twice[j].id@ == y.id@ ==> twice[j] == y
            &&& index_of_id(once, x.id@) matches Some(j) && 0 <= j < once.len() && once[j] == x
                && twice == once.update(j, y)
        }),
{
    let once = upserted(s, x);
    let twice = upserted(once, y);
    crate::order::lemma_index_after_upsert(s, x, x.id@);
    crate::order::lemma_unique_upserted(s, x);
    crate::order::lemma_unique_upserted(once, y);
    crate::order::lemma_index_after_upsert(once, y, y.id@);
    crate::order::lemma_find_upserted(once, y, y.id@);
    match index_of_id(s, x.id@) {
        Some(i) => {
            lemma_index_some(s, x.id@);
            assert(once == s.update(i, x));
            assert(twice == once.update(i, y));
            assert(twice =~= s.update(i, y));
        },
        None => {
            assert(once == s.push(x));
            assert(twice == once.update(s.len() as int, y));
            assert(twice =~= s.push(y));
        },
    }
    lemma_index_some(once, x.id@);
    lemma_index_some(twice, y.id@);
    let k = index_of_id(twice, y.id@)->0;
    assert forall|j: int| 0 <= j < twice.len() && twice[j].id@ == y.id@ implies twice[j] == y by {
        if j != k {
            if j < k {
                assert(twice[j].spec_id() != y.id@);
            } else {
                assert(twice[k].spec_id() != twice[j].spec_id());
            }
        }
    }
}

} // verus!
