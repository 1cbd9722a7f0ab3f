//! The row store: a concurrent cache of materialized rows keyed by row id,
//! and the decisions of the dual local/remote loading strategy. Reading the
//! local store, fetching from a peer and broadcasting events are left to the
//! caller, which hands their results in and performs the actions returned.
use vstd::prelude::*;

use dashmap::DashMap;
use dashmap::mapref::entry::Entry;

use crate::cell::{Cell, view_cell_of};
use crate::order::RowOrder;
use crate::row::{
    DatabaseRow, DatabaseRowView, Row, RowChange, RowDetail, RowMeta, RowMetaUpdate, RowUpdate,
    row_view_wf,
};

verus! {

#[verifier::external_type_specification]
#[verifier::external_body]
#[verifier::reject_recursive_types(K)]
#[verifier::reject_recursive_types(V)]
#[verifier::reject_recursive_types(S)]
pub struct ExDashMap<K, V, S>(DashMap<K, V, S>);

/// What the cache holds for one row id: a materialized row, or a marker
/// that a remote fetch is in flight.
pub enum RowSlot {
    Ready(DatabaseRow),
    Fetching,
}

pub enum RowSlotView {
    Ready(DatabaseRowView),
    Fetching,
}

impl View for RowSlot {
    type V = RowSlotView;

    open spec fn view(&self) -> RowSlotView {
        match self {
            RowSlot::Ready(r) => RowSlotView::Ready(r@),
            RowSlot::Fetching => RowSlotView::Fetching,
        }
    }
}

impl Clone for RowSlot {
    fn clone(&self) -> (r: RowSlot)
        ensures
            r@ == self@,
    {
        match self {
            RowSlot::Ready(row) => RowSlot::Ready(row.clone()),
            RowSlot::Fetching => RowSlot::Fetching,
        }
    }
}

/// What the cache holds, by row id.
pub uninterp spec fn cache_view(m: DashMap<String, RowSlot>) -> Map<Seq<char>, RowSlotView>;

pub open spec fn empty_cache() -> Map<Seq<char>, RowSlotView> {
    Map::empty()
}

/// Relies on `DashMap::new`: an empty map.
#[verifier::external_body]
fn cache_new() -> (r: DashMap<String, RowSlot>)
    ensures
        cache_view(r) == empty_cache(),
{
    DashMap::new()
}

/// Relies on `DashMap::get`: the value stored under the key, if any.
#[verifier::external_body]
fn cache_get(m: &DashMap<String, RowSlot>, k: &String) -> (r: Option<RowSlot>)
    ensures
        r is Some == cache_view(*m).dom().contains(k@),
        r matches Some(v) ==> v@ == cache_view(*m)[k@],
{
    m.get(k).map(|v| v.value().clone())
}

/// Relies on `DashMap::insert`: the key afterwards maps to the value.
#[verifier::external_body]
fn cache_insert(m: &mut DashMap<String, RowSlot>, k: String, v: RowSlot)
    ensures
        cache_view(*final(m)) == cache_view(*old(m)).insert(k@, v@),
{
    m.insert(k, v);
}

/// Relies on `DashMap::remove`: the key afterwards maps to nothing, and the
/// value it held is returned.
#[verifier::external_body]
fn cache_remove(m: &mut DashMap<String, RowSlot>, k: &String) -> (r: Option<RowSlot>)
    ensures
        r is Some == cache_view(*old(m)).dom().contains(k@),
        r matches Some(v) ==> v@ == cache_view(*old(m))[k@],
        cache_view(*final(m)) == cache_view(*old(m)).remove(k@),
{
    m.remove(k).map(|(_, v)| v)
}

/// Relies on `DashMap::entry` and `VacantEntry::insert`: under the lock of
/// the key's shard, the value is stored only where the key is absent.
/// Returns whether it was stored.
#[verifier::external_body]
fn cache_claim(m: &mut DashMap<String, RowSlot>, k: String, v: RowSlot) -> (r: bool)
    ensures
        r == !cache_view(*old(m)).dom().contains(k@),
        r ==> cache_view(*final(m)) == cache_view(*old(m)).insert(k@, v@),
        !r ==> cache_view(*final(m)) == cache_view(*old(m)),
{
    match m.entry(k) {
        Entry::Occupied(_) => false,
        Entry::Vacant(e) => {
            e.insert(v);
            true
        },
    }
}

/// A row document as the local store or a peer hands it over.
pub struct RowDocument {
    pub data: Option<Row>,
    pub meta: RowMeta,
}

/// A request for the caller to fetch rows from a peer.
#[derive(Debug, Clone, PartialEq, Eq)]
pub enum FetchRequest {
    FetchRow { row_id: String, seq: u32 },
    BatchFetchRow { row_ids: Vec<String>, seq: u32 },
}

/// An event of the row store for its subscribers.
pub enum BlockEvent {
    /// Rows became available.
    DidFetchRow(Vec<RowDetail>),
}

/// The result of a lookup that may need a remote fetch.
pub enum RowLookup {
    /// The row is materialized; a copy of its data, if the document holds
    /// a row.
    Ready(Option<Row>),
    /// The row is not available yet; a fetch was requested now, or earlier.
    Pending(Option<FetchRequest>),
}

/// The materialized row cached under `id`, if any.
pub open spec fn ready_row(c: Map<Seq<char>, RowSlotView>, id: Seq<char>) -> Option<DatabaseRowView> {
    if c.dom().contains(id) {
        match c[id] {
            RowSlotView::Ready(v) => Some(v),
            RowSlotView::Fetching => None,
        }
    } else {
        None
    }
}

/// The row data cached under `id`, if any.
pub open spec fn ready_data(c: Map<Seq<char>, RowSlotView>, id: Seq<char>) -> Option<crate::row::RowView> {
    match ready_row(c, id) {
        Some(v) => v.data,
        None => None,
    }
}

/// The cell of `field_id` in the row cached under `id`, if any.
pub open spec fn ready_cell(
    c: Map<Seq<char>, RowSlotView>,
    id: Seq<char>,
    field_id: Seq<char>,
) -> Option<Seq<crate::cell::CellEntry>> {
    match ready_data(c, id) {
        Some(d) => view_cell_of(d.cells, field_id),
        None => None,
    }
}

/// Whether a document's row belongs to `row_id` and is well formed.
pub open spec fn doc_fits(row_id: Seq<char>, doc: RowDocument) -> bool {
    doc.data matches Some(x) ==> x.id@ == row_id && x.cells.wf()
}

/// The row materialized from a document: the document's row where it fits,
/// an uninitialized row otherwise.
pub open spec fn materialized(uid: i64, row_id: Seq<char>, doc: RowDocument) -> DatabaseRowView {
    DatabaseRowView {
        uid,
        row_id,
        data: if doc_fits(row_id, doc) {
            match doc.data {
                Some(x) => Some(x@),
                None => None,
            }
        } else {
            None
        },
        meta: doc.meta,
    }
}

/// The cache after the fetch of `id` completed with `result`: the fetched
/// row replaces whatever was there; a failed fetch clears a pending marker
/// so that the next lookup fetches again.
pub open spec fn cache_after_fetch(
    c: Map<Seq<char>, RowSlotView>,
    uid: i64,
    id: Seq<char>,
    result: Option<RowDocument>,
) -> Map<Seq<char>, RowSlotView> {
    match result {
        Some(doc) => c.insert(id, RowSlotView::Ready(materialized(uid, id, doc))),
        None => if c.dom().contains(id) && c[id] is Fetching {
            c.remove(id)
        } else {
            c
        },
    }
}

/// The cache after a batch load of the first `n` requests: each row found
/// locally is materialized and cached.
pub open spec fn cache_after_batch(
    c: Map<Seq<char>, RowSlotView>,
    uid: i64,
    reqs: Seq<(String, Option<RowDocument>)>,
    n: int,
) -> Map<Seq<char>, RowSlotView>
    decreases n,
{
    if n <= 0 {
        c
    } else {
        let p = cache_after_batch(c, uid, reqs, n - 1);
        match reqs[n - 1].1 {
            Some(doc) => p.insert(
                reqs[n - 1].0@,
                RowSlotView::Ready(materialized(uid, reqs[n - 1].0@, doc)),
            ),
            None => p,
        }
    }
}

/// The row that a document for `id` announces when it is loaded: its row,
/// where the row fits and its id is a UUID, so that its document id can be
/// derived.
pub open spec fn announced(id: Seq<char>, doc: RowDocument) -> Option<crate::row::RowView> {
    if doc_fits(id, doc) && doc.data is Some && crate::ids::is_uuid_text(id) {
        Some(doc.data->0@)
    } else {
        None
    }
}

/// The rows that a batch load of the first `n` requests announces, in
/// request order.
pub open spec fn announced_in_batch(reqs: Seq<(String, Option<RowDocument>)>, n: int) -> Seq<
    crate::row::RowView,
>
    decreases n,
{
    if n <= 0 {
        Seq::empty()
    } else {
        let p = announced_in_batch(reqs, n - 1);
        match reqs[n - 1].1 {
            Some(doc) => match announced(reqs[n - 1].0@, doc) {
                Some(v) => p.push(v),
                None => p,
            },
            None => p,
        }
    }
}

pub open spec fn details_rows(details: Seq<RowDetail>) -> Seq<crate::row::RowView> {
    details.map_values(|d: RowDetail| d.row@)
}

/// The ids among the first `n` requests that the local store lacks.
pub open spec fn missing_ids(reqs: Seq<(String, Option<RowDocument>)>, n: int) -> Seq<Seq<char>>
    decreases n,
{
    if n <= 0 {
        Seq::empty()
    } else {
        let p = missing_ids(reqs, n - 1);
        if reqs[n - 1].1 is None {
            p.push(reqs[n - 1].0@)
        } else {
            p
        }
    }
}

/// `row` is what a view read gives for the row `id`: the cached data, or
/// an empty placeholder.
pub open spec fn resolved_row(
    c: Map<Seq<char>, RowSlotView>,
    database_id: Seq<char>,
    id: Seq<char>,
    row: Row,
) -> bool {
    match ready_data(c, id) {
        Some(d) => row@ == d,
        None => row.id@ == id && row.database_id@ == database_id && row.cells@.len() == 0
            && row.height == crate::row::DEFAULT_ROW_HEIGHT && row.visibility && row.created_at == 0
            && row.modified_at == 0,
    }
}

/// A row cached under `id` in a well-formed cache carries that id.
pub proof fn lemma_ready_row_id(c: Map<Seq<char>, RowSlotView>, id: Seq<char>)
    requires
        cache_wf(c),
    ensures
        ready_data(c, id) matches Some(d) ==> d.id == id,
{
}

/// Every slot of the cache is well formed and sits under its own row id.
pub open spec fn cache_wf(c: Map<Seq<char>, RowSlotView>) -> bool {
    forall|k: Seq<char>|
        #[trigger] c.dom().contains(k) ==> (c[k] matches RowSlotView::Ready(r) ==> row_view_wf(r)
            && r.row_id == k)
}

/// The cache after a lookup of `id`: unchanged where it held the id, the
/// loaded row where the local store had it, a fetch marker otherwise.
pub open spec fn cache_after_lookup(
    c: Map<Seq<char>, RowSlotView>,
    id: Seq<char>,
    local: Option<RowSlotView>,
) -> Map<Seq<char>, RowSlotView> {
    if c.dom().contains(id) {
        c
    } else {
        match local {
            Some(v) => c.insert(id, v),
            None => c.insert(id, RowSlotView::Fetching),
        }
    }
}

/// Whether a lookup of `id` dispatches a fetch.
pub open spec fn lookup_dispatches(c: Map<Seq<char>, RowSlotView>, id: Seq<char>, local_found: bool) -> bool {
    !c.dom().contains(id) && !local_found
}

/// How many fetches `n` lookups of `id` dispatch, one after another, while
/// the local store does not have the row and no fetch completes.
pub open spec fn dispatches_in_lookups(c: Map<Seq<char>, RowSlotView>, id: Seq<char>, n: nat) -> nat
    decreases n,
{
    if n == 0 {
        0
    } else {
        let d: nat = if lookup_dispatches(c, id, false) {
            1
        } else {
            0
        };
        d + dispatches_in_lookups(cache_after_lookup(c, id, None), id, (n - 1) as nat)
    }
}

/// Any number of lookups of a row that is neither cached nor stored
/// locally dispatch exactly one fetch.
pub proof fn law_single_dispatch(c: Map<Seq<char>, RowSlotView>, id: Seq<char>, n: nat)
    requires
        !c.dom().contains(id),
        n >= 1,
    ensures
        dispatches_in_lookups(c, id, n) == 1,
{
    let c1 = cache_after_lookup(c, id, None);
    assert(c1.dom().contains(id));
    lemma_no_dispatch_once_present(c1, id, (n - 1) as nat);
}

proof fn lemma_no_dispatch_once_present(c: Map<Seq<char>, RowSlotView>, id: Seq<char>, n: nat)
    requires
        c.dom().contains(id),
    ensures
        dispatches_in_lookups(c, id, n) == 0,
    decreases n,
{
    if n > 0 {
        lemma_no_dispatch_once_present(c, id, (n - 1) as nat);
    }
}

/// The cache of materialized rows. Its map is reached only through this
/// module, so what it holds changes only as the contracts here say.
pub struct RowCache {
    map: DashMap<String, RowSlot>,
}

impl View for RowCache {
    type V = Map<Seq<char>, RowSlotView>;

    closed spec fn view(&self) -> Map<Seq<char>, RowSlotView> {
        cache_view(self.map)
    }
}

/// The rows of one database, materialized on demand.
pub struct Block {
    pub uid: i64,
    pub database_id: String,
    pub sequence: u32,
    pub row_mem_cache: RowCache,
}

impl Block {
    pub open spec fn cache(&self) -> Map<Seq<char>, RowSlotView> {
        self.row_mem_cache@
    }

    /// Whether the cache holds anything for `row_id`: a row, or a marker of
    /// a fetch in flight.
    pub fn contains_row(&self, row_id: &String) -> (r: bool)
        ensures
            r == self.cache().dom().contains(row_id@),
    {
        cache_get(&self.row_mem_cache.map, row_id).is_some()
    }

    pub open spec fn wf(&self) -> bool {
        cache_wf(self.cache())
    }

    pub fn new(uid: i64, database_id: String) -> (r: Block)
        ensures
            r.wf(),
            r.uid == uid,
            r.database_id == database_id,
            r.sequence == 0,
            r.cache() == empty_cache(),
    {
        Block { uid, database_id, sequence: 0, row_mem_cache: RowCache { map: cache_new() } }
    }

    fn next_seq(&mut self) -> (r: u32)
        ensures
            r == old(self).sequence,
            final(self).sequence == old(self).sequence.wrapping_add(1),
            final(self).row_mem_cache == old(self).row_mem_cache,
            final(self).uid == old(self).uid,
            final(self).database_id == old(self).database_id,
    {
        let r = self.sequence;
        self.sequence = self.sequence.wrapping_add(1);
        r
    }

    /// Materializes `row`, caches it under its id and returns its stand-in.
    pub fn create_row(&mut self, row: Row) -> (r: RowOrder)
        requires
            old(self).wf(),
            row.cells.wf(),
        ensures
            final(self).wf(),
            r.id@ == row.id@,
            r.height == row.height,
            final(self).cache() == old(self).cache().insert(
                row.id@,
                RowSlotView::Ready(DatabaseRow::create_view(old(self).uid, row)),
            ),
            final(self).sequence == old(self).sequence,
    {
        let order = row.row_order();
        let id = row.id.clone();
        let ghost v = DatabaseRow::create_view(self.uid, row);
        let database_row = DatabaseRow::create(self.uid, row);
        proof {
            database_row.lemma_wf_view();
        }
        cache_insert(&mut self.row_mem_cache.map, id, RowSlot::Ready(database_row));
        order
    }

    /// Creates each row in turn; returns their stand-ins in order.
    pub fn create_rows(&mut self, rows: Vec<Row>) -> (r: Vec<RowOrder>)
        requires
            old(self).wf(),
            forall|i: int| 0 <= i < rows@.len() ==> rows@[i].cells.wf(),
        ensures
            final(self).wf(),
            r@.len() == rows@.len(),
            forall|i: int| 0 <= i < rows@.len() ==> r@[i].id@ == rows@[i].id@ && r@[i].height
                == rows@[i].height,
            forall|i: int|
                0 <= i < rows@.len() ==> final(self).cache().dom().contains(#[trigger] rows@[i].id@),
    {
        let ghost all = rows@;
        let mut src = rows;
        let total = src.len();
        let mut out: Vec<RowOrder> = Vec::new();
        let mut i: usize = 0;
        while src.len() > 0
            invariant
                self.wf(),
                i <= total,
                total == all.len(),
                src@ == all.skip(i as int),
                forall|j: int| 0 <= j < all.len() ==> all[j].cells.wf(),
                out@.len() == i,
                forall|j: int| 0 <= j < i ==> out@[j].id@ == all[j].id@ && out@[j].height
                    == all[j].height,
                forall|j: int| 0 <= j < i ==> self.cache().dom().contains(#[trigger] all[j].id@),
            decreases src@.len(),
        {
            proof {
                assert(src@[0] == all[i as int]);
            }
            let row = src.remove(0);
            let order = self.create_row(row);
            out.push(order);
            proof {
                assert(all.skip(i as int).remove(0) =~= all.skip(i + 1));
            }
            i = i + 1;
        }
        out
    }

    /// A copy of the data of the cached row `row_id`, without loading it.
    pub fn get_row(&self, row_id: &String) -> (r: Option<Row>)
        ensures
            r matches Some(x) ==> ready_data(self.cache(), row_id@) == Some(x@),
            r is None ==> ready_data(self.cache(), row_id@) is None,
    {
        match cache_get(&self.row_mem_cache.map, row_id) {
            Some(RowSlot::Ready(database_row)) => database_row.get_row(),
            _ => None,
        }
    }

    /// The metadata of the cached row `row_id`.
    pub fn get_row_meta(&self, row_id: &String) -> (r: Option<RowMeta>)
        ensures
            r == match ready_row(self.cache(), row_id@) {
                Some(v) => Some(v.meta),
                None => None::<RowMeta>,
            },
    {
        match cache_get(&self.row_mem_cache.map, row_id) {
            Some(RowSlot::Ready(database_row)) => Some(database_row.get_row_meta()),
            _ => None,
        }
    }

    /// The cell of `field_id` in the cached row `row_id`; `None` where the
    /// row is not cached or has no such cell.
    pub fn get_cell(&self, row_id: &String, field_id: &String) -> (r: Option<Cell>)
        requires
            self.wf(),
        ensures
            r matches Some(x) ==> ready_cell(self.cache(), row_id@, field_id@) == Some(x@),
            r is None ==> ready_cell(self.cache(), row_id@, field_id@) is None,
    {
        match cache_get(&self.row_mem_cache.map, row_id) {
            Some(RowSlot::Ready(database_row)) => {
                proof {
                    if database_row.data is Some {
                        database_row.data->0.cells.lemma_wf_view();
                    }
                }
                database_row.get_cell(field_id)
            },
            _ => None,
        }
    }

    /// Materializes a document for `row_id`.
    fn materialize(&self, row_id: &String, doc: RowDocument) -> (r: DatabaseRow)
        ensures
            r@ == materialized(self.uid, row_id@, doc),
            r.wf(),
            row_view_wf(r@),
    {
        let RowDocument { data, meta } = doc;
        let fits = match &data {
            Some(x) => x.id == *row_id && x.cells.is_wf(),
            None => true,
        };
        let r = if fits {
            DatabaseRow::new(self.uid, row_id.clone(), data, meta)
        } else {
            DatabaseRow::new(self.uid, row_id.clone(), None, meta)
        };
        proof {
            r.lemma_wf_view();
        }
        r
    }

    /// Looks up the row `row_id`. A cached row is served at once. Otherwise
    /// `local` is what the local store holds for the id: a row found there
    /// is materialized and cached. A row found nowhere gets a fetch marker
    /// and one fetch request, set under the key's lock, so that further
    /// lookups before the fetch completes request nothing.
    pub fn get_or_init_row(&mut self, row_id: &String, local: Option<RowDocument>) -> (r:
        RowLookup)
        requires
            old(self).wf(),
        ensures
            final(self).wf(),
            final(self).cache() == cache_after_lookup(
                old(self).cache(),
                row_id@,
                match local {
                    Some(doc) => Some(RowSlotView::Ready(materialized(old(self).uid, row_id@, doc))),
                    None => None,
                },
            ),
            final(self).uid == old(self).uid,
            match r {
                RowLookup::Ready(data) => ready_row(final(self).cache(), row_id@) matches Some(v)
                    && match data {
                    Some(x) => v.data == Some(x@),
                    None => v.data is None,
                },
                RowLookup::Pending(req) => ready_row(final(self).cache(), row_id@) is None && match req {
                    Some(q) => lookup_dispatches(old(self).cache(), row_id@, local is Some) && q
                        == FetchRequest::FetchRow { row_id: *row_id, seq: old(self).sequence },
                    None => !lookup_dispatches(old(self).cache(), row_id@, local is Some),
                },
            },
            lookup_dispatches(old(self).cache(), row_id@, local is Some) ==> final(self).sequence
                == old(self).sequence.wrapping_add(1),
            !lookup_dispatches(old(self).cache(), row_id@, local is Some) ==> final(self).sequence
                == old(self).sequence,
    {
        match cache_get(&self.row_mem_cache.map, row_id) {
            Some(RowSlot::Ready(database_row)) => {
                return RowLookup::Ready(database_row.get_row());
            },
            Some(RowSlot::Fetching) => {
                return RowLookup::Pending(None);
            },
            None => {},
        }
        match local {
            Some(doc) => {
                let database_row = self.materialize(row_id, doc);
                let data = database_row.get_row();
                cache_insert(&mut self.row_mem_cache.map, row_id.clone(), RowSlot::Ready(database_row));
                RowLookup::Ready(data)
            },
            None => {
                if cache_claim(&mut self.row_mem_cache.map, row_id.clone(), RowSlot::Fetching) {
                    let seq = self.next_seq();
                    RowLookup::Pending(Some(FetchRequest::FetchRow { row_id: row_id.clone(), seq }))
                } else {
                    RowLookup::Pending(None)
                }
            },
        }
    }

    /// Applies the completion of a fetch of `row_id`: a fetched row replaces
    /// whatever the cache held, last arrival winning, and is announced; a
    /// failed fetch leaves the row unresolved, so the next lookup fetches
    /// again.
    pub fn did_fetch_row(&mut self, row_id: &String, result: Option<RowDocument>) -> (r: Option<
        BlockEvent,
    >)
        requires
            old(self).wf(),
        ensures
            final(self).wf(),
            final(self).cache() == cache_after_fetch(old(self).cache(), old(self).uid, row_id@, result),
            final(self).uid == old(self).uid,
            final(self).sequence == old(self).sequence,
            r matches Some(BlockEvent::DidFetchRow(details)) ==> details@.len() == 1
                && ready_data(final(self).cache(), row_id@) == Some(details@[0].row@),
            r is Some == (result matches Some(doc) && announced(row_id@, doc) is Some),
            r matches Some(BlockEvent::DidFetchRow(details)) ==> Some(details@[0].row@) == announced(
                row_id@,
                result->0,
            ),
    {
        match result {
            Some(doc) => {
                let database_row = self.materialize(row_id, doc);
                let event = match database_row.get_row() {
                    Some(row) => match RowDetail::new(row, database_row.get_row_meta()) {
                        Some(detail) => Some(BlockEvent::DidFetchRow(vec![detail])),
                        None => None,
                    },
                    None => None,
                };
                cache_insert(&mut self.row_mem_cache.map, row_id.clone(), RowSlot::Ready(database_row));
                event
            },
            None => {
                match cache_get(&self.row_mem_cache.map, row_id) {
                    Some(RowSlot::Fetching) => {
                        cache_remove(&mut self.row_mem_cache.map, row_id);
                    },
                    _ => {},
                }
                None
            },
        }
    }

    /// Loads a batch of rows. Each request pairs a row id with what the
    /// local store holds for it. Rows found locally are materialized and
    /// cached and announced in one event; the others are requested in one
    /// batch fetch, whose rows arrive one by one through `did_fetch_row`.
    pub fn batch_load_rows(&mut self, requests: Vec<(String, Option<RowDocument>)>) -> (r: (
        BlockEvent,
        Option<FetchRequest>,
    ))
        requires
            old(self).wf(),
        ensures
            final(self).wf(),
            final(self).uid == old(self).uid,
            final(self).cache() == cache_after_batch(
                old(self).cache(),
                old(self).uid,
                requests@,
                requests@.len() as int,
            ),
            match r.0 {
                BlockEvent::DidFetchRow(details) => details_rows(details@) == announced_in_batch(
                    requests@,
                    requests@.len() as int,
                ),
            },
            missing_ids(requests@, requests@.len() as int).len() == 0 ==> r.1 is None
                && final(self).sequence == old(self).sequence,
            missing_ids(requests@, requests@.len() as int).len() > 0 ==> (r.1 matches Some(
                FetchRequest::BatchFetchRow { row_ids, seq },
            ) && seq == old(self).sequence && row_ids@.map_values(|s: String| s@) == missing_ids(
                requests@,
                requests@.len() as int,
            ) && final(self).sequence == old(self).sequence.wrapping_add(1)),
    {
        let ghost all = requests@;
        let mut src = requests;
        let total = src.len();
        let mut details: Vec<RowDetail> = Vec::new();
        let mut missing: Vec<String> = Vec::new();
        let mut i: usize = 0;
        while src.len() > 0
            invariant
                self.wf(),
                self.uid == old(self).uid,
                self.sequence == old(self).sequence,
                i <= total,
                total == all.len(),
                src@ == all.skip(i as int),
                self.cache() == cache_after_batch(old(self).cache(), self.uid, all, i as int),
                missing@.map_values(|s: String| s@) == missing_ids(all, i as int),
                details_rows(details@) == announced_in_batch(all, i as int),
            decreases src@.len(),
        {
            proof {
                assert(src@[0] == all[i as int]);
            }
            let (row_id, local) = src.remove(0);
            match local {
                Some(doc) => {
                    let database_row = self.materialize(&row_id, doc);
                    let ghost pre = details@;
                    match database_row.get_row() {
                        Some(row) => match RowDetail::new(row, database_row.get_row_meta()) {
                            Some(detail) => {
                                details.push(detail);
                                proof {
                                    assert(details_rows(details@) =~= details_rows(pre).push(details@.last().row@));
                                }
                            },
                            None => {},
                        },
                        None => {},
                    }
                    cache_insert(&mut self.row_mem_cache.map, row_id, RowSlot::Ready(database_row));
                },
                None => {
                    let ghost pre = missing@;
                    missing.push(row_id);
                    proof {
                        assert(missing@.map_values(|s: String| s@) =~= pre.map_values(
                            |s: String| s@,
                        ).push(all[i as int].0@));
                    }
                },
            }
            proof {
                assert(all.skip(i as int).remove(0) =~= all.skip(i + 1));
            }
            i = i + 1;
        }
        let event = BlockEvent::DidFetchRow(details);
        if missing.len() == 0 {
            return (event, None);
        }
        let seq = self.next_seq();
        (event, Some(FetchRequest::BatchFetchRow { row_ids: missing, seq }))
    }

    /// The rows behind `row_orders`, in order; a row that is not cached
    /// with data degrades to an empty placeholder.
    pub fn get_rows_from_row_orders(&self, row_orders: &Vec<RowOrder>) -> (r: Vec<Row>)
        ensures
            r@.len() == row_orders@.len(),
            forall|i: int|
                0 <= i < r@.len() ==> #[trigger] resolved_row(
                    self.cache(),
                    self.database_id@,
                    row_orders@[i].id@,
                    r@[i],
                ),
    {
        let mut rows: Vec<Row> = Vec::new();
        let mut i: usize = 0;
        while i < row_orders.len()
            invariant
                i <= row_orders@.len(),
                rows@.len() == i,
                forall|j: int|
                    0 <= j < i ==> #[trigger] resolved_row(
                        self.cache(),
                        self.database_id@,
                        row_orders@[j].id@,
                        rows@[j],
                    ),
            decreases row_orders@.len() - i,
        {
            let id = &row_orders[i].id;
            let row = match self.get_row(id) {
                Some(row) => row,
                None => Row::empty(id.clone(), self.database_id.as_str()),
            };
            rows.push(row);
            i = i + 1;
        }
        rows
    }

    /// Opens an update of the cached row `row_id` at time `now`.
    pub fn begin_row_update(&self, row_id: &String, now: i64) -> (r: Option<RowUpdate>)
        requires
            self.wf(),
        ensures
            r is Some == ready_data(self.cache(), row_id@) is Some,
            r matches Some(u) ==> u.now == now && u.changes@.len() == 0 && u.row@ == (
            crate::row::RowView { modified_at: now, ..ready_data(self.cache(), row_id@)->0 })
                && u.row.cells.wf(),
    {
        match cache_get(&self.row_mem_cache.map, row_id) {
            Some(RowSlot::Ready(database_row)) => {
                proof {
                    database_row.lemma_wf_view();
                }
                database_row.begin_update(now)
            },
            _ => None,
        }
    }

    /// Commits an update of the cached row `row_id` and returns the changes
    /// it emits, as one batch. A row that is not cached with data is left
    /// alone and nothing is emitted.
    pub fn update_row(&mut self, row_id: &String, update: RowUpdate) -> (r: Vec<RowChange>)
        requires
            old(self).wf(),
            update.row.id@ == row_id@,
            update.row.cells.wf(),
        ensures
            final(self).wf(),
            final(self).uid == old(self).uid,
            final(self).sequence == old(self).sequence,
            ready_data(old(self).cache(), row_id@) is Some ==> r == update.changes
                && ready_data(final(self).cache(), row_id@) == Some(update.row@)
                && final(self).cache() == old(self).cache().insert(
                row_id@,
                RowSlotView::Ready(
                    DatabaseRowView { data: Some(update.row@), ..ready_row(old(self).cache(), row_id@)->0 },
                ),
            ),
            ready_data(old(self).cache(), row_id@) is None ==> r@.len() == 0 && final(self).cache()
                == old(self).cache(),
    {
        match cache_get(&self.row_mem_cache.map, row_id) {
            Some(RowSlot::Ready(mut database_row)) => {
                if database_row.data.is_none() {
                    return Vec::new();
                }
                proof {
                    database_row.lemma_wf_view();
                }
                let changes = database_row.update(update);
                proof {
                    database_row.lemma_wf_view();
                }
                cache_insert(&mut self.row_mem_cache.map, row_id.clone(), RowSlot::Ready(database_row));
                changes
            },
            _ => Vec::new(),
        }
    }

    /// Commits an update of the metadata of the cached row `row_id`; a row
    /// that is not cached is left alone.
    pub fn update_row_meta(&mut self, row_id: &String, update: RowMetaUpdate) -> (r: bool)
        requires
            old(self).wf(),
        ensures
            final(self).wf(),
            final(self).uid == old(self).uid,
            final(self).sequence == old(self).sequence,
            r == ready_row(old(self).cache(), row_id@) is Some,
            r ==> final(self).cache() == old(self).cache().insert(
                row_id@,
                RowSlotView::Ready(
                    DatabaseRowView { meta: update.meta, ..ready_row(old(self).cache(), row_id@)->0 },
                ),
            ),
            !r ==> final(self).cache() == old(self).cache(),
    {
        match cache_get(&self.row_mem_cache.map, row_id) {
            Some(RowSlot::Ready(mut database_row)) => {
                proof {
                    database_row.lemma_wf_view();
                }
                database_row.update_meta(update);
                proof {
                    database_row.lemma_wf_view();
                }
                cache_insert(&mut self.row_mem_cache.map, row_id.clone(), RowSlot::Ready(database_row));
                true
            },
            _ => false,
        }
    }

    /// The id of the document attached to the row; `None` where the row id
    /// is not a UUID.
    pub fn get_row_document_id(&self, row_id: &String) -> (r: Option<String>)
        ensures
            r is Some == crate::ids::is_uuid_text(row_id@),
            r matches Some(s) ==> s@ == crate::ids::namespaced_id(row_id@, "document_id"@),
    {
        crate::ids::derive_meta_id(row_id.as_str(), crate::row::RowMetaKey::DocumentId.as_str())
    }

    /// Removes the row from the cache and returns what it held; the caller
    /// deletes the persisted document.
    pub fn delete_row(&mut self, row_id: &String) -> (r: Option<RowSlot>)
        requires
            old(self).wf(),
        ensures
            final(self).wf(),
            r is Some == old(self).cache().dom().contains(row_id@),
            r matches Some(v) ==> v@ == old(self).cache()[row_id@],
            final(self).cache() == old(self).cache().remove(row_id@),
            final(self).sequence == old(self).sequence,
    {
        cache_remove(&mut self.row_mem_cache.map, row_id)
    }
}

} // verus!
