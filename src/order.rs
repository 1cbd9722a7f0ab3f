//! Ordered arrays of row and field stand-ins: position resolution, removal by
//! id, moves and batch removal, each with the structural diff it produces.
use vstd::prelude::*;

verus! {

/// Something held in an ordered array and identified by a string id.
pub trait OrderIdentifiable {
    spec fn spec_id(&self) -> Seq<char>;

    fn identify_id(&self) -> (r: String)
        ensures
            r@ == self.spec_id(),
    ;

    fn has_id(&self, id: &String) -> (r: bool)
        ensures
            r == (self.spec_id() == id@),
    ;
}

/// An ordered element that can be copied exactly.
pub trait OrderCopy: OrderIdentifiable + Sized {
    fn copy_order(&self) -> (r: Self)
        ensures
            r == *self,
    ;
}

/// Stand-in for a row inside a view: its id and display height.
#[derive(Debug, PartialEq)]
pub struct RowOrder {
    pub id: String,
    pub height: i32,
}

impl Clone for RowOrder {
    fn clone(&self) -> (r: RowOrder)
        ensures
            r == *self,
    {
        RowOrder { id: self.id.clone(), height: self.height }
    }
}

impl RowOrder {
    pub fn new(id: String, height: i32) -> (r: RowOrder)
        ensures
            r.id@ == id@,
            r.height == height,
    {
        RowOrder { id, height }
    }
}

impl OrderIdentifiable for RowOrder {
    open spec fn spec_id(&self) -> Seq<char> {
        self.id@
    }

    fn identify_id(&self) -> (r: String) {
        self.id.clone()
    }

    fn has_id(&self, id: &String) -> (r: bool) {
        self.id == *id
    }
}

impl OrderCopy for RowOrder {
    fn copy_order(&self) -> (r: Self) {
        self.clone()
    }
}

/// Stand-in for a field inside a view.
#[derive(Debug, PartialEq)]
pub struct FieldOrder {
    pub id: String,
}

impl Clone for FieldOrder {
    fn clone(&self) -> (r: FieldOrder)
        ensures
            r == *self,
    {
        FieldOrder { id: self.id.clone() }
    }
}

impl FieldOrder {
    pub fn new(id: String) -> (r: FieldOrder)
        ensures
            r.id@ == id@,
    {
        FieldOrder { id }
    }
}

impl OrderIdentifiable for FieldOrder {
    open spec fn spec_id(&self) -> Seq<char> {
        self.id@
    }

    fn identify_id(&self) -> (r: String) {
        self.id.clone()
    }

    fn has_id(&self, id: &String) -> (r: bool) {
        self.id == *id
    }
}

impl OrderCopy for FieldOrder {
    fn copy_order(&self) -> (r: Self) {
        self.clone()
    }
}

/// An intended insertion point, independent of current indexes.
#[derive(Debug, PartialEq)]
pub enum OrderObjectPosition {
    Start,
    Before(String),
    After(String),
    End,
}

impl Clone for OrderObjectPosition {
    fn clone(&self) -> (r: OrderObjectPosition)
        ensures
            r == *self,
    {
        match self {
            OrderObjectPosition::Start => OrderObjectPosition::Start,
            OrderObjectPosition::Before(id) => OrderObjectPosition::Before(id.clone()),
            OrderObjectPosition::After(id) => OrderObjectPosition::After(id.clone()),
            OrderObjectPosition::End => OrderObjectPosition::End,
        }
    }
}

impl Default for OrderObjectPosition {
    fn default() -> (r: OrderObjectPosition)
        ensures
            r == OrderObjectPosition::End,
    {
        OrderObjectPosition::End
    }
}

/// `i` is the first index of `s` whose id is `id`.
pub open spec fn is_first_index<T: OrderIdentifiable>(s: Seq<T>, id: Seq<char>, i: int) -> bool {
    &&& 0 <= i < s.len()
    &&& s[i].spec_id() == id
    &&& forall|j: int| 0 <= j < i ==> s[j].spec_id() != id
}

pub open spec fn contains_id<T: OrderIdentifiable>(s: Seq<T>, id: Seq<char>) -> bool {
    exists|i: int| 0 <= i < s.len() && s[i].spec_id() == id
}

/// The index of the first element of `s` with the given id.
pub open spec fn index_of_id<T: OrderIdentifiable>(s: Seq<T>, id: Seq<char>) -> Option<int> {
    if contains_id(s, id) {
        Some(choose|i: int| is_first_index(s, id, i))
    } else {
        None
    }
}

/// The concrete index at which an object placed at `pos` lands in `s`.
/// A reference id that is absent falls back to the end, for `Before` and
/// `After` alike.
pub open spec fn resolved_index<T: OrderIdentifiable>(s: Seq<T>, pos: OrderObjectPosition) -> int {
    match pos {
        OrderObjectPosition::Start => 0,
        OrderObjectPosition::End => s.len() as int,
        OrderObjectPosition::Before(r) => match index_of_id(s, r@) {
            Some(i) => i,
            None => s.len() as int,
        },
        OrderObjectPosition::After(r) => match index_of_id(s, r@) {
            Some(i) => i + 1,
            None => s.len() as int,
        },
    }
}

/// The order with every element whose id is in `ids` left out.
pub open spec fn without_ids<T: OrderIdentifiable>(s: Seq<T>, ids: Seq<Seq<char>>) -> Seq<T> {
    s.filter(|x: T| !ids.contains(x.spec_id()))
}

/// Applies a structural diff the way a consumer does: insert `x` at `ins`,
/// then delete the element at `del`.
pub open spec fn apply_move_diff<T>(s: Seq<T>, del: int, x: T, ins: int) -> Seq<T> {
    s.insert(ins, x).remove(del)
}

/// The first index of an id is unique: `index_of_id` names it.
pub proof fn lemma_first_index_unique<T: OrderIdentifiable>(s: Seq<T>, id: Seq<char>, i: int)
    requires
        is_first_index(s, id, i),
    ensures
        index_of_id(s, id) == Some(i),
{
    assert(contains_id(s, id));
    let k = choose|k: int| is_first_index(s, id, k);
    assert(is_first_index(s, id, k));
    if k < i {
        assert(s[k].spec_id() != id);
    } else if i < k {
        assert(s[i].spec_id() != id);
    }
}

/// Returns the index of the first element with the given id.
pub fn position_of<T: OrderIdentifiable>(v: &Vec<T>, id: &String) -> (r: Option<usize>)
    ensures
        r matches Some(i) ==> index_of_id(v@, id@) == Some(i as int) && is_first_index(
            v@,
            id@,
            i as int,
        ),
        r is None ==> index_of_id(v@, id@) is None,
{
    let mut i: usize = 0;
    while i < v.len()
        invariant
            i <= v.len(),
            forall|j: int| 0 <= j < i ==> v@[j].spec_id() != id@,
        decreases v.len() - i,
    {
        if v[i].has_id(id) {
            proof {
                lemma_first_index_unique(v@, id@, i as int);
            }
            return Some(i);
        }
        i = i + 1;
    }
    assert(!contains_id(v@, id@));
    None
}

/// Resolves `pos` against the current order.
pub fn resolve_position<T: OrderIdentifiable>(v: &Vec<T>, pos: &OrderObjectPosition) -> (r: usize)
    ensures
        r as int == resolved_index(v@, *pos),
        r <= v.len(),
{
    match pos {
        OrderObjectPosition::Start => 0,
        OrderObjectPosition::End => v.len(),
        OrderObjectPosition::Before(id) => match position_of(v, id) {
            Some(i) => i,
            None => v.len(),
        },
        OrderObjectPosition::After(id) => match position_of(v, id) {
            Some(i) => {
                assert(i < v.len());
                i + 1
            },
            None => v.len(),
        },
    }
}

/// Inserts `x` at the place `pos` describes and returns the index it took.
pub fn insert_at_position<T: OrderIdentifiable>(
    v: &mut Vec<T>,
    x: T,
    pos: &OrderObjectPosition,
) -> (r: usize)
    ensures
        r as int == resolved_index(old(v)@, *pos),
        r <= old(v)@.len(),
        final(v)@ == old(v)@.insert(r as int, x),
{
    let i = resolve_position(v, pos);
    v.insert(i, x);
    i
}

/// Removes the first element with the given id and returns its index; an
/// absent id leaves the order unchanged.
pub fn remove_by_id<T: OrderIdentifiable>(v: &mut Vec<T>, id: &String) -> (r: Option<usize>)
    ensures
        r == match index_of_id(old(v)@, id@) {
            Some(i) => Some(i as usize),
            None => None::<usize>,
        },
        r matches Some(i) ==> index_of_id(old(v)@, id@) == Some(i as int) && i < old(v)@.len()
            && final(v)@ == old(v)@.remove(i as int),
        r is None ==> final(v)@ == old(v)@,
{
    match position_of(v, id) {
        Some(i) => {
            v.remove(i);
            Some(i)
        },
        None => None,
    }
}

/// Whether the id of `x` is among `ids`.
pub fn contains_id_in<T: OrderIdentifiable>(ids: &Vec<String>, x: &T) -> (r: bool)
    ensures
        r == ids@.map_values(|s: String| s@).contains(x.spec_id()),
{
    let ghost vs = ids@.map_values(|s: String| s@);
    let mut i: usize = 0;
    while i < ids.len()
        invariant
            i <= ids.len(),
            vs == ids@.map_values(|s: String| s@),
            forall|j: int| 0 <= j < i ==> vs[j] != x.spec_id(),
        decreases ids.len() - i,
    {
        if x.has_id(&ids[i]) {
            assert(vs[i as int] == x.spec_id());
            return true;
        }
        i = i + 1;
    }
    false
}

/// The diff that moving the element at `f` to index `t` emits, as
/// (delete index, insert index) in the convention of `apply_move_diff`.
pub open spec fn move_diff(f: int, t: int) -> (int, int) {
    if f < t {
        (f, t + 1)
    } else {
        (f + 1, t)
    }
}

/// Whether a move of `from` to `to` changes `s`: both ids are present and
/// name different elements.
pub open spec fn movable<T: OrderIdentifiable>(s: Seq<T>, from: Seq<char>, to: Seq<char>) -> bool {
    match (index_of_id(s, from), index_of_id(s, to)) {
        (Some(f), Some(t)) => f != t,
        _ => false,
    }
}

/// The element at `f` taken out and put back so that it ends at index `t`.
pub open spec fn moved<T>(s: Seq<T>, f: int, t: int) -> Seq<T> {
    s.remove(f).insert(t, s[f])
}

/// A move emits exactly one delete index and one insert pair, and a
/// consumer that replays them on its own copy of the order (insert, then
/// delete) arrives at the moved order.
pub proof fn law_move_diff_replays<T>(s: Seq<T>, f: int, t: int)
    requires
        0 <= f < s.len(),
        0 <= t < s.len(),
        f != t,
    ensures
        apply_move_diff(s, move_diff(f, t).0, s[f], move_diff(f, t).1) == moved(s, f, t),
{
    let x = s[f];
    if f < t {
        assert(s.insert(t + 1, x).remove(f) =~= s.remove(f).insert(t, x));
    } else {
        assert(s.insert(t, x).remove(f + 1) =~= s.remove(f).insert(t, x));
    }
}

/// Moves the element with id `from_id` to the index that `to_id` holds.
/// Returns the (delete index, insert index) pair that replays the move, or
/// `None` when either id is absent or both name the same element; the order
/// is then unchanged.
pub fn move_by_id<T: OrderIdentifiable>(
    v: &mut Vec<T>,
    from_id: &String,
    to_id: &String,
) -> (r: Option<(usize, usize)>)
    ensures
        r matches Some(d) ==> {
            &&& index_of_id(old(v)@, from_id@) matches Some(f)
            &&& index_of_id(old(v)@, to_id@) matches Some(t)
            &&& f != t
            &&& d.0 as int == move_diff(f, t).0
            &&& d.1 as int == move_diff(f, t).1
            &&& final(v)@ == moved(old(v)@, f, t)
            &&& final(v)@ == apply_move_diff(old(v)@, d.0 as int, old(v)@[f], d.1 as int)
        },
        r is None ==> final(v)@ == old(v)@ && (index_of_id(old(v)@, from_id@) is None
            || index_of_id(old(v)@, to_id@) is None || index_of_id(old(v)@, from_id@)
            == index_of_id(old(v)@, to_id@)),
{
    let f = match position_of(v, from_id) {
        Some(f) => f,
        None => {
            return None;
        },
    };
    let t = match position_of(v, to_id) {
        Some(t) => t,
        None => {
            return None;
        },
    };
    if f == t {
        return None;
    }
    proof {
        law_move_diff_replays(v@, f as int, t as int);
    }
    assert(f < v.len() && t < v.len());
    let d = if f < t {
        (f, t + 1)
    } else {
        (f + 1, t)
    };
    let x = v.remove(f);
    v.insert(t, x);
    Some(d)
}

/// The ascending indexes of the first `n` elements of `s` whose id is in `ids`.
pub open spec fn matching_indexes<T: OrderIdentifiable>(
    s: Seq<T>,
    ids: Seq<Seq<char>>,
    n: int,
) -> Seq<int>
    decreases n,
{
    if n <= 0 {
        Seq::empty()
    } else {
        let p = matching_indexes(s, ids, n - 1);
        if ids.contains(s[n - 1].spec_id()) {
            p.push(n - 1)
        } else {
            p
        }
    }
}

pub open spec fn ids_view(ids: Seq<String>) -> Seq<Seq<char>> {
    ids.map_values(|s: String| s@)
}

/// Removes in one step every element whose id is in `ids`. Returns the
/// indexes the removed elements held in the order before any removal,
/// ascending.
pub fn remove_ids<T: OrderCopy>(v: &mut Vec<T>, ids: &Vec<String>) -> (r: Vec<usize>)
    ensures
        r@.map_values(|i: usize| i as int) == matching_indexes(
            old(v)@,
            ids_view(ids@),
            old(v)@.len() as int,
        ),
        final(v)@ == without_ids(old(v)@, ids_view(ids@)),
{
    let ghost s = v@;
    let ghost p = |x: T| !ids_view(ids@).contains(x.spec_id());
    let mut kept: Vec<T> = Vec::new();
    let mut r: Vec<usize> = Vec::new();
    let mut i: usize = 0;
    while i < v.len()
        invariant
            v@ == s,
            i <= s.len(),
            p == (|x: T| !ids_view(ids@).contains(x.spec_id())),
            kept@ == s.take(i as int).filter(p),
            r@.map_values(|k: usize| k as int) == matching_indexes(s, ids_view(ids@), i as int),
        decreases s.len() - i,
    {
        let found = contains_id_in(ids, &v[i]);
        proof {
            assert(s.take(i + 1) == s.take(i as int).push(s[i as int]));
            s.take(i as int).lemma_filter_push(s[i as int], p);
        }
        if found {
            r.push(i);
            assert(r@.map_values(|k: usize| k as int) =~= matching_indexes(
                s,
                ids_view(ids@),
                i as int,
            ).push(i as int));
        } else {
            kept.push(v[i].copy_order());
        }
        i = i + 1;
    }
    assert(s.take(s.len() as int) == s);
    *v = kept;
    r
}

/// Removing an id that the order does not hold finds no index, and a batch
/// removal of such ids leaves the order as it was.
pub proof fn law_remove_absent_is_noop<T: OrderIdentifiable>(s: Seq<T>, id: Seq<char>)
    requires
        !contains_id(s, id),
    ensures
        index_of_id(s, id) is None,
        without_ids(s, seq![id]) == s,
{
    let p = |x: T| !seq![id].contains(x.spec_id());
    assert forall|i: int| 0 <= i < s.len() implies p(s[i]) by {
        if seq![id].contains(s[i].spec_id()) {
            assert(seq![id][0] == id);
            assert(s[i].spec_id() == id);
        }
    }
    lemma_filter_all_kept(s, p);
}

proof fn lemma_filter_all_kept<T>(s: Seq<T>, p: spec_fn(T) -> bool)
    requires
        forall|i: int| 0 <= i < s.len() ==> p(s[i]),
    ensures
        s.filter(p) == s,
    decreases s.len(),
{
    if s.len() > 0 {
        let q = s.drop_last();
        lemma_filter_all_kept(q, p);
        assert(q.push(s.last()) == s);
        q.lemma_filter_push(s.last(), p);
    }
}

/// Inserting `x` at `pos` puts it where `pos` says: at index 0 for `Start`,
/// at the last index for `End`, right after the reference for `After` and
/// right before it for `Before` when the reference is present.
pub proof fn law_positional_insertion<T: OrderIdentifiable>(
    s: Seq<T>,
    x: T,
    pos: OrderObjectPosition,
)
    ensures
        ({
            let i = resolved_index(s, pos);
            let t = s.insert(i, x);
            &&& 0 <= i <= s.len()
            &&& t.len() == s.len() + 1
            &&& t[i] == x
            &&& pos is Start ==> i == 0
            &&& pos is End ==> i == t.len() - 1
            &&& pos matches OrderObjectPosition::After(r) ==> (contains_id(s, r@) ==> i >= 1
                && t[i - 1].spec_id() == r@)
            &&& pos matches OrderObjectPosition::Before(r) ==> (contains_id(s, r@) ==> t[i
                + 1].spec_id() == r@)
            &&& pos matches OrderObjectPosition::After(r) ==> (!contains_id(s, r@) ==> i
                == s.len())
            &&& pos matches OrderObjectPosition::Before(r) ==> (!contains_id(s, r@) ==> i
                == s.len())
        }),
{
    match pos {
        OrderObjectPosition::After(r) => {
            if contains_id(s, r@) {
                let k = choose|k: int| is_first_index(s, r@, k);
                let w = choose|w: int| 0 <= w < s.len() && s[w].spec_id() == r@;
                lemma_first_exists(s, r@, w);
                assert(is_first_index(s, r@, k));
            }
        },
        OrderObjectPosition::Before(r) => {
            if contains_id(s, r@) {
                let k = choose|k: int| is_first_index(s, r@, k);
                let w = choose|w: int| 0 <= w < s.len() && s[w].spec_id() == r@;
                lemma_first_exists(s, r@, w);
                assert(is_first_index(s, r@, k));
            }
        },
        _ => {},
    }
}

/// Where some element has the id, a first one does.
pub proof fn lemma_first_exists<T: OrderIdentifiable>(s: Seq<T>, id: Seq<char>, w: int)
    requires
        0 <= w < s.len(),
        s[w].spec_id() == id,
    ensures
        exists|k: int| is_first_index(s, id, k),
    decreases w,
{
    if forall|j: int| 0 <= j < w ==> s[j].spec_id() != id {
        assert(is_first_index(s, id, w));
    } else {
        let j2 = choose|j: int| 0 <= j < w && s[j].spec_id() == id;
        lemma_first_exists(s, id, j2);
    }
}

/// The delete indexes of a batch removal are taken against the order before
/// any removal: they ascend strictly, each names an element whose id is in
/// the batch, and every such element is named.
pub proof fn law_batch_indexes_ascending<T: OrderIdentifiable>(
    s: Seq<T>,
    ids: Seq<Seq<char>>,
    n: int,
)
    requires
        0 <= n <= s.len(),
    ensures
        ({
            let r = matching_indexes(s, ids, n);
            &&& forall|a: int, b: int| 0 <= a < b < r.len() ==> r[a] < r[b]
            &&& forall|a: int| 0 <= a < r.len() ==> 0 <= r[a] < n && ids.contains(s[r[a]].spec_id())
            &&& forall|i: int| 0 <= i < n && ids.contains(s[i].spec_id()) ==> r.contains(i)
        }),
    decreases n,
{
    if n > 0 {
        law_batch_indexes_ascending(s, ids, n - 1);
        let p = matching_indexes(s, ids, n - 1);
        let r = matching_indexes(s, ids, n);
        if ids.contains(s[n - 1].spec_id()) {
            assert(r == p.push(n - 1));
            assert(r[r.len() - 1] == n - 1);
            assert forall|i: int| 0 <= i < n && ids.contains(s[i].spec_id()) implies r.contains(
                i,
            ) by {
                if i < n - 1 {
                    assert(p.contains(i));
                    let k = choose|k: int| 0 <= k < p.len() && p[k] == i;
                    assert(r[k] == i);
                } else {
                    assert(r[r.len() - 1] == i);
                }
            }
        } else {
            assert(r == p);
        }
    }
}

/// No two elements share an id.
pub open spec fn unique_ids<T: OrderIdentifiable>(s: Seq<T>) -> bool {
    forall|a: int, b: int| 0 <= a < b < s.len() ==> s[a].spec_id() != s[b].spec_id()
}

/// What upserting `x` into `s` gives: the first element with the same id is
/// replaced in place, or `x` is appended.
pub open spec fn upserted<T: OrderIdentifiable>(s: Seq<T>, x: T) -> Seq<T> {
    match index_of_id(s, x.spec_id()) {
        Some(i) => s.update(i, x),
        None => s.push(x),
    }
}

/// Replaces the element with the id of `x` in place, or appends `x`.
/// Returns the index that `x` took.
pub fn upsert<T: OrderIdentifiable>(v: &mut Vec<T>, x: T) -> (r: usize)
    ensures
        final(v)@ == upserted(old(v)@, x),
        r < final(v)@.len(),
        final(v)@[r as int] == x,
        unique_ids(old(v)@) ==> unique_ids(final(v)@),
{
    let id = x.identify_id();
    match position_of(v, &id) {
        Some(i) => {
            v.set(i, x);
            proof {
                let s = old(v)@;
                let t = final(v)@;
                if unique_ids(s) {
                    assert forall|a: int, b: int| 0 <= a < b < t.len() implies t[a].spec_id()
                        != t[b].spec_id() by {
                        if a == i {
                            assert(s[a].spec_id() == x.spec_id());
                        } else if b == i {
                            assert(s[b].spec_id() == x.spec_id());
                        }
                    }
                }
            }
            i
        },
        None => {
            let n = v.len();
            v.push(x);
            proof {
                let s = old(v)@;
                let t = final(v)@;
                if unique_ids(s) {
                    assert forall|a: int, b: int| 0 <= a < b < t.len() implies t[a].spec_id()
                        != t[b].spec_id() by {
                        if b == n {
                            assert(!contains_id(s, x.spec_id()));
                            assert(t[a] == s[a]);
                        }
                    }
                }
            }
            n
        },
    }
}

/// The element with the given id, if any.
pub fn get_by_id<'a, T: OrderIdentifiable>(v: &'a Vec<T>, id: &String) -> (r: Option<&'a T>)
    ensures
        r == match index_of_id(v@, id@) {
            Some(i) => Some(&v@[i]),
            None => None::<&T>,
        },
{
    match position_of(v, id) {
        Some(i) => Some(&v[i]),
        None => None,
    }
}

/// An element-for-element copy.
pub fn copy_all<T: OrderCopy>(v: &Vec<T>) -> (r: Vec<T>)
    ensures
        r@ == v@,
{
    let mut r: Vec<T> = Vec::new();
    let mut i: usize = 0;
    while i < v.len()
        invariant
            i <= v.len(),
            r@ == v@.take(i as int),
        decreases v.len() - i,
    {
        r.push(v[i].copy_order());
        proof {
            assert(v@.take(i + 1) == v@.take(i as int).push(v@[i as int]));
        }
        i = i + 1;
    }
    assert(v@.take(v.len() as int) == v@);
    r
}

/// An id that no element has is found nowhere.
pub proof fn lemma_no_first_none<T: OrderIdentifiable>(s: Seq<T>, id: Seq<char>)
    requires
        forall|j: int| 0 <= j < s.len() ==> s[j].spec_id() != id,
    ensures
        index_of_id(s, id) is None,
{
}

/// A found index is the first index of the id.
pub proof fn lemma_index_some<T: OrderIdentifiable>(s: Seq<T>, id: Seq<char>)
    requires
        index_of_id(s, id) is Some,
    ensures
        is_first_index(s, id, index_of_id(s, id)->0),
{
    let w = choose|w: int| 0 <= w < s.len() && s[w].spec_id() == id;
    lemma_first_exists(s, id, w);
}

/// Where an id is found after an upsert: the upserted id at the index it
/// took, every other id where it was before.
pub proof fn lemma_index_after_upsert<T: OrderIdentifiable>(s: Seq<T>, x: T, k: Seq<char>)
    ensures
        index_of_id(upserted(s, x), k) == if k == x.spec_id() {
            match index_of_id(s, k) {
                Some(i) => Some(i),
                None => Some(s.len() as int),
            }
        } else {
            index_of_id(s, k)
        },
{
    let t = upserted(s, x);
    match index_of_id(s, x.spec_id()) {
        Some(i) => {
            lemma_index_some(s, x.spec_id());
            if k == x.spec_id() {
                lemma_first_index_unique(t, k, i);
            } else {
                match index_of_id(s, k) {
                    Some(m) => {
                        lemma_index_some(s, k);
                        lemma_first_index_unique(t, k, m);
                    },
                    None => {
                        assert forall|j: int| 0 <= j < t.len() implies t[j].spec_id() != k by {
                            if j != i {
                                assert(!(0 <= j < s.len() && s[j].spec_id() == k));
                            }
                        }
                        lemma_no_first_none(t, k);
                    },
                }
            }
        },
        None => {
            if k == x.spec_id() {
                assert forall|j: int| 0 <= j < s.len() implies s[j].spec_id() != k by {
                    assert(!(0 <= j < s.len() && s[j].spec_id() == k));
                }
                lemma_first_index_unique(t, k, s.len() as int);
            } else {
                match index_of_id(s, k) {
                    Some(m) => {
                        lemma_index_some(s, k);
                        lemma_first_index_unique(t, k, m);
                    },
                    None => {
                        assert forall|j: int| 0 <= j < t.len() implies t[j].spec_id() != k by {
                            if j < s.len() {
                                assert(!(0 <= j < s.len() && s[j].spec_id() == k));
                            }
                        }
                        lemma_no_first_none(t, k);
                    },
                }
            }
        },
    }
}

/// The first element of `s` with the given id.
pub open spec fn find<T: OrderIdentifiable>(s: Seq<T>, id: Seq<char>) -> Option<T> {
    match index_of_id(s, id) {
        Some(i) => Some(s[i]),
        None => None,
    }
}

/// After an upsert of `x`, looking up the id of `x` finds `x`, and every
/// other id finds what it found before.
pub proof fn lemma_find_upserted<T: OrderIdentifiable>(s: Seq<T>, x: T, k: Seq<char>)
    ensures
        find(upserted(s, x), k) == if k == x.spec_id() {
            Some(x)
        } else {
            find(s, k)
        },
{
    lemma_index_after_upsert(s, x, k);
    let t = upserted(s, x);
    match index_of_id(s, x.spec_id()) {
        Some(i) => {
            lemma_index_some(s, x.spec_id());
            assert(t == s.update(i, x));
            if k != x.spec_id() {
                if let Some(m) = index_of_id(s, k) {
                    lemma_index_some(s, k);
                    assert(m != i);
                    assert(t[m] == s[m]);
                }
            } else {
                assert(t[i] == x);
            }
        },
        None => {
            assert(t == s.push(x));
            if let Some(m) = index_of_id(s, k) {
                lemma_index_some(s, k);
                assert(t[m] == s[m]);
            }
        },
    }
}

/// Two orders whose ids agree position by position find every id at the
/// same index.
pub proof fn lemma_index_same_ids<T: OrderIdentifiable, U: OrderIdentifiable>(
    s: Seq<T>,
    t: Seq<U>,
    k: Seq<char>,
)
    requires
        s.len() == t.len(),
        forall|i: int| 0 <= i < s.len() ==> s[i].spec_id() == t[i].spec_id(),
    ensures
        index_of_id(s, k) == index_of_id(t, k),
{
    match index_of_id(s, k) {
        Some(m) => {
            lemma_index_some(s, k);
            lemma_first_index_unique(t, k, m);
        },
        None => {
            assert forall|j: int| 0 <= j < t.len() implies t[j].spec_id() != k by {
                assert(!(0 <= j < s.len() && s[j].spec_id() == k));
            }
            lemma_no_first_none(t, k);
        },
    }
}

/// Removing an element keeps ids unique, and its id is then absent.
pub proof fn lemma_unique_remove<T: OrderIdentifiable>(s: Seq<T>, i: int)
    requires
        unique_ids(s),
        0 <= i < s.len(),
    ensures
        unique_ids(s.remove(i)),
        forall|j: int| 0 <= j < s.remove(i).len() ==> s.remove(i)[j].spec_id() != s[i].spec_id(),
{
    let t = s.remove(i);
    assert forall|a: int, b: int| 0 <= a < b < t.len() implies t[a].spec_id() != t[b].spec_id() by {
        let a0 = if a < i {
            a
        } else {
            a + 1
        };
        let b0 = if b < i {
            b
        } else {
            b + 1
        };
        assert(t[a] == s[a0]);
        assert(t[b] == s[b0]);
    }
    assert forall|j: int| 0 <= j < t.len() implies t[j].spec_id() != s[i].spec_id() by {
        let j0 = if j < i {
            j
        } else {
            j + 1
        };
        assert(t[j] == s[j0]);
    }
}

/// Inserting an element with a new id keeps ids unique.
pub proof fn lemma_unique_insert<T: OrderIdentifiable>(s: Seq<T>, i: int, x: T)
    requires
        unique_ids(s),
        0 <= i <= s.len(),
        forall|j: int| 0 <= j < s.len() ==> s[j].spec_id() != x.spec_id(),
    ensures
        unique_ids(s.insert(i, x)),
{
    let t = s.insert(i, x);
    assert forall|a: int, b: int| 0 <= a < b < t.len() implies t[a].spec_id() != t[b].spec_id() by {
        if a == i {
            assert(t[b] == s[b - 1]);
        } else if b == i {
            assert(t[a] == s[a]);
        } else {
            let a0 = if a < i {
                a
            } else {
                a - 1
            };
            let b0 = if b < i {
                b
            } else {
                b - 1
            };
            assert(t[a] == s[a0]);
            assert(t[b] == s[b0]);
        }
    }
}

/// A move keeps ids unique.
pub proof fn lemma_unique_moved<T: OrderIdentifiable>(s: Seq<T>, f: int, t: int)
    requires
        unique_ids(s),
        0 <= f < s.len(),
        0 <= t < s.len(),
    ensures
        unique_ids(moved(s, f, t)),
{
    lemma_unique_remove(s, f);
    lemma_unique_insert(s.remove(f), t, s[f]);
}

/// Appending `x` adds its id to the ids present and keeps the others.
pub proof fn lemma_contains_push<T: OrderIdentifiable>(s: Seq<T>, x: T, k: Seq<char>)
    ensures
        contains_id(s.push(x), k) == (contains_id(s, k) || x.spec_id() == k),
{
    let t = s.push(x);
    if contains_id(s, k) {
        let w = choose|w: int| 0 <= w < s.len() && s[w].spec_id() == k;
        assert(t[w] == s[w]);
    }
    if x.spec_id() == k {
        assert(t[s.len() as int] == x);
    }
    if contains_id(t, k) && x.spec_id() != k {
        let w = choose|w: int| 0 <= w < t.len() && t[w].spec_id() == k;
        assert(w < s.len());
        assert(s[w] == t[w]);
    }
}

/// An upsert keeps ids unique.
pub proof fn lemma_unique_upserted<T: OrderIdentifiable>(s: Seq<T>, x: T)
    requires
        unique_ids(s),
    ensures
        unique_ids(upserted(s, x)),
{
    let t = upserted(s, x);
    match index_of_id(s, x.spec_id()) {
        Some(i) => {
            lemma_index_some(s, x.spec_id());
            assert forall|a: int, b: int| 0 <= a < b < t.len() implies t[a].spec_id()
                != t[b].spec_id() by {
                if a == i {
                    assert(s[a].spec_id() == x.spec_id());
                } else if b == i {
                    assert(s[b].spec_id() == x.spec_id());
                }
            }
        },
        None => {
            assert forall|j: int| 0 <= j < s.len() implies s[j].spec_id() != x.spec_id() by {
                assert(!(0 <= j < s.len() && s[j].spec_id() == x.spec_id()));
            }
            lemma_unique_insert(s, s.len() as int, x);
            assert(s.insert(s.len() as int, x) =~= s.push(x));
        },
    }
}

/// `s` after upserting the first `n` elements of `xs`, in order.
pub open spec fn upserted_all<T: OrderIdentifiable>(s: Seq<T>, xs: Seq<T>, n: int) -> Seq<T>
    decreases n,
{
    if n <= 0 {
        s
    } else {
        upserted(upserted_all(s, xs, n - 1), xs[n - 1])
    }
}

/// Upserts every element of `xs`, in order.
pub fn upsert_all<T: OrderIdentifiable>(v: &mut Vec<T>, xs: Vec<T>)
    ensures
        final(v)@ == upserted_all(old(v)@, xs@, xs@.len() as int),
        unique_ids(old(v)@) ==> unique_ids(final(v)@),
{
    let ghost s = v@;
    let ghost all = xs@;
    let mut src = xs;
    let total = src.len();
    let mut i: usize = 0;
    while src.len() > 0
        invariant
            i <= total,
            total == all.len(),
            src@ == all.skip(i as int),
            v@ == upserted_all(s, all, i as int),
            unique_ids(s) ==> unique_ids(v@),
        decreases src@.len(),
    {
        proof {
            assert(src@[0] == all[i as int]);
        }
        let x = src.remove(0);
        upsert(v, x);
        proof {
            assert(all.skip(i as int).remove(0) =~= all.skip(i + 1));
        }
        i = i + 1;
    }
}

/// Whether no two elements share an id.
pub fn has_unique_ids<T: OrderIdentifiable>(v: &Vec<T>) -> (r: bool)
    ensures
        r == unique_ids(v@),
{
    let mut i: usize = 0;
    while i < v.len()
        invariant
            i <= v.len(),
            forall|j: int| 0 <= j < i ==> index_of_id(v@, #[trigger] v@[j].spec_id()) == Some(j),
        decreases v.len() - i,
    {
        let id = v[i].identify_id();
        match position_of(v, &id) {
            Some(k) => {
                if k != i {
                    proof {
                        assert(k < i);
                        assert(v@[k as int].spec_id() == v@[i as int].spec_id());
                    }
                    return false;
                }
            },
            None => {
                proof {
                    assert(!contains_id(v@, id@));
                    assert(v@[i as int].spec_id() == id@);
                }
            },
        }
        i = i + 1;
    }
    proof {
        assert forall|a: int, b: int| 0 <= a < b < v@.len() implies v@[a].spec_id()
            != v@[b].spec_id() by {
            if v@[a].spec_id() == v@[b].spec_id() {
                assert(index_of_id(v@, v@[b].spec_id()) == Some(b));
                lemma_index_some(v@, v@[b].spec_id());
            }
        }
    }
    true
}

} // verus!
