//! The registry of the databases of a workspace: which views each database
//! has attached.
use vstd::prelude::*;

use crate::database::DatabaseError;
use crate::order::{
    OrderIdentifiable, find, ids_view, index_of_id, position_of, remove_by_id,
};

verus! {

/// The registry entry of one database.
pub struct DatabaseMeta {
    pub database_id: String,
    pub created_at: i64,
    /// The first view is the inline view.
    pub linked_views: Vec<String>,
}

pub struct DatabaseMetaView {
    pub database_id: Seq<char>,
    pub created_at: i64,
    pub linked_views: Seq<Seq<char>>,
}

impl View for DatabaseMeta {
    type V = DatabaseMetaView;

    open spec fn view(&self) -> DatabaseMetaView {
        DatabaseMetaView {
            database_id: self.database_id@,
            created_at: self.created_at,
            linked_views: ids_view(self.linked_views@),
        }
    }
}

fn copy_ids(ids: &Vec<String>) -> (r: Vec<String>)
    ensures
        ids_view(r@) == ids_view(ids@),
{
    let mut r: Vec<String> = Vec::new();
    let mut i: usize = 0;
    while i < ids.len()
        invariant
            i <= ids@.len(),
            ids_view(r@) == ids_view(ids@.take(i as int)),
        decreases ids@.len() - i,
    {
        let ghost pre = r@;
        r.push(ids[i].clone());
        proof {
            assert(ids@.take(i + 1) =~= ids@.take(i as int).push(ids@[i as int]));
            assert(ids_view(r@) =~= ids_view(pre).push(ids@[i as int]@));
            assert(ids_view(ids@.take(i + 1)) =~= ids_view(ids@.take(i as int)).push(ids@[i as int]@));
        }
        i = i + 1;
    }
    proof {
        assert(ids@.take(ids@.len() as int) =~= ids@);
    }
    r
}

impl Clone for DatabaseMeta {
    fn clone(&self) -> (r: DatabaseMeta)
        ensures
            r@ == self@,
    {
        DatabaseMeta {
            database_id: self.database_id.clone(),
            created_at: self.created_at,
            linked_views: copy_ids(&self.linked_views),
        }
    }
}

impl OrderIdentifiable for DatabaseMeta {
    open spec fn spec_id(&self) -> Seq<char> {
        self.database_id@
    }

    fn identify_id(&self) -> (r: String) {
        self.database_id.clone()
    }

    fn has_id(&self, id: &String) -> (r: bool) {
        self.database_id == *id
    }
}

/// The first `n` ids of `s` with later repeats left out.
pub open spec fn dedup_ids(s: Seq<Seq<char>>, n: int) -> Seq<Seq<char>>
    decreases n,
{
    if n <= 0 {
        Seq::empty()
    } else {
        let p = dedup_ids(s, n - 1);
        if p.contains(s[n - 1]) {
            p
        } else {
            p.push(s[n - 1])
        }
    }
}

pub open spec fn metas_view(s: Seq<DatabaseMeta>) -> Seq<DatabaseMetaView> {
    s.map_values(|m: DatabaseMeta| m@)
}

/// The index of the first entry that has `view_id` attached.
pub open spec fn is_first_with_view(s: Seq<DatabaseMeta>, view_id: Seq<char>, i: int) -> bool {
    &&& 0 <= i < s.len()
    &&& ids_view(s[i].linked_views@).contains(view_id)
    &&& forall|j: int| 0 <= j < i ==> !ids_view(s[j].linked_views@).contains(view_id)
}

/// The databases of a workspace, in the order they were added.
pub struct WorkspaceDatabaseBody {
    pub databases: Vec<DatabaseMeta>,
}

impl WorkspaceDatabaseBody {
    /// An empty registry.
    pub fn create() -> (r: WorkspaceDatabaseBody)
        ensures
            r.databases@.len() == 0,
    {
        WorkspaceDatabaseBody { databases: Vec::new() }
    }

    /// Opens a stored registry; a document without the registry's list is
    /// malformed.
    pub fn open(databases: Option<Vec<DatabaseMeta>>) -> (r: Result<
        WorkspaceDatabaseBody,
        DatabaseError,
    >)
        ensures
            databases is None <==> r is Err,
            r matches Err(e) ==> e == DatabaseError::SchemaInvalid,
            r matches Ok(b) ==> databases == Some(b.databases),
    {
        match databases {
            Some(databases) => Ok(WorkspaceDatabaseBody { databases }),
            None => Err(DatabaseError::SchemaInvalid),
        }
    }

    /// Registers a database with the given views, a repeated view id kept
    /// once, in the order of first appearance.
    pub fn add_database(&mut self, database_id: &String, view_ids: &Vec<String>, now: i64)
        ensures
            metas_view(final(self).databases@) == metas_view(old(self).databases@).push(
                DatabaseMetaView {
                    database_id: database_id@,
                    created_at: now,
                    linked_views: dedup_ids(ids_view(view_ids@), view_ids@.len() as int),
                },
            ),
    {
        let ghost ids = ids_view(view_ids@);
        let mut linked: Vec<String> = Vec::new();
        let mut i: usize = 0;
        while i < view_ids.len()
            invariant
                i <= view_ids@.len(),
                ids == ids_view(view_ids@),
                ids_view(linked@) == dedup_ids(ids, i as int),
            decreases view_ids@.len() - i,
        {
            let seen = contains_str(&linked, &view_ids[i]);
            if !seen {
                let ghost pre = linked@;
                linked.push(view_ids[i].clone());
                proof {
                    assert(ids_view(linked@) =~= ids_view(pre).push(view_ids@[i as int]@));
                }
            }
            i = i + 1;
        }
        let ghost pre = self.databases@;
        self.databases.push(
            DatabaseMeta { database_id: database_id.clone(), created_at: now, linked_views: linked },
        );
        proof {
            assert(metas_view(self.databases@) =~= metas_view(pre).push(self.databases@.last()@));
        }
    }

    /// Replaces the entry of `database_id` in place with `meta`, keeping its
    /// database id. Returns whether the database was registered.
    pub fn update_database(&mut self, database_id: &String, meta: DatabaseMeta) -> (r: bool)
        ensures
            r == (index_of_id(old(self).databases@, database_id@) is Some),
            match index_of_id(old(self).databases@, database_id@) {
                Some(i) => metas_view(final(self).databases@) == metas_view(
                    old(self).databases@,
                ).update(i, DatabaseMetaView { database_id: database_id@, ..meta@ }),
                None => final(self).databases@ == old(self).databases@,
            },
    {
        match position_of(&self.databases, database_id) {
            Some(i) => {
                let record = DatabaseMeta { database_id: database_id.clone(), ..meta };
                let ghost pre = self.databases@;
                self.databases.set(i, record);
                proof {
                    assert(metas_view(self.databases@) =~= metas_view(pre).update(
                        i as int,
                        DatabaseMetaView { database_id: database_id@, ..meta@ },
                    ));
                }
                true
            },
            None => false,
        }
    }

    /// Removes the entry of `database_id`, if any.
    pub fn delete_database(&mut self, database_id: &String)
        ensures
            final(self).databases@ == match index_of_id(old(self).databases@, database_id@) {
                Some(i) => old(self).databases@.remove(i),
                None => old(self).databases@,
            },
    {
        remove_by_id(&mut self.databases, database_id);
    }

    pub fn contains(&self, database_id: &String) -> (r: bool)
        ensures
            r == (index_of_id(self.databases@, database_id@) is Some),
    {
        position_of(&self.databases, database_id).is_some()
    }

    /// A copy of every entry, in order.
    pub fn get_all_database_meta(&self) -> (r: Vec<DatabaseMeta>)
        ensures
            metas_view(r@) == metas_view(self.databases@),
    {
        let mut r: Vec<DatabaseMeta> = Vec::new();
        let mut i: usize = 0;
        while i < self.databases.len()
            invariant
                i <= self.databases@.len(),
                metas_view(r@) == metas_view(self.databases@.take(i as int)),
            decreases self.databases@.len() - i,
        {
            let ghost pre = r@;
            r.push(self.databases[i].clone());
            proof {
                assert(self.databases@.take(i + 1) =~= self.databases@.take(i as int).push(self.databases@[i as int]));
                assert(metas_view(r@) =~= metas_view(pre).push(self.databases@[i as int]@));
                assert(metas_view(self.databases@.take(i + 1)) =~= metas_view(self.databases@.take(i as int)).push(self.databases@[i as int]@));
            }
            i = i + 1;
        }
        proof {
            assert(self.databases@.take(self.databases@.len() as int) =~= self.databases@);
        }
        r
    }

    /// A copy of the first entry that has `view_id` attached.
    pub fn get_database_meta_with_view_id(&self, view_id: &String) -> (r: Option<DatabaseMeta>)
        ensures
            r matches Some(m) ==> exists|i: int| is_first_with_view(self.databases@, view_id@, i) && m@ == self.databases@[i]@,
            r is None ==> forall|i: int| 0 <= i < self.databases@.len() ==> !ids_view(#[trigger] self.databases@[i].linked_views@).contains(view_id@),
    {
        let mut i: usize = 0;
        while i < self.databases.len()
            invariant
                i <= self.databases@.len(),
                forall|j: int| 0 <= j < i ==> !ids_view(#[trigger] self.databases@[j].linked_views@).contains(view_id@),
            decreases self.databases@.len() - i,
        {
            if contains_str(&self.databases[i].linked_views, view_id) {
                let m = self.databases[i].clone();
                proof {
                    assert(is_first_with_view(self.databases@, view_id@, i as int));
                }
                return Some(m);
            }
            i = i + 1;
        }
        None
    }

    /// A copy of the entry of `database_id`.
    pub fn get_database_meta(&self, database_id: &String) -> (r: Option<DatabaseMeta>)
        ensures
            r matches Some(m) ==> find(self.databases@, database_id@) matches Some(x) && m@ == x@,
            r is None ==> find(self.databases@, database_id@) is None,
    {
        match crate::order::get_by_id(&self.databases, database_id) {
            Some(m) => Some(m.clone()),
            None => None,
        }
    }
}

/// Whether `ids` holds `id`.
fn contains_str(ids: &Vec<String>, id: &String) -> (r: bool)
    ensures
        r == ids_view(ids@).contains(id@),
{
    let mut i: usize = 0;
    while i < ids.len()
        invariant
            i <= ids@.len(),
            forall|j: int| 0 <= j < i ==> ids@[j]@ != id@,
        decreases ids@.len() - i,
    {
        if ids[i] == *id {
            proof {
                assert(ids_view(ids@)[i as int] == id@);
            }
            return true;
        }
        i = i + 1;
    }
    proof {
        if ids_view(ids@).contains(id@) {
            let k = choose|k: int| 0 <= k < ids_view(ids@).len() && ids_view(ids@)[k] == id@;
            assert(ids@[k]@ == id@);
        }
    }
    false
}

} // verus!
