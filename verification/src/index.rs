//! The deduplicating disk-backed indices: ordered key-to-value stores,
//! spilled to disk by the B-tree crate underneath, used to collect user and
//! changeset associations while scanning elements and to drain them in key
//! order afterwards.
use vstd::prelude::*;
use crate::error::OsmError;
use transient_btree_index::{BtreeConfig, BtreeIndex};

verus! {

#[verifier::external_type_specification]
#[verifier::external_body]
pub struct ExBtreeError(transient_btree_index::Error);

/// Holds the disk-backed B-tree of the outside crate. Opaque to the
/// verifier: what it contains is stated only through `user_entries`.
#[verifier::external_body]
pub struct UserIndex {
    btree: BtreeIndex<i64, String>,
}

/// What the user-name index holds: each user id's display name.
pub uninterp spec fn user_entries(ix: &UserIndex) -> Map<i64, Seq<char>>;

impl View for UserIndex {
    type V = Map<i64, Seq<char>>;

    open spec fn view(&self) -> Map<i64, Seq<char>> {
        user_entries(self)
    }
}

/// Holds the disk-backed B-tree of the outside crate. Opaque to the
/// verifier: what it contains is stated only through `changeset_entries`.
#[verifier::external_body]
pub struct ChangesetUserIndex {
    btree: BtreeIndex<i64, i64>,
}

/// What the changeset index holds: each changeset id's user id.
pub uninterp spec fn changeset_entries(ix: &ChangesetUserIndex) -> Map<i64, i64>;

impl View for ChangesetUserIndex {
    type V = Map<i64, i64>;

    open spec fn view(&self) -> Map<i64, i64> {
        changeset_entries(self)
    }
}

/// A drained entry list is faithful to the map: every listed pair is in the
/// map, every key of the map is listed, and the keys ascend strictly.
pub open spec fn user_entries_vec_ok(m: Map<i64, Seq<char>>, v: Seq<(i64, String)>) -> bool {
    &&& forall|i: int|
        0 <= i < v.len() ==> m.contains_key((#[trigger] v[i]).0) && m[v[i].0] == v[i].1@
    &&& forall|k: i64| m.contains_key(k) ==> exists|i: int| 0 <= i < v.len() && (#[trigger] v[i]).0 == k
    &&& forall|i: int, j: int| 0 <= i < j < v.len() ==> (#[trigger] v[i]).0 < (#[trigger] v[j]).0
}

/// The changeset form of the same faithfulness statement.
pub open spec fn changeset_entries_vec_ok(m: Map<i64, i64>, v: Seq<(i64, i64)>) -> bool {
    &&& forall|i: int| 0 <= i < v.len() ==> m.contains_key((#[trigger] v[i]).0) && m[v[i].0] == v[i].1
    &&& forall|k: i64| m.contains_key(k) ==> exists|i: int| 0 <= i < v.len() && (#[trigger] v[i]).0 == k
    &&& forall|i: int, j: int| 0 <= i < j < v.len() ==> (#[trigger] v[i]).0 < (#[trigger] v[j]).0
}

fn index_error() -> (e: OsmError)
    ensures
        e.kind == crate::error::ErrorKind::Resource,
{
    OsmError::resource(String::from_str("dedup index failure"))
}

impl UserIndex {
    /// Relies on BtreeIndex::with_capacity: a fresh index with the default
    /// configuration holds nothing; it fails only on an input/output fault.
    #[verifier::external_body]
    fn new_raw() -> (r: Result<UserIndex, transient_btree_index::Error>)
        ensures
            match r {
                Ok(ix) => user_entries(&ix) == Map::<i64, Seq<char>>::empty(),
                Err(_) => true,
            },
    {
        Ok(UserIndex { btree: BtreeIndex::with_capacity(BtreeConfig::default(), 0)? })
    }

    /// Relies on BtreeIndex::insert: the value is stored under the key,
    /// overwriting and handing back any previous value.
    #[verifier::external_body]
    fn insert_raw(&mut self, key: i64, value: String) -> (r: Result<
        Option<String>,
        transient_btree_index::Error,
    >)
        ensures
            r is Ok ==> final(self)@ == old(self)@.insert(key, value@),
            r matches Ok(prev) ==> (prev is Some <==> old(self)@.contains_key(key)),
            r matches Ok(Some(p)) ==> p@ == old(self)@[key],
    {
        self.btree.insert(key, value)
    }

    /// Relies on BtreeIndex::get: hands back the value stored under the
    /// key, if the key is present.
    #[verifier::external_body]
    fn get_raw(&self, key: &i64) -> (r: Result<Option<String>, transient_btree_index::Error>)
        ensures
            r matches Ok(v) ==> (v is Some <==> self@.contains_key(*key)),
            r matches Ok(Some(s)) ==> s@ == self@[*key],
    {
        self.btree.get(key)
    }

    /// Relies on BtreeIndex::range over the unbounded range: the in-order
    /// traversal yields every entry exactly once, in ascending key order.
    #[verifier::external_body]
    fn entries_raw(&self) -> (r: Result<Vec<(i64, String)>, transient_btree_index::Error>)
        ensures
            r matches Ok(v) ==> user_entries_vec_ok(self@, v@),
    {
        self.btree.range(..)?.collect()
    }

    /// An empty index.
    pub fn new() -> (r: Result<UserIndex, OsmError>)
        ensures
            r matches Ok(ix) ==> ix@ == Map::<i64, Seq<char>>::empty(),
            r matches Err(e) ==> e.kind == crate::error::ErrorKind::Resource,
    {
        match Self::new_raw() {
            Ok(ix) => Ok(ix),
            Err(_) => Err(index_error()),
        }
    }

    /// Stores the display name under the user id; the last write wins.
    pub fn insert(&mut self, key: i64, value: String) -> (r: Result<(), OsmError>)
        ensures
            r is Ok ==> final(self)@ == old(self)@.insert(key, value@),
            r matches Err(e) ==> e.kind == crate::error::ErrorKind::Resource,
    {
        match self.insert_raw(key, value) {
            Ok(_) => Ok(()),
            Err(_) => Err(index_error()),
        }
    }

    /// Looks the display name up.
    pub fn get(&self, key: i64) -> (r: Result<Option<String>, OsmError>)
        ensures
            r matches Ok(v) ==> (v is Some <==> self@.contains_key(key)),
            r matches Ok(Some(s)) ==> s@ == self@[key],
            r matches Err(e) ==> e.kind == crate::error::ErrorKind::Resource,
    {
        match self.get_raw(&key) {
            Ok(v) => Ok(v),
            Err(_) => Err(index_error()),
        }
    }

    /// Every entry, in ascending key order, each key exactly once.
    pub fn entries(&self) -> (r: Result<Vec<(i64, String)>, OsmError>)
        ensures
            r matches Ok(v) ==> user_entries_vec_ok(self@, v@),
            r matches Err(e) ==> e.kind == crate::error::ErrorKind::Resource,
    {
        match self.entries_raw() {
            Ok(v) => Ok(v),
            Err(_) => Err(index_error()),
        }
    }
}

impl ChangesetUserIndex {
    /// Relies on BtreeIndex::with_capacity, as the user-index variant does.
    #[verifier::external_body]
    fn new_raw() -> (r: Result<ChangesetUserIndex, transient_btree_index::Error>)
        ensures
            match r {
                Ok(ix) => changeset_entries(&ix) == Map::<i64, i64>::empty(),
                Err(_) => true,
            },
    {
        Ok(ChangesetUserIndex { btree: BtreeIndex::with_capacity(BtreeConfig::default(), 0)? })
    }

    /// Relies on BtreeIndex::insert, as the user-index variant does.
    #[verifier::external_body]
    fn insert_raw(&mut self, key: i64, value: i64) -> (r: Result<
        Option<i64>,
        transient_btree_index::Error,
    >)
        ensures
            r is Ok ==> final(self)@ == old(self)@.insert(key, value),
            r matches Ok(prev) ==> (prev is Some <==> old(self)@.contains_key(key)),
            r matches Ok(Some(p)) ==> p == old(self)@[key],
    {
        self.btree.insert(key, value)
    }

    /// Relies on BtreeIndex::get, as the user-index variant does.
    #[verifier::external_body]
    fn get_raw(&self, key: &i64) -> (r: Result<Option<i64>, transient_btree_index::Error>)
        ensures
            r matches Ok(v) ==> (v is Some <==> self@.contains_key(*key)),
            r matches Ok(Some(u)) ==> u == self@[*key],
    {
        self.btree.get(key)
    }

    /// Relies on BtreeIndex::range, as the user-index variant does.
    #[verifier::external_body]
    fn entries_raw(&self) -> (r: Result<Vec<(i64, i64)>, transient_btree_index::Error>)
        ensures
            r matches Ok(v) ==> changeset_entries_vec_ok(self@, v@),
    {
        self.btree.range(..)?.collect()
    }

    /// An empty index.
    pub fn new() -> (r: Result<ChangesetUserIndex, OsmError>)
        ensures
            r matches Ok(ix) ==> ix@ == Map::<i64, i64>::empty(),
            r matches Err(e) ==> e.kind == crate::error::ErrorKind::Resource,
    {
        match Self::new_raw() {
            Ok(ix) => Ok(ix),
            Err(_) => Err(index_error()),
        }
    }

    /// Stores the user id under the changeset id; the last write wins.
    pub fn insert(&mut self, key: i64, value: i64) -> (r: Result<(), OsmError>)
        ensures
            r is Ok ==> final(self)@ == old(self)@.insert(key, value),
            r matches Err(e) ==> e.kind == crate::error::ErrorKind::Resource,
    {
        match self.insert_raw(key, value) {
            Ok(_) => Ok(()),
            Err(_) => Err(index_error()),
        }
    }

    /// Looks the user id up.
    pub fn get(&self, key: i64) -> (r: Result<Option<i64>, OsmError>)
        ensures
            r matches Ok(v) ==> (v is Some <==> self@.contains_key(key)),
            r matches Ok(Some(u)) ==> u == self@[key],
            r matches Err(e) ==> e.kind == crate::error::ErrorKind::Resource,
    {
        match self.get_raw(&key) {
            Ok(v) => Ok(v),
            Err(_) => Err(index_error()),
        }
    }

    /// Every entry, in ascending key order, each key exactly once.
    pub fn entries(&self) -> (r: Result<Vec<(i64, i64)>, OsmError>)
        ensures
            r matches Ok(v) ==> changeset_entries_vec_ok(self@, v@),
            r matches Err(e) ==> e.kind == crate::error::ErrorKind::Resource,
    {
        match self.entries_raw() {
            Ok(v) => Ok(v),
            Err(_) => Err(index_error()),
        }
    }
}

} // verus!
