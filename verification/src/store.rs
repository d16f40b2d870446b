//! The mapping store: durable key-value persistence of id to name, backed
//! by a `sled` database. The store is modelled as a map from key bytes to
//! value bytes; reads and writes go through trusted wrappers around the
//! `sled` calls.

use vstd::prelude::*;

verus! {

#[verifier::external_type_specification]
#[verifier::external_body]
pub struct ExDb(sled::Db);

#[verifier::external_type_specification]
#[verifier::external_body]
pub struct ExError(sled::Error);

/// What the database holds: each key's bytes mapped to the value's bytes.
pub uninterp spec fn db_map(db: sled::Db) -> Map<Seq<u8>, Seq<u8>>;

/// Relies on `sled::Tree::get` (through `Db`'s deref): returns the value
/// stored under the key if one is present, `None` if not, and an error only
/// when the underlying storage fails.
#[verifier::external_body]
fn db_get(db: &sled::Db, key: &[u8]) -> (r: Result<Option<Vec<u8>>, sled::Error>)
    ensures
        match r {
            Ok(Some(v)) => db_map(*db).contains_key(key@) && v@ == db_map(*db)[key@],
            Ok(None) => !db_map(*db).contains_key(key@),
            Err(_) => true,
        },
{
    match db.get(key) {
        Ok(Some(v)) => Ok(Some(v.to_vec())),
        Ok(None) => Ok(None),
        Err(e) => Err(e),
    }
}

/// Relies on `sled::Tree::insert` (through `Db`'s deref): on success the
/// key is bound to the value, overwriting any previous binding; on an error
/// nothing is promised of the database's contents.
#[verifier::external_body]
fn db_insert(db: &mut sled::Db, key: &[u8], value: &[u8]) -> (r: Result<(), sled::Error>)
    ensures
        match r {
            Ok(_) => db_map(*final(db)) == db_map(*old(db)).insert(key@, value@),
            Err(_) => true,
        },
{
    match db.insert(key, value) {
        Ok(_) => Ok(()),
        Err(e) => Err(e),
    }
}

/// Relies on `sled::Tree::flush` (through `Db`'s deref): fsyncs all dirty
/// buffers, so that an acknowledged write is durable; it does not change
/// what the database holds.
#[verifier::external_body]
fn db_flush(db: &sled::Db) -> (r: Result<(), sled::Error>) {
    match db.flush() {
        Ok(_) => Ok(()),
        Err(e) => Err(e),
    }
}

/// Relies on `sled::Error`'s `Display` impl: renders the error as text for
/// the resolver's message field.
#[verifier::external_body]
pub(crate) fn sled_error_message(e: &sled::Error) -> String {
    e.to_string()
}

/// A handle to the mapping database. Its contents are the map from key
/// bytes (the decimal digits of an id) to value bytes (the UTF-8 form of a
/// normalized name).
pub struct MappingStore {
    db: sled::Db,
}

impl MappingStore {
    /// The store's contents as a mathematical map.
    pub closed spec fn contents(&self) -> Map<Seq<u8>, Seq<u8>> {
        db_map(self.db)
    }

    /// Wraps an opened database.
    pub fn new(db: sled::Db) -> (s: Self)
        ensures
            s.contents() == db_map(db),
    {
        MappingStore { db }
    }

    /// Reads the value stored under a key.
    pub fn get(&self, key: &Vec<u8>) -> (r: Result<Option<Vec<u8>>, sled::Error>)
        ensures
            match r {
                Ok(Some(v)) => self.contents().contains_key(key@) && v@
                    == self.contents()[key@],
                Ok(None) => !self.contents().contains_key(key@),
                Err(_) => true,
            },
    {
        db_get(&self.db, key.as_slice())
    }

    /// Writes or overwrites the value stored under a key; the write is
    /// flushed before success is acknowledged, since a mapping lost after
    /// acknowledgment would break dial-in routing for its room.
    pub fn put(&mut self, key: &Vec<u8>, value: &[u8]) -> (r: Result<(), sled::Error>)
        ensures
            match r {
                Ok(_) => final(self).contents() == old(self).contents().insert(key@, value@),
                Err(_) => true,
            },
    {
        match db_insert(&mut self.db, key.as_slice(), value) {
            Ok(_) => db_flush(&self.db),
            Err(e) => Err(e),
        }
    }
}

} // verus!
