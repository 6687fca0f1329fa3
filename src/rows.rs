//! Rows of the persistent store and their reading into the domain records:
//! identifiers are 16 bytes, keys 32 bytes, addresses 32-bit integers.

use vstd::prelude::*;

use crate::configs::{Config, FullConfig, Stats};
use crate::error::DatabaseError;
use crate::keys::{key_from_slice, Key};

verus! {

/// The number whose big-endian bytes are `b`.
pub open spec fn big_endian(b: Seq<u8>) -> int
    decreases b.len(),
{
    if b.len() == 0 {
        0
    } else {
        big_endian(b.drop_last()) * 256 + b.last()
    }
}

/// Relies on uuid's `Uuid::from_slice`: 16 bytes, in big-endian order, make
/// an identifier; any other length is an error.
#[verifier::external_body]
fn uuid_from_slice(b: &[u8]) -> (r: Option<u128>)
    ensures
        b@.len() == 16 ==> r == Some(big_endian(b@) as u128),
        b@.len() != 16 ==> r.is_none(),
{
    uuid::Uuid::from_slice(b).ok().map(|u| u.as_u128())
}

/// The identifier stored as `b`, or `InvalidUuidData`.
pub fn read_uuid(b: &[u8]) -> (r: Result<u128, DatabaseError>)
    ensures
        b@.len() == 16 ==> r == Ok::<u128, DatabaseError>(big_endian(b@) as u128),
        b@.len() != 16 ==> r == Err::<u128, DatabaseError>(DatabaseError::InvalidUuidData),
{
    match uuid_from_slice(b) {
        Some(u) => Ok(u),
        None => Err(DatabaseError::InvalidUuidData),
    }
}

/// The key stored as `b`, or `InvalidPubkeyData`.
pub fn read_key(b: &[u8]) -> (r: Result<[u8; 32], DatabaseError>)
    ensures
        b@.len() == 32 ==> r.is_ok() && r.unwrap()@ == b@,
        b@.len() != 32 ==> r == Err::<[u8; 32], DatabaseError>(DatabaseError::InvalidPubkeyData),
{
    match key_from_slice(b) {
        Some(k) => Ok(k),
        None => Err(DatabaseError::InvalidPubkeyData),
    }
}

/// A config row joined with its address and, when the key is stored, the
/// secret key.
#[derive(Debug)]
pub struct ConfigRow {
    pub id: Vec<u8>,
    pub user_id: Vec<u8>,
    pub key: Vec<u8>,
    pub name: String,
    pub deleted: bool,
    pub addr: i64,
    pub priv_key: Option<Vec<u8>>,
}

/// Whether the row's identifiers and keys have their lengths.
pub open spec fn row_well_formed(row: ConfigRow) -> bool {
    &&& row.id@.len() == 16
    &&& row.user_id@.len() == 16
    &&& row.key@.len() == 32
    &&& match row.priv_key {
        Some(k) => k@.len() == 32,
        None => true,
    }
}

/// Reads a config row: identifiers must be 16 bytes (else `InvalidUuidData`)
/// and keys 32 bytes (else `InvalidPubkeyData`); the address is the low 32
/// bits of the stored integer.
pub fn config_from_row(row: ConfigRow) -> (r: Result<Config, DatabaseError>)
    ensures
        row.id@.len() != 16 || row.user_id@.len() != 16 ==> r == Err::<Config, DatabaseError>(
            DatabaseError::InvalidUuidData,
        ),
        row.id@.len() == 16 && row.user_id@.len() == 16 && !row_well_formed(row) ==> r == Err::<
            Config,
            DatabaseError,
        >(DatabaseError::InvalidPubkeyData),
        row_well_formed(row) ==> {
            &&& r.is_ok()
            &&& r.unwrap().id == big_endian(row.id@) as u128
            &&& r.unwrap().user_id == big_endian(row.user_id@) as u128
            &&& r.unwrap().ip == row.addr as u32
            &&& r.unwrap().pub_key@ == row.key@
            &&& r.unwrap().priv_key.is_some() == row.priv_key.is_some()
            &&& r.unwrap().priv_key.is_some() ==> r.unwrap().priv_key.unwrap()@ == row.priv_key.unwrap()@
            &&& r.unwrap().name@ == row.name@
            &&& r.unwrap().deleted == row.deleted
        },
{
    let id = match read_uuid(row.id.as_slice()) {
        Ok(u) => u,
        Err(e) => return Err(e),
    };
    let user_id = match read_uuid(row.user_id.as_slice()) {
        Ok(u) => u,
        Err(e) => return Err(e),
    };
    let priv_key = match &row.priv_key {
        Some(k) => match read_key(k.as_slice()) {
            Ok(k) => Some(k),
            Err(e) => return Err(e),
        },
        None => None,
    };
    let pub_key = match read_key(row.key.as_slice()) {
        Ok(k) => k,
        Err(e) => return Err(e),
    };
    Ok(Config { id, user_id, ip: row.addr as u32, pub_key, priv_key, name: row.name, deleted: row.deleted })
}

/// Reads a config row joined with the traffic of its key; a key never
/// observed has no traffic yet.
pub fn full_config_from_row(row: ConfigRow, tx: Option<i64>, rx: Option<i64>) -> (r: Result<FullConfig, DatabaseError>)
    ensures
        row.id@.len() != 16 || row.user_id@.len() != 16 ==> r == Err::<FullConfig, DatabaseError>(
            DatabaseError::InvalidUuidData,
        ),
        row.id@.len() == 16 && row.user_id@.len() == 16 && !row_well_formed(row) ==> r == Err::<
            FullConfig,
            DatabaseError,
        >(DatabaseError::InvalidPubkeyData),
        row_well_formed(row) ==> {
            &&& r.is_ok()
            &&& r.unwrap().config.id == big_endian(row.id@) as u128
            &&& r.unwrap().config.user_id == big_endian(row.user_id@) as u128
            &&& r.unwrap().config.ip == row.addr as u32
            &&& r.unwrap().config.pub_key@ == row.key@
            &&& r.unwrap().config.priv_key.is_some() == row.priv_key.is_some()
            &&& r.unwrap().config.priv_key.is_some() ==> r.unwrap().config.priv_key.unwrap()@
                == row.priv_key.unwrap()@
            &&& r.unwrap().config.name@ == row.name@
            &&& r.unwrap().config.deleted == row.deleted
            &&& r.unwrap().stats.pub_key@ == row.key@
            &&& r.unwrap().stats.tx == match tx {
                Some(t) => t as u64,
                None => 0,
            }
            &&& r.unwrap().stats.rx == match rx {
                Some(t) => t as u64,
                None => 0,
            }
        },
{
    let config = match config_from_row(row) {
        Ok(c) => c,
        Err(e) => return Err(e),
    };
    let tx: u64 = match tx {
        Some(t) => t as u64,
        None => 0,
    };
    let rx: u64 = match rx {
        Some(t) => t as u64,
        None => 0,
    };
    let stats = Stats { pub_key: config.pub_key, tx, rx };
    Ok(FullConfig { config, stats })
}

/// Reads a stored key row.
pub fn key_from_row(key: &[u8], name: String, user_id: &[u8]) -> (r: Result<Key, DatabaseError>)
    ensures
        user_id@.len() == 16 && key@.len() == 32 ==> {
            &&& r.is_ok()
            &&& r.unwrap().key@ == key@
            &&& r.unwrap().name@ == name@
            &&& r.unwrap().user_id == big_endian(user_id@) as u128
        },
        key@.len() != 32 ==> r == Err::<Key, DatabaseError>(DatabaseError::InvalidPubkeyData),
        key@.len() == 32 && user_id@.len() != 16 ==> r == Err::<Key, DatabaseError>(
            DatabaseError::InvalidUuidData,
        ),
{
    let k = match read_key(key) {
        Ok(k) => k,
        Err(e) => return Err(e),
    };
    let u = match read_uuid(user_id) {
        Ok(u) => u,
        Err(e) => return Err(e),
    };
    Ok(Key { key: k, name, user_id: u })
}

} // verus!
