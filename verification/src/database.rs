//! The database handle: a flat option store for the connection endpoint
//! and credentials, with the fixed error codes of the driver surface.

use vstd::prelude::*;
use vstd::string::StrSliceExecFns;
use vstd::string::StringExecFns;

use crate::error::{DriverError, Status};

verus! {

/// A database option key.
pub enum DbOptionKey {
    Uri,
    Username,
    Password,
    Other(String),
}

/// A database option value.  Only string values are meaningful here; the
/// other kinds exist so that a caller handing one over gets the exact
/// rejection the surface promises.  A floating-point value carries no
/// payload: it is rejected whatever it held.
pub enum DbOptionValue {
    Text(String),
    Bytes(Vec<u8>),
    Int(i64),
    Double,
}

/// Connection settings collected before a connection is opened.
#[derive(Debug)]
pub struct ClickhouseDatabase {
    pub uri: Option<String>,
    pub username: Option<String>,
    pub password: Option<String>,
}

/// What setting one option does: a non-string value is rejected as
/// invalid arguments; an unrecognized key is rejected as not found; a
/// recognized key replaces its field and leaves the others.
pub open spec fn apply_option(
    db: ClickhouseDatabase,
    key: DbOptionKey,
    value: DbOptionValue,
) -> Result<ClickhouseDatabase, Status> {
    match value {
        DbOptionValue::Text(v) => match key {
            DbOptionKey::Uri => Ok(
                ClickhouseDatabase { uri: Some(v), username: db.username, password: db.password },
            ),
            DbOptionKey::Username => Ok(
                ClickhouseDatabase { uri: db.uri, username: Some(v), password: db.password },
            ),
            DbOptionKey::Password => Ok(
                ClickhouseDatabase { uri: db.uri, username: db.username, password: Some(v) },
            ),
            DbOptionKey::Other(_) => Err(Status::NotFound),
        },
        _ => Err(Status::InvalidArguments),
    }
}

/// Applying a sequence of options in order, stopping at the first
/// rejection.
pub open spec fn apply_options(
    db: ClickhouseDatabase,
    opts: Seq<(DbOptionKey, DbOptionValue)>,
) -> Result<ClickhouseDatabase, Status>
    decreases opts.len(),
{
    if opts.len() == 0 {
        Ok(db)
    } else {
        match apply_option(db, opts[0].0, opts[0].1) {
            Ok(next) => apply_options(next, opts.drop_first()),
            Err(st) => Err(st),
        }
    }
}

impl ClickhouseDatabase {
    /// A database with no option set.
    pub fn empty() -> (db: ClickhouseDatabase)
        ensures
            db.uri is None,
            db.username is None,
            db.password is None,
    {
        ClickhouseDatabase { uri: None, username: None, password: None }
    }

    /// Sets one option, exactly as [`apply_option`] says: `Ok` and the
    /// updated settings for a string value under a recognized key, the
    /// rejection status and unchanged settings otherwise.
    pub fn set_option(&mut self, key: DbOptionKey, value: DbOptionValue) -> (res: Result<
        (),
        DriverError,
    >)
        ensures
            match apply_option(*old(self), key, value) {
                Ok(db) => res is Ok && *final(self) == db,
                Err(st) => res matches Err(e) && e.status == st && *final(self) == *old(self),
            },
    {
        let v = match value {
            DbOptionValue::Text(v) => v,
            _ => {
                return Err(
                    DriverError::new(
                        "[Clickhouse] Value is not a string".to_owned(),
                        Status::InvalidArguments,
                    ),
                );
            },
        };
        match key {
            DbOptionKey::Uri => {
                self.uri = Some(v);
                Ok(())
            },
            DbOptionKey::Username => {
                self.username = Some(v);
                Ok(())
            },
            DbOptionKey::Password => {
                self.password = Some(v);
                Ok(())
            },
            DbOptionKey::Other(_) => Err(
                DriverError::new(
                    "[Clickhouse] Unrecognized option".to_owned(),
                    Status::NotFound,
                ),
            ),
        }
    }

    /// Reads a string option back: the stored value for a recognized key
    /// that was set, the not-found rejection otherwise.
    pub fn get_option_string(&self, key: &DbOptionKey) -> (res: Result<String, DriverError>)
        ensures
            match *key {
                DbOptionKey::Uri => match self.uri {
                    Some(u) => res matches Ok(s) && s == u,
                    None => res matches Err(e) && e.status == Status::NotFound,
                },
                DbOptionKey::Username => match self.username {
                    Some(u) => res matches Ok(s) && s == u,
                    None => res matches Err(e) && e.status == Status::NotFound,
                },
                DbOptionKey::Password => match self.password {
                    Some(u) => res matches Ok(s) && s == u,
                    None => res matches Err(e) && e.status == Status::NotFound,
                },
                DbOptionKey::Other(_) => res matches Err(e) && e.status == Status::NotFound,
            },
    {
        let found = match key {
            DbOptionKey::Uri => &self.uri,
            DbOptionKey::Username => &self.username,
            DbOptionKey::Password => &self.password,
            DbOptionKey::Other(_) => {
                return Err(
                    DriverError::new(
                        "[Clickhouse] Unrecognized option".to_owned(),
                        Status::NotFound,
                    ),
                );
            },
        };
        match found {
            Some(u) => Ok(u.clone()),
            None => Err(
                DriverError::new("[Clickhouse] Option not set".to_owned(), Status::NotFound),
            ),
        }
    }

    /// No option is readable as bytes: always the not-found rejection.
    pub fn get_option_bytes(&self, key: &DbOptionKey) -> (res: Result<Vec<u8>, DriverError>)
        ensures
            res matches Err(e) && e.status == Status::NotFound,
    {
        Err(DriverError::new("[Clickhouse] Unrecognized option".to_owned(), Status::NotFound))
    }

    /// No option is readable as an integer: always the not-found
    /// rejection.
    pub fn get_option_int(&self, key: &DbOptionKey) -> (res: Result<i64, DriverError>)
        ensures
            res matches Err(e) && e.status == Status::NotFound,
    {
        Err(DriverError::new("[Clickhouse] Unrecognized option".to_owned(), Status::NotFound))
    }
}

impl Default for ClickhouseDatabase {
    /// A database with no option set.
    fn default() -> (db: ClickhouseDatabase)
        ensures
            db.uri is None,
            db.username is None,
            db.password is None,
    {
        ClickhouseDatabase::empty()
    }
}

/// The table types the backend's information schema reports, in its fixed
/// order.
pub fn table_type_names() -> (v: Vec<String>)
    ensures
        v@.len() == 5,
        v@[0]@ == "BASE TABLE"@,
        v@[1]@ == "LOCAL TEMPORARY"@,
        v@[2]@ == "VIEW"@,
        v@[3]@ == "SYSTEM VIEW"@,
        v@[4]@ == "FOREIGN TABLE"@,
{
    let mut v: Vec<String> = Vec::new();
    v.push("BASE TABLE".to_owned());
    v.push("LOCAL TEMPORARY".to_owned());
    v.push("VIEW".to_owned());
    v.push("SYSTEM VIEW".to_owned());
    v.push("FOREIGN TABLE".to_owned());
    v
}

} // verus!
