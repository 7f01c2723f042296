//! The driver entry point: it creates database handles and applies their
//! initial options.

use vstd::prelude::*;

use crate::database::{ClickhouseDatabase, DbOptionKey, DbOptionValue, apply_option, apply_options};
use crate::error::DriverError;

verus! {

/// The driver.
pub struct ClickhouseDriver {}

impl ClickhouseDriver {
    /// A new driver.
    pub fn new() -> (d: ClickhouseDriver) {
        ClickhouseDriver {}
    }

    /// A database with no option set.
    pub fn new_database(&mut self) -> (res: Result<ClickhouseDatabase, DriverError>)
        ensures
            res matches Ok(db) && db.uri is None && db.username is None && db.password is None,
    {
        Ok(ClickhouseDatabase::empty())
    }

    /// A database with the given options applied in order: the settings
    /// [`apply_options`] yields, or the first option's rejection.
    #[verifier::loop_isolation(false)]
    pub fn new_database_with_opts(&mut self, opts: Vec<(DbOptionKey, DbOptionValue)>) -> (res:
        Result<ClickhouseDatabase, DriverError>)
        ensures
            match apply_options(
                ClickhouseDatabase { uri: None, username: None, password: None },
                opts@,
            ) {
                Ok(db) => res matches Ok(r) && r == db,
                Err(st) => res matches Err(e) && e.status == st,
            },
    {
        let ghost opts0 = opts@;
        let mut db = ClickhouseDatabase::empty();
        let mut rest = opts;
        let n = rest.len();
        proof {
            assert(opts0.subrange(0, n as int) =~= opts0);
        }
        let mut i: usize = 0;
        while i < n
            invariant
                i <= n,
                n == opts0.len(),
                rest@ =~= opts0.subrange(i as int, n as int),
                apply_options(
                    ClickhouseDatabase { uri: None, username: None, password: None },
                    opts0,
                ) == apply_options(db, opts0.subrange(i as int, n as int)),
            decreases n - i,
        {
            let (key, value) = rest.remove(0);
            proof {
                assert(opts0.subrange(i as int, n as int)[0] == opts0[i as int]);
                assert(rest@ =~= opts0.subrange(i + 1, n as int));
                assert(opts0.subrange(i as int, n as int).drop_first() =~= opts0.subrange(
                    i + 1,
                    n as int,
                ));
            }
            let ghost db_before = db;
            let r = db.set_option(key, value);
            match r {
                Ok(_) => {
                    proof {
                        assert(apply_option(db_before, opts0[i as int].0, opts0[i as int].1)
                            == Ok::<ClickhouseDatabase, crate::error::Status>(db));
                        assert(apply_options(db_before, opts0.subrange(i as int, n as int))
                            == apply_options(db, opts0.subrange(i + 1, n as int)));
                    }
                },
                Err(e) => {
                    proof {
                        assert(apply_option(db_before, opts0[i as int].0, opts0[i as int].1)
                            matches Err(st) && st == e.status);
                        assert(apply_options(db_before, opts0.subrange(i as int, n as int))
                            == Err::<ClickhouseDatabase, crate::error::Status>(e.status));
                    }
                    return Err(e);
                },
            }
            i += 1;
        }
        proof {
            assert(opts0.subrange(n as int, n as int) =~= Seq::empty());
        }
        Ok(db)
    }
}

impl Default for ClickhouseDriver {
    /// A new driver.
    fn default() -> (d: ClickhouseDriver) {
        ClickhouseDriver::new()
    }
}

} // verus!
