//! The statement's plain state and its execution decisions.
//!
//! The statement itself owns a live client and bound Arrow data, which
//! stay outside this core; what lives here is the state a statement
//! carries as plain values — the SQL text and the ingest target — and the
//! decision rules: which action an update call performs, and that a query
//! call without a SQL text set is an invalid-state error.

use vstd::prelude::*;
use vstd::string::StrSliceExecFns;

use crate::error::{DriverError, Status};

verus! {

/// The plain state of a statement.  Whether a batch or a stream is bound
/// is tracked as a flag: the bound data itself stays with the caller.
pub struct StatementState {
    pub sql_query: Option<String>,
    pub ingest_target_table: Option<String>,
    pub has_bound_batch: bool,
    pub has_bound_reader: bool,
}

/// What an update call does, in fixed priority order: a SQL text runs
/// first; otherwise a bound batch, then a bound stream, each only with an
/// ingest target; otherwise nothing.
#[derive(Clone, Copy, PartialEq, Eq, Structural, Debug)]
pub enum UpdateAction {
    RunSql,
    InsertBatch,
    InsertStream,
    Nothing,
}

/// The decision rule of an update call.
pub open spec fn update_action_spec(st: StatementState) -> UpdateAction {
    if st.sql_query is Some {
        UpdateAction::RunSql
    } else if st.has_bound_batch && st.ingest_target_table is Some {
        UpdateAction::InsertBatch
    } else if st.has_bound_reader && st.ingest_target_table is Some {
        UpdateAction::InsertStream
    } else {
        UpdateAction::Nothing
    }
}

impl StatementState {
    /// A fresh statement: nothing set, nothing bound.
    pub fn new() -> (st: StatementState)
        ensures
            st.sql_query is None,
            st.ingest_target_table is None,
            !st.has_bound_batch,
            !st.has_bound_reader,
    {
        StatementState {
            sql_query: None,
            ingest_target_table: None,
            has_bound_batch: false,
            has_bound_reader: false,
        }
    }

    /// Replaces the SQL text; always succeeds.
    pub fn set_sql_query(&mut self, query: String)
        ensures
            final(self).sql_query == Some(query),
            final(self).ingest_target_table == old(self).ingest_target_table,
            final(self).has_bound_batch == old(self).has_bound_batch,
            final(self).has_bound_reader == old(self).has_bound_reader,
    {
        self.sql_query = Some(query);
    }

    /// Replaces the ingest target table; always succeeds.
    pub fn set_ingest_target_table(&mut self, table: String)
        ensures
            final(self).ingest_target_table == Some(table),
            final(self).sql_query == old(self).sql_query,
            final(self).has_bound_batch == old(self).has_bound_batch,
            final(self).has_bound_reader == old(self).has_bound_reader,
    {
        self.ingest_target_table = Some(table);
    }

    /// Reads the ingest target back: the stored value if one was set, the
    /// not-found rejection otherwise.
    pub fn get_ingest_target_table(&self) -> (res: Result<String, DriverError>)
        ensures
            match self.ingest_target_table {
                Some(t) => res matches Ok(s) && s == t,
                None => res matches Err(e) && e.status == Status::NotFound,
            },
    {
        match &self.ingest_target_table {
            Some(t) => Ok(t.clone()),
            None => Err(
                DriverError::new("[Clickhouse] Ingest target table has not been set".to_owned(), Status::NotFound),
            ),
        }
    }

    /// The SQL text a query call runs: set, or the call is rejected as
    /// invalid state — querying needs a prior SQL text.
    pub fn query_to_execute(&self) -> (res: Result<String, DriverError>)
        ensures
            match self.sql_query {
                Some(q) => res matches Ok(s) && s == q,
                None => res matches Err(e) && e.status == Status::InvalidState,
            },
    {
        match &self.sql_query {
            Some(q) => Ok(q.clone()),
            None => Err(
                DriverError::new("[Clickhouse] SQL query is empty".to_owned(), Status::InvalidState),
            ),
        }
    }

    /// The action an update call performs, exactly as
    /// [`update_action_spec`] decides it.
    pub fn update_action(&self) -> (a: UpdateAction)
        ensures
            a == update_action_spec(*self),
    {
        if self.sql_query.is_some() {
            UpdateAction::RunSql
        } else if self.has_bound_batch && self.ingest_target_table.is_some() {
            UpdateAction::InsertBatch
        } else if self.has_bound_reader && self.ingest_target_table.is_some() {
            UpdateAction::InsertStream
        } else {
            UpdateAction::Nothing
        }
    }
}

} // verus!
