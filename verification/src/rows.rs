//! Reading what a statement returned.

use vstd::prelude::*;

use crate::conn::{RowView, SyncResultSet};
use crate::decimal::{parse_i32, parse_i64, read_i32, read_i64};
use crate::error::{answer, joined, outcome, DbError, DbErrorKind, ErrorView, Stop, StopView};
use crate::timestamp::{stamp_in, SyncTimestamp};

verus! {

/// The one row, if there is any; more than one is an error.
pub open spec fn one_or_none(rows: Seq<RowView>) -> Result<Option<RowView>, ErrorView> {
    if rows.len() == 0 {
        Ok(None)
    } else if rows.len() == 1 {
        Ok(Some(rows[0]))
    } else {
        Err(ErrorView::Internal("Expected one result; got more."@))
    }
}

/// The one row; none and more than one are errors.
pub open spec fn one(rows: Seq<RowView>) -> Result<RowView, ErrorView> {
    match one_or_none(rows) {
        Ok(Some(row)) => Ok(row),
        Ok(None) => Err(ErrorView::Internal("No rows matched the given query."@)),
        Err(error) => Err(error),
    }
}

/// A cell of a row.
pub open spec fn cell(row: RowView, column: int) -> Result<Seq<char>, StopView> {
    if 0 <= column < row.len() {
        Ok(row[column])
    } else {
        Err(StopView::Fault)
    }
}

/// A cell that holds an `i32`; a text that is none is an integrity error.
pub open spec fn i32_cell(row: RowView, column: int) -> Result<i32, StopView> {
    match cell(row, column) {
        Ok(text) => match read_i32(text) {
            Ok(value) => Ok(value),
            Err(error) => Err(StopView::Failed(ErrorView::Integrity(error))),
        },
        Err(stop) => Err(stop),
    }
}

/// A cell that holds an `i64`; a text that is none is an integrity error.
pub open spec fn i64_cell(row: RowView, column: int) -> Result<i64, StopView> {
    match cell(row, column) {
        Ok(text) => match read_i64(text) {
            Ok(value) => Ok(value),
            Err(error) => Err(StopView::Failed(ErrorView::Integrity(error))),
        },
        Err(stop) => Err(stop),
    }
}

/// A cell that holds a time stamp; a text that is none is an error.
pub open spec fn stamp_cell(row: RowView, column: int) -> Result<int, StopView> {
    match cell(row, column) {
        Ok(text) => match stamp_in(text) {
            Ok(value) => Ok(value),
            Err(error) => Err(StopView::Failed(error)),
        },
        Err(stop) => Err(stop),
    }
}

/// What was read, where there is no going on without it.
pub open spec fn must<T>(read: Result<T, StopView>) -> Result<T, StopView> {
    match read {
        Ok(value) => Ok(value),
        Err(_) => Err(StopView::Fault),
    }
}

/// What a statement about rows says of how many it changed.
pub open spec fn affected_rows(stats: Option<Option<Seq<char>>>) -> Result<i64, ErrorView> {
    match stats {
        None => Err(ErrorView::Internal("Expected result_set stats"@)),
        Some(None) => Err(ErrorView::Internal("Expected result_set stats row_count_exact"@)),
        Some(Some(text)) => match read_i64(text) {
            Ok(count) => Ok(count),
            Err(error) => Err(
                ErrorView::Internal("Invalid row_count_exact i64 value "@ + error),
            ),
        },
    }
}

impl SyncResultSet {
    /// The one row, if there is any.
    pub fn one_or_none(&self) -> (row: Result<Option<&Vec<String>>, Stop>)
        ensures
            outcome(row) == (match one_or_none(self.deep_view().rows) {
                Ok(row) => Ok(row),
                Err(error) => Err(StopView::Failed(error)),
            }),
    {
        if self.rows.len() == 0 {
            Ok(None)
        } else if self.rows.len() == 1 {
            Ok(Some(&self.rows[0]))
        } else {
            Err(Stop::Failed(DbError::internal("Expected one result; got more.")))
        }
    }

    /// The one row.
    pub fn one(&self) -> (row: Result<&Vec<String>, Stop>)
        ensures
            outcome(row) == (match one(self.deep_view().rows) {
                Ok(row) => Ok(row),
                Err(error) => Err(StopView::Failed(error)),
            }),
    {
        match self.one_or_none()? {
            Some(row) => Ok(row),
            None => Err(Stop::Failed(DbError::internal("No rows matched the given query."))),
        }
    }

    /// How many rows the statement changed.
    pub fn affected_rows(&self) -> (count: Result<i64, DbError>)
        ensures
            answer(count) == affected_rows(self.deep_view().stats),
    {
        match &self.stats {
            None => Err(DbError::internal("Expected result_set stats")),
            Some(stats) => match &stats.row_count_exact {
                None => Err(DbError::internal("Expected result_set stats row_count_exact")),
                Some(text) => match parse_i64(text.as_str()) {
                    Ok(count) => Ok(count),
                    Err(error) => Err(
                        DbError::internal(
                            joined("Invalid row_count_exact i64 value ", error.as_str()).as_str(),
                        ),
                    ),
                },
            },
        }
    }
}

/// The text of a cell.
pub fn text_at(row: &Vec<String>, column: usize) -> (text: Result<&String, Stop>)
    ensures
        outcome(text) == cell(row.deep_view(), column as int),
{
    if column < row.len() {
        Ok(&row[column])
    } else {
        Err(Stop::Fault)
    }
}

/// The `i32` in a cell.
pub fn i32_at(row: &Vec<String>, column: usize) -> (value: Result<i32, Stop>)
    ensures
        outcome(value) == i32_cell(row.deep_view(), column as int),
{
    match parse_i32(text_at(row, column)?.as_str()) {
        Ok(value) => Ok(value),
        Err(error) => Err(Stop::Failed(DbError::new(DbErrorKind::Integrity(error)))),
    }
}

/// The `i64` in a cell.
pub fn i64_at(row: &Vec<String>, column: usize) -> (value: Result<i64, Stop>)
    ensures
        outcome(value) == i64_cell(row.deep_view(), column as int),
{
    match parse_i64(text_at(row, column)?.as_str()) {
        Ok(value) => Ok(value),
        Err(error) => Err(Stop::Failed(DbError::new(DbErrorKind::Integrity(error)))),
    }
}

/// The time stamp in a cell.
pub fn stamp_at(row: &Vec<String>, column: usize) -> (value: Result<SyncTimestamp, Stop>)
    ensures
        outcome(value) == stamp_cell(row.deep_view(), column as int),
{
    match SyncTimestamp::from_rfc3339(text_at(row, column)?.as_str()) {
        Ok(value) => Ok(value),
        Err(error) => Err(Stop::Failed(error)),
    }
}

} // verus!
