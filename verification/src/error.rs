//! What can go wrong, and why an operation stops.

use vstd::prelude::*;
use vstd::string::*;

verus! {

/// The kinds of error that the storage reports.
#[derive(Clone, Debug)]
pub enum DbErrorKind {
    /// The collection does not exist.
    CollectionNotFound,
    /// The object does not exist.
    BsoNotFound,
    /// The database holds what it should not hold.
    Integrity(String),
    /// The storage itself is at fault.
    Internal(String),
    /// Spanner refused or failed a request.
    Spanner(String),
}

/// A `DbErrorKind` with its text as a sequence of characters.
pub enum ErrorView {
    CollectionNotFound,
    BsoNotFound,
    Integrity(Seq<char>),
    Internal(Seq<char>),
    Spanner(Seq<char>),
}

impl View for DbErrorKind {
    type V = ErrorView;

    open spec fn view(&self) -> ErrorView {
        match self {
            DbErrorKind::CollectionNotFound => ErrorView::CollectionNotFound,
            DbErrorKind::BsoNotFound => ErrorView::BsoNotFound,
            DbErrorKind::Integrity(text) => ErrorView::Integrity(text@),
            DbErrorKind::Internal(text) => ErrorView::Internal(text@),
            DbErrorKind::Spanner(text) => ErrorView::Spanner(text@),
        }
    }
}

/// An error of the storage.
#[derive(Clone, Debug)]
pub struct DbError {
    inner: DbErrorKind,
}

impl View for DbError {
    type V = ErrorView;

    closed spec fn view(&self) -> ErrorView {
        self.inner@
    }
}

/// The text that describes an error.
pub open spec fn message(error: ErrorView) -> Seq<char> {
    match error {
        ErrorView::CollectionNotFound => "Specified collection does not exist"@,
        ErrorView::BsoNotFound => "Specified bso does not exist"@,
        ErrorView::Integrity(text) => "Database integrity error: "@ + text,
        ErrorView::Internal(text) => "Unexpected error: "@ + text,
        ErrorView::Spanner(text) => "A database error occurred: "@ + text,
    }
}

impl DbError {
    /// An error of the given kind.
    pub fn new(kind: DbErrorKind) -> (error: DbError)
        ensures
            error@ == kind@,
    {
        DbError { inner: kind }
    }

    /// A fault of the storage itself.
    pub fn internal(text: &str) -> (error: DbError)
        ensures
            error@ == ErrorView::Internal(text@),
    {
        DbError { inner: DbErrorKind::Internal(text.to_owned()) }
    }

    /// What kind of error this is.
    pub fn kind(&self) -> (kind: &DbErrorKind)
        ensures
            kind@ == self@,
    {
        &self.inner
    }

    /// The text that describes the error.
    pub fn to_text(&self) -> (text: String)
        ensures
            text@ == message(self@),
    {
        match &self.inner {
            DbErrorKind::CollectionNotFound => "Specified collection does not exist".to_owned(),
            DbErrorKind::BsoNotFound => "Specified bso does not exist".to_owned(),
            DbErrorKind::Integrity(text) => joined("Database integrity error: ", text.as_str()),
            DbErrorKind::Internal(text) => joined("Unexpected error: ", text.as_str()),
            DbErrorKind::Spanner(text) => joined("A database error occurred: ", text.as_str()),
        }
    }
}

/// Two texts, one after the other.
pub fn joined(first: &str, second: &str) -> (text: String)
    ensures
        text@ == first@ + second@,
{
    let mut text = first.to_owned();
    text.append(second);
    text
}

/// Why an operation has no result.
#[derive(Clone, Debug)]
pub enum Stop {
    /// The last request on the connection has no reply yet.
    Waiting,
    /// The operation failed.
    Failed(DbError),
    /// The operation cannot go on: a reply is not what its statement asks for (a row with too
    /// few columns, a text that is not of the column's type, a number out of range), a query
    /// asks for times that cannot be written, or the statement counter is exhausted. The caller
    /// aborts.
    Fault,
}

/// A `Stop` with its error as a view.
pub enum StopView {
    Waiting,
    Failed(ErrorView),
    Fault,
}

impl View for Stop {
    type V = StopView;

    open spec fn view(&self) -> StopView {
        match self {
            Stop::Waiting => StopView::Waiting,
            Stop::Failed(error) => StopView::Failed(error@),
            Stop::Fault => StopView::Fault,
        }
    }
}

/// The outcome of an operation, in terms of views.
pub open spec fn outcome<T: DeepView>(result: Result<T, Stop>) -> Result<T::V, StopView> {
    match result {
        Ok(value) => Ok(value.deep_view()),
        Err(stop) => Err(stop@),
    }
}

/// The outcome of a computation that can fail, in terms of views.
pub open spec fn answer<T: DeepView>(result: Result<T, DbError>) -> Result<T::V, ErrorView> {
    match result {
        Ok(value) => Ok(value.deep_view()),
        Err(error) => Err(error@),
    }
}

} // verus!
