//! The storage's end of a Spanner session: the requests that an operation sends and the
//! replies that it has so far.
//!
//! An operation runs against the replies on record. At a request that has no reply yet it
//! stops with `Stop::Waiting`; whoever drives it carries the request out, puts the reply on
//! record and runs the operation again from where it started.

use vstd::prelude::*;

use crate::error::{outcome, DbError, DbErrorKind, ErrorView, Stop, StopView};
use crate::table::{Table, Value};

verus! {

/// The types that a statement's parameters are declared with.
#[derive(Clone, Copy, Debug, PartialEq, Eq, Structural)]
pub enum SpannerType {
    Int64,
    Timestamp,
}

impl DeepView for SpannerType {
    type V = SpannerType;

    open spec fn deep_view(&self) -> SpannerType {
        *self
    }
}

impl Value for SpannerType {
    fn duplicate(&self) -> (copy: Self) {
        *self
    }
}

/// What a transaction is begun for.
#[derive(Clone, Copy, Debug, PartialEq, Eq, Structural)]
pub enum TransactionMode {
    ReadOnly,
    ReadWrite,
}

/// Names the transaction in which a statement runs.
#[derive(Debug)]
pub struct TransactionSelector {
    pub id: Option<String>,
}

impl DeepView for TransactionSelector {
    type V = Option<Seq<char>>;

    open spec fn deep_view(&self) -> Option<Seq<char>> {
        self.id.deep_view()
    }
}

impl Value for TransactionSelector {
    fn duplicate(&self) -> (copy: Self) {
        TransactionSelector { id: self.id.duplicate() }
    }
}

/// A statement with its parameters.
#[derive(Debug)]
pub struct ExecuteSqlRequest {
    pub sql: String,
    pub transaction: Option<TransactionSelector>,
    pub seqno: String,
    pub params: Table<String, String>,
    pub param_types: Table<String, SpannerType>,
}

/// An `ExecuteSqlRequest` in terms of views.
pub struct SqlView {
    pub sql: Seq<char>,
    pub transaction: Option<Option<Seq<char>>>,
    pub seqno: Seq<char>,
    pub params: Map<Seq<char>, Seq<char>>,
    pub param_types: Map<Seq<char>, SpannerType>,
}

impl SqlView {
    /// The request with one parameter more.
    pub open spec fn with(self, name: Seq<char>, value: Seq<char>) -> SqlView {
        SqlView { params: self.params.insert(name, value), ..self }
    }

    /// The request with the type of one parameter more.
    pub open spec fn typed(self, name: Seq<char>, of: SpannerType) -> SqlView {
        SqlView { param_types: self.param_types.insert(name, of), ..self }
    }
}

impl DeepView for ExecuteSqlRequest {
    type V = SqlView;

    open spec fn deep_view(&self) -> SqlView {
        SqlView {
            sql: self.sql@,
            transaction: self.transaction.deep_view(),
            seqno: self.seqno@,
            params: self.params@,
            param_types: self.param_types@,
        }
    }
}

impl Value for ExecuteSqlRequest {
    fn duplicate(&self) -> (copy: Self) {
        ExecuteSqlRequest {
            sql: self.sql.clone(),
            transaction: self.transaction.duplicate(),
            seqno: self.seqno.clone(),
            params: self.params.clone(),
            param_types: self.param_types.clone(),
        }
    }
}

impl ExecuteSqlRequest {
    /// Gives a parameter its value.
    pub fn set(&mut self, name: &str, value: String)
        ensures
            final(self).deep_view() == old(self).deep_view().with(name@, value@),
    {
        self.params.insert(name.to_owned(), value);
    }

    /// Declares the type of a parameter.
    pub fn set_type(&mut self, name: &str, of: SpannerType)
        ensures
            final(self).deep_view() == old(self).deep_view().typed(name@, of),
    {
        self.param_types.insert(name.to_owned(), of);
    }
}

/// What the storage asks of Spanner.
#[derive(Debug)]
pub enum Request {
    Begin(TransactionMode),
    Execute(ExecuteSqlRequest),
    Commit(Option<String>),
    Rollback(Option<String>),
}

/// A `Request` in terms of views.
pub enum RequestView {
    Begin(TransactionMode),
    Execute(SqlView),
    Commit(Option<Seq<char>>),
    Rollback(Option<Seq<char>>),
}

impl DeepView for Request {
    type V = RequestView;

    open spec fn deep_view(&self) -> RequestView {
        match self {
            Request::Begin(mode) => RequestView::Begin(*mode),
            Request::Execute(sql) => RequestView::Execute(sql.deep_view()),
            Request::Commit(id) => RequestView::Commit(id.deep_view()),
            Request::Rollback(id) => RequestView::Rollback(id.deep_view()),
        }
    }
}

impl Value for Request {
    fn duplicate(&self) -> (copy: Self) {
        match self {
            Request::Begin(mode) => Request::Begin(*mode),
            Request::Execute(sql) => Request::Execute(sql.duplicate()),
            Request::Commit(id) => Request::Commit(id.duplicate()),
            Request::Rollback(id) => Request::Rollback(id.duplicate()),
        }
    }
}

/// What a statement did, beside the rows that it returned.
#[derive(Debug)]
pub struct ResultSetStats {
    pub row_count_exact: Option<String>,
}

impl DeepView for ResultSetStats {
    type V = Option<Seq<char>>;

    open spec fn deep_view(&self) -> Option<Seq<char>> {
        self.row_count_exact.deep_view()
    }
}

impl Value for ResultSetStats {
    fn duplicate(&self) -> (copy: Self) {
        ResultSetStats { row_count_exact: self.row_count_exact.duplicate() }
    }
}

/// What a statement returned: rows of cells, each cell as text.
#[derive(Debug)]
pub struct SyncResultSet {
    pub rows: Vec<Vec<String>>,
    pub stats: Option<ResultSetStats>,
}

/// A row in terms of views.
pub type RowView = Seq<Seq<char>>;

/// A `SyncResultSet` in terms of views.
pub struct ResultSetView {
    pub rows: Seq<RowView>,
    pub stats: Option<Option<Seq<char>>>,
}

impl DeepView for SyncResultSet {
    type V = ResultSetView;

    open spec fn deep_view(&self) -> ResultSetView {
        ResultSetView { rows: self.rows.deep_view(), stats: self.stats.deep_view() }
    }
}

impl Value for SyncResultSet {
    fn duplicate(&self) -> (copy: Self) {
        SyncResultSet { rows: self.rows.duplicate(), stats: self.stats.duplicate() }
    }
}

/// What Spanner replies to a request: the transaction that a `Begin` opened, what an `Execute`
/// returned.
#[derive(Debug)]
pub struct Reply {
    pub transaction_id: Option<String>,
    pub result: SyncResultSet,
}

/// A `Reply` in terms of views.
pub struct ReplyView {
    pub transaction_id: Option<Seq<char>>,
    pub result: ResultSetView,
}

impl DeepView for Reply {
    type V = ReplyView;

    open spec fn deep_view(&self) -> ReplyView {
        ReplyView {
            transaction_id: self.transaction_id.deep_view(),
            result: self.result.deep_view(),
        }
    }
}

impl Value for Reply {
    fn duplicate(&self) -> (copy: Self) {
        Reply {
            transaction_id: self.transaction_id.duplicate(),
            result: self.result.duplicate(),
        }
    }
}

/// A reply, or the text of the error that came in its place.
#[derive(Debug)]
pub enum Answer {
    Reply(Reply),
    Error(String),
}

/// An `Answer` in terms of views.
pub enum AnswerView {
    Reply(ReplyView),
    Error(Seq<char>),
}

impl DeepView for Answer {
    type V = AnswerView;

    open spec fn deep_view(&self) -> AnswerView {
        match self {
            Answer::Reply(reply) => AnswerView::Reply(reply.deep_view()),
            Answer::Error(text) => AnswerView::Error(text@),
        }
    }
}

impl Value for Answer {
    fn duplicate(&self) -> (copy: Self) {
        match self {
            Answer::Reply(reply) => Answer::Reply(reply.duplicate()),
            Answer::Error(text) => Answer::Error(text.clone()),
        }
    }
}

/// The requests sent and the replies on record.
#[derive(Debug)]
pub struct Conn {
    answers: Vec<Answer>,
    sent: Vec<Request>,
    use_test_transactions: bool,
}

/// A `Conn` in terms of views.
pub struct ConnView {
    /// The reply to the first request, to the second, and so on.
    pub answers: Seq<AnswerView>,
    /// The requests in the order in which they were sent.
    pub sent: Seq<RequestView>,
    /// Whether transactions are for a test, and never committed.
    pub use_test_transactions: bool,
}

impl DeepView for Conn {
    type V = ConnView;

    closed spec fn deep_view(&self) -> ConnView {
        ConnView {
            answers: self.answers.deep_view(),
            sent: self.sent.deep_view(),
            use_test_transactions: self.use_test_transactions,
        }
    }
}

impl View for Conn {
    type V = ConnView;

    open spec fn view(&self) -> ConnView {
        self.deep_view()
    }
}

impl ConnView {
    /// The connection after one more request.
    pub open spec fn send(self, request: RequestView) -> ConnView {
        ConnView { sent: self.sent.push(request), ..self }
    }

    /// What comes back for the next request.
    pub open spec fn receive(self) -> Result<ReplyView, StopView> {
        if self.sent.len() < self.answers.len() {
            match self.answers[self.sent.len() as int] {
                AnswerView::Reply(reply) => Ok(reply),
                AnswerView::Error(text) => Err(StopView::Failed(ErrorView::Spanner(text))),
            }
        } else {
            Err(StopView::Waiting)
        }
    }
}

impl Value for Conn {
    fn duplicate(&self) -> (copy: Self) {
        Conn {
            answers: self.answers.duplicate(),
            sent: self.sent.duplicate(),
            use_test_transactions: self.use_test_transactions,
        }
    }
}

impl Conn {
    /// A connection on which nothing was sent yet.
    pub fn new(use_test_transactions: bool) -> (conn: Conn)
        ensures
            conn@ == (ConnView {
                answers: Seq::empty(),
                sent: Seq::empty(),
                use_test_transactions,
            }),
    {
        let conn = Conn { answers: Vec::new(), sent: Vec::new(), use_test_transactions };
        assert(conn@.answers =~= Seq::empty());
        assert(conn@.sent =~= Seq::empty());
        conn
    }

    /// Sends a request and gives the reply to it.
    pub fn ask(&mut self, request: Request) -> (reply: Result<Reply, Stop>)
        ensures
            final(self)@ == old(self)@.send(request.deep_view()),
            outcome(reply) == old(self)@.receive(),
    {
        let next = self.sent.len();
        self.sent.push(request);
        assert(self@.sent =~= old(self)@.sent.push(request.deep_view()));
        if next < self.answers.len() {
            match &self.answers[next] {
                Answer::Reply(reply) => Ok(reply.duplicate()),
                Answer::Error(text) => Err(
                    Stop::Failed(DbError::new(DbErrorKind::Spanner(text.clone()))),
                ),
            }
        } else {
            Err(Stop::Waiting)
        }
    }

    /// Puts the reply to the next request that has none on record.
    pub fn answer(&mut self, answer: Answer)
        ensures
            final(self)@ == (ConnView {
                answers: old(self)@.answers.push(answer.deep_view()),
                ..old(self)@
            }),
    {
        self.answers.push(answer);
        assert(self@.answers =~= old(self)@.answers.push(answer.deep_view()));
    }

    /// The request that has no reply yet.
    pub fn pending(&self) -> (request: Option<&Request>)
        ensures
            match request {
                Some(r) => self@.sent.len() > self@.answers.len() && r.deep_view()
                    == self@.sent[self@.answers.len() as int],
                None => self@.sent.len() <= self@.answers.len(),
            },
    {
        let answered = self.answers.len();
        if answered < self.sent.len() {
            Some(&self.sent[answered])
        } else {
            None
        }
    }

    /// All requests, in the order in which they were sent.
    pub fn sent(&self) -> (sent: &Vec<Request>)
        ensures
            sent.deep_view() == self@.sent,
    {
        &self.sent
    }

    /// Whether transactions are for a test, and never committed.
    pub fn use_test_transactions(&self) -> (yes: bool)
        ensures
            yes == self@.use_test_transactions,
    {
        self.use_test_transactions
    }
}

/// What starts with what starts with a sequence starts with it.
pub broadcast proof fn prefix_of_prefix<A>(a: Seq<A>, b: Seq<A>, c: Seq<A>)
    requires
        #[trigger] a.is_prefix_of(b),
        #[trigger] b.is_prefix_of(c),
    ensures
        a.is_prefix_of(c),
{
}

} // verus!
