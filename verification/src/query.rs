//! Query execution: the query message, and the decisions that turn the
//! server's answer, message by message, into the outcome of the query.

use vstd::prelude::*;
use vstd::slice::slice_subrange;
use crate::error::ProtocolError;
use crate::framing::add_str_as_bytes_to_vec;
use crate::framing::encode;
use crate::framing::encoded;
use crate::framing::text_bytes;
use crate::framing::Message;
use crate::framing::MAX_BODY_LEN;
use crate::rows::check_types;
use crate::rows::data_row_of;
use crate::rows::fields_of;
use crate::rows::fields_view;
use crate::rows::null_at;
use crate::rows::lemma_null_at_skips;
use crate::rows::parse_data_row;
use crate::rows::parse_row_description;
use crate::rows::row_view;
use crate::rows::rows_view;
use crate::rows::rows_wf;
use crate::rows::Row;
use crate::rows::RowView;
use crate::text::bytes_to_string;
use crate::text::text_of;
use crate::value::DatabaseRowDescription;
use crate::value::accepts_fields;
use crate::value::FieldView;
use crate::value::TypePolicy;

verus! {

/// The tag of a query message.
pub const TAG_QUERY: u8 = 0x51;

/// The tag of a row description.
pub const TAG_ROW_DESCRIPTION: u8 = 0x54;

/// The tag of a data row.
pub const TAG_DATA_ROW: u8 = 0x44;

/// The tag of a command completion.
pub const TAG_COMMAND_COMPLETE: u8 = 0x43;

/// The tag of an answer to an empty query.
pub const TAG_EMPTY_QUERY: u8 = 0x49;

/// The tag of an error response.
pub const TAG_ERROR: u8 = 0x45;

/// The tag of the message that says the server is ready for a query.
pub const TAG_READY: u8 = 0x5a;

/// The status byte of a connection that is idle.
pub const STATUS_IDLE: u8 = 0x49;

/// The bytes of a query message: the tag `Q`, then the statement and a zero
/// byte as the body.
pub open spec fn query_bytes(sql: Seq<char>) -> Seq<u8> {
    encoded(0x51, text_bytes(sql) + seq![0u8])
}

/// Builds the query message for `query`. A statement too long for one message
/// is refused.
pub fn send_query(query: &str) -> (result: Result<Vec<u8>, ProtocolError>)
    ensures
        text_bytes(query@).len() < MAX_BODY_LEN ==> result is Ok && result->Ok_0@ == query_bytes(
            query@,
        ),
        text_bytes(query@).len() >= MAX_BODY_LEN ==> result == Err::<Vec<u8>, ProtocolError>(
            ProtocolError::MessageTooLong,
        ),
{
    let text = query.as_bytes();
    if text.len() >= MAX_BODY_LEN {
        return Err(ProtocolError::MessageTooLong);
    }
    let mut body: Vec<u8> = Vec::new();
    add_str_as_bytes_to_vec(query, &mut body);
    body.push(0);
    assert(body@ =~= text_bytes(query@) + seq![0u8]);
    encode(TAG_QUERY, body.as_slice())
}

/// The outcome of a query, with text as sequences of characters.
pub enum OutcomeView {
    Error(Seq<u8>),
    CommandTag(Seq<char>),
    Rows(Seq<RowView>),
    EmptyQuery,
}

/// What a query came to: an error that the server reported, the tag of a
/// statement that has no result set, the rows of one that has, or nothing
/// where the query was empty.
#[derive(Clone, Debug, PartialEq)]
pub enum QueryOutcome {
    Error(Vec<u8>),
    CommandTag(String),
    Rows(Vec<Row>),
    EmptyQuery,
}

impl View for QueryOutcome {
    type V = OutcomeView;

    open spec fn view(&self) -> OutcomeView {
        match self {
            QueryOutcome::Error(payload) => OutcomeView::Error(payload@),
            QueryOutcome::CommandTag(tag) => OutcomeView::CommandTag(tag@),
            QueryOutcome::Rows(rows) => OutcomeView::Rows(rows_view(rows@)),
            QueryOutcome::EmptyQuery => OutcomeView::EmptyQuery,
        }
    }
}

impl QueryOutcome {
    /// Whether the rows of the outcome keep their invariant.
    pub open spec fn wf(&self) -> bool {
        match self {
            QueryOutcome::Rows(rows) => rows_wf(rows@),
            _ => true,
        }
    }
}

/// The text of a command tag: the bytes of the body before its first zero
/// byte, or all of them where it holds none.
pub open spec fn command_tag_of(body: Seq<u8>) -> Result<Seq<char>, ProtocolError> {
    match text_of(body.subrange(0, null_at(body, 0))) {
        Some(tag) => Ok(tag),
        None => Err(ProtocolError::InvalidText),
    }
}

/// Reads the command tag from the body of a command completion.
pub fn read_complete_command(body: &[u8]) -> (result: Result<String, ProtocolError>)
    ensures
        match command_tag_of(body@) {
            Ok(tag) => result is Ok && result->Ok_0@ == tag,
            Err(e) => result == Err::<String, ProtocolError>(e),
        },
{
    let mut end: usize = 0;
    while end < body.len() && body[end] != 0
        invariant
            end <= body@.len(),
            forall|k: int| 0 <= k < end ==> body@[k] != 0,
        decreases body@.len() - end,
    {
        end += 1;
    }
    proof {
        lemma_null_at_skips(body@, 0, end as int);
    }
    match bytes_to_string(slice_subrange(body, 0, end)) {
        Some(tag) => Ok(tag),
        None => Err(ProtocolError::InvalidText),
    }
}

/// What is wrong with a message that should say that the server is ready and
/// the connection idle: another tag, a body that is not one byte, or a status
/// other than idle.
pub open spec fn ready_fault(tag: u8, body: Seq<u8>) -> Option<ProtocolError> {
    if tag != 0x5a {
        Some(ProtocolError::UnexpectedTag)
    } else if body.len() != 1 {
        Some(ProtocolError::WrongLength)
    } else if body[0] != 0x49 {
        Some(ProtocolError::NotIdle)
    } else {
        None
    }
}

/// Checks the message that ends an answer: it must say that the server is
/// ready for a query and that the connection is idle.
pub fn read_ready_command(message: &Message) -> (result: Result<(), ProtocolError>)
    ensures
        match ready_fault(message.tag, message.body@) {
            Some(e) => result == Err::<(), ProtocolError>(e),
            None => result == Ok::<(), ProtocolError>(()),
        },
{
    if message.tag != TAG_READY {
        Err(ProtocolError::UnexpectedTag)
    } else if message.body.len() != 1 {
        Err(ProtocolError::WrongLength)
    } else if message.body[0] != STATUS_IDLE {
        Err(ProtocolError::NotIdle)
    } else {
        Ok(())
    }
}

/// Where the reading of an answer stands, with text as sequences of characters.
pub enum StateView {
    AwaitingResponse,
    ReadingRows { fields: Seq<FieldView>, rows: Seq<RowView> },
    AwaitingReady { outcome: OutcomeView },
}

/// Where the reading of an answer stands: before its first message, among the
/// data rows of a result set, or before the message that ends it.
#[derive(Clone, Debug, PartialEq)]
pub enum QueryState {
    AwaitingResponse,
    ReadingRows { fields: Vec<DatabaseRowDescription>, rows: Vec<Row> },
    AwaitingReady { outcome: QueryOutcome },
}

impl View for QueryState {
    type V = StateView;

    open spec fn view(&self) -> StateView {
        match self {
            QueryState::AwaitingResponse => StateView::AwaitingResponse,
            QueryState::ReadingRows { fields, rows } => StateView::ReadingRows {
                fields: fields_view(fields@),
                rows: rows_view(rows@),
            },
            QueryState::AwaitingReady { outcome } => StateView::AwaitingReady { outcome: outcome@ },
        }
    }
}

impl QueryState {
    /// Whether the rows read so far keep their invariant.
    pub open spec fn wf(&self) -> bool {
        match self {
            QueryState::AwaitingResponse => true,
            QueryState::ReadingRows { fields, rows } => rows_wf(rows@),
            QueryState::AwaitingReady { outcome } => outcome.wf(),
        }
    }
}

/// What one message does to the reading of an answer, with text as sequences
/// of characters.
pub enum StepView {
    Continue(StateView),
    Finished(OutcomeView),
    Failed(ProtocolError),
}

/// What one message does to the reading of an answer: it goes on in a new
/// state, ends with the outcome of the query, or fails.
#[derive(Clone, Debug, PartialEq)]
pub enum QueryStep {
    Continue(QueryState),
    Finished(QueryOutcome),
    Failed(ProtocolError),
}

impl View for QueryStep {
    type V = StepView;

    open spec fn view(&self) -> StepView {
        match self {
            QueryStep::Continue(state) => StepView::Continue(state@),
            QueryStep::Finished(outcome) => StepView::Finished(outcome@),
            QueryStep::Failed(e) => StepView::Failed(*e),
        }
    }
}

impl QueryStep {
    /// Whether the rows that the step carries keep their invariant.
    pub open spec fn wf(&self) -> bool {
        match self {
            QueryStep::Continue(state) => state.wf(),
            QueryStep::Finished(outcome) => outcome.wf(),
            QueryStep::Failed(_) => true,
        }
    }
}

/// What the first message of an answer leads to. An error response gives the
/// outcome `Error` with its body; a command completion gives the outcome
/// `CommandTag`; a row description opens a result set, if `policy` takes its
/// fields. Any other tag fails.
pub open spec fn first_step(policy: TypePolicy, tag: u8, body: Seq<u8>) -> StepView {
    if tag == 0x45 {
        StepView::Continue(StateView::AwaitingReady { outcome: OutcomeView::Error(body) })
    } else if tag == 0x43 {
        match command_tag_of(body) {
            Ok(text) => StepView::Continue(
                StateView::AwaitingReady { outcome: OutcomeView::CommandTag(text) },
            ),
            Err(e) => StepView::Failed(e),
        }
    } else if tag == 0x54 {
        match fields_of(body) {
            Ok(fields) => if accepts_fields(policy, fields) {
                StepView::Continue(StateView::ReadingRows { fields, rows: Seq::empty() })
            } else {
                StepView::Failed(ProtocolError::UnknownType)
            },
            Err(e) => StepView::Failed(e),
        }
    } else {
        StepView::Failed(ProtocolError::UnexpectedTag)
    }
}

/// What a message leads to among the rows of a result set. A data row is
/// decoded and appended; a command completion ends the rows, which are the
/// outcome; an answer to an empty query gives the outcome `EmptyQuery`. Any
/// other tag fails.
pub open spec fn row_step(fields: Seq<FieldView>, rows: Seq<RowView>, tag: u8, body: Seq<u8>) -> StepView {
    if tag == 0x44 {
        match data_row_of(fields, body) {
            Ok(row) => StepView::Continue(StateView::ReadingRows { fields, rows: rows.push(row) }),
            Err(e) => StepView::Failed(e),
        }
    } else if tag == 0x43 {
        match text_of(body) {
            Some(_) => StepView::Continue(
                StateView::AwaitingReady { outcome: OutcomeView::Rows(rows) },
            ),
            None => StepView::Failed(ProtocolError::InvalidText),
        }
    } else if tag == 0x49 {
        StepView::Continue(StateView::AwaitingReady { outcome: OutcomeView::EmptyQuery })
    } else {
        StepView::Failed(ProtocolError::UnexpectedTag)
    }
}

/// What the message after the last one of an answer leads to: the outcome,
/// where it says that the server is ready and the connection idle.
pub open spec fn last_step(outcome: OutcomeView, tag: u8, body: Seq<u8>) -> StepView {
    match ready_fault(tag, body) {
        Some(e) => StepView::Failed(e),
        None => StepView::Finished(outcome),
    }
}

/// What the message with `tag` and `body` leads to in `state`.
pub open spec fn next_step(policy: TypePolicy, state: StateView, tag: u8, body: Seq<u8>) -> StepView {
    match state {
        StateView::AwaitingResponse => first_step(policy, tag, body),
        StateView::ReadingRows { fields, rows } => row_step(fields, rows, tag, body),
        StateView::AwaitingReady { outcome } => last_step(outcome, tag, body),
    }
}

/// Takes the first message of an answer.
pub fn read_query_response(policy: TypePolicy, message: &Message) -> (step: QueryStep)
    ensures
        step@ == first_step(policy, message.tag, message.body@),
        step.wf(),
{
    if message.tag == TAG_ERROR {
        let payload = message.body.clone();
        QueryStep::Continue(QueryState::AwaitingReady { outcome: QueryOutcome::Error(payload) })
    } else if message.tag == TAG_COMMAND_COMPLETE {
        match read_complete_command(message.body.as_slice()) {
            Ok(text) => QueryStep::Continue(
                QueryState::AwaitingReady { outcome: QueryOutcome::CommandTag(text) },
            ),
            Err(e) => QueryStep::Failed(e),
        }
    } else if message.tag == TAG_ROW_DESCRIPTION {
        match parse_row_description(message.body.as_slice()) {
            Ok(fields) => {
                if !check_types(policy, &fields) {
                    return QueryStep::Failed(ProtocolError::UnknownType);
                }
                let rows: Vec<Row> = Vec::new();
                assert(rows_view(rows@) =~= Seq::<RowView>::empty());
                QueryStep::Continue(QueryState::ReadingRows { fields, rows })
            },
            Err(e) => QueryStep::Failed(e),
        }
    } else {
        QueryStep::Failed(ProtocolError::UnexpectedTag)
    }
}

/// Takes one message among the rows of a result set.
pub fn read_rows(fields: Vec<DatabaseRowDescription>, rows: Vec<Row>, message: &Message) -> (step:
    QueryStep)
    requires
        rows_wf(rows@),
    ensures
        step@ == row_step(fields_view(fields@), rows_view(rows@), message.tag, message.body@),
        step.wf(),
{
    if message.tag == TAG_DATA_ROW {
        match parse_data_row(&fields, message.body.as_slice()) {
            Ok(row) => {
                let mut rows = rows;
                let ghost before = rows@;
                rows.push(row);
                assert(rows_view(rows@) =~= rows_view(before).push(row_view(row)));
                QueryStep::Continue(QueryState::ReadingRows { fields, rows })
            },
            Err(e) => QueryStep::Failed(e),
        }
    } else if message.tag == TAG_COMMAND_COMPLETE {
        match bytes_to_string(message.body.as_slice()) {
            Some(_) => QueryStep::Continue(
                QueryState::AwaitingReady { outcome: QueryOutcome::Rows(rows) },
            ),
            None => QueryStep::Failed(ProtocolError::InvalidText),
        }
    } else if message.tag == TAG_EMPTY_QUERY {
        QueryStep::Continue(QueryState::AwaitingReady { outcome: QueryOutcome::EmptyQuery })
    } else {
        QueryStep::Failed(ProtocolError::UnexpectedTag)
    }
}

/// Takes the next message of an answer in `state`.
pub fn advance(policy: TypePolicy, state: QueryState, message: &Message) -> (step: QueryStep)
    requires
        state.wf(),
    ensures
        step@ == next_step(policy, state@, message.tag, message.body@),
        step.wf(),
{
    match state {
        QueryState::AwaitingResponse => read_query_response(policy, message),
        QueryState::ReadingRows { fields, rows } => read_rows(fields, rows, message),
        QueryState::AwaitingReady { outcome } => match read_ready_command(message) {
            Ok(()) => QueryStep::Finished(outcome),
            Err(e) => QueryStep::Failed(e),
        },
    }
}

/// The outcome of the answer whose messages from `index` on are still to be
/// read in `state`. The answer must end with the message that finishes it: one
/// that stops short is incomplete, and one that goes on is out of order.
pub open spec fn answer_from(
    policy: TypePolicy,
    state: StateView,
    messages: Seq<Message>,
    index: int,
) -> Result<
    OutcomeView,
    ProtocolError,
>
    decreases messages.len() - index,
{
    if index >= messages.len() {
        Err(ProtocolError::Incomplete)
    } else {
        match next_step(policy, state, messages[index].tag, messages[index].body@) {
            StepView::Continue(next) => answer_from(policy, next, messages, index + 1),
            StepView::Finished(outcome) => if index + 1 == messages.len() {
                Ok(outcome)
            } else {
                Err(ProtocolError::OutOfOrder)
            },
            StepView::Failed(e) => Err(e),
        }
    }
}

/// The outcome of a whole answer.
pub open spec fn answer_of(policy: TypePolicy, messages: Seq<Message>) -> Result<
    OutcomeView,
    ProtocolError,
> {
    answer_from(policy, StateView::AwaitingResponse, messages, 0)
}

/// Reads a whole answer, message by message, into the outcome of the query.
pub fn read_response(policy: TypePolicy, messages: &Vec<Message>) -> (result: Result<
    QueryOutcome,
    ProtocolError,
>)
    ensures
        match answer_of(policy, messages@) {
            Ok(outcome) => result is Ok && result->Ok_0@ == outcome && result->Ok_0.wf(),
            Err(e) => result == Err::<QueryOutcome, ProtocolError>(e),
        },
{
    let mut state = QueryState::AwaitingResponse;
    let mut i: usize = 0;
    while i < messages.len()
        invariant
            i <= messages@.len(),
            state.wf(),
            answer_of(policy, messages@) == answer_from(policy, state@, messages@, i as int),
        decreases messages@.len() - i,
    {
        match advance(policy, state, &messages[i]) {
            QueryStep::Continue(next) => {
                state = next;
            },
            QueryStep::Finished(outcome) => {
                if i + 1 == messages.len() {
                    return Ok(outcome);
                } else {
                    return Err(ProtocolError::OutOfOrder);
                }
            },
            QueryStep::Failed(e) => {
                return Err(e);
            },
        }
        i += 1;
    }
    Err(ProtocolError::Incomplete)
}

/// Whether an answer read in `state` can only come to rows or to an empty query.
pub open spec fn in_result_set(state: StateView) -> bool {
    match state {
        StateView::AwaitingResponse => false,
        StateView::ReadingRows { fields, rows } => true,
        StateView::AwaitingReady { outcome } => outcome is Rows || outcome is EmptyQuery,
    }
}

/// Once a result set is open, the answer comes to its rows or to an empty
/// query, whatever follows.
pub proof fn lemma_result_set_stays(
    policy: TypePolicy,
    state: StateView,
    messages: Seq<Message>,
    index: int,
)
    requires
        in_result_set(state),
        0 <= index,
        answer_from(policy, state, messages, index) is Ok,
    ensures
        answer_from(policy, state, messages, index)->Ok_0 is Rows || answer_from(
            policy,
            state,
            messages,
            index,
        )->Ok_0 is EmptyQuery,
    decreases messages.len() - index,
{
    if index < messages.len() {
        match next_step(policy, state, messages[index].tag, messages[index].body@) {
            StepView::Continue(next) => {
                lemma_result_set_stays(policy, next, messages, index + 1);
            },
            _ => {},
        }
    }
}

/// An answer that begins with a row description never comes to a command
/// tag: a statement with a result set gives rows, be they none, or the
/// outcome of an empty query.
pub proof fn lemma_row_description_gives_rows(policy: TypePolicy, messages: Seq<Message>)
    requires
        messages.len() > 0,
        messages[0].tag == 0x54,
        answer_of(policy, messages) is Ok,
    ensures
        answer_of(policy, messages)->Ok_0 is Rows || answer_of(policy, messages)->Ok_0 is EmptyQuery,
{
    match first_step(policy, messages[0].tag, messages[0].body@) {
        StepView::Continue(next) => {
            lemma_result_set_stays(policy, next, messages, 1);
        },
        _ => {},
    }
}

/// A row description without data rows gives the outcome `Rows` with no row.
pub proof fn lemma_no_data_rows(policy: TypePolicy, messages: Seq<Message>)
    requires
        messages.len() == 3,
        messages[0].tag == 0x54,
        messages[1].tag == 0x43,
        answer_of(policy, messages) is Ok,
    ensures
        answer_of(policy, messages)->Ok_0 == OutcomeView::Rows(Seq::empty()),
{
    match first_step(policy, messages[0].tag, messages[0].body@) {
        StepView::Continue(next) => {
            assert(answer_of(policy, messages) == answer_from(policy, next, messages, 1));
            match next_step(policy, next, messages[1].tag, messages[1].body@) {
                StepView::Continue(last) => {
                    assert(answer_from(policy, next, messages, 1) == answer_from(policy, last, messages, 2));
                    assert(answer_from(policy, last, messages, 3) is Err);
                },
                _ => {},
            }
        },
        _ => {},
    }
}

/// An answer that begins with a command completion comes to the command tag
/// that this message holds, never to rows.
pub proof fn lemma_command_complete_gives_tag(policy: TypePolicy, messages: Seq<Message>)
    requires
        messages.len() > 0,
        messages[0].tag == 0x43,
        answer_of(policy, messages) is Ok,
    ensures
        command_tag_of(messages[0].body@) is Ok,
        answer_of(policy, messages)->Ok_0 == OutcomeView::CommandTag(
            command_tag_of(messages[0].body@)->Ok_0,
        ),
{
    match first_step(policy, messages[0].tag, messages[0].body@) {
        StepView::Continue(next) => {
            assert(answer_of(policy, messages) == answer_from(policy, next, messages, 1));
        },
        _ => {},
    }
}

/// An error response leaves the connection usable: followed by the message
/// that says the server is ready and the connection idle, it comes to the
/// outcome `Error` with the body of the response.
pub proof fn lemma_error_response(policy: TypePolicy, messages: Seq<Message>)
    requires
        messages.len() == 2,
        messages[0].tag == 0x45,
        ready_fault(messages[1].tag, messages[1].body@) is None,
    ensures
        answer_of(policy, messages) == Ok::<OutcomeView, ProtocolError>(
            OutcomeView::Error(messages[0].body@),
        ),
{
    let next = StateView::AwaitingReady { outcome: OutcomeView::Error(messages[0].body@) };
    assert(answer_from(policy, next, messages, 1) == Ok::<OutcomeView, ProtocolError>(
        OutcomeView::Error(messages[0].body@),
    ));
}

} // verus!
