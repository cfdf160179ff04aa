//! The handshake of a new connection: the startup and password messages, the
//! checks on the server's answers, and the sequence that leads to a
//! connection that is ready for queries.

use vstd::prelude::*;
use crate::error::ProtocolError;
use crate::framing::add_i16_as_be_bytes_to_vec;
use crate::framing::add_str_as_bytes_to_vec;
use crate::framing::be16;
use crate::framing::encode;
use crate::framing::encode_untagged;
use crate::framing::encoded;
use crate::framing::encoded_untagged;
use crate::framing::from_be32;
use crate::framing::read_i32;
use crate::framing::text_bytes;
use crate::framing::Message;
use crate::framing::MAX_BODY_LEN;

verus! {

/// The tag of a password message.
pub const TAG_PASSWORD: u8 = 0x70;

/// The tag of an authentication request and of its result.
pub const TAG_AUTHENTICATION: u8 = 0x52;

/// The tag of a parameter status.
pub const TAG_PARAMETER_STATUS: u8 = 0x53;

/// The tag of the backend's key data.
pub const TAG_BACKEND_KEY_DATA: u8 = 0x4b;

/// The tag of the message that says the server is ready for a query.
pub const TAG_READY_FOR_QUERY: u8 = 0x5a;

/// The authentication code that asks for a cleartext password.
pub const AUTH_CLEARTEXT_PASSWORD: i32 = 3;

/// The authentication code that accepts the password.
pub const AUTH_OK: i32 = 0;

/// The ASCII bytes of the key `user`.
pub open spec fn key_user() -> Seq<u8> {
    seq![0x75u8, 0x73u8, 0x65u8, 0x72u8]
}

/// The ASCII bytes of the key `database`.
pub open spec fn key_database() -> Seq<u8> {
    seq![0x64u8, 0x61u8, 0x74u8, 0x61u8, 0x62u8, 0x61u8, 0x73u8, 0x65u8]
}

/// The body of a startup message: protocol version 3.0 as two 16-bit
/// integers, the keys `user` and `database` each with its value, every key
/// and value ended by a zero byte, and one more zero byte at the end.
pub open spec fn startup_body(user: Seq<char>, database: Seq<char>) -> Seq<u8> {
    be16(3) + be16(0) + key_user() + seq![0u8] + text_bytes(user) + seq![0u8] + key_database()
        + seq![0u8] + text_bytes(database) + seq![0u8] + seq![0u8]
}

/// The bytes of a startup message: it has no tag, and its length field counts
/// itself and the body.
pub open spec fn startup_bytes(user: Seq<char>, database: Seq<char>) -> Seq<u8> {
    encoded_untagged(startup_body(user, database))
}

/// What building a message gives: its bytes, or the refusal of a body that is
/// too long for one message.
pub open spec fn built_as(result: Result<Vec<u8>, ProtocolError>, body_len: nat, bytes: Seq<u8>) -> bool {
    if body_len <= MAX_BODY_LEN {
        result is Ok && result->Ok_0@ == bytes
    } else {
        result == Err::<Vec<u8>, ProtocolError>(ProtocolError::MessageTooLong)
    }
}

/// Builds the startup message for `user` and `database`.
pub fn send_startup(user: &str, database: &str) -> (result: Result<Vec<u8>, ProtocolError>)
    ensures
        built_as(result, startup_body(user@, database@).len(), startup_bytes(user@, database@)),
{
    let user_bytes = user.as_bytes();
    let database_bytes = database.as_bytes();
    if user_bytes.len() > MAX_BODY_LEN - 21 || database_bytes.len() > MAX_BODY_LEN - 21
        - user_bytes.len() {
        return Err(ProtocolError::MessageTooLong);
    }
    let mut body: Vec<u8> = Vec::new();
    add_i16_as_be_bytes_to_vec(3, &mut body);
    add_i16_as_be_bytes_to_vec(0, &mut body);
    body.push(0x75);
    body.push(0x73);
    body.push(0x65);
    body.push(0x72);
    body.push(0);
    add_str_as_bytes_to_vec(user, &mut body);
    body.push(0);
    body.push(0x64);
    body.push(0x61);
    body.push(0x74);
    body.push(0x61);
    body.push(0x62);
    body.push(0x61);
    body.push(0x73);
    body.push(0x65);
    body.push(0);
    add_str_as_bytes_to_vec(database, &mut body);
    body.push(0);
    body.push(0);
    assert(body@ =~= startup_body(user@, database@));
    encode_untagged(body.as_slice())
}

/// The bytes of a password message: the tag `p`, then the password and a zero
/// byte as the body.
pub open spec fn password_bytes(password: Seq<char>) -> Seq<u8> {
    encoded(0x70, text_bytes(password) + seq![0u8])
}

/// Builds the password message for `password`.
pub fn send_password(password: &str) -> (result: Result<Vec<u8>, ProtocolError>)
    ensures
        built_as(result, text_bytes(password@).len() + 1, password_bytes(password@)),
{
    let text = password.as_bytes();
    if text.len() >= MAX_BODY_LEN {
        return Err(ProtocolError::MessageTooLong);
    }
    let mut body: Vec<u8> = Vec::new();
    add_str_as_bytes_to_vec(password, &mut body);
    body.push(0);
    assert(body@ =~= text_bytes(password@) + seq![0u8]);
    encode(TAG_PASSWORD, body.as_slice())
}

/// What is wrong with an authentication message that should carry `code`:
/// another tag, a length other than 8, or another code, for which `refusal`
/// stands.
pub open spec fn authentication_fault(tag: u8, body: Seq<u8>, code: int, refusal: ProtocolError) -> Option<
    ProtocolError,
> {
    if tag != 0x52 {
        Some(ProtocolError::UnexpectedTag)
    } else if body.len() != 4 {
        Some(ProtocolError::WrongLength)
    } else if from_be32(body) != code {
        Some(refusal)
    } else {
        None
    }
}

/// Whether a check came to what `fault` says.
pub open spec fn checked_as(result: Result<(), ProtocolError>, fault: Option<ProtocolError>) -> bool {
    match fault {
        Some(e) => result == Err::<(), ProtocolError>(e),
        None => result == Ok::<(), ProtocolError>(()),
    }
}

/// Checks an authentication message against the code that it must carry.
fn check_authentication(message: &Message, code: i32, refusal: ProtocolError) -> (result: Result<
    (),
    ProtocolError,
>)
    ensures
        checked_as(
            result,
            authentication_fault(message.tag, message.body@, code as int, refusal),
        ),
{
    if message.tag != TAG_AUTHENTICATION {
        return Err(ProtocolError::UnexpectedTag);
    }
    if message.body.len() != 4 {
        return Err(ProtocolError::WrongLength);
    }
    let found: i32 = read_i32(message.body.as_slice(), 0);
    assert(message.body@.subrange(0, 4) =~= message.body@);
    if found != code {
        return Err(refusal);
    }
    Ok(())
}

/// Checks the server's first answer: it must ask for a cleartext password,
/// with the tag `R`, the length 8 and the code 3. No other method of
/// authentication is supported.
pub fn read_authentication_method(message: &Message) -> (result: Result<(), ProtocolError>)
    ensures
        checked_as(
            result,
            authentication_fault(
                message.tag,
                message.body@,
                3,
                ProtocolError::UnsupportedAuthentication,
            ),
        ),
{
    check_authentication(
        message,
        AUTH_CLEARTEXT_PASSWORD,
        ProtocolError::UnsupportedAuthentication,
    )
}

/// Checks the server's answer to the password: it must accept it, with the
/// tag `R`, the length 8 and the code 0.
pub fn read_authentication_response(message: &Message) -> (result: Result<(), ProtocolError>)
    ensures
        checked_as(
            result,
            authentication_fault(
                message.tag,
                message.body@,
                0,
                ProtocolError::AuthenticationRejected,
            ),
        ),
{
    check_authentication(message, AUTH_OK, ProtocolError::AuthenticationRejected)
}

/// What a message after the authentication says: `true` where the server is
/// ready for a query, `false` where it is a parameter status or key data to
/// pass over, and a failure for any other tag.
pub open spec fn parameter_of(tag: u8) -> Result<bool, ProtocolError> {
    if tag == 0x5a {
        Ok(true)
    } else if tag == 0x53 || tag == 0x4b {
        Ok(false)
    } else {
        Err(ProtocolError::UnexpectedTag)
    }
}

/// Takes one message after the authentication. Its body is not looked at.
pub fn read_parameters(message: &Message) -> (result: Result<bool, ProtocolError>)
    ensures
        result == parameter_of(message.tag),
{
    if message.tag == TAG_READY_FOR_QUERY {
        Ok(true)
    } else if message.tag == TAG_PARAMETER_STATUS || message.tag == TAG_BACKEND_KEY_DATA {
        Ok(false)
    } else {
        Err(ProtocolError::UnexpectedTag)
    }
}

/// What a connection is opened with.
#[derive(Clone, Debug, PartialEq)]
pub struct ConnectionParameters {
    pub host: String,
    pub port: u16,
    pub user: String,
    pub password: String,
    pub database: String,
}

/// Where a handshake stands.
#[derive(Clone, Copy, Debug, PartialEq, Eq, Structural)]
pub enum HandshakeState {
    Connecting,
    StartupSent,
    AwaitingAuthRequest,
    PasswordSent,
    AwaitingAuthResult,
    AwaitingBackendParams,
    Ready,
    Failed,
}

/// What happened on the connection, with bytes as a sequence.
pub enum EventView {
    Connected,
    Sent,
    Received(u8, Seq<u8>),
}

/// What happened on the connection: it was opened, the bytes handed out were
/// written, or a message arrived.
#[derive(Clone, Debug, PartialEq)]
pub enum HandshakeEvent {
    Connected,
    Sent,
    Received(Message),
}

impl View for HandshakeEvent {
    type V = EventView;

    open spec fn view(&self) -> EventView {
        match self {
            HandshakeEvent::Connected => EventView::Connected,
            HandshakeEvent::Sent => EventView::Sent,
            HandshakeEvent::Received(message) => EventView::Received(message.tag, message.body@),
        }
    }
}

/// What is to be done next on the connection, with bytes as a sequence.
pub enum ActionView {
    Send(Seq<u8>),
    Receive,
    Finish,
    Abort(ProtocolError),
}

/// What is to be done next on the connection: write these bytes, read one
/// message, hand the connection over as ready, or give it up.
#[derive(Clone, Debug, PartialEq)]
pub enum HandshakeAction {
    Send(Vec<u8>),
    Receive,
    Finish,
    Abort(ProtocolError),
}

impl View for HandshakeAction {
    type V = ActionView;

    open spec fn view(&self) -> ActionView {
        match self {
            HandshakeAction::Send(bytes) => ActionView::Send(bytes@),
            HandshakeAction::Receive => ActionView::Receive,
            HandshakeAction::Finish => ActionView::Finish,
            HandshakeAction::Abort(e) => ActionView::Abort(*e),
        }
    }
}

/// The state and the action after a message was to be built: to send it, or
/// to fail where it is too long.
pub open spec fn sending(next: HandshakeState, body_len: nat, bytes: Seq<u8>) -> (
    HandshakeState,
    ActionView,
) {
    if body_len <= MAX_BODY_LEN {
        (next, ActionView::Send(bytes))
    } else {
        (HandshakeState::Failed, ActionView::Abort(ProtocolError::MessageTooLong))
    }
}

/// The state and the action that follow a failure.
pub open spec fn failing(e: ProtocolError) -> (HandshakeState, ActionView) {
    (HandshakeState::Failed, ActionView::Abort(e))
}

/// The state that follows `state` on `event`, and what is to be done then.
/// The handshake goes one way through its states and has one attempt: an event
/// that the state does not expect, or an answer that a check refuses, fails
/// it for good.
pub open spec fn step_of(
    state: HandshakeState,
    user: Seq<char>,
    password: Seq<char>,
    database: Seq<char>,
    event: EventView,
) -> (HandshakeState, ActionView) {
    match (state, event) {
        (HandshakeState::Connecting, EventView::Connected) => sending(
            HandshakeState::StartupSent,
            startup_body(user, database).len(),
            startup_bytes(user, database),
        ),
        (HandshakeState::StartupSent, EventView::Sent) => (
            HandshakeState::AwaitingAuthRequest,
            ActionView::Receive,
        ),
        (HandshakeState::AwaitingAuthRequest, EventView::Received(tag, body)) => {
            match authentication_fault(tag, body, 3, ProtocolError::UnsupportedAuthentication) {
                Some(e) => failing(e),
                None => sending(
                    HandshakeState::PasswordSent,
                    text_bytes(password).len() + 1,
                    password_bytes(password),
                ),
            }
        },
        (HandshakeState::PasswordSent, EventView::Sent) => (
            HandshakeState::AwaitingAuthResult,
            ActionView::Receive,
        ),
        (HandshakeState::AwaitingAuthResult, EventView::Received(tag, body)) => {
            match authentication_fault(tag, body, 0, ProtocolError::AuthenticationRejected) {
                Some(e) => failing(e),
                None => (HandshakeState::AwaitingBackendParams, ActionView::Receive),
            }
        },
        (HandshakeState::AwaitingBackendParams, EventView::Received(tag, body)) => {
            match parameter_of(tag) {
                Ok(true) => (HandshakeState::Ready, ActionView::Finish),
                Ok(false) => (HandshakeState::AwaitingBackendParams, ActionView::Receive),
                Err(e) => failing(e),
            }
        },
        _ => failing(ProtocolError::OutOfOrder),
    }
}

/// The state and the action for a message that was to be built.
fn send_or_fail(next: HandshakeState, built: Result<Vec<u8>, ProtocolError>) -> (step: (
    HandshakeState,
    HandshakeAction,
))
    ensures
        built is Ok ==> step.0 == next && step.1@ == ActionView::Send(built->Ok_0@),
        built is Err ==> step.0 == HandshakeState::Failed && step.1@ == ActionView::Abort(
            built->Err_0,
        ),
{
    match built {
        Ok(bytes) => (next, HandshakeAction::Send(bytes)),
        Err(e) => (HandshakeState::Failed, HandshakeAction::Abort(e)),
    }
}

/// Takes the handshake one step on: gives the state that follows `state` on
/// `event`, and what is to be done on the connection then.
pub fn handshake_step(
    state: HandshakeState,
    parameters: &ConnectionParameters,
    event: &HandshakeEvent,
) -> (step: (HandshakeState, HandshakeAction))
    ensures
        step.0 == step_of(
            state,
            parameters.user@,
            parameters.password@,
            parameters.database@,
            event@,
        ).0,
        step.1@ == step_of(
            state,
            parameters.user@,
            parameters.password@,
            parameters.database@,
            event@,
        ).1,
{
    match (state, event) {
        (HandshakeState::Connecting, HandshakeEvent::Connected) => send_or_fail(
            HandshakeState::StartupSent,
            send_startup(parameters.user.as_str(), parameters.database.as_str()),
        ),
        (HandshakeState::StartupSent, HandshakeEvent::Sent) => (
            HandshakeState::AwaitingAuthRequest,
            HandshakeAction::Receive,
        ),
        (HandshakeState::AwaitingAuthRequest, HandshakeEvent::Received(message)) => {
            match read_authentication_method(message) {
                Err(e) => (HandshakeState::Failed, HandshakeAction::Abort(e)),
                Ok(()) => send_or_fail(
                    HandshakeState::PasswordSent,
                    send_password(parameters.password.as_str()),
                ),
            }
        },
        (HandshakeState::PasswordSent, HandshakeEvent::Sent) => (
            HandshakeState::AwaitingAuthResult,
            HandshakeAction::Receive,
        ),
        (HandshakeState::AwaitingAuthResult, HandshakeEvent::Received(message)) => {
            match read_authentication_response(message) {
                Err(e) => (HandshakeState::Failed, HandshakeAction::Abort(e)),
                Ok(()) => (HandshakeState::AwaitingBackendParams, HandshakeAction::Receive),
            }
        },
        (HandshakeState::AwaitingBackendParams, HandshakeEvent::Received(message)) => {
            match read_parameters(message) {
                Ok(true) => (HandshakeState::Ready, HandshakeAction::Finish),
                Ok(false) => (HandshakeState::AwaitingBackendParams, HandshakeAction::Receive),
                Err(e) => (HandshakeState::Failed, HandshakeAction::Abort(e)),
            }
        },
        _ => (HandshakeState::Failed, HandshakeAction::Abort(ProtocolError::OutOfOrder)),
    }
}

/// An authentication request with a code other than 3 fails the handshake:
/// no password is sent.
pub proof fn lemma_other_method_rejected(
    user: Seq<char>,
    password: Seq<char>,
    database: Seq<char>,
    tag: u8,
    body: Seq<u8>,
)
    requires
        body.len() != 4 || from_be32(body) != 3,
    ensures
        step_of(
            HandshakeState::AwaitingAuthRequest,
            user,
            password,
            database,
            EventView::Received(tag, body),
        ).0 == HandshakeState::Failed,
        step_of(
            HandshakeState::AwaitingAuthRequest,
            user,
            password,
            database,
            EventView::Received(tag, body),
        ).1 is Abort,
{
}

/// An authentication result with a code other than 0 fails the handshake: no
/// further message is read.
pub proof fn lemma_refusal_rejected(
    user: Seq<char>,
    password: Seq<char>,
    database: Seq<char>,
    tag: u8,
    body: Seq<u8>,
)
    requires
        body.len() != 4 || from_be32(body) != 0,
    ensures
        step_of(
            HandshakeState::AwaitingAuthResult,
            user,
            password,
            database,
            EventView::Received(tag, body),
        ).0 == HandshakeState::Failed,
        step_of(
            HandshakeState::AwaitingAuthResult,
            user,
            password,
            database,
            EventView::Received(tag, body),
        ).1 is Abort,
{
}

/// A handshake that has failed goes no further: whatever happens, it stays
/// failed, and nothing is sent or read for it.
pub proof fn lemma_failed_stays(
    user: Seq<char>,
    password: Seq<char>,
    database: Seq<char>,
    event: EventView,
)
    ensures
        step_of(HandshakeState::Failed, user, password, database, event).0
            == HandshakeState::Failed,
        step_of(HandshakeState::Failed, user, password, database, event).1 is Abort,
{
}

/// Every step that gives up the connection leaves the handshake failed, and
/// only such a step does.
pub proof fn lemma_abort_is_failure(
    state: HandshakeState,
    user: Seq<char>,
    password: Seq<char>,
    database: Seq<char>,
    event: EventView,
)
    ensures
        step_of(state, user, password, database, event).1 is Abort <==> step_of(
            state,
            user,
            password,
            database,
            event,
        ).0 == HandshakeState::Failed,
        step_of(state, user, password, database, event).1 is Finish <==> step_of(
            state,
            user,
            password,
            database,
            event,
        ).0 == HandshakeState::Ready,
{
}

/// The place of a state in the sequence of the handshake.
pub open spec fn stage(state: HandshakeState) -> int {
    match state {
        HandshakeState::Connecting => 0,
        HandshakeState::StartupSent => 1,
        HandshakeState::AwaitingAuthRequest => 2,
        HandshakeState::PasswordSent => 3,
        HandshakeState::AwaitingAuthResult => 4,
        HandshakeState::AwaitingBackendParams => 5,
        HandshakeState::Ready => 6,
        HandshakeState::Failed => 7,
    }
}

/// The handshake is strictly sequential and has one attempt: a step fails it
/// or takes it to the next state of the sequence, and only the wait for the
/// backend's parameters is a state that a step may stay in.
pub proof fn lemma_strictly_sequential(
    state: HandshakeState,
    user: Seq<char>,
    password: Seq<char>,
    database: Seq<char>,
    event: EventView,
)
    ensures
        ({
            let next = step_of(state, user, password, database, event).0;
            ||| next == HandshakeState::Failed
            ||| stage(next) == stage(state) + 1
            ||| next == state && state == HandshakeState::AwaitingBackendParams
        }),
{
}

/// The password is sent only in answer to a request for a cleartext password,
/// and nothing else is ever sent after the startup message.
pub proof fn lemma_password_only_on_request(
    state: HandshakeState,
    user: Seq<char>,
    password: Seq<char>,
    database: Seq<char>,
    event: EventView,
)
    requires
        step_of(state, user, password, database, event).1 is Send,
        state != HandshakeState::Connecting,
    ensures
        state == HandshakeState::AwaitingAuthRequest,
        event is Received,
        authentication_fault(
            event->Received_0,
            event->Received_1,
            3,
            ProtocolError::UnsupportedAuthentication,
        ) is None,
        step_of(state, user, password, database, event).1 == ActionView::Send(
            password_bytes(password),
        ),
{
}

} // verus!
