//! The decisions of the request handlers for logging on: what is asked of
//! the database, and what the rows that it gives back are answered with.

use vstd::prelude::*;
use crate::chars::append_chars;
use crate::chars::to_chars;
use crate::json::natural_text;
use crate::json::push_natural;
use crate::query::OutcomeView;
use crate::query::QueryOutcome;
use crate::rows::row_view;
use crate::rows::rows_view;
use crate::rows::rows_wf;
use crate::rows::Row;
use crate::rows::RowView;
use crate::text::str_equal;
use crate::textmap::TextMap;
use crate::token::generate_token;
use crate::token::is_token;
use crate::value::APIValue;
use crate::value::DatabaseValue;
use crate::value::JsonType;
use crate::value::JsonView;
use crate::value::MatchJsonType;
use crate::value::ValueView;

verus! {

/// The fields of a request as a map of their views.
pub open spec fn post_view(post: TextMap<JsonType>) -> Map<Seq<char>, JsonView> {
    Map::new(|k: Seq<char>| post@.contains_key(k), |k: Seq<char>| post@[k]@)
}

/// The text of the field `key`: its value where that is a string, the empty
/// text where it is of another kind, and nothing where the field is missing.
pub open spec fn text_field_of(post: Map<Seq<char>, JsonView>, key: Seq<char>) -> Option<Seq<char>> {
    if !post.contains_key(key) {
        None
    } else {
        match post[key] {
            JsonView::String(s) => Some(s),
            _ => Some(Seq::empty()),
        }
    }
}

/// Reads the text of the field `key` of a request.
pub fn text_field(post: &TextMap<JsonType>, key: &str) -> (text: Option<String>)
    requires
        post.wf(),
    ensures
        text is Some <==> text_field_of(post_view(*post), key@) is Some,
        text is Some ==> text->Some_0@ == text_field_of(post_view(*post), key@)->Some_0,
{
    match post.get(key) {
        None => None,
        Some(JsonType::String(s)) => Some(s.clone()),
        Some(_) => Some(String::new()),
    }
}

/// The truth of the field `key`: its value where that is a boolean, `false`
/// where it is of another kind, and nothing where the field is missing.
pub open spec fn flag_field_of(post: Map<Seq<char>, JsonView>, key: Seq<char>) -> Option<bool> {
    if !post.contains_key(key) {
        None
    } else {
        match post[key] {
            JsonView::Boolean(b) => Some(b),
            _ => Some(false),
        }
    }
}

/// Reads the truth of the field `key` of a request.
pub fn flag_field(post: &TextMap<JsonType>, key: &str) -> (flag: Option<bool>)
    requires
        post.wf(),
    ensures
        flag == flag_field_of(post_view(*post), key@),
{
    match post.get(key) {
        None => None,
        Some(JsonType::Boolean(b)) => Some(*b),
        Some(_) => Some(false),
    }
}

/// The statement `before`, then `value` between single quotes.
pub open spec fn quoted_query(before: Seq<char>, value: Seq<char>) -> Seq<char> {
    before + seq!['\''] + value + seq!['\'']
}

/// Writes the statement `before`, then `value` between single quotes. The
/// value is taken as it is.
pub fn query_with(before: &str, value: &str) -> (query: String)
    ensures
        query@ == quoted_query(before@, value@),
{
    let mut query = String::new();
    append_chars(&mut query, to_chars(before).as_slice());
    let quote: Vec<char> = vec!['\''];
    append_chars(&mut query, quote.as_slice());
    append_chars(&mut query, to_chars(value).as_slice());
    append_chars(&mut query, quote.as_slice());
    assert(query@ =~= quoted_query(before@, value@));
    query
}

/// The statement that looks up the user of a token.
pub open spec fn auth_user_statement(token: Seq<char>) -> Seq<char> {
    quoted_query("SELECT id, username, token FROM users WHERE token = "@, token)
}

/// Writes the statement that looks up the user of a token.
pub fn auth_user_query(token: &str) -> (query: String)
    ensures
        query@ == auth_user_statement(token@),
{
    query_with("SELECT id, username, token FROM users WHERE token = ", token)
}

/// The statement that looks up whether the user of a token is remembered.
pub open spec fn auto_logon_statement(token: Seq<char>) -> Seq<char> {
    quoted_query("SELECT token, rememberlogin FROM users WHERE token = "@, token)
}

/// Writes the statement that looks up whether the user of a token is
/// remembered.
pub fn auto_logon_query(token: &str) -> (query: String)
    ensures
        query@ == auto_logon_statement(token@),
{
    query_with("SELECT token, rememberlogin FROM users WHERE token = ", token)
}

/// The statement that looks up the password of a user.
pub open spec fn logon_statement(user: Seq<char>) -> Seq<char> {
    quoted_query("SELECT id, password FROM users WHERE username = "@, user)
}

/// Writes the statement that looks up the password of a user.
pub fn logon_query(user: &str) -> (query: String)
    ensures
        query@ == logon_statement(user@),
{
    query_with("SELECT id, password FROM users WHERE username = ", user)
}

/// The text of a truth value.
pub open spec fn flag_text(flag: bool) -> Seq<char> {
    if flag {
        "true"@
    } else {
        "false"@
    }
}

/// The statement that stores the token of a user who logged on, with the
/// time of its making in seconds and whether the user is to be remembered.
pub open spec fn token_statement(
    token: Seq<char>,
    made: nat,
    remember: bool,
    user: Seq<char>,
) -> Seq<char> {
    "UPDATE users SET token = '"@ + token + "', tokencrtime = "@ + natural_text(made)
        + ", rememberlogin = "@ + flag_text(remember) + " WHERE username = '"@ + user + "'"@
}

/// Writes the statement that stores the token of a user who logged on.
pub fn token_update(token: &str, made: u64, remember: bool, user: &str) -> (query: String)
    ensures
        query@ == token_statement(token@, made as nat, remember, user@),
{
    let mut query = String::new();
    append_chars(&mut query, to_chars("UPDATE users SET token = '").as_slice());
    append_chars(&mut query, to_chars(token).as_slice());
    append_chars(&mut query, to_chars("', tokencrtime = ").as_slice());
    let mut digits: Vec<char> = Vec::new();
    push_natural(&mut digits, made);
    assert(digits@ =~= natural_text(made as nat));
    append_chars(&mut query, digits.as_slice());
    append_chars(&mut query, to_chars(", rememberlogin = ").as_slice());
    if remember {
        append_chars(&mut query, to_chars("true").as_slice());
    } else {
        append_chars(&mut query, to_chars("false").as_slice());
    }
    append_chars(&mut query, to_chars(" WHERE username = '").as_slice());
    append_chars(&mut query, to_chars(user).as_slice());
    append_chars(&mut query, to_chars("'").as_slice());
    assert(query@ =~= token_statement(token@, made as nat, remember, user@));
    query
}

/// The rows that an outcome stands for to a handler: the rows of a result
/// set, one row with the command tag under the name `Complete` for a
/// statement without one, and no rows for an error or an empty query.
pub open spec fn rows_of(outcome: OutcomeView) -> Seq<RowView> {
    match outcome {
        OutcomeView::Rows(rows) => rows,
        OutcomeView::CommandTag(tag) => seq![
            Map::<Seq<char>, Option<ValueView>>::empty().insert(
                "Complete"@,
                Some(ValueView::Varchar(tag)),
            ),
        ],
        OutcomeView::Error(_) => Seq::empty(),
        OutcomeView::EmptyQuery => Seq::empty(),
    }
}

/// Turns the outcome of a query into the rows that a handler works on.
pub fn outcome_rows(outcome: QueryOutcome) -> (rows: Vec<Row>)
    requires
        outcome.wf(),
    ensures
        rows_wf(rows@),
        rows_view(rows@) == rows_of(outcome@),
{
    match outcome {
        QueryOutcome::Rows(rows) => rows,
        QueryOutcome::CommandTag(tag) => {
            let mut row: Row = TextMap::new();
            let ghost before = row;
            row.insert("Complete".to_owned(), Some(DatabaseValue::Varchar(tag)));
            assert(row_view(row) =~= row_view(before).insert(
                "Complete"@,
                Some(ValueView::Varchar(tag@)),
            ));
            assert(row_view(before) =~= Map::<Seq<char>, Option<ValueView>>::empty());
            let mut rows: Vec<Row> = Vec::new();
            rows.push(row);
            assert(rows_view(rows@) =~= rows_of(outcome@));
            rows
        },
        QueryOutcome::Error(_) => {
            let rows: Vec<Row> = Vec::new();
            assert(rows_view(rows@) =~= Seq::<RowView>::empty());
            rows
        },
        QueryOutcome::EmptyQuery => {
            let rows: Vec<Row> = Vec::new();
            assert(rows_view(rows@) =~= Seq::<RowView>::empty());
            rows
        },
    }
}

/// An answer as a map from names to the values that a serializer sees.
pub type AnswerView = Map<Seq<char>, Option<JsonView>>;

/// The view of an answer.
pub open spec fn answer_view(answer: TextMap<Option<APIValue>>) -> AnswerView {
    Map::new(
        |k: Seq<char>| answer@.contains_key(k),
        |k: Seq<char>|
            match answer@[k] {
                Some(v) => Some(v.json()),
                None => None,
            },
    )
}

/// The answer that gives a truth value under `name` and a message.
pub open spec fn reply_of(name: Seq<char>, flag: bool, message: Seq<char>) -> AnswerView {
    Map::<Seq<char>, Option<JsonView>>::empty().insert(
        name,
        Some(JsonView::Boolean(flag)),
    ).insert("Message"@, Some(JsonView::String(message)))
}

/// Makes the answer that gives a truth value under `name` and a message.
pub fn reply(name: &str, flag: bool, message: &str) -> (answer: TextMap<Option<APIValue>>)
    ensures
        answer.wf(),
        answer_view(answer) == reply_of(name@, flag, message@),
{
    let mut answer: TextMap<Option<APIValue>> = TextMap::new();
    let ghost empty = answer;
    answer.insert(name.to_owned(), Some(APIValue::Boolean(flag)));
    let ghost first = answer;
    answer.insert("Message".to_owned(), Some(APIValue::String(message.to_owned())));
    assert(answer_view(empty) =~= Map::<Seq<char>, Option<JsonView>>::empty());
    assert(answer_view(first) =~= answer_view(empty).insert(name@, Some(JsonView::Boolean(flag))));
    assert(answer_view(answer) =~= answer_view(first).insert(
        "Message"@,
        Some(JsonView::String(message@)),
    ));
    answer
}

/// What a handler comes to, with the answer as its view.
pub enum VerdictView {
    Refused,
    Silent,
    Reply(AnswerView),
}

/// What a handler comes to: it gives the request up because the rows lack
/// the column that it needs, it sends nothing, or it sends an answer.
#[derive(Clone, Debug, PartialEq)]
pub enum Verdict {
    Refused,
    Silent,
    Reply(TextMap<Option<APIValue>>),
}

impl View for Verdict {
    type V = VerdictView;

    open spec fn view(&self) -> VerdictView {
        match self {
            Verdict::Refused => VerdictView::Refused,
            Verdict::Silent => VerdictView::Silent,
            Verdict::Reply(answer) => VerdictView::Reply(answer_view(*answer)),
        }
    }
}

impl Verdict {
    /// Whether the answer keeps its invariant.
    pub open spec fn wf(&self) -> bool {
        match self {
            Verdict::Reply(answer) => answer.wf(),
            _ => true,
        }
    }
}

/// What the check of a token comes to. Without rows the user is not
/// authenticated. Else the first row decides: its token must be a text, and
/// the user is authenticated where it is the token of the request.
pub open spec fn auth_user_of(rows: Seq<RowView>, token: Seq<char>) -> VerdictView {
    if rows.len() == 0 {
        VerdictView::Reply(
            reply_of("AuthenticationSuccessfull"@, false, "User could not be authenticated"@),
        )
    } else if !rows[0].contains_key("token"@) {
        VerdictView::Refused
    } else {
        match rows[0]["token"@] {
            Some(ValueView::Varchar(found)) => if found == token {
                VerdictView::Reply(
                    reply_of("AuthenticationSuccessfull"@, true, "User successfully authenticated"@),
                )
            } else {
                VerdictView::Reply(
                    reply_of("AuthenticationSuccessfull"@, false, "User could not be authenticated"@),
                )
            },
            _ => VerdictView::Silent,
        }
    }
}

/// Decides on the check of a token from the rows found for it.
pub fn api_auth_auth_user(data: &Vec<Row>, user_token: &str) -> (verdict: Verdict)
    requires
        rows_wf(data@),
    ensures
        verdict.wf(),
        verdict@ == auth_user_of(rows_view(data@), user_token@),
{
    if data.len() == 0 {
        return Verdict::Reply(
            reply("AuthenticationSuccessfull", false, "User could not be authenticated"),
        );
    }
    assert(rows_view(data@)[0] == row_view(data@[0]));
    match data[0].get("token") {
        None => Verdict::Refused,
        Some(Some(DatabaseValue::Varchar(found))) => {
            if str_equal(found.as_str(), user_token) {
                Verdict::Reply(
                    reply("AuthenticationSuccessfull", true, "User successfully authenticated"),
                )
            } else {
                Verdict::Reply(
                    reply("AuthenticationSuccessfull", false, "User could not be authenticated"),
                )
            }
        },
        Some(_) => Verdict::Silent,
    }
}

/// What logging on by a token comes to. Without rows no user has the token.
/// Else the first row decides: the user is logged on where it says that the
/// user is to be remembered.
pub open spec fn auto_logon_of(rows: Seq<RowView>) -> VerdictView {
    if rows.len() == 0 {
        VerdictView::Reply(
            reply_of("AuthenticationSuccessfull"@, false, "No user found with matching token"@),
        )
    } else if !rows[0].contains_key("rememberlogin"@) {
        VerdictView::Refused
    } else if rows[0]["rememberlogin"@] == Some(ValueView::Boolean(true)) {
        VerdictView::Reply(
            reply_of(
                "AuthenticationSuccessfull"@,
                true,
                "Matching user with token has been found"@,
            ),
        )
    } else {
        VerdictView::Reply(
            reply_of(
                "AuthenticationSuccessfull"@,
                false,
                "Matching user with token has been found, but remember login is not active"@,
            ),
        )
    }
}

/// Decides on logging on by a token from the rows found for it.
pub fn api_login_auto_logon(data: &Vec<Row>) -> (verdict: Verdict)
    requires
        rows_wf(data@),
    ensures
        verdict.wf(),
        verdict@ == auto_logon_of(rows_view(data@)),
{
    if data.len() == 0 {
        return Verdict::Reply(
            reply("AuthenticationSuccessfull", false, "No user found with matching token"),
        );
    }
    assert(rows_view(data@)[0] == row_view(data@[0]));
    let remembered = match data[0].get("rememberlogin") {
        None => {
            return Verdict::Refused;
        },
        Some(Some(DatabaseValue::Boolean(true))) => true,
        Some(_) => false,
    };
    if remembered {
        Verdict::Reply(
            reply("AuthenticationSuccessfull", true, "Matching user with token has been found"),
        )
    } else {
        Verdict::Reply(
            reply(
                "AuthenticationSuccessfull",
                false,
                "Matching user with token has been found, but remember login is not active",
            ),
        )
    }
}

/// The password that a row holds: its text, or the empty text where the
/// column is null or of another type.
pub open spec fn password_of(value: Option<ValueView>) -> Seq<char> {
    match value {
        Some(ValueView::Varchar(password)) => password,
        _ => Seq::empty(),
    }
}

/// Whether the rows found for a user accept a password: `None` where they
/// lack the column, `Some(None)` where no user was found, and else whether
/// the password of the first row is the one given.
pub open spec fn password_check(rows: Seq<RowView>, password: Seq<char>) -> Option<Option<bool>> {
    if rows.len() == 0 {
        Some(None)
    } else if !rows[0].contains_key("password"@) {
        None
    } else {
        Some(Some(password_of(rows[0]["password"@]) == password))
    }
}

/// The answer to a user who logged on: the success and the user's new token.
pub open spec fn accepted_of(token: Seq<char>) -> AnswerView {
    Map::<Seq<char>, Option<JsonView>>::empty().insert(
        "LoginSuccessfull"@,
        Some(JsonView::Boolean(true)),
    ).insert("UserToken"@, Some(JsonView::String(token)))
}

/// What logging on by name and password comes to.
#[derive(Clone, Debug, PartialEq)]
pub enum Logon {
    /// The rows lack the column of the password, and the request is given up.
    Refused,
    /// The user is not logged on, and gets this answer.
    Reply(TextMap<Option<APIValue>>),
    /// The user is logged on: the token is to be stored, and the user gets the answer.
    Accepted { token: String, answer: TextMap<Option<APIValue>> },
}

impl Logon {
    /// Whether the answer keeps its invariant.
    pub open spec fn wf(&self) -> bool {
        match self {
            Logon::Refused => true,
            Logon::Reply(answer) => answer.wf(),
            Logon::Accepted { token, answer } => answer.wf(),
        }
    }

    /// Whether this is what the check of the password asks for: no answer
    /// where the rows lack the column, the answer that the user was not found
    /// or that the password is wrong, or a new token with the answer that
    /// hands it out.
    pub open spec fn follows(&self, check: Option<Option<bool>>) -> bool {
        match check {
            None => *self == Logon::Refused,
            Some(None) => *self is Reply && answer_view(self->Reply_0) == reply_of(
                "LoginSuccessfull"@,
                false,
                "User not found"@,
            ),
            Some(Some(false)) => *self is Reply && answer_view(self->Reply_0) == reply_of(
                "LoginSuccessfull"@,
                false,
                "Incorrect password"@,
            ),
            Some(Some(true)) => *self is Accepted && is_token(self->token@) && answer_view(
                self->answer,
            ) == accepted_of(self->token@),
        }
    }
}

/// Checks a password against the rows found for a user.
pub fn check_password(data: &Vec<Row>, user_pw: &str) -> (check: Option<Option<bool>>)
    requires
        rows_wf(data@),
    ensures
        check == password_check(rows_view(data@), user_pw@),
{
    if data.len() == 0 {
        return Some(None);
    }
    assert(rows_view(data@)[0] == row_view(data@[0]));
    match data[0].get("password") {
        None => None,
        Some(Some(DatabaseValue::Varchar(found))) => Some(Some(str_equal(found.as_str(), user_pw))),
        Some(_) => {
            let nothing = String::new();
            Some(Some(str_equal(nothing.as_str(), user_pw)))
        },
    }
}

/// Makes the answer to a user who logged on and got `token`.
pub fn accepted(token: &str) -> (answer: TextMap<Option<APIValue>>)
    ensures
        answer.wf(),
        answer_view(answer) == accepted_of(token@),
{
    let mut answer: TextMap<Option<APIValue>> = TextMap::new();
    let ghost empty = answer;
    answer.insert("LoginSuccessfull".to_owned(), Some(APIValue::Boolean(true)));
    let ghost first = answer;
    answer.insert("UserToken".to_owned(), Some(APIValue::String(token.to_owned())));
    assert(answer_view(empty) =~= Map::<Seq<char>, Option<JsonView>>::empty());
    assert(answer_view(first) =~= answer_view(empty).insert(
        "LoginSuccessfull"@,
        Some(JsonView::Boolean(true)),
    ));
    assert(answer_view(answer) =~= answer_view(first).insert(
        "UserToken"@,
        Some(JsonView::String(token@)),
    ));
    answer
}

/// What the check of a password is answered with. A password that was
/// accepted gets the token given.
pub fn logon_answer(check: Option<Option<bool>>, token: String) -> (logon: Logon)
    requires
        is_token(token@),
    ensures
        logon.wf(),
        logon.follows(check),
        check == Some(Some(true)) ==> logon->token == token,
{
    match check {
        None => Logon::Refused,
        Some(None) => Logon::Reply(reply("LoginSuccessfull", false, "User not found")),
        Some(Some(false)) => Logon::Reply(reply("LoginSuccessfull", false, "Incorrect password")),
        Some(Some(true)) => {
            let answer = accepted(token.as_str());
            Logon::Accepted { token, answer }
        },
    }
}

/// Decides on logging on by name and password from the rows found for the
/// user. Where the password is the user's, a new token is generated.
pub fn api_login_logon(data: &Vec<Row>, user_pw: &str) -> (logon: Logon)
    requires
        rows_wf(data@),
    ensures
        logon.wf(),
        logon.follows(password_check(rows_view(data@), user_pw@)),
{
    let check = check_password(data, user_pw);
    match check {
        Some(Some(true)) => logon_answer(check, generate_token()),
        None => Logon::Refused,
        Some(None) => Logon::Reply(reply("LoginSuccessfull", false, "User not found")),
        Some(Some(false)) => Logon::Reply(reply("LoginSuccessfull", false, "Incorrect password")),
    }
}

} // verus!
