use webserver::api::{
    accepted, api_auth_auth_user, api_login_auto_logon, api_login_logon, auth_user_query,
    auto_logon_query, check_password, flag_field, logon_answer, logon_query, outcome_rows, query_with,
    reply, text_field, token_update, Logon, Verdict,
};
use webserver::chars::trim_chars;
use webserver::json::{json_encode, parse_json_string};
use webserver::query::QueryOutcome;
use webserver::respond::{
    api_send_response_json, content_length, execute_api_call, read_http_headers, route, send_404,
    send_http_response, ApiCall, HeaderLine, Route,
};
use webserver::rows::Row;
use webserver::text::parse_usize;
use webserver::textmap::TextMap;
use webserver::value::{APIValue, DatabaseValue};

fn row(entries: Vec<(&str, Option<DatabaseValue>)>) -> Row {
    let mut map = TextMap::new();
    for (key, value) in entries {
        map.insert(key.to_string(), value);
    }
    map
}

fn text(s: &str) -> Option<DatabaseValue> {
    Some(DatabaseValue::Varchar(s.to_string()))
}

fn answer(name: &str, flag: bool, message: &str) -> TextMap<Option<APIValue>> {
    let mut map = TextMap::new();
    map.insert(name.to_string(), Some(APIValue::Boolean(flag)));
    map.insert("Message".to_string(), Some(APIValue::String(message.to_string())));
    map
}

#[test]
fn root_path_goes_to_the_login_page() {
    assert_eq!(
        route("/srv/www/site", "/"),
        Some(Route::File {
            path: "/srv/www/site/login.html".to_string(),
            content_type: "*/*".to_string(),
        })
    );
}

#[test]
fn file_path_goes_to_the_file_with_its_content_type() {
    assert_eq!(
        route("/srv/www/site", "/css/main.css"),
        Some(Route::File {
            path: "/srv/www/site/css/main.css".to_string(),
            content_type: "text/css".to_string(),
        })
    );
    assert_eq!(
        route("/srv/www/site", "/favicon.ico"),
        Some(Route::File {
            path: "/srv/www/site/favicon.ico".to_string(),
            content_type: "image/x-icon".to_string(),
        })
    );
    assert_eq!(
        route("/srv/www/site", "/app.min.js"),
        Some(Route::File {
            path: "/srv/www/site/app.min.js".to_string(),
            content_type: "*/*".to_string(),
        })
    );
    assert_eq!(
        route("/srv/www/site", "/README"),
        Some(Route::File { path: "/srv/www/site/README".to_string(), content_type: "*/*".to_string() })
    );
}

#[test]
fn api_path_goes_to_category_and_function() {
    assert_eq!(
        route("/srv/www/site", "/api/login/logon"),
        Some(Route::Api { category: "login".to_string(), function: "logon".to_string() })
    );
    assert_eq!(
        route("/srv/www/site", "/api/auth/auth_user/more"),
        Some(Route::Api { category: "auth".to_string(), function: "auth_user".to_string() })
    );
    assert_eq!(route("/srv/www/site", "/api/login"), None);
    assert_eq!(route("/srv/www/site", "/api"), None);
    assert_eq!(
        route("/srv/www", "/api/login/logon"),
        Some(Route::File {
            path: "/srv/www/api/login/logon".to_string(),
            content_type: "*/*".to_string(),
        })
    );
    assert_eq!(
        route("/srv/www", "/x/api/a/b"),
        Some(Route::Api { category: "a".to_string(), function: "b".to_string() })
    );
}

#[test]
fn api_calls_are_picked_by_category_and_function() {
    assert_eq!(execute_api_call("login", "logon"), ApiCall::Logon);
    assert_eq!(execute_api_call("login", "auto_logon"), ApiCall::AutoLogon);
    assert_eq!(execute_api_call("auth", "auth_user"), ApiCall::AuthUser);
    assert_eq!(execute_api_call("login", "auth_user"), ApiCall::NotFound);
    assert_eq!(execute_api_call("auth", "logon"), ApiCall::NotFound);
    assert_eq!(execute_api_call("", ""), ApiCall::NotFound);
    assert_eq!(execute_api_call("Login", "logon"), ApiCall::NotFound);
}

#[test]
fn header_lines_give_name_and_value() {
    assert_eq!(
        read_http_headers("Content-Type: application/json\r\n"),
        HeaderLine::Header("Content-Type".to_string(), "application/json".to_string())
    );
    assert_eq!(
        read_http_headers("Host: localhost:7878"),
        HeaderLine::Header("Host".to_string(), "localhost".to_string())
    );
    assert_eq!(
        read_http_headers("  X :  y  "),
        HeaderLine::Header("X ".to_string(), "y".to_string())
    );
    assert_eq!(read_http_headers("Empty:"), HeaderLine::Header("Empty".to_string(), String::new()));
    assert_eq!(read_http_headers("\r\n"), HeaderLine::End);
    assert_eq!(read_http_headers(""), HeaderLine::End);
    assert_eq!(read_http_headers("   "), HeaderLine::End);
    assert_eq!(read_http_headers("no colon here"), HeaderLine::Malformed);
}

#[test]
fn trimming_agrees_with_the_standard_trim() {
    for s in ["", " ", "a", " a", "a ", "  a b  ", "\t\r\n x \u{a0}", "\u{3000}", "é "] {
        let chars: Vec<char> = s.chars().collect();
        let trimmed: String = trim_chars(&chars).iter().collect();
        assert_eq!(trimmed, s.trim());
    }
}

#[test]
fn content_length_is_a_decimal_number() {
    assert_eq!(content_length("0"), Some(0));
    assert_eq!(content_length("42"), Some(42));
    assert_eq!(content_length("+42"), Some(42));
    assert_eq!(content_length("0042"), Some(42));
    assert_eq!(content_length(""), None);
    assert_eq!(content_length("+"), None);
    assert_eq!(content_length("-1"), None);
    assert_eq!(content_length(" 42"), None);
    assert_eq!(content_length("4 2"), None);
    for s in ["18446744073709551615", "18446744073709551616", "99999999999999999999999", "-0"] {
        assert_eq!(parse_usize(s.as_bytes()), s.parse::<usize>().ok());
    }
}

#[test]
fn response_heads_are_written_out() {
    assert_eq!(
        send_http_response("text/css", 1234),
        "HTTP/1.1 200 OK\r\nContent-Type: text/css\r\nContent-Length: 1234\r\n\r\n"
    );
    assert_eq!(
        send_http_response("*/*", 0),
        "HTTP/1.1 200 OK\r\nContent-Type: */*\r\nContent-Length: 0\r\n\r\n"
    );
    assert_eq!(send_404(57), "HTTP/1.1 404 Not Found\r\nContent-Length: 57\r\n\r\n");
}

#[test]
fn json_response_counts_the_bytes_of_its_text() {
    let (head, body) = api_send_response_json(&vec![answer("Ok", true, "é")]);
    assert_eq!(body, "{\"Message\": \"é\", \"Ok\": true}");
    assert_eq!(body.len(), 29);
    assert_eq!(body.chars().count(), 28);
    assert_eq!(
        head,
        "HTTP/1.1 200 Ok\r\nContent-Type: application/json\r\nContent-Length: 29\r\n\r\n"
    );
    let none: Vec<TextMap<Option<APIValue>>> = Vec::new();
    let (head, body) = api_send_response_json(&none);
    assert_eq!(body, "");
    assert_eq!(
        head,
        "HTTP/1.1 200 Ok\r\nContent-Type: application/json\r\nContent-Length: 0\r\n\r\n"
    );
}

#[test]
fn fields_of_a_request_are_read_by_kind() {
    let post = parse_json_string("{\"user\":\"ann\",\"remember\":true,\"age\":3}");
    assert_eq!(text_field(&post, "user"), Some("ann".to_string()));
    assert_eq!(text_field(&post, "remember"), Some(String::new()));
    assert_eq!(text_field(&post, "password"), None);
    assert_eq!(flag_field(&post, "remember"), Some(true));
    assert_eq!(flag_field(&post, "user"), Some(false));
    assert_eq!(flag_field(&post, "age"), Some(false));
    assert_eq!(flag_field(&post, "missing"), None);
}

#[test]
fn statements_are_written_out() {
    assert_eq!(
        auth_user_query("abc"),
        "SELECT id, username, token FROM users WHERE token = 'abc'"
    );
    assert_eq!(
        auto_logon_query("abc"),
        "SELECT token, rememberlogin FROM users WHERE token = 'abc'"
    );
    assert_eq!(logon_query("ann"), "SELECT id, password FROM users WHERE username = 'ann'");
    assert_eq!(logon_query(""), "SELECT id, password FROM users WHERE username = ''");
    assert_eq!(query_with("x = ", "o'k"), "x = 'o'k'");
    assert_eq!(
        token_update("tok", 1700000000, true, "ann"),
        "UPDATE users SET token = 'tok', tokencrtime = 1700000000, rememberlogin = true WHERE username = 'ann'"
    );
    assert_eq!(
        token_update("", 0, false, ""),
        "UPDATE users SET token = '', tokencrtime = 0, rememberlogin = false WHERE username = ''"
    );
}

#[test]
fn outcomes_become_the_rows_of_a_handler() {
    let rows = vec![row(vec![("id", Some(DatabaseValue::Integer(1)))])];
    assert_eq!(outcome_rows(QueryOutcome::Rows(rows.clone())), rows);
    assert_eq!(
        outcome_rows(QueryOutcome::CommandTag("UPDATE 1".to_string())),
        vec![row(vec![("Complete", text("UPDATE 1"))])]
    );
    assert_eq!(outcome_rows(QueryOutcome::Error(b"boom".to_vec())), Vec::<Row>::new());
    assert_eq!(outcome_rows(QueryOutcome::EmptyQuery), Vec::<Row>::new());
}

#[test]
fn replies_hold_a_flag_and_a_message() {
    let made = reply("LoginSuccessfull", false, "User not found");
    assert_eq!(made, answer("LoginSuccessfull", false, "User not found"));
    assert_eq!(
        json_encode(&vec![made]),
        "{\"LoginSuccessfull\": false, \"Message\": \"User not found\"}"
    );
    assert_eq!(
        json_encode(&vec![accepted("T0k3n")]),
        "{\"LoginSuccessfull\": true, \"UserToken\": \"T0k3n\"}"
    );
}

#[test]
fn token_check_decides_by_the_first_row() {
    let refused = answer("AuthenticationSuccessfull", false, "User could not be authenticated");
    let granted = answer("AuthenticationSuccessfull", true, "User successfully authenticated");
    assert_eq!(api_auth_auth_user(&vec![], "abc"), Verdict::Reply(refused.clone()));
    let found = vec![row(vec![("id", Some(DatabaseValue::Integer(1))), ("token", text("abc"))])];
    assert_eq!(api_auth_auth_user(&found, "abc"), Verdict::Reply(granted));
    assert_eq!(api_auth_auth_user(&found, "abd"), Verdict::Reply(refused));
    let null = vec![row(vec![("token", None)])];
    assert_eq!(api_auth_auth_user(&null, "abc"), Verdict::Silent);
    let number = vec![row(vec![("token", Some(DatabaseValue::Integer(5)))])];
    assert_eq!(api_auth_auth_user(&number, "5"), Verdict::Silent);
    let other = vec![row(vec![("id", Some(DatabaseValue::Integer(1)))])];
    assert_eq!(api_auth_auth_user(&other, "abc"), Verdict::Refused);
}

#[test]
fn logging_on_by_token_needs_the_user_to_be_remembered() {
    assert_eq!(
        api_login_auto_logon(&vec![]),
        Verdict::Reply(answer(
            "AuthenticationSuccessfull",
            false,
            "No user found with matching token"
        ))
    );
    let yes = vec![row(vec![("rememberlogin", Some(DatabaseValue::Boolean(true)))])];
    assert_eq!(
        api_login_auto_logon(&yes),
        Verdict::Reply(answer(
            "AuthenticationSuccessfull",
            true,
            "Matching user with token has been found"
        ))
    );
    let inactive = answer(
        "AuthenticationSuccessfull",
        false,
        "Matching user with token has been found, but remember login is not active",
    );
    let no = vec![row(vec![("rememberlogin", Some(DatabaseValue::Boolean(false)))])];
    assert_eq!(api_login_auto_logon(&no), Verdict::Reply(inactive.clone()));
    let null = vec![row(vec![("rememberlogin", None)])];
    assert_eq!(api_login_auto_logon(&null), Verdict::Reply(inactive.clone()));
    let word = vec![row(vec![("rememberlogin", text("true"))])];
    assert_eq!(api_login_auto_logon(&word), Verdict::Reply(inactive));
    let other = vec![row(vec![("token", text("abc"))])];
    assert_eq!(api_login_auto_logon(&other), Verdict::Refused);
}

#[test]
fn passwords_are_checked_against_the_first_row() {
    let found = vec![row(vec![("id", Some(DatabaseValue::Integer(1))), ("password", text("pw"))])];
    assert_eq!(check_password(&found, "pw"), Some(Some(true)));
    assert_eq!(check_password(&found, "pW"), Some(Some(false)));
    assert_eq!(check_password(&found, ""), Some(Some(false)));
    assert_eq!(check_password(&vec![], "pw"), Some(None));
    let null = vec![row(vec![("password", None)])];
    assert_eq!(check_password(&null, ""), Some(Some(true)));
    assert_eq!(check_password(&null, "pw"), Some(Some(false)));
    let other = vec![row(vec![("id", Some(DatabaseValue::Integer(1)))])];
    assert_eq!(check_password(&other, "pw"), None);
}

#[test]
fn logging_on_by_password_hands_out_a_token() {
    let found = vec![row(vec![("id", Some(DatabaseValue::Integer(1))), ("password", text("pw"))])];
    match api_login_logon(&found, "pw") {
        Logon::Accepted { token, answer } => {
            assert_eq!(token.len(), 32);
            assert!(token.chars().all(|c| c.is_ascii_alphanumeric()));
            assert_eq!(answer, accepted(&token));
        }
        other => panic!("not accepted: {:?}", other),
    }
    assert_eq!(
        api_login_logon(&found, "wrong"),
        Logon::Reply(answer("LoginSuccessfull", false, "Incorrect password"))
    );
    assert_eq!(
        api_login_logon(&vec![], "pw"),
        Logon::Reply(answer("LoginSuccessfull", false, "User not found"))
    );
    let other = vec![row(vec![("id", Some(DatabaseValue::Integer(1)))])];
    assert_eq!(api_login_logon(&other, "pw"), Logon::Refused);
}

#[test]
fn accepted_password_gets_the_token_given() {
    let token = "0123456789abcdefghijABCDEFGHIJxy".to_string();
    assert_eq!(
        logon_answer(Some(Some(true)), token.clone()),
        Logon::Accepted { token: token.clone(), answer: accepted(&token) }
    );
    assert_eq!(
        logon_answer(Some(Some(false)), token.clone()),
        Logon::Reply(answer("LoginSuccessfull", false, "Incorrect password"))
    );
    assert_eq!(
        logon_answer(Some(None), token.clone()),
        Logon::Reply(answer("LoginSuccessfull", false, "User not found"))
    );
    assert_eq!(logon_answer(None, token), Logon::Refused);
}
