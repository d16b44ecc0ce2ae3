use rusty_planner::api::{
    authorize_query, code_of, configure, create_group, elligible_guilds_fetched, fetch_session,
    finish_handshake, get_elligible_guilds, get_user, guild_ids, guilds_step, oauth_code,
    oauth_code_exchanged, oauth_code_identified, oauth_redirect, ping, redirect_to_provider,
    session_to_store, session_token, signed_in, simple_response, stored_outcome, token_outcome,
    user_reply, without_groups, AppData,
    Body, Cookie,
    Guard, Handler, Response, Route, Step,
};
use rusty_planner::database::{create_session, get_session, new_session, Session, Store};
use rusty_planner::discord::{
    CurrentGuildsItem, CurrentUserResponse, Fetched, Method, OauthErrorResponse,
    OauthTokenResponse, ProviderFailure, Request,
};
use rusty_planner::error::{AuthError, Cause, Error, ErrorKind};
use rusty_planner::response::SimpleResponse;
use rusty_planner::token::CookieToken;
use rusty_planner::types::{CreateGroupRequest, User};

fn app() -> AppData {
    AppData { client_id: "id-1".to_string(), client_secret: "shh".to_string() }
}

fn token() -> OauthTokenResponse {
    OauthTokenResponse {
        access_token: "access".to_string(),
        token_type: "Bearer".to_string(),
        expires_in: 604800,
        refresh_token: "refresh".to_string(),
        scope: "identify guilds".to_string(),
    }
}

fn nelly() -> CurrentUserResponse {
    CurrentUserResponse {
        id: "80351110224678912".to_string(),
        username: "Nelly".to_string(),
        avatar: None,
        discriminator: "1337".to_string(),
        public_flags: 0,
        flags: 0,
    }
}

fn got<R>(value: R) -> Fetched<R> {
    Fetched::Body { success: Some(value), failure: Err(String::new()) }
}

fn guild(id: &str, owner: bool) -> CurrentGuildsItem {
    CurrentGuildsItem { id: id.to_string(), name: format!("guild {}", id), owner }
}

fn simple(code: u16, message: &str) -> Response {
    Response {
        status: code,
        location: None,
        cookie: None,
        body: Body::Simple(SimpleResponse { code, message: message.to_string() }),
    }
}

fn empty(status: u16) -> Response {
    Response { status, location: None, cookie: None, body: Body::Empty }
}

fn log_in(store: &mut Store) -> String {
    let who = User { id: "80351110224678912".to_string(), name: "Nelly".to_string(), avatar: None };
    create_session(store, &token(), &who).unwrap().to_simple()
}

fn invalid_grant() -> OauthErrorResponse {
    OauthErrorResponse {
        error: Some("invalid_grant".to_string()),
        error_description: Some("Invalid \"code\" in request.".to_string()),
        message: None,
        code: None,
    }
}

#[test]
fn simple_response_is_an_envelope_under_its_code() {
    assert_eq!(simple_response(404, "Not found".to_string()), simple(404, "Not found"));
    assert_eq!(ping(), simple(200, "Pong!"));
}

#[test]
fn login_redirects_to_the_providers_authorize_page() {
    let data = app();
    let response = oauth_redirect(Some(&data), "http://localhost:8080/api/oauth/code").unwrap();
    assert_eq!(
        response,
        Response {
            status: 302,
            location: Some(
                "https://discord.com/api/v8/oauth2/authorize?client_id=id-1&redirect_uri=http%3A%2F%2Flocalhost%3A8080%2Fapi%2Foauth%2Fcode&response_type=code&scope=identify+guilds"
                    .to_string()
            ),
            cookie: None,
            body: Body::Empty,
        }
    );
}

#[test]
fn login_without_shared_state_is_an_internal_error() {
    assert_eq!(oauth_redirect(None, "http://localhost/cb"), Ok(empty(500)));
}

#[test]
fn authorize_query_names_client_target_and_scope() {
    let pairs = authorize_query("id-1", "http://h/cb");
    let expected: Vec<(String, String)> = [
        ("client_id", "id-1"),
        ("redirect_uri", "http://h/cb"),
        ("response_type", "code"),
        ("scope", "identify guilds"),
    ]
    .iter()
    .map(|(k, v)| (k.to_string(), v.to_string()))
    .collect();
    assert_eq!(pairs, expected);
}

#[test]
fn redirect_to_provider_needs_an_encoded_query() {
    assert_eq!(
        redirect_to_provider(Some("a=b".to_string())),
        Ok(Response {
            status: 302,
            location: Some("https://discord.com/api/v8/oauth2/authorize?a=b".to_string()),
            cookie: None,
            body: Body::Empty,
        })
    );
    assert_eq!(
        redirect_to_provider(None),
        Err(Error { kind: ErrorKind::Error(Cause::Encoding) })
    );
}

#[test]
fn handshake_without_a_code_is_a_bad_request() {
    assert_eq!(oauth_code(&app(), None, "http://h/cb"), Step::Reply(empty(400)));
}

#[test]
fn handshake_with_a_code_asks_for_the_token() {
    let step = oauth_code(&app(), Some("the-code"), "http://h/cb");
    let form: Vec<(String, String)> = [
        ("client_id", "id-1"),
        ("client_secret", "shh"),
        ("grant_type", "authorization_code"),
        ("code", "the-code"),
        ("redirect_uri", "http://h/cb"),
    ]
    .iter()
    .map(|(k, v)| (k.to_string(), v.to_string()))
    .collect();
    assert_eq!(
        step,
        Step::Fetch(Request {
            method: Method::Post,
            url: "https://discord.com/api/v8/oauth2/token".to_string(),
            authorization: None,
            form,
        })
    );
}

#[test]
fn handshake_with_a_token_asks_for_the_identity() {
    let (kept, next) = oauth_code_exchanged(got(token())).unwrap();
    assert_eq!(kept, token());
    assert_eq!(
        next,
        Request {
            method: Method::Get,
            url: "https://discord.com/api/v8/users/@me".to_string(),
            authorization: Some("Bearer access".to_string()),
            form: Vec::new(),
        }
    );
}

#[test]
fn rejected_code_ends_the_handshake_without_a_session() {
    let store = Store::new();
    let fetched: Fetched<OauthTokenResponse> =
        Fetched::Body { success: None, failure: Ok(ProviderFailure::Oauth(invalid_grant())) };
    let e = oauth_code_exchanged(fetched).unwrap_err();
    assert_eq!(e, Error { kind: ErrorKind::Error(Cause::Oauth(invalid_grant())) });
    assert_eq!(
        e.error_response(),
        SimpleResponse {
            code: 500,
            message: "Discord API (oauth) Error invalid_grant \"Invalid \"code\" in request.\""
                .to_string(),
        }
    );
    assert_eq!(e.status_code(), 500);
    assert_eq!(store.session_count(), 0);
    assert_eq!(store.statement_count(), 0);
}

#[test]
fn rejected_identity_ends_the_handshake_without_a_session() {
    let mut store = Store::new();
    let fetched: Fetched<CurrentUserResponse> = Fetched::Unreachable("reset".to_string());
    let outcome = oauth_code_identified(&mut store, &token(), fetched);
    assert_eq!(
        outcome,
        Err(Error { kind: ErrorKind::Error(Cause::Transport("reset".to_string())) })
    );
    assert_eq!(store.session_count(), 0);
    assert_eq!(store.statement_count(), 0);
}

#[test]
fn finished_handshake_sets_the_cookie_of_a_stored_session() {
    let mut store = Store::new();
    store.set_time(77);
    let response = oauth_code_identified(&mut store, &token(), got(nelly())).unwrap();
    assert_eq!(response.status, 307);
    assert_eq!(response.location, Some("/".to_string()));
    assert_eq!(response.body, Body::Empty);
    let cookie = response.cookie.unwrap();
    assert_eq!(cookie.name, "sess");
    assert_eq!(cookie.path, "/");
    assert!(cookie.http_only);
    assert_eq!(store.session_count(), 1);
    let session = fetch_session(&mut store, Some(&cookie.value)).unwrap();
    assert_eq!(session.cookie.to_simple(), cookie.value);
    assert_eq!(session.discord_id, "80351110224678912");
    assert_eq!(session.discord_name, "Nelly");
    assert_eq!(session.discord_avatar, None);
    assert_eq!(session.token, "access");
    assert_eq!(session.updated, 77);
}

#[test]
fn handshake_under_a_given_token() {
    let mut store = Store::new();
    let cookie = CookieToken { value: 0xabc };
    assert_eq!(finish_handshake(&mut store, cookie, &token(), got(nelly())), Ok(signed_in(cookie)));
    assert_eq!(
        signed_in(cookie),
        Response {
            status: 307,
            location: Some("/".to_string()),
            cookie: Some(Cookie {
                name: "sess".to_string(),
                value: "00000000000000000000000000000abc".to_string(),
                path: "/".to_string(),
                http_only: true,
            }),
            body: Body::Empty,
        }
    );
    let again = finish_handshake(&mut store, cookie, &token(), got(nelly()));
    assert!(matches!(again, Err(Error { kind: ErrorKind::Error(Cause::Store(_)) })));
    assert_eq!(store.session_count(), 1);
}

#[test]
fn session_resolution_tells_three_failures_apart() {
    let mut store = Store::new();
    log_in(&mut store);
    let before = store.statement_count();

    let none = fetch_session(&mut store, None).unwrap_err();
    assert_eq!(none.auth(), Some(AuthError::NoSession));
    assert_eq!(none.error_response(), SimpleResponse { code: 409, message: "No session".to_string() });

    let malformed = fetch_session(&mut store, Some("not-a-token")).unwrap_err();
    assert_eq!(malformed.auth(), Some(AuthError::InvalidToken));
    assert_eq!(malformed.status_code(), 400);
    assert_eq!(
        malformed.error_response(),
        SimpleResponse { code: 400, message: "Invalid token".to_string() }
    );
    assert_eq!(store.statement_count(), before);

    let unknown =
        fetch_session(&mut store, Some("936da01f9abd4d9d80c702af85c822a8")).unwrap_err();
    assert_eq!(unknown.auth(), Some(AuthError::Forbidden));
    assert_eq!(unknown.error_response(), SimpleResponse { code: 403, message: "Forbidden".to_string() });
    assert_eq!(store.statement_count(), before + 1);

    assert_ne!(none, malformed);
    assert_ne!(none, unknown);
    assert_ne!(malformed, unknown);
}

#[test]
fn outcome_of_presenting_a_cookie() {
    assert_eq!(token_outcome(None), Err(Error::from_auth(AuthError::NoSession)));
    assert_eq!(token_outcome(Some(None)), Err(Error::from_auth(AuthError::InvalidToken)));
    assert_eq!(
        token_outcome(Some(Some(CookieToken { value: 5 }))),
        Ok(CookieToken { value: 5 })
    );
}

#[test]
fn session_token_of_a_request() {
    assert_eq!(session_token(None), Err(Error::from_auth(AuthError::NoSession)));
    assert_eq!(session_token(Some("zz")), Err(Error::from_auth(AuthError::InvalidToken)));
    assert_eq!(
        session_token(Some("000000000000000000000000000000ff")),
        Ok(CookieToken { value: 255 })
    );
}

#[test]
fn session_is_resolved_from_its_cookie() {
    let mut store = Store::new();
    let cookie = log_in(&mut store);
    let session = fetch_session(&mut store, Some(&cookie)).unwrap();
    assert_eq!(session.discord_name, "Nelly");
    let direct = get_session(&mut store, &session.cookie).unwrap();
    assert_eq!(direct, session);
}

#[test]
fn own_user_is_shown() {
    let mut store = Store::new();
    let cookie = log_in(&mut store);
    assert_eq!(
        get_user(&mut store, Some(&cookie), "@me"),
        Ok(Response {
            status: 200,
            location: None,
            cookie: None,
            body: Body::User(User {
                id: "80351110224678912".to_string(),
                name: "Nelly".to_string(),
                avatar: None,
            }),
        })
    );
}

#[test]
fn other_user_is_not_found() {
    let mut store = Store::new();
    let cookie = log_in(&mut store);
    assert_eq!(get_user(&mut store, Some(&cookie), "other-id"), Ok(simple(404, "Not Found")));
    assert_eq!(get_user(&mut store, Some(&cookie), "@ME"), Ok(simple(404, "Not Found")));
    assert_eq!(get_user(&mut store, Some(&cookie), ""), Ok(simple(404, "Not Found")));
}

#[test]
fn user_needs_a_session() {
    let mut store = Store::new();
    assert_eq!(get_user(&mut store, None, "@me"), Err(Error::from_auth(AuthError::NoSession)));
    assert_eq!(get_user(&mut store, None, "other-id"), Err(Error::from_auth(AuthError::NoSession)));
    assert_eq!(
        get_user(&mut store, Some("936da01f9abd4d9d80c702af85c822a8"), "@me"),
        Err(Error::from_auth(AuthError::Forbidden))
    );
}

fn session_with_token(access: &str) -> Session {
    Session {
        id: 1,
        cookie: CookieToken { value: 1 },
        token: access.to_string(),
        refresh_token: "r".to_string(),
        expires: 1,
        updated: 2,
        discord_id: "d".to_string(),
        discord_name: "n".to_string(),
        discord_avatar: Some("a".to_string()),
    }
}

#[test]
fn replies_for_a_resolved_session() {
    assert_eq!(
        user_reply(session_with_token("t"), "@me"),
        Response {
            status: 200,
            location: None,
            cookie: None,
            body: Body::User(User {
                id: "d".to_string(),
                name: "n".to_string(),
                avatar: Some("a".to_string()),
            }),
        }
    );
    assert_eq!(user_reply(session_with_token("t"), "someone"), simple(404, "Not Found"));
    assert_eq!(
        guilds_step(&session_with_token("t"), "@me"),
        Step::Fetch(Request {
            method: Method::Get,
            url: "https://discord.com/api/v8/users/@me/guilds".to_string(),
            authorization: Some("Bearer t".to_string()),
            form: Vec::new(),
        })
    );
    assert_eq!(guilds_step(&session_with_token("t"), "x"), Step::Reply(simple(404, "Not Found")));
}

#[test]
fn group_creation_needs_a_session() {
    let mut store = Store::new();
    let cookie = log_in(&mut store);
    let info = CreateGroupRequest {
        guild_id: "1".to_string(),
        group_name: "Raid night".to_string(),
        group_description: None,
        group_image: None,
    };
    assert_eq!(create_group(&mut store, Some(&cookie), &info), Ok(empty(200)));
    assert_eq!(create_group(&mut store, None, &info), Err(Error::from_auth(AuthError::NoSession)));
    assert_eq!(
        create_group(&mut store, Some("x"), &info),
        Err(Error::from_auth(AuthError::InvalidToken))
    );
}

#[test]
fn guilds_of_the_own_user_are_fetched_with_the_sessions_credential() {
    let mut store = Store::new();
    let cookie = log_in(&mut store);
    assert_eq!(
        get_elligible_guilds(&mut store, Some(&cookie), "@me"),
        Ok(Step::Fetch(Request {
            method: Method::Get,
            url: "https://discord.com/api/v8/users/@me/guilds".to_string(),
            authorization: Some("Bearer access".to_string()),
            form: Vec::new(),
        }))
    );
    assert_eq!(
        get_elligible_guilds(&mut store, Some(&cookie), "other-id"),
        Ok(Step::Reply(simple(404, "Not Found")))
    );
    assert_eq!(
        get_elligible_guilds(&mut store, None, "@me"),
        Err(Error::from_auth(AuthError::NoSession))
    );
}

#[test]
fn guilds_with_a_group_are_left_out() {
    let mut store = Store::new();
    store.add_group("1".to_string());
    let reported = vec![guild("1", true), guild("2", false)];
    assert_eq!(
        elligible_guilds_fetched(&mut store, got(reported)),
        Ok(Response {
            status: 200,
            location: None,
            cookie: None,
            body: Body::Guilds(vec![guild("2", false)]),
        })
    );
    assert_eq!(store.statement_count(), 1);
}

#[test]
fn no_guilds_are_answered_without_a_store_call() {
    let mut store = Store::new();
    store.add_group("1".to_string());
    assert_eq!(
        elligible_guilds_fetched(&mut store, got(Vec::new())),
        Ok(Response { status: 200, location: None, cookie: None, body: Body::Guilds(Vec::new()) })
    );
    assert_eq!(store.statement_count(), 0);
}

#[test]
fn failed_guild_fetch_is_the_answers_error() {
    let mut store = Store::new();
    let fetched: Fetched<Vec<CurrentGuildsItem>> = Fetched::Unreachable("timed out".to_string());
    assert_eq!(
        elligible_guilds_fetched(&mut store, fetched),
        Err(Error { kind: ErrorKind::Error(Cause::Transport("timed out".to_string())) })
    );
    assert_eq!(store.statement_count(), 0);
}

#[test]
fn guild_filter_keeps_order() {
    let guilds = vec![guild("5", true), guild("3", false), guild("9", true), guild("1", true)];
    let ids: Vec<String> = guild_ids(&guilds).into_iter().cloned().collect();
    assert_eq!(ids, vec!["5".to_string(), "3".to_string(), "9".to_string(), "1".to_string()]);
    let existing = vec!["9".to_string(), "5".to_string(), "4".to_string()];
    assert_eq!(without_groups(guilds, &existing), vec![guild("3", false), guild("1", true)]);
}

#[test]
fn routes_of_the_service() {
    let table = configure();
    let route = |pattern: &str, guard: Guard, handler: Handler| Route {
        pattern: pattern.to_string(),
        name: None,
        guard,
        handler,
    };
    assert_eq!(
        table,
        vec![
            route("/ping", Guard::Get, Handler::Ping),
            route("/oauth/redirect", Guard::Get, Handler::OauthRedirect),
            Route {
                pattern: "/oauth/code".to_string(),
                name: Some("oauth_code".to_string()),
                guard: Guard::Get,
                handler: Handler::OauthCode,
            },
            route("/group", Guard::PostJson, Handler::CreateGroup),
            route("/user/{id}", Guard::Get, Handler::GetUser),
            route("/user/{id}/guilds", Guard::Get, Handler::GetElligibleGuilds),
        ]
    );
}

#[test]
fn code_of_the_providers_redirect() {
    assert_eq!(code_of(Some("the-code")), Ok("the-code"));
    assert_eq!(code_of(Some("")), Ok(""));
    assert_eq!(code_of(None), Err(empty(400)));
}

#[test]
fn row_to_store_for_an_identified_handshake() {
    let cookie = CookieToken { value: 0xabc };
    let who = User { id: "80351110224678912".to_string(), name: "Nelly".to_string(), avatar: None };
    assert_eq!(
        session_to_store(cookie, &token(), got(nelly())),
        Ok(new_session(cookie, &token(), &who))
    );
    let fetched: Fetched<CurrentUserResponse> = Fetched::Unreachable("reset".to_string());
    assert_eq!(
        session_to_store(cookie, &token(), fetched),
        Err(Error { kind: ErrorKind::Error(Cause::Transport("reset".to_string())) })
    );
}

#[test]
fn handshake_ends_by_the_stores_answer() {
    let cookie = CookieToken { value: 0xabc };
    assert_eq!(stored_outcome(Ok(1), cookie), Ok(signed_in(cookie)));
    assert_eq!(
        stored_outcome(Ok(0), cookie),
        Err(Error { kind: ErrorKind::Database("No rows were updated".to_string()) })
    );
    assert_eq!(
        stored_outcome(Err("connection closed".to_string()), cookie),
        Err(Error { kind: ErrorKind::Error(Cause::Store("connection closed".to_string())) })
    );
}

#[test]
fn handshake_on_an_empty_store_succeeds() {
    for _ in 0..32 {
        let mut store = Store::new();
        assert!(oauth_code_identified(&mut store, &token(), got(nelly())).is_ok());
        assert_eq!(store.session_count(), 1);
    }
}

#[test]
fn guild_that_the_table_names_is_left_out_once_asked_twice() {
    let mut store = Store::new();
    store.add_group("1".to_string());
    store.add_group("1".to_string());
    let reported = vec![guild("1", true), guild("1", false), guild("2", false)];
    assert_eq!(
        elligible_guilds_fetched(&mut store, got(reported)),
        Ok(Response {
            status: 200,
            location: None,
            cookie: None,
            body: Body::Guilds(vec![guild("2", false)]),
        })
    );
}
