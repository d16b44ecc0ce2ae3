use rusty_planner::database::{
    create_session, create_session_with, existing_groups, found_session, get_permissions,
    get_session, groups_question, has_permission, inserted, looked_up, names_found, new_session,
    permission_found, roles_question, NewSession, Session, Store,
};
use rusty_planner::discord::OauthTokenResponse;
use rusty_planner::error::{AuthError, Cause, Error, ErrorKind};
use rusty_planner::response::SimpleResponse;
use rusty_planner::token::CookieToken;
use rusty_planner::text::dedup_texts;
use rusty_planner::types::User;

fn token(access: &str) -> OauthTokenResponse {
    OauthTokenResponse {
        access_token: access.to_string(),
        token_type: "Bearer".to_string(),
        expires_in: 604800,
        refresh_token: "refresh".to_string(),
        scope: "identify guilds".to_string(),
    }
}

fn user(id: &str, name: &str, avatar: Option<&str>) -> User {
    User { id: id.to_string(), name: name.to_string(), avatar: avatar.map(|a| a.to_string()) }
}

fn forbidden() -> Error {
    Error {
        kind: ErrorKind::Simple(SimpleResponse { code: 403, message: "Forbidden".to_string() }),
    }
}

fn strings(items: &[&str]) -> Vec<String> {
    items.iter().map(|s| s.to_string()).collect()
}

fn sample_store() -> Store {
    let mut store = Store::new();
    store.grant("g1".to_string(), "admin".to_string(), "group.create".to_string());
    store.grant("g1".to_string(), "admin".to_string(), "group.delete".to_string());
    store.grant("g1".to_string(), "member".to_string(), "group.view".to_string());
    store.grant("g2".to_string(), "admin".to_string(), "group.view".to_string());
    store.grant("g1".to_string(), "helper".to_string(), "group.view".to_string());
    store
}

#[test]
fn created_session_is_found_with_its_identity() {
    let mut store = Store::new();
    store.set_time(1_700_000_000);
    let who = user("80351110224678912", "Nelly", Some("8342729096ea3675442027381ff50dfe"));
    let cookie = create_session(&mut store, &token("access-1"), &who).unwrap();
    let session = get_session(&mut store, &cookie).unwrap();
    assert_eq!(session.cookie, cookie);
    assert_eq!(session.discord_id, "80351110224678912");
    assert_eq!(session.discord_name, "Nelly");
    assert_eq!(session.discord_avatar, Some("8342729096ea3675442027381ff50dfe".to_string()));
    assert_eq!(session.token, "access-1");
    assert_eq!(session.refresh_token, "refresh");
    assert_eq!(session.expires, 604800);
    assert_eq!(session.updated, 1_700_000_000);
    assert_eq!(session.id, 1);
    assert_eq!(User::from(session), who);
}

#[test]
fn each_login_creates_a_new_row() {
    let mut store = Store::new();
    let who = user("1", "a", None);
    let first = create_session(&mut store, &token("t1"), &who).unwrap();
    let second = create_session(&mut store, &token("t2"), &who).unwrap();
    assert_ne!(first, second);
    assert_eq!(store.session_count(), 2);
    assert_eq!(get_session(&mut store, &first).unwrap().token, "t1");
    let found = get_session(&mut store, &second).unwrap();
    assert_eq!(found.token, "t2");
    assert_eq!(found.id, 2);
    assert_eq!(found.discord_avatar, None);
}

#[test]
fn cookie_tokens_of_a_thousand_handshakes_are_distinct() {
    let mut store = Store::new();
    let who = user("1", "a", None);
    let mut issued: Vec<CookieToken> = Vec::new();
    for _ in 0..1000 {
        issued.push(create_session(&mut store, &token("t"), &who).unwrap());
    }
    assert_eq!(store.session_count(), 1000);
    let mut values: Vec<u128> = issued.iter().map(|c| c.value).collect();
    values.sort();
    values.dedup();
    assert_eq!(values.len(), 1000);
}

#[test]
fn taken_cookie_token_is_rejected_and_nothing_is_stored() {
    let mut store = Store::new();
    let cookie = CookieToken { value: 7 };
    let who = user("1", "a", None);
    assert_eq!(create_session_with(&mut store, cookie, &token("t1"), &who), Ok(cookie));
    let again = create_session_with(&mut store, cookie, &token("t2"), &who);
    assert_eq!(
        again,
        Err(Error {
            kind: ErrorKind::Error(Cause::Store(
                "duplicate key value violates unique constraint \"sessions_session_cookie_key\""
                    .to_string()
            )),
        })
    );
    assert_eq!(store.session_count(), 1);
    assert_eq!(get_session(&mut store, &cookie).unwrap().token, "t1");
}

#[test]
fn token_that_was_never_issued_is_forbidden() {
    let mut store = Store::new();
    let who = user("1", "a", None);
    create_session_with(&mut store, CookieToken { value: 1 }, &token("t"), &who).unwrap();
    let outcome = get_session(&mut store, &CookieToken { value: 2 });
    assert_eq!(outcome, Err(forbidden()));
    let e = outcome.unwrap_err();
    assert_eq!(e.status_code(), 403);
    assert_eq!(e.auth(), Some(AuthError::Forbidden));
    assert_eq!(get_session(&mut Store::new(), &CookieToken { value: 1 }), Err(forbidden()));
}

#[test]
fn insert_must_affect_exactly_one_row() {
    let cookie = CookieToken { value: 9 };
    assert_eq!(inserted(Ok(1), cookie), Ok(cookie));
    let none = Err(Error { kind: ErrorKind::Database("No rows were updated".to_string()) });
    assert_eq!(inserted(Ok(0), cookie), none);
    assert_eq!(inserted(Ok(2), cookie), none);
    assert_eq!(
        inserted(Err("connection closed".to_string()), cookie),
        Err(Error { kind: ErrorKind::Error(Cause::Store("connection closed".to_string())) })
    );
}

#[test]
fn new_session_row_carries_credential_and_identity() {
    let cookie = CookieToken { value: 3 };
    let row = new_session(cookie, &token("access"), &user("42", "Ford", Some("av")));
    assert_eq!(
        row,
        NewSession {
            session_token: "access".to_string(),
            session_expires: 604800,
            session_refresh_token: "refresh".to_string(),
            session_cookie: cookie,
            discord_id: "42".to_string(),
            discord_name: "Ford".to_string(),
            discord_avatar: Some("av".to_string()),
        }
    );
}

#[test]
fn store_assigns_identifier_and_time_stamp() {
    let mut store = Store::new();
    store.set_time(5);
    let row = new_session(CookieToken { value: 3 }, &token("a"), &user("42", "Ford", None));
    assert_eq!(store.insert_session(row), Ok(1));
    store.set_time(6);
    let row = new_session(CookieToken { value: 4 }, &token("b"), &user("43", "Zaphod", None));
    assert_eq!(store.insert_session(row), Ok(1));
    let rows = store.select_session(&CookieToken { value: 4 });
    assert_eq!(rows.len(), 1);
    assert_eq!(rows[0].id, 2);
    assert_eq!(rows[0].updated, 6);
    assert_eq!(rows[0].discord_name, "Zaphod");
    assert!(store.select_session(&CookieToken { value: 5 }).is_empty());
}

fn session(id: i64, cookie: u128) -> Session {
    Session {
        id,
        cookie: CookieToken { value: cookie },
        token: "t".to_string(),
        refresh_token: "r".to_string(),
        expires: 1,
        updated: 2,
        discord_id: "d".to_string(),
        discord_name: "n".to_string(),
        discord_avatar: None,
    }
}

#[test]
fn lookup_outcome_by_number_of_rows() {
    assert_eq!(found_session(Vec::new()), Err(forbidden()));
    assert_eq!(found_session(vec![session(1, 10)]), Ok(session(1, 10)));
    assert_eq!(
        found_session(vec![session(1, 10), session(2, 10)]),
        Err(Error {
            kind: ErrorKind::Error(Cause::Store(
                "query returned an unexpected number of rows".to_string()
            )),
        })
    );
}

#[test]
fn permissions_are_listed_for_the_roles_of_the_guild() {
    let mut store = sample_store();
    assert_eq!(
        get_permissions(&mut store, "g1".to_string(), strings(&["admin"])),
        Ok(strings(&["group.create", "group.delete"]))
    );
    assert_eq!(
        get_permissions(&mut store, "g1".to_string(), strings(&["member", "helper", "admin"])),
        Ok(strings(&["group.create", "group.delete", "group.view"]))
    );
    assert_eq!(
        get_permissions(&mut store, "g2".to_string(), strings(&["member"])),
        Ok(Vec::new())
    );
    assert_eq!(get_permissions(&mut store, "g3".to_string(), strings(&["admin"])), Ok(Vec::new()));
    assert_eq!(store.statement_count(), 4);
}

#[test]
fn permission_test_agrees_with_the_list() {
    let guilds = ["g1", "g2", "g3"];
    let role_sets: [&[&str]; 5] =
        [&["admin"], &["member"], &["member", "admin"], &["nobody"], &["helper", "nobody"]];
    let permissions = ["group.create", "group.delete", "group.view", "group.rename"];
    for g in guilds.iter() {
        for roles in role_sets.iter() {
            let mut store = sample_store();
            let list = get_permissions(&mut store, g.to_string(), strings(roles)).unwrap();
            for p in permissions.iter() {
                let has =
                    has_permission(&mut store, g.to_string(), strings(roles), p.to_string())
                        .unwrap();
                assert_eq!(has, list.contains(&p.to_string()));
            }
        }
    }
    let mut store = sample_store();
    assert_eq!(
        has_permission(&mut store, "g1".to_string(), strings(&["admin"]), "group.create".into()),
        Ok(true)
    );
    assert_eq!(
        has_permission(&mut store, "g1".to_string(), strings(&["member"]), "group.create".into()),
        Ok(false)
    );
    assert_eq!(
        has_permission(&mut store, "g2".to_string(), strings(&["admin"]), "group.create".into()),
        Ok(false)
    );
}

#[test]
fn without_roles_nothing_is_permitted_and_the_store_is_not_asked() {
    let mut store = sample_store();
    assert_eq!(
        has_permission(&mut store, "g1".to_string(), Vec::new(), "group.view".to_string()),
        Ok(false)
    );
    assert_eq!(get_permissions(&mut store, "g1".to_string(), Vec::new()), Ok(Vec::new()));
    assert_eq!(store.statement_count(), 0);
    has_permission(&mut store, "g1".to_string(), strings(&["admin"]), "x".to_string()).unwrap();
    assert_eq!(store.statement_count(), 1);
}

#[test]
fn existing_groups_of_no_candidates_is_empty_without_a_store_call() {
    let mut store = Store::new();
    store.add_group("1".to_string());
    assert_eq!(existing_groups(&mut store, Vec::new()), Ok(Vec::new()));
    assert_eq!(store.statement_count(), 0);
}

#[test]
fn existing_groups_are_the_candidates_bound_to_a_group() {
    let mut store = Store::new();
    store.add_group("3".to_string());
    store.add_group("1".to_string());
    store.add_group("7".to_string());
    let a = "1".to_string();
    let b = "2".to_string();
    let c = "3".to_string();
    assert_eq!(existing_groups(&mut store, vec![&a, &b, &c]), Ok(strings(&["3", "1"])));
    assert_eq!(existing_groups(&mut store, vec![&b]), Ok(Vec::new()));
    assert_eq!(store.statement_count(), 2);
}

#[test]
fn store_is_asked_only_about_candidates() {
    let a = "1".to_string();
    assert_eq!(groups_question(Vec::new()), None);
    assert_eq!(groups_question(vec![&a]), Some(vec![&a]));
}

#[test]
fn permission_granted_by_two_roles_is_listed_once() {
    let mut store = Store::new();
    assert!(store.grant("g".to_string(), "r1".to_string(), "edit".to_string()));
    assert!(store.grant("g".to_string(), "r2".to_string(), "edit".to_string()));
    assert_eq!(
        get_permissions(&mut store, "g".to_string(), strings(&["r1", "r2"])),
        Ok(strings(&["edit"]))
    );
    assert_eq!(
        has_permission(&mut store, "g".to_string(), strings(&["r1", "r2"]), "edit".to_string()),
        Ok(true)
    );
    assert_eq!(
        store.select_permissions(&"g".to_string(), &strings(&["r2", "r1"])),
        strings(&["edit"])
    );
}

#[test]
fn permissions_come_in_the_order_of_first_grant() {
    let mut store = Store::new();
    store.grant("g".to_string(), "a".to_string(), "view".to_string());
    store.grant("g".to_string(), "b".to_string(), "edit".to_string());
    store.grant("g".to_string(), "b".to_string(), "view".to_string());
    store.grant("g".to_string(), "a".to_string(), "delete".to_string());
    store.grant("g".to_string(), "c".to_string(), "edit".to_string());
    assert_eq!(
        get_permissions(&mut store, "g".to_string(), strings(&["c", "b", "a"])),
        Ok(strings(&["view", "edit", "delete"]))
    );
    assert_eq!(
        get_permissions(&mut store, "g".to_string(), strings(&["b", "c"])),
        Ok(strings(&["edit", "view"]))
    );
}

#[test]
fn tables_are_keyed() {
    let mut store = Store::new();
    assert!(store.grant("g".to_string(), "r".to_string(), "edit".to_string()));
    assert!(!store.grant("g".to_string(), "r".to_string(), "edit".to_string()));
    assert!(store.grant("g".to_string(), "r".to_string(), "view".to_string()));
    assert!(store.grant("h".to_string(), "r".to_string(), "edit".to_string()));
    assert_eq!(
        get_permissions(&mut store, "g".to_string(), strings(&["r"])),
        Ok(strings(&["edit", "view"]))
    );
    assert!(store.add_group("1".to_string()));
    assert!(!store.add_group("1".to_string()));
    assert!(store.add_group("2".to_string()));
    let one = "1".to_string();
    assert_eq!(existing_groups(&mut store, vec![&one, &one]), Ok(strings(&["1"])));
    assert_eq!(store.select_groups(&vec![&one]), strings(&["1"]));
}

#[test]
fn names_come_back_as_a_set() {
    assert_eq!(
        names_found(Ok(strings(&["b", "a", "b", "c", "a"]))),
        Ok(strings(&["b", "a", "c"]))
    );
    assert_eq!(names_found(Ok(Vec::new())), Ok(Vec::new()));
    assert_eq!(
        names_found(Err("connection closed".to_string())),
        Err(Error { kind: ErrorKind::Error(Cause::Store("connection closed".to_string())) })
    );
    assert_eq!(dedup_texts(strings(&["x", "x", "y", "x"])), strings(&["x", "y"]));
}

#[test]
fn permission_test_outcome_by_number_of_rows() {
    assert_eq!(permission_found(Ok(0)), Ok(false));
    assert_eq!(permission_found(Ok(1)), Ok(true));
    assert_eq!(
        permission_found(Err("timeout".to_string())),
        Err(Error { kind: ErrorKind::Error(Cause::Store("timeout".to_string())) })
    );
}

#[test]
fn lookup_outcome_of_a_failed_store() {
    assert_eq!(
        looked_up(Err("connection closed".to_string())),
        Err(Error { kind: ErrorKind::Error(Cause::Store("connection closed".to_string())) })
    );
    assert_eq!(looked_up(Ok(Vec::new())), Err(forbidden()));
    assert_eq!(looked_up(Ok(vec![session(1, 10)])), Ok(session(1, 10)));
}

#[test]
fn store_is_asked_only_about_roles() {
    assert_eq!(roles_question(Vec::new()), None);
    assert_eq!(roles_question(strings(&["a"])), Some(strings(&["a"])));
}

#[test]
fn empty_store_refuses_no_token() {
    for _ in 0..32 {
        let mut store = Store::new();
        let who = user("1", "a", None);
        assert!(create_session(&mut store, &token("t"), &who).is_ok());
        assert_eq!(store.session_count(), 1);
    }
}
