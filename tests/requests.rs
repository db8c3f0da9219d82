use web_backend::db::DB;
use web_backend::error::{AppError, Failure};
use web_backend::gongzuo::{ContentKind, EntryError};
use web_backend::handlers::{
    all_ongzuos, delete_gongzuo, edit_gongzuo, end_gongzuo, end_gongzuo_at, gongzuo_by_id, login, logout, me,
    register, start_gongzuo, start_gongzuo_at, users, GongzuoDeletePayload, GongzuoEditPayload,
    GongzuoEndPayload, GongzuoStartPayload, LoginPayload, LogoutPayload, Rejection, UserPayload,
};
use web_backend::session::AuthError;
use web_backend::time::UtcTime;

fn at(micros: i64) -> UtcTime {
    UtcTime { micros }
}

fn db_with_admin(password: &str) -> DB {
    let mut db = DB::new();
    let (salt, hash) = web_backend::password::derive(password.to_string()).unwrap();
    db.user_handler.register_admin("admin", &hash, &salt, at(0)).unwrap();
    db
}

fn sign_in(db: &mut DB, name: &str, password: &str) -> String {
    login(db, LoginPayload { username: name.to_string(), password: password.to_string() }).unwrap()
}

fn start(kind: ContentKind, label: &str) -> GongzuoStartPayload {
    GongzuoStartPayload { content_kind: kind, content: label.to_string() }
}

#[test]
fn admin_starts_and_ends_an_entry() {
    let mut db = db_with_admin("secret");
    let token = sign_in(&mut db, "admin", "secret");
    assert_eq!(token.len(), 36);
    let id = start_gongzuo_at(&mut db, Some(token.clone()), start(ContentKind::Work, "writing"), at(1_000)).unwrap();
    let ended = end_gongzuo_at(&mut db, Some(token.clone()), GongzuoEndPayload { gongzuo_id: id }, at(5_000)).unwrap();
    assert_eq!(ended, at(5_000));
    let g = gongzuo_by_id(&db, Some(token), id).unwrap();
    assert_eq!(g.id, id);
    assert_eq!(g.content_kind, ContentKind::Work);
    assert_eq!(g.content, "writing");
    let end = g.ended_at.unwrap();
    assert!(end.utc.micros > g.started_at.utc.micros);
    assert_eq!(g.started_at.offset_seconds, 32400);
}

#[test]
fn start_and_end_with_the_clock() {
    let mut db = db_with_admin("secret");
    let token = sign_in(&mut db, "admin", "secret");
    let id = start_gongzuo(&mut db, Some(token.clone()), start(ContentKind::Work, "writing")).unwrap();
    let started = chrono::Utc::now();
    while chrono::Utc::now() <= started + chrono::Duration::milliseconds(2) {}
    let ended = end_gongzuo(&mut db, Some(token.clone()), GongzuoEndPayload { gongzuo_id: id }).unwrap();
    let g = gongzuo_by_id(&db, Some(token), id).unwrap();
    assert_eq!(g.ended_at.unwrap().utc, ended);
    assert!(ended.micros > g.started_at.utc.micros);
    assert!(ended.micros > 1_600_000_000_000_000);
}

#[test]
fn wrong_password_is_unauthorized_and_changes_no_token() {
    let mut db = db_with_admin("secret");
    let r = login(&mut db, LoginPayload { username: "admin".to_string(), password: "guess".to_string() });
    assert_eq!(r, Err(Rejection::LoginFailed));
    assert_eq!(Rejection::LoginFailed.status_code(), 401);
    assert!(db.get_user_by_username("admin").unwrap().session_token.is_none());
    let token = sign_in(&mut db, "admin", "secret");
    let r = login(&mut db, LoginPayload { username: "admin".to_string(), password: "guess".to_string() });
    assert_eq!(r, Err(Rejection::LoginFailed));
    assert_eq!(db.get_user_by_username("admin").unwrap().session_token, Some(token));
}

#[test]
fn login_keeps_an_existing_token() {
    let mut db = db_with_admin("secret");
    let t1 = sign_in(&mut db, "admin", "secret");
    let t2 = sign_in(&mut db, "admin", "secret");
    assert_eq!(t1, t2);
}

#[test]
fn login_of_unknown_user_is_an_internal_error() {
    let mut db = db_with_admin("secret");
    let r = login(&mut db, LoginPayload { username: "ghost".to_string(), password: "x".to_string() });
    let e = Rejection::Internal(AppError { inner: Failure::UnknownUser });
    assert_eq!(r, Err(e));
    assert_eq!(e.status_code(), 500);
}

#[test]
fn logout_clears_the_token() {
    let mut db = db_with_admin("secret");
    let token = sign_in(&mut db, "admin", "secret");
    assert_eq!(logout(&mut db, LogoutPayload { session_token: token.clone() }), Ok(()));
    assert!(db.get_user_by_username("admin").unwrap().session_token.is_none());
    assert_eq!(me(&db, Some(token.clone())).unwrap_err(), Rejection::Auth(AuthError::InvalidToken));
    assert_eq!(
        logout(&mut db, LogoutPayload { session_token: token }),
        Err(Rejection::Auth(AuthError::InvalidToken))
    );
    let fresh = sign_in(&mut db, "admin", "secret");
    assert_eq!(me(&db, Some(fresh)).unwrap().username, "admin");
}

#[test]
fn register_is_for_admins_only() {
    let mut db = db_with_admin("secret");
    let admin = sign_in(&mut db, "admin", "secret");
    let u = register(
        &mut db,
        Some(admin.clone()),
        UserPayload { username: "alice".to_string(), password: "pw".to_string() },
    )
    .unwrap();
    assert_eq!(u.id, 2);
    assert_eq!(u.username, "alice");
    let dup = register(
        &mut db,
        Some(admin),
        UserPayload { username: "alice".to_string(), password: "other".to_string() },
    );
    assert_eq!(dup.unwrap_err(), Rejection::UserExists);
    assert_eq!(Rejection::UserExists.status_code(), 400);
    let alice = sign_in(&mut db, "alice", "pw");
    let r = register(&mut db, Some(alice), UserPayload { username: "bob".to_string(), password: "pw".to_string() });
    assert_eq!(r.unwrap_err(), Rejection::NotAdmin);
    assert_eq!(Rejection::NotAdmin.status_code(), 401);
    let r = register(&mut db, None, UserPayload { username: "bob".to_string(), password: "pw".to_string() });
    assert_eq!(r.unwrap_err(), Rejection::Auth(AuthError::InvalidToken));
    assert!(db.get_user_by_username("bob").is_none());
    let listed = users(&db);
    assert_eq!(listed.len(), 1);
    assert_eq!(listed[0].username, "alice");
    assert_eq!(db.users().len(), 2);
}

#[test]
fn entry_requests_need_a_session() {
    let mut db = db_with_admin("secret");
    let invalid = Rejection::Auth(AuthError::InvalidToken);
    assert_eq!(invalid.status_code(), 401);
    assert_eq!(start_gongzuo_at(&mut db, None, start(ContentKind::Work, "a"), at(1)), Err(invalid));
    assert_eq!(start_gongzuo_at(&mut db, Some(String::new()), start(ContentKind::Work, "a"), at(1)), Err(invalid));
    assert_eq!(end_gongzuo_at(&mut db, Some("nope".to_string()), GongzuoEndPayload { gongzuo_id: 1 }, at(1)), Err(invalid));
    assert_eq!(delete_gongzuo(&mut db, None, GongzuoDeletePayload { gongzuo_id: 1 }), Err(invalid));
    assert_eq!(gongzuo_by_id(&db, None, 1).unwrap_err(), invalid);
    assert_eq!(all_ongzuos(&db, None).unwrap_err(), invalid);
    assert!(db.gongzuo_handler.gongzuos_by_user_id(1).is_empty());
}

#[test]
fn ending_twice_or_a_missing_entry_is_rejected() {
    let mut db = db_with_admin("secret");
    let token = sign_in(&mut db, "admin", "secret");
    let id = start_gongzuo_at(&mut db, Some(token.clone()), start(ContentKind::NotWork, "break"), at(10)).unwrap();
    assert!(end_gongzuo_at(&mut db, Some(token.clone()), GongzuoEndPayload { gongzuo_id: id }, at(20)).is_ok());
    let again = end_gongzuo_at(&mut db, Some(token.clone()), GongzuoEndPayload { gongzuo_id: id }, at(30));
    assert_eq!(again, Err(Rejection::AlreadyEnded(id)));
    let missing = end_gongzuo_at(&mut db, Some(token.clone()), GongzuoEndPayload { gongzuo_id: 99 }, at(30));
    assert_eq!(missing, Err(Rejection::NotFound(99)));
    assert_eq!(Rejection::NotFound(99).status_code(), 400);
    assert_eq!(gongzuo_by_id(&db, Some(token), 99).unwrap_err(), Rejection::NotFound(99));
}

#[test]
fn edit_and_delete_go_through_the_store_checks() {
    let mut db = db_with_admin("secret");
    let admin = sign_in(&mut db, "admin", "secret");
    register(&mut db, Some(admin.clone()), UserPayload { username: "alice".to_string(), password: "pw".to_string() })
        .unwrap();
    let alice = sign_in(&mut db, "alice", "pw");
    let a1 = start_gongzuo_at(&mut db, Some(alice.clone()), start(ContentKind::Work, "a"), at(100)).unwrap();
    end_gongzuo_at(&mut db, Some(alice.clone()), GongzuoEndPayload { gongzuo_id: a1 }, at(200)).unwrap();
    let a2 = start_gongzuo_at(&mut db, Some(alice.clone()), start(ContentKind::Work, "b"), at(300)).unwrap();
    let edit = |id: i32, s: i64, e: Option<i64>| GongzuoEditPayload {
        gongzuo_id: id,
        started_at: at(s),
        ended_at: e.map(at),
        content_kind: ContentKind::NotWork,
        content: "edited".to_string(),
    };
    let conflict = edit_gongzuo(&mut db, Some(alice.clone()), edit(a2, 150, Some(250)));
    assert_eq!(conflict, Err(Rejection::Entry(EntryError::Conflict)));
    assert_eq!(Rejection::Entry(EntryError::Conflict).status_code(), 400);
    let foreign = edit_gongzuo(&mut db, Some(admin.clone()), edit(a2, 150, Some(250)));
    assert_eq!(foreign, Err(Rejection::Entry(EntryError::Ownership)));
    assert_eq!(edit_gongzuo(&mut db, Some(alice.clone()), edit(a2, 250, Some(280))), Ok(()));
    let g = gongzuo_by_id(&db, Some(admin.clone()), a2).unwrap();
    assert_eq!((g.started_at.utc, g.ended_at.map(|t| t.utc)), (at(250), Some(at(280))));
    assert_eq!(g.content, "edited");
    let listed = all_ongzuos(&db, Some(admin.clone())).unwrap();
    assert_eq!(listed.len(), 2);
    assert_eq!(listed[0].content, "a");
    assert_eq!(listed[1].content, "edited");
    assert_eq!(all_ongzuos(&db, Some(alice.clone())).unwrap_err(), Rejection::NotAdmin);
    assert_eq!(
        delete_gongzuo(&mut db, Some(admin), GongzuoDeletePayload { gongzuo_id: a1 }),
        Err(Rejection::Entry(EntryError::Ownership))
    );
    assert_eq!(delete_gongzuo(&mut db, Some(alice.clone()), GongzuoDeletePayload { gongzuo_id: a1 }), Ok(()));
    assert_eq!(
        delete_gongzuo(&mut db, Some(alice), GongzuoDeletePayload { gongzuo_id: a1 }),
        Err(Rejection::Entry(EntryError::NotFound(a1)))
    );
    assert_eq!(Rejection::Entry(EntryError::Store).status_code(), 500);
}

#[test]
fn ending_at_or_before_the_start_is_rejected() {
    let mut db = db_with_admin("secret");
    let token = sign_in(&mut db, "admin", "secret");
    let id = start_gongzuo_at(&mut db, Some(token.clone()), start(ContentKind::Work, "a"), at(500)).unwrap();
    let r = end_gongzuo_at(&mut db, Some(token.clone()), GongzuoEndPayload { gongzuo_id: id }, at(500));
    assert_eq!(r, Err(Rejection::Entry(EntryError::InvalidPeriod)));
    assert_eq!(Rejection::Entry(EntryError::InvalidPeriod).status_code(), 400);
    let r = end_gongzuo_at(&mut db, Some(token.clone()), GongzuoEndPayload { gongzuo_id: id }, at(400));
    assert_eq!(r, Err(Rejection::Entry(EntryError::InvalidPeriod)));
    assert!(gongzuo_by_id(&db, Some(token.clone()), id).unwrap().ended_at.is_none());
    assert_eq!(end_gongzuo_at(&mut db, Some(token), GongzuoEndPayload { gongzuo_id: id }, at(501)), Ok(at(501)));
}

#[test]
fn logout_with_an_empty_token_is_rejected() {
    let mut db = db_with_admin("secret");
    let _ = sign_in(&mut db, "admin", "secret");
    let r = logout(&mut db, LogoutPayload { session_token: String::new() });
    assert_eq!(r, Err(Rejection::Auth(AuthError::InvalidToken)));
    assert!(db.get_user_by_username("admin").unwrap().session_token.is_some());
}
