//! Request handling: each operation gates on the session, calls the stores
//! and answers with a value or a typed rejection. Transport, encoding and
//! status lines are the boundary's business.

use vstd::prelude::*;
use crate::db::{DB, DbState};
use crate::error::{AppError, Failure};
use crate::gongzuo::{ContentKind, EntryError, Gongzuo, GongzuoPayload, GongzuoRaw, lemma_ended_entry_ends_after_start};
use crate::password::{credential_check, is_credential_for, utf8_of, verify_with_salt, MAX_KDF_INPUT};
use crate::query::{select, lemma_select_step};
use crate::session::{AuthError, create_session_token, require_session, session_user};
use crate::time::{UtcTime, now_utc};
use crate::user::{User, UserRaw, clone_user, not_admin, token_view};

verus! {

/// Why a request was turned down.
#[derive(Clone, Copy, Debug, PartialEq, Eq, Structural)]
pub enum Rejection {
    Auth(AuthError),
    /// Registration and the listing of all entries are for admins only.
    NotAdmin,
    /// The password does not match.
    LoginFailed,
    UserExists,
    /// No entry has this identifier.
    NotFound(i32),
    /// The entry has ended already.
    AlreadyEnded(i32),
    Entry(EntryError),
    Internal(AppError),
}

impl Rejection {
    pub open spec fn spec_status(self) -> u16 {
        match self {
            Rejection::Auth(_) | Rejection::NotAdmin | Rejection::LoginFailed => 401,
            Rejection::Entry(EntryError::Store) | Rejection::Internal(_) => 500,
            _ => 400,
        }
    }

    /// HTTP status of the answer: unauthorized, bad request, or internal
    /// error.
    pub fn status_code(&self) -> (r: u16)
        ensures
            r == self.spec_status(),
    {
        match self {
            Rejection::Auth(_) | Rejection::NotAdmin | Rejection::LoginFailed => 401,
            Rejection::Entry(EntryError::Store) | Rejection::Internal(_) => 500,
            _ => 400,
        }
    }
}

#[derive(Debug)]
pub struct GongzuoStartPayload {
    pub content_kind: ContentKind,
    pub content: String,
}

#[derive(Debug)]
pub struct GongzuoEndPayload {
    pub gongzuo_id: i32,
}

#[derive(Debug)]
pub struct GongzuoEditPayload {
    pub gongzuo_id: i32,
    pub started_at: UtcTime,
    pub ended_at: Option<UtcTime>,
    pub content_kind: ContentKind,
    pub content: String,
}

#[derive(Debug)]
pub struct GongzuoDeletePayload {
    pub gongzuo_id: i32,
}

#[derive(Debug)]
pub struct LoginPayload {
    pub username: String,
    pub password: String,
}

#[derive(Debug)]
pub struct LogoutPayload {
    pub session_token: String,
}

#[derive(Debug)]
pub struct UserPayload {
    pub username: String,
    pub password: String,
}

pub open spec fn invalid_token<T>() -> Result<T, Rejection> {
    Err(Rejection::Auth(AuthError::InvalidToken))
}

/// A store rejection as the answer to a request.
pub open spec fn entry_answer<T>(r: Result<T, EntryError>) -> Result<T, Rejection> {
    match r {
        Ok(v) => Ok(v),
        Err(e) => Err(Rejection::Entry(e)),
    }
}

/// The payload of an entry started at `now`.
pub open spec fn start_payload(payload: GongzuoStartPayload, now: UtcTime) -> GongzuoPayload {
    GongzuoPayload {
        started_at: now,
        ended_at: None,
        content_kind: payload.content_kind,
        content: payload.content,
    }
}

/// The payload that ends entry `g` at `now`.
pub open spec fn end_payload(g: GongzuoRaw, now: UtcTime) -> GongzuoPayload {
    GongzuoPayload {
        started_at: g.started_at,
        ended_at: Some(now),
        content_kind: g.content_kind,
        content: g.content,
    }
}

pub open spec fn edit_payload(payload: GongzuoEditPayload) -> GongzuoPayload {
    GongzuoPayload {
        started_at: payload.started_at,
        ended_at: payload.ended_at,
        content_kind: payload.content_kind,
        content: payload.content,
    }
}

/// Starting an entry at `now` took `old` to `new` and answered `r`.
pub open spec fn start_outcome(
    old: DbState,
    new: DbState,
    session_token: Option<String>,
    payload: GongzuoStartPayload,
    now: UtcTime,
    r: Result<i32, Rejection>,
) -> bool {
    match session_user(old.users, session_token) {
        None => r == invalid_token::<i32>() && new == old,
        Some(u) => {
            let p = start_payload(payload, now);
            &&& r == entry_answer(old.store.create_result(u.id, p))
            &&& new.users == old.users
            &&& new.store == if r is Ok {
                old.store.created(u.id, p)
            } else {
                old.store
            }
        },
    }
}

/// Ending an entry at `now` took `old` to `new` and answered `r`.
pub open spec fn end_outcome(
    old: DbState,
    new: DbState,
    session_token: Option<String>,
    gongzuo_id: i32,
    now: UtcTime,
    r: Result<UtcTime, Rejection>,
) -> bool {
    match session_user(old.users, session_token) {
        None => r == invalid_token::<UtcTime>() && new == old,
        Some(u) => match old.store.entry_view(gongzuo_id) {
            None => r == Err::<UtcTime, Rejection>(Rejection::NotFound(gongzuo_id)) && new == old,
            Some(g) => if g.ended_at is Some {
                r == Err::<UtcTime, Rejection>(Rejection::AlreadyEnded(gongzuo_id)) && new == old
            } else {
                let p = end_payload(g, now);
                match old.store.update_result(gongzuo_id, u.id, p) {
                    Ok(_) => r == Ok::<UtcTime, Rejection>(now) && new.users == old.users
                        && new.store == old.store.updated(gongzuo_id, u.id, p),
                    Err(e) => r == Err::<UtcTime, Rejection>(Rejection::Entry(e)) && new == old,
                }
            },
        },
    }
}

/// An entry that was ended successfully is retrievable by its identifier,
/// with the end instant that was answered, which is after its start.
pub proof fn lemma_end_then_get(
    old: DbState,
    new: DbState,
    session_token: Option<String>,
    gongzuo_id: i32,
    now: UtcTime,
    r: Result<UtcTime, Rejection>,
)
    requires
        old.wf(),
        end_outcome(old, new, session_token, gongzuo_id, now, r),
        r is Ok,
    ensures
        r == Ok::<UtcTime, Rejection>(now),
        new.store.entry_view(gongzuo_id) matches Some(g) && g.ended_at == Some(now)
            && g.started_at.micros < now.micros,
{
    let u = session_user(old.users, session_token).unwrap();
    let g = old.store.entry_view(gongzuo_id).unwrap();
    lemma_ended_entry_ends_after_start(old.store, gongzuo_id, u.id, end_payload(g, now));
}

fn show_rows(rows: &Vec<GongzuoRaw>) -> (r: Vec<Gongzuo>)
    ensures
        r@ == Gongzuo::shown_rows(rows@),
{
    let mut out: Vec<Gongzuo> = Vec::new();
    let mut i: usize = 0;
    while i < rows.len()
        invariant
            0 <= i <= rows@.len(),
            out@ == Gongzuo::shown_rows(rows@.take(i as int)),
        decreases rows@.len() - i,
    {
        out.push(Gongzuo::from_raw(rows[i].duplicate()));
        assert(Gongzuo::shown_rows(rows@.take(i + 1)) =~= Gongzuo::shown_rows(rows@.take(i as int)).push(
            Gongzuo::shown(rows@[i as int]),
        ));
        i = i + 1;
    }
    assert(rows@.take(i as int) =~= rows@);
    out
}

/// The entries of all users who are not admins; for admins only.
pub fn all_ongzuos(db: &DB, session_token: Option<String>) -> (r: Result<Vec<Gongzuo>, Rejection>)
    requires
        db@.wf(),
    ensures
        match session_user(db@.users, session_token) {
            None => r == invalid_token::<Vec<Gongzuo>>(),
            Some(u) => if u.is_admin {
                r matches Ok(v) && v@ == Gongzuo::shown_rows(db@.store.rows_for_regular(db@.users))
            } else {
                r == Err::<Vec<Gongzuo>, Rejection>(Rejection::NotAdmin)
            },
        },
{
    let user = match require_session(&db.user_handler, &session_token) {
        Ok(u) => u,
        Err(e) => {
            return Err(Rejection::Auth(e));
        },
    };
    if !user.is_admin {
        return Err(Rejection::NotAdmin);
    }
    let rows = db.gongzuo_handler.all_gongzuos(&db.user_handler);
    Ok(show_rows(&rows))
}

/// Starts an entry of the signed-in user at `now`, with no end.
pub fn start_gongzuo_at(
    db: &mut DB,
    session_token: Option<String>,
    payload: GongzuoStartPayload,
    now: UtcTime,
) -> (r: Result<i32, Rejection>)
    requires
        old(db)@.wf(),
    ensures
        final(db)@.wf(),
        start_outcome(old(db)@, final(db)@, session_token, payload, now, r),
{
    let user = match require_session(&db.user_handler, &session_token) {
        Ok(u) => u,
        Err(e) => {
            return Err(Rejection::Auth(e));
        },
    };
    let GongzuoStartPayload { content_kind, content } = payload;
    let p = GongzuoPayload { started_at: now, ended_at: None, content_kind, content };
    match db.gongzuo_handler.create_gongzuo(user.id, p) {
        Ok(id) => Ok(id),
        Err(e) => Err(Rejection::Entry(e)),
    }
}

/// Starts an entry of the signed-in user now.
pub fn start_gongzuo(db: &mut DB, session_token: Option<String>, payload: GongzuoStartPayload) -> (r: Result<
    i32,
    Rejection,
>)
    requires
        old(db)@.wf(),
    ensures
        final(db)@.wf(),
        exists|now: UtcTime| now.micros >= 0 && start_outcome(old(db)@, final(db)@, session_token, payload, now, r),
{
    let now = now_utc();
    start_gongzuo_at(db, session_token, payload, now)
}

/// Ends a running entry of the signed-in user at `now`.
pub fn end_gongzuo_at(
    db: &mut DB,
    session_token: Option<String>,
    payload: GongzuoEndPayload,
    now: UtcTime,
) -> (r: Result<UtcTime, Rejection>)
    requires
        old(db)@.wf(),
    ensures
        final(db)@.wf(),
        end_outcome(old(db)@, final(db)@, session_token, payload.gongzuo_id, now, r),
{
    let user = match require_session(&db.user_handler, &session_token) {
        Ok(u) => u,
        Err(e) => {
            return Err(Rejection::Auth(e));
        },
    };
    let gongzuo_id = payload.gongzuo_id;
    let g = match db.gongzuo_handler.gongzuo_by_gongzuo_id(gongzuo_id) {
        Some(g) => g,
        None => {
            return Err(Rejection::NotFound(gongzuo_id));
        },
    };
    if g.ended_at.is_some() {
        return Err(Rejection::AlreadyEnded(gongzuo_id));
    }
    let p = GongzuoPayload {
        started_at: g.started_at,
        ended_at: Some(now),
        content_kind: g.content_kind,
        content: g.content,
    };
    match db.gongzuo_handler.update_gongzuo(gongzuo_id, user.id, p) {
        Ok(()) => Ok(now),
        Err(e) => Err(Rejection::Entry(e)),
    }
}

/// Ends a running entry of the signed-in user now; answers the end instant.
pub fn end_gongzuo(db: &mut DB, session_token: Option<String>, payload: GongzuoEndPayload) -> (r: Result<
    UtcTime,
    Rejection,
>)
    requires
        old(db)@.wf(),
    ensures
        final(db)@.wf(),
        exists|now: UtcTime|
            now.micros >= 0 && end_outcome(old(db)@, final(db)@, session_token, payload.gongzuo_id, now, r),
{
    let now = now_utc();
    end_gongzuo_at(db, session_token, payload, now)
}

/// Replaces the period and content of an entry of the signed-in user.
pub fn edit_gongzuo(db: &mut DB, session_token: Option<String>, payload: GongzuoEditPayload) -> (r: Result<
    (),
    Rejection,
>)
    requires
        old(db)@.wf(),
    ensures
        final(db)@.wf(),
        match session_user(old(db)@.users, session_token) {
            None => r == invalid_token::<()>() && final(db)@ == old(db)@,
            Some(u) => {
                let p = edit_payload(payload);
                &&& r == entry_answer(old(db)@.store.update_result(payload.gongzuo_id, u.id, p))
                &&& final(db)@.users == old(db)@.users
                &&& final(db)@.store == if r is Ok {
                    old(db)@.store.updated(payload.gongzuo_id, u.id, p)
                } else {
                    old(db)@.store
                }
            },
        },
{
    let user = match require_session(&db.user_handler, &session_token) {
        Ok(u) => u,
        Err(e) => {
            return Err(Rejection::Auth(e));
        },
    };
    let GongzuoEditPayload { gongzuo_id, started_at, ended_at, content_kind, content } = payload;
    let p = GongzuoPayload { started_at, ended_at, content_kind, content };
    match db.gongzuo_handler.update_gongzuo(gongzuo_id, user.id, p) {
        Ok(()) => Ok(()),
        Err(e) => Err(Rejection::Entry(e)),
    }
}

/// Deletes an entry of the signed-in user.
pub fn delete_gongzuo(db: &mut DB, session_token: Option<String>, payload: GongzuoDeletePayload) -> (r: Result<
    (),
    Rejection,
>)
    requires
        old(db)@.wf(),
    ensures
        final(db)@.wf(),
        match session_user(old(db)@.users, session_token) {
            None => r == invalid_token::<()>() && final(db)@ == old(db)@,
            Some(u) => {
                &&& r == entry_answer(old(db)@.store.delete_result(payload.gongzuo_id, u.id))
                &&& final(db)@.users == old(db)@.users
                &&& final(db)@.store == if r is Ok {
                    old(db)@.store.deleted(payload.gongzuo_id)
                } else {
                    old(db)@.store
                }
            },
        },
{
    let user = match require_session(&db.user_handler, &session_token) {
        Ok(u) => u,
        Err(e) => {
            return Err(Rejection::Auth(e));
        },
    };
    match db.gongzuo_handler.delete_gongzuo(payload.gongzuo_id, user.id) {
        Ok(()) => Ok(()),
        Err(e) => Err(Rejection::Entry(e)),
    }
}

/// The entry with this identifier, for any signed-in user.
pub fn gongzuo_by_id(db: &DB, session_token: Option<String>, gongzuo_id: i32) -> (r: Result<Gongzuo, Rejection>)
    requires
        db@.wf(),
    ensures
        r == (match session_user(db@.users, session_token) {
            None => invalid_token::<Gongzuo>(),
            Some(_) => match db@.store.entry_view(gongzuo_id) {
                Some(g) => Ok(Gongzuo::shown(g)),
                None => Err(Rejection::NotFound(gongzuo_id)),
            },
        }),
{
    if let Err(e) = require_session(&db.user_handler, &session_token) {
        return Err(Rejection::Auth(e));
    }
    match db.gongzuo_handler.gongzuo_by_gongzuo_id(gongzuo_id) {
        Some(g) => Ok(Gongzuo::from_raw(g)),
        None => Err(Rejection::NotFound(gongzuo_id)),
    }
}

/// Signs a user in. With the right password the answer is the session
/// token the user holds, or a fresh one given to the user; with a wrong one
/// the answer is `LoginFailed` and nothing changes.
pub fn login(db: &mut DB, payload: LoginPayload) -> (r: Result<String, Rejection>)
    requires
        old(db)@.wf(),
    ensures
        final(db)@.wf(),
        final(db)@.store == old(db)@.store,
        match old(db)@.users.by_name(payload.username@) {
            None => r == Err::<String, Rejection>(Rejection::Internal(AppError { inner: Failure::UnknownUser }))
                && final(db)@ == old(db)@,
            Some(u) => match credential_check(u.salt@, u.password@, payload.password@) {
                Err(e) => r == Err::<String, Rejection>(Rejection::Internal(e)) && final(db)@ == old(db)@,
                Ok(false) => r == Err::<String, Rejection>(Rejection::LoginFailed) && final(db)@ == old(db)@,
                Ok(true) => match token_view(u.session_token) {
                    Some(t) => r matches Ok(s) && s@ == t && final(db)@ == old(db)@,
                    None => match r {
                        Ok(s) => s@.len() == 36 && old(db)@.users.token_free_for(u.id, s@)
                            && old(db)@.users.token_set(final(db)@.users, u.id, Some(s@)),
                        Err(Rejection::Internal(e)) => final(db)@ == old(db)@ && (e.inner
                            == Failure::RandomSource || e.inner == Failure::TokenTaken),
                        Err(_) => false,
                    },
                },
            },
        },
{
    let LoginPayload { username, password } = payload;
    let user = match db.user_handler.get_user_by_username(username.as_str()) {
        Some(u) => u,
        None => {
            return Err(Rejection::Internal(AppError::new(Failure::UnknownUser)));
        },
    };
    let UserRaw { id: user_id, password: hashed_password, salt, session_token, .. } = user;
    let is_valid = match verify_with_salt(salt, hashed_password, password) {
        Ok(v) => v,
        Err(e) => {
            return Err(Rejection::Internal(e));
        },
    };
    if !is_valid {
        return Err(Rejection::LoginFailed);
    }
    match session_token {
        Some(t) => Ok(t),
        None => {
            let t = match create_session_token() {
                Ok(t) => t,
                Err(e) => {
                    return Err(Rejection::Internal(e));
                },
            };
            match db.user_handler.update_session_token(user_id, t.as_str()) {
                Ok(()) => Ok(t),
                Err(e) => Err(Rejection::Internal(e)),
            }
        },
    }
}

/// Signs out the holder of `session_token`, clearing the token.
pub fn logout(db: &mut DB, payload: LogoutPayload) -> (r: Result<(), Rejection>)
    requires
        old(db)@.wf(),
    ensures
        final(db)@.wf(),
        final(db)@.store == old(db)@.store,
        payload.session_token@.len() == 0 ==> r == invalid_token::<()>(),
        match old(db)@.users.by_token(payload.session_token@) {
            None => r == invalid_token::<()>() && final(db)@ == old(db)@,
            Some(u) => r is Ok && old(db)@.users.token_set(final(db)@.users, u.id, None),
        },
{
    match db.user_handler.ensure_session_token(payload.session_token.as_str()) {
        Some(u) => {
            db.user_handler.remove_session_token(u.id);
            Ok(())
        },
        None => Err(Rejection::Auth(AuthError::InvalidToken)),
    }
}

/// Registers a new (non-admin) user on behalf of a signed-in admin, with a
/// freshly derived credential and the current time as creation time.
pub fn register(db: &mut DB, session_token: Option<String>, payload: UserPayload) -> (r: Result<User, Rejection>)
    requires
        old(db)@.wf(),
    ensures
        final(db)@.wf(),
        final(db)@.store == old(db)@.store,
        match session_user(old(db)@.users, session_token) {
            None => r == invalid_token::<User>() && final(db)@ == old(db)@,
            Some(a) => if !a.is_admin {
                r == Err::<User, Rejection>(Rejection::NotAdmin) && final(db)@ == old(db)@
            } else if old(db)@.users.by_name(payload.username@) is Some {
                r == Err::<User, Rejection>(Rejection::UserExists) && final(db)@ == old(db)@
            } else if utf8_of(payload.password@).len() >= MAX_KDF_INPUT {
                r == Err::<User, Rejection>(Rejection::Internal(AppError { inner: Failure::PasswordTooLong }))
                    && final(db)@ == old(db)@
            } else {
                match r {
                    Ok(user) => {
                        let row = final(db)@.users.users.last();
                        &&& old(db)@.users.registered_as(
                            final(db)@.users,
                            payload.username@,
                            row.password@,
                            row.salt@,
                            row.created_at,
                            false,
                        )
                        &&& is_credential_for(row.salt@, row.password@, payload.password@)
                        &&& row.created_at.micros >= 0
                        &&& user == User::shown(row)
                    },
                    Err(Rejection::Internal(e)) => final(db)@ == old(db)@ && (e.inner == Failure::RandomSource
                        || (e.inner == Failure::StoreFull && old(db)@.users.next_user_id == i32::MAX)),
                    Err(_) => false,
                }
            },
        },
{
    let admin = match require_session(&db.user_handler, &session_token) {
        Ok(u) => u,
        Err(e) => {
            return Err(Rejection::Auth(e));
        },
    };
    if !admin.is_admin {
        return Err(Rejection::NotAdmin);
    }
    let UserPayload { username, password } = payload;
    if db.user_handler.get_user_by_username(username.as_str()).is_some() {
        return Err(Rejection::UserExists);
    }
    let (salt, hashed_password) = match crate::password::derive(password) {
        Ok(pair) => pair,
        Err(e) => {
            return Err(Rejection::Internal(e));
        },
    };
    let now = now_utc();
    match db.user_handler.register_user(username.as_str(), hashed_password.as_str(), salt.as_str(), now) {
        Ok(()) => {},
        Err(e) => {
            return Err(Rejection::Internal(e));
        },
    }
    let all = db.user_handler.users();
    let row = clone_user(&all[all.len() - 1]);
    Ok(User::from_raw(row))
}

/// Users as shown, in the same order.
pub open spec fn shown_users(users: Seq<UserRaw>) -> Seq<User> {
    users.map_values(|u: UserRaw| User::shown(u))
}

/// The users who are not admins.
pub fn users(db: &DB) -> (r: Vec<User>)
    ensures
        r@ == shown_users(select(db@.users.users, not_admin())),
{
    let all = db.user_handler.users();
    let mut out: Vec<User> = Vec::new();
    let mut i: usize = 0;
    while i < all.len()
        invariant
            0 <= i <= all@.len(),
            out@ == shown_users(select(all@.take(i as int), not_admin())),
        decreases all@.len() - i,
    {
        proof {
            lemma_select_step(all@, not_admin(), i as int);
        }
        if !all[i].is_admin {
            assert(not_admin()(all@[i as int]));
            let ghost prev = select(all@.take(i as int), not_admin());
            out.push(User::from_raw(clone_user(&all[i])));
            assert(shown_users(prev.push(all@[i as int])) =~= shown_users(prev).push(User::shown(all@[i as int])));
        }
        i = i + 1;
    }
    assert(all@.take(i as int) =~= all@);
    out
}

/// The signed-in user.
pub fn me(db: &DB, session_token: Option<String>) -> (r: Result<User, Rejection>)
    requires
        db@.wf(),
    ensures
        r == (match session_user(db@.users, session_token) {
            None => invalid_token::<User>(),
            Some(u) => Ok(User::shown(u)),
        }),
{
    match require_session(&db.user_handler, &session_token) {
        Ok(u) => Ok(User::from_raw(u)),
        Err(e) => Err(Rejection::Auth(e)),
    }
}

} // verus!
