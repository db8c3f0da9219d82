//! The whole store: users, contents and time entries.

use vstd::prelude::*;
use crate::error::{AppError, Failure};
use crate::gongzuo::{GongzuoHandler, StoreState};
use crate::time::UtcTime;
use crate::user::{UserHandler, UserRaw, UserTable};

verus! {

/// The abstract content of the whole store.
pub struct DbState {
    pub users: UserTable,
    pub store: StoreState,
}

impl DbState {
    pub open spec fn wf(self) -> bool {
        self.users.wf() && self.store.wf()
    }
}

/// Users and time entries, served to the request handlers.
pub struct DB {
    pub user_handler: UserHandler,
    pub gongzuo_handler: GongzuoHandler,
}

impl View for DB {
    type V = DbState;

    open spec fn view(&self) -> DbState {
        DbState { users: self.user_handler@, store: self.gongzuo_handler@ }
    }
}

impl DB {
    /// An empty store.
    pub fn new() -> (r: DB)
        ensures
            r@.wf(),
            r@.users.users.len() == 0,
            r@.store.contents.len() == 0,
            r@.store.entries.len() == 0,
    {
        DB { user_handler: UserHandler::new(), gongzuo_handler: GongzuoHandler::new() }
    }

    /// The user named `username`.
    pub fn get_user_by_username(&self, username: &str) -> (r: Option<UserRaw>)
        ensures
            r == self@.users.by_name(username@),
    {
        self.user_handler.get_user_by_username(username)
    }

    /// All users, in identifier order.
    pub fn users(&self) -> (r: Vec<UserRaw>)
        ensures
            r@ == self@.users.users,
    {
        self.user_handler.users()
    }

    /// Adds a user; see `UserHandler::register_user`.
    pub fn register_user(
        &mut self,
        username: &str,
        hashed_password: &str,
        salt: &str,
        created_at: UtcTime,
    ) -> (r: Result<(), AppError>)
        requires
            old(self)@.wf(),
        ensures
            final(self)@.wf(),
            final(self)@.store == old(self)@.store,
            r == old(self)@.users.register_result(username@),
            r is Ok ==> old(self)@.users.registered_as(
                final(self)@.users,
                username@,
                hashed_password@,
                salt@,
                created_at,
                false,
            ),
            r is Err ==> final(self)@ == old(self)@,
    {
        self.user_handler.register_user(username, hashed_password, salt, created_at)
    }

    /// Gives user `user_id` the session token `session_token`; see
    /// `UserHandler::update_session_token`.
    pub fn update_session_token(&mut self, user_id: i32, session_token: &str) -> (r: Result<(), AppError>)
        requires
            old(self)@.wf(),
        ensures
            final(self)@.wf(),
            final(self)@.store == old(self)@.store,
            r is Ok <==> old(self)@.users.token_free_for(user_id, session_token@),
            r is Ok ==> old(self)@.users.token_set(final(self)@.users, user_id, Some(session_token@)),
            r is Err ==> r == Err::<(), AppError>(AppError { inner: Failure::TokenTaken }) && final(self)@
                == old(self)@,
    {
        self.user_handler.update_session_token(user_id, session_token)
    }

    /// Clears the session token of user `user_id`.
    pub fn remove_session_token(&mut self, user_id: i32) -> (r: ())
        requires
            old(self)@.wf(),
        ensures
            final(self)@.wf(),
            final(self)@.store == old(self)@.store,
            old(self)@.users.token_set(final(self)@.users, user_id, None),
    {
        self.user_handler.remove_session_token(user_id)
    }
}

} // verus!
