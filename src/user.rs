//! Users: credentials, the admin flag and the session token a user holds.

use vstd::prelude::*;
use crate::error::{AppError, Failure};
use crate::query::{
    first_index,
    lemma_first_index_step,
    lemma_first_index_prefix,
    lemma_first_index_meaning,
};
use crate::time::UtcTime;

verus! {

/// A stored user.
#[derive(Debug)]
pub struct UserRaw {
    pub id: i32,
    pub username: String,
    /// Hexadecimal PBKDF2 hash of the password.
    pub password: String,
    /// Hexadecimal salt of the hash.
    pub salt: String,
    pub created_at: UtcTime,
    pub session_token: Option<String>,
    pub is_admin: bool,
}

/// What is shown of a user.
#[derive(Debug)]
pub struct User {
    pub id: i32,
    pub username: String,
    pub created_at: UtcTime,
}

impl User {
    /// The user as shown.
    pub open spec fn shown(value: UserRaw) -> User {
        User { id: value.id, username: value.username, created_at: value.created_at }
    }

    pub fn from_raw(value: UserRaw) -> (r: User)
        ensures
            r == User::shown(value),
    {
        User { id: value.id, username: value.username, created_at: value.created_at }
    }
}

pub open spec fn token_view(t: Option<String>) -> Option<Seq<char>> {
    match t {
        Some(s) => Some(s@),
        None => None,
    }
}

pub open spec fn not_admin() -> spec_fn(UserRaw) -> bool {
    |u: UserRaw| !u.is_admin
}

pub open spec fn user_with_id(id: i32) -> spec_fn(UserRaw) -> bool {
    |u: UserRaw| u.id == id
}

pub open spec fn user_named(name: Seq<char>) -> spec_fn(UserRaw) -> bool {
    |u: UserRaw| u.username@ == name
}

pub open spec fn user_holding(token: Seq<char>) -> spec_fn(UserRaw) -> bool {
    |u: UserRaw| token_view(u.session_token) == Some(token)
}

/// `new` is `old` with its session token replaced by `token`.
pub open spec fn with_token(old: UserRaw, new: UserRaw, token: Option<Seq<char>>) -> bool {
    &&& new.id == old.id
    &&& new.username == old.username
    &&& new.password == old.password
    &&& new.salt == old.salt
    &&& new.created_at == old.created_at
    &&& new.is_admin == old.is_admin
    &&& token_view(new.session_token) == token
}

/// The abstract content of the user store.
pub struct UserTable {
    pub users: Seq<UserRaw>,
    /// The identifier the next user gets.
    pub next_user_id: int,
}

impl UserTable {
    /// Identifiers are positive, ascending and below the next one; user
    /// names are unique; session tokens are not empty, and no two users hold
    /// the same one.
    pub open spec fn wf(self) -> bool {
        &&& 1 <= self.next_user_id <= i32::MAX
        &&& forall|i: int, j: int|
            0 <= i < j < self.users.len() ==> #[trigger] self.users[i].id
                < #[trigger] self.users[j].id
        &&& forall|i: int|
            0 <= i < self.users.len() ==> 1 <= #[trigger] self.users[i].id < self.next_user_id
        &&& forall|i: int, j: int|
            0 <= i < j < self.users.len() ==> #[trigger] self.users[i].username@
                != #[trigger] self.users[j].username@
        &&& forall|i: int|
            0 <= i < self.users.len() ==> match token_view(#[trigger] self.users[i].session_token) {
                Some(t) => t.len() > 0,
                None => true,
            }
        &&& forall|i: int, j: int|
            0 <= i < j < self.users.len() && token_view(self.users[i].session_token) is Some
                ==> token_view(#[trigger] self.users[i].session_token) != token_view(
                #[trigger] self.users[j].session_token,
            )
    }

    /// User `id` may take session token `token`: it is not empty, and no
    /// other user holds it.
    pub open spec fn token_free_for(self, id: i32, token: Seq<char>) -> bool {
        &&& token.len() > 0
        &&& match self.slot_by_token(token) {
            Some(k) => self.users[k].id == id,
            None => true,
        }
    }

    pub open spec fn slot_by_name(self, name: Seq<char>) -> Option<int> {
        first_index(self.users, user_named(name))
    }

    pub open spec fn slot_by_token(self, token: Seq<char>) -> Option<int> {
        first_index(self.users, user_holding(token))
    }

    pub open spec fn slot_by_id(self, id: i32) -> Option<int> {
        first_index(self.users, user_with_id(id))
    }

    /// The user named `name`.
    pub open spec fn by_name(self, name: Seq<char>) -> Option<UserRaw> {
        match self.slot_by_name(name) {
            Some(k) => Some(self.users[k]),
            None => None,
        }
    }

    /// The first user holding session token `token`.
    pub open spec fn by_token(self, token: Seq<char>) -> Option<UserRaw> {
        match self.slot_by_token(token) {
            Some(k) => Some(self.users[k]),
            None => None,
        }
    }

    /// A user with identifier `id` exists and is not an admin.
    pub open spec fn is_regular(self, id: i32) -> bool {
        exists|k: int| 0 <= k < self.users.len() && #[trigger] self.users[k].id == id && !self.users[k].is_admin
    }

    /// Result of registering a user named `name`.
    pub open spec fn register_result(self, name: Seq<char>) -> Result<(), AppError> {
        if self.slot_by_name(name) is Some {
            Err(AppError { inner: Failure::DuplicateUsername })
        } else if self.next_user_id == i32::MAX {
            Err(AppError { inner: Failure::StoreFull })
        } else {
            Ok(())
        }
    }

    /// `new` is `self` with one user added at the end, holding these values
    /// and no session token.
    pub open spec fn registered_as(
        self,
        new: UserTable,
        name: Seq<char>,
        password: Seq<char>,
        salt: Seq<char>,
        created_at: UtcTime,
        is_admin: bool,
    ) -> bool {
        let u = new.users.last();
        &&& new.users.len() == self.users.len() + 1
        &&& new.users.drop_last() == self.users
        &&& new.next_user_id == self.next_user_id + 1
        &&& u.id == self.next_user_id
        &&& u.username@ == name
        &&& u.password@ == password
        &&& u.salt@ == salt
        &&& u.created_at == created_at
        &&& u.session_token is None
        &&& u.is_admin == is_admin
    }

    /// `new` is `self` with the session token of user `id` (if there is one)
    /// set to `token`.
    pub open spec fn token_set(self, new: UserTable, id: i32, token: Option<Seq<char>>) -> bool {
        &&& new.next_user_id == self.next_user_id
        &&& new.users.len() == self.users.len()
        &&& match self.slot_by_id(id) {
            Some(k) => with_token(self.users[k], new.users[k], token) && forall|i: int|
                0 <= i < self.users.len() && i != k ==> #[trigger] new.users[i] == self.users[i],
            None => new.users == self.users,
        }
    }
}

fn clone_token(t: &Option<String>) -> (r: Option<String>)
    ensures
        r == *t,
{
    match t {
        Some(s) => Some(s.clone()),
        None => None,
    }
}

pub fn clone_user(u: &UserRaw) -> (r: UserRaw)
    ensures
        r == *u,
{
    UserRaw {
        id: u.id,
        username: u.username.clone(),
        password: u.password.clone(),
        salt: u.salt.clone(),
        created_at: u.created_at,
        session_token: clone_token(&u.session_token),
        is_admin: u.is_admin,
    }
}

/// The user store, with the identifier counter that stands in for the
/// database's sequence.
pub struct UserHandler {
    users: Vec<UserRaw>,
    next_user_id: i32,
}

impl View for UserHandler {
    type V = UserTable;

    closed spec fn view(&self) -> UserTable {
        UserTable { users: self.users@, next_user_id: self.next_user_id as int }
    }
}

impl UserHandler {
    /// A store with no users.
    pub fn new() -> (r: UserHandler)
        ensures
            r@.wf(),
            r@.users.len() == 0,
            r@.next_user_id == 1,
    {
        UserHandler { users: Vec::new(), next_user_id: 1 }
    }

    fn find_by_name(&self, name: &str) -> (r: Option<usize>)
        ensures
            r matches Some(i) ==> self@.slot_by_name(name@) == Some(i as int) && i < self@.users.len(),
            r is None ==> self@.slot_by_name(name@) is None,
    {
        let wanted = name.to_owned();
        let mut i: usize = 0;
        while i < self.users.len()
            invariant
                0 <= i <= self.users@.len(),
                wanted@ == name@,
                first_index(self.users@.take(i as int), user_named(name@)) is None,
            decreases self.users@.len() - i,
        {
            proof {
                lemma_first_index_step(self.users@, user_named(name@), i as int);
            }
            if self.users[i].username == wanted {
                assert(user_named(name@)(self.users@[i as int]));
                proof {
                    lemma_first_index_prefix(self.users@, user_named(name@), i + 1);
                }
                return Some(i);
            }
            i = i + 1;
        }
        assert(self.users@.take(i as int) =~= self.users@);
        None
    }

    fn find_by_token(&self, token: &str) -> (r: Option<usize>)
        ensures
            r matches Some(i) ==> self@.slot_by_token(token@) == Some(i as int) && i < self@.users.len(),
            r is None ==> self@.slot_by_token(token@) is None,
    {
        let wanted = token.to_owned();
        let mut i: usize = 0;
        while i < self.users.len()
            invariant
                0 <= i <= self.users@.len(),
                wanted@ == token@,
                first_index(self.users@.take(i as int), user_holding(token@)) is None,
            decreases self.users@.len() - i,
        {
            proof {
                lemma_first_index_step(self.users@, user_holding(token@), i as int);
            }
            let holds = match &self.users[i].session_token {
                Some(t) => *t == wanted,
                None => false,
            };
            if holds {
                assert(user_holding(token@)(self.users@[i as int]));
                proof {
                    lemma_first_index_prefix(self.users@, user_holding(token@), i + 1);
                }
                return Some(i);
            }
            i = i + 1;
        }
        assert(self.users@.take(i as int) =~= self.users@);
        None
    }

    fn find_by_id(&self, id: i32) -> (r: Option<usize>)
        ensures
            r matches Some(i) ==> self@.slot_by_id(id) == Some(i as int) && i < self@.users.len(),
            r is None ==> self@.slot_by_id(id) is None,
    {
        let mut i: usize = 0;
        while i < self.users.len()
            invariant
                0 <= i <= self.users@.len(),
                first_index(self.users@.take(i as int), user_with_id(id)) is None,
            decreases self.users@.len() - i,
        {
            proof {
                lemma_first_index_step(self.users@, user_with_id(id), i as int);
            }
            if self.users[i].id == id {
                assert(user_with_id(id)(self.users@[i as int]));
                proof {
                    lemma_first_index_prefix(self.users@, user_with_id(id), i + 1);
                }
                return Some(i);
            }
            i = i + 1;
        }
        assert(self.users@.take(i as int) =~= self.users@);
        None
    }

    /// The user named `username`.
    pub fn get_user_by_username(&self, username: &str) -> (r: Option<UserRaw>)
        ensures
            r == self@.by_name(username@),
    {
        match self.find_by_name(username) {
            Some(i) => Some(clone_user(&self.users[i])),
            None => None,
        }
    }

    /// All users, in identifier order.
    pub fn users(&self) -> (r: Vec<UserRaw>)
        ensures
            r@ == self@.users,
    {
        let mut out: Vec<UserRaw> = Vec::new();
        let mut i: usize = 0;
        while i < self.users.len()
            invariant
                0 <= i <= self.users@.len(),
                out@ == self.users@.take(i as int),
            decreases self.users@.len() - i,
        {
            out.push(clone_user(&self.users[i]));
            assert(self.users@.take(i + 1) =~= self.users@.take(i as int).push(self.users@[i as int]));
            i = i + 1;
        }
        assert(self.users@.take(i as int) =~= self.users@);
        out
    }

    fn insert_user(
        &mut self,
        username: &str,
        hashed_password: &str,
        salt: &str,
        created_at: UtcTime,
        is_admin: bool,
    ) -> (r: Result<(), AppError>)
        requires
            old(self)@.wf(),
        ensures
            final(self)@.wf(),
            r == old(self)@.register_result(username@),
            r is Ok ==> old(self)@.registered_as(
                final(self)@,
                username@,
                hashed_password@,
                salt@,
                created_at,
                is_admin,
            ),
            r is Err ==> final(self)@ == old(self)@,
    {
        if self.find_by_name(username).is_some() {
            return Err(AppError::new(Failure::DuplicateUsername));
        }
        if self.next_user_id == i32::MAX {
            return Err(AppError::new(Failure::StoreFull));
        }
        proof {
            lemma_first_index_meaning(self@.users, user_named(username@));
        }
        let id = self.next_user_id;
        let ghost before = self.users@;
        self.users.push(
            UserRaw {
                id,
                username: username.to_owned(),
                password: hashed_password.to_owned(),
                salt: salt.to_owned(),
                created_at,
                session_token: None,
                is_admin,
            },
        );
        self.next_user_id = id + 1;
        assert(self.users@.drop_last() =~= before);
        assert forall|i: int, j: int| 0 <= i < j < self.users@.len() implies #[trigger] self.users@[i].username@
            != #[trigger] self.users@[j].username@ by {
            if j == self.users@.len() - 1 {
                assert(!user_named(username@)(before[i]));
            }
        }
        Ok(())
    }

    /// Adds a user (not an admin) with no session token. Turned down when
    /// the name is taken or identifiers are used up.
    pub fn register_user(
        &mut self,
        username: &str,
        hashed_password: &str,
        salt: &str,
        created_at: UtcTime,
    ) -> (r: Result<(), AppError>)
        requires
            old(self)@.wf(),
        ensures
            final(self)@.wf(),
            r == old(self)@.register_result(username@),
            r is Ok ==> old(self)@.registered_as(
                final(self)@,
                username@,
                hashed_password@,
                salt@,
                created_at,
                false,
            ),
            r is Err ==> final(self)@ == old(self)@,
    {
        self.insert_user(username, hashed_password, salt, created_at, false)
    }

    /// Adds an admin, as the bootstrap seeding does.
    pub fn register_admin(
        &mut self,
        username: &str,
        hashed_password: &str,
        salt: &str,
        created_at: UtcTime,
    ) -> (r: Result<(), AppError>)
        requires
            old(self)@.wf(),
        ensures
            final(self)@.wf(),
            r == old(self)@.register_result(username@),
            r is Ok ==> old(self)@.registered_as(
                final(self)@,
                username@,
                hashed_password@,
                salt@,
                created_at,
                true,
            ),
            r is Err ==> final(self)@ == old(self)@,
    {
        self.insert_user(username, hashed_password, salt, created_at, true)
    }

    fn set_token(&mut self, user_id: i32, token: Option<String>) -> (r: ())
        requires
            old(self)@.wf(),
            match token {
                Some(t) => old(self)@.token_free_for(user_id, t@),
                None => true,
            },
        ensures
            final(self)@.wf(),
            old(self)@.token_set(final(self)@, user_id, token_view(token)),
    {
        match self.find_by_id(user_id) {
            Some(k) => {
                let ghost tk = token_view(token);
                proof {
                    lemma_first_index_meaning(self@.users, user_with_id(user_id));
                    if let Some(t) = tk {
                        lemma_first_index_meaning(self@.users, user_holding(t));
                    }
                }
                let u = clone_user(&self.users[k]);
                let ghost before = self.users@;
                self.users.set(
                    k,
                    UserRaw {
                        id: u.id,
                        username: u.username,
                        password: u.password,
                        salt: u.salt,
                        created_at: u.created_at,
                        session_token: token,
                        is_admin: u.is_admin,
                    },
                );
                assert forall|i: int| 0 <= i < self.users@.len() && i != k implies #[trigger] self.users@[i]
                    == before[i] by {}
                assert forall|i: int, j: int|
                    0 <= i < j < self.users@.len() && token_view(self.users@[i].session_token) is Some
                        implies token_view(#[trigger] self.users@[i].session_token) != token_view(
                    #[trigger] self.users@[j].session_token,
                ) by {
                    if let Some(t) = tk {
                        if i == k {
                            if token_view(before[j].session_token) == Some(t) {
                                assert(user_holding(t)(before[j]));
                                assert(before[j].id != user_id);
                            }
                        } else if j == k {
                            if token_view(before[i].session_token) == Some(t) {
                                assert(user_holding(t)(before[i]));
                                assert(before[i].id != user_id);
                            }
                        }
                    }
                }
            },
            None => {},
        }
    }

    /// Gives user `user_id` the session token `session_token`; nothing
    /// changes when there is no such user. Turned down, with nothing changed,
    /// when the token is empty or another user holds it.
    pub fn update_session_token(&mut self, user_id: i32, session_token: &str) -> (r: Result<(), AppError>)
        requires
            old(self)@.wf(),
        ensures
            final(self)@.wf(),
            r is Ok <==> old(self)@.token_free_for(user_id, session_token@),
            r is Ok ==> old(self)@.token_set(final(self)@, user_id, Some(session_token@)),
            r is Err ==> r == Err::<(), AppError>(AppError { inner: Failure::TokenTaken }) && final(self)@
                == old(self)@,
    {
        if session_token.is_empty() {
            return Err(AppError::new(Failure::TokenTaken));
        }
        match self.find_by_token(session_token) {
            Some(k) => {
                if self.users[k].id != user_id {
                    return Err(AppError::new(Failure::TokenTaken));
                }
            },
            None => {},
        }
        self.set_token(user_id, Some(session_token.to_owned()));
        Ok(())
    }

    /// Clears the session token of user `user_id`.
    pub fn remove_session_token(&mut self, user_id: i32) -> (r: ())
        requires
            old(self)@.wf(),
        ensures
            final(self)@.wf(),
            old(self)@.token_set(final(self)@, user_id, None),
    {
        self.set_token(user_id, None)
    }

    /// The user holding `session_token`; none for the empty token.
    pub fn ensure_session_token(&self, session_token: &str) -> (r: Option<UserRaw>)
        requires
            self@.wf(),
        ensures
            r == self@.by_token(session_token@),
            session_token@.len() == 0 ==> r is None,
    {
        proof {
            lemma_first_index_meaning(self@.users, user_holding(session_token@));
            if let Some(k) = self@.slot_by_token(session_token@) {
                assert(user_holding(session_token@)(self@.users[k]));
            }
        }
        match self.find_by_token(session_token) {
            Some(i) => Some(clone_user(&self.users[i])),
            None => None,
        }
    }

    /// An admin named `username` is registered.
    pub fn ensure_admin_user_is_registered(&self, username: &str) -> (r: bool)
        requires
            self@.wf(),
        ensures
            r == exists|k: int|
                0 <= k < self@.users.len() && #[trigger] self@.users[k].username@ == username@
                    && self@.users[k].is_admin,
    {
        proof {
            lemma_first_index_meaning(self@.users, user_named(username@));
        }
        match self.find_by_name(username) {
            Some(i) => {
                assert forall|k: int| 0 <= k < self@.users.len() && #[trigger] self@.users[k].username@
                    == username@ implies k == i by {
                    if k < i {
                        assert(user_named(username@)(self@.users[k]));
                    } else if k > i {
                        assert(self@.users[i as int].username@ != self@.users[k].username@);
                    }
                }
                self.users[i].is_admin
            },
            None => {
                assert forall|k: int| 0 <= k < self@.users.len() implies #[trigger] self@.users[k].username@
                    != username@ by {
                    if self@.users[k].username@ == username@ {
                        assert(user_named(username@)(self@.users[k]));
                    }
                }
                false
            },
        }
    }

    /// A user with identifier `id` exists and is not an admin.
    pub fn is_regular_user(&self, id: i32) -> (r: bool)
        ensures
            r == self@.is_regular(id),
    {
        let mut i: usize = 0;
        while i < self.users.len()
            invariant
                0 <= i <= self.users@.len(),
                forall|k: int| 0 <= k < i ==> !(#[trigger] self.users@[k].id == id && !self.users@[k].is_admin),
            decreases self.users@.len() - i,
        {
            if self.users[i].id == id && !self.users[i].is_admin {
                assert(self@.users[i as int].id == id);
                return true;
            }
            i = i + 1;
        }
        false
    }
}

/// The operations of a user store, over its abstract content. Any storage
/// that keeps these contracts can stand in for the in-memory one.
pub trait UserHandlerTrait {
    spec fn table(&self) -> UserTable;

    fn get_user_by_username(&self, username: &str) -> (r: Option<UserRaw>)
        ensures
            r == self.table().by_name(username@),
    ;

    fn users(&self) -> (r: Vec<UserRaw>)
        ensures
            r@ == self.table().users,
    ;

    fn register_user(
        &mut self,
        username: &str,
        hashed_password: &str,
        salt: &str,
        created_at: UtcTime,
    ) -> (r: Result<(), AppError>)
        requires
            old(self).table().wf(),
        ensures
            final(self).table().wf(),
            r == old(self).table().register_result(username@),
            r is Ok ==> old(self).table().registered_as(
                final(self).table(),
                username@,
                hashed_password@,
                salt@,
                created_at,
                false,
            ),
            r is Err ==> final(self).table() == old(self).table(),
    ;

    fn update_session_token(&mut self, user_id: i32, session_token: &str) -> (r: Result<(), AppError>)
        requires
            old(self).table().wf(),
        ensures
            final(self).table().wf(),
            r is Ok <==> old(self).table().token_free_for(user_id, session_token@),
            r is Ok ==> old(self).table().token_set(final(self).table(), user_id, Some(session_token@)),
            r is Err ==> r == Err::<(), AppError>(AppError { inner: Failure::TokenTaken })
                && final(self).table() == old(self).table(),
    ;

    fn ensure_session_token(&self, session_token: &str) -> (r: Option<UserRaw>)
        requires
            self.table().wf(),
        ensures
            r == self.table().by_token(session_token@),
            session_token@.len() == 0 ==> r is None,
    ;

    fn remove_session_token(&mut self, user_id: i32) -> (r: ())
        requires
            old(self).table().wf(),
        ensures
            final(self).table().wf(),
            old(self).table().token_set(final(self).table(), user_id, None),
    ;

    fn ensure_admin_user_is_registered(&self, username: &str) -> (r: bool)
        requires
            self.table().wf(),
        ensures
            r == exists|k: int|
                0 <= k < self.table().users.len() && #[trigger] self.table().users[k].username@
                    == username@ && self.table().users[k].is_admin,
    ;
}

impl UserHandlerTrait for UserHandler {
    open spec fn table(&self) -> UserTable {
        self@
    }

    fn get_user_by_username(&self, username: &str) -> (r: Option<UserRaw>) {
        UserHandler::get_user_by_username(self, username)
    }

    fn users(&self) -> (r: Vec<UserRaw>) {
        UserHandler::users(self)
    }

    fn register_user(
        &mut self,
        username: &str,
        hashed_password: &str,
        salt: &str,
        created_at: UtcTime,
    ) -> (r: Result<(), AppError>) {
        UserHandler::register_user(self, username, hashed_password, salt, created_at)
    }

    fn update_session_token(&mut self, user_id: i32, session_token: &str) -> (r: Result<(), AppError>) {
        UserHandler::update_session_token(self, user_id, session_token)
    }

    fn ensure_session_token(&self, session_token: &str) -> (r: Option<UserRaw>) {
        UserHandler::ensure_session_token(self, session_token)
    }

    fn remove_session_token(&mut self, user_id: i32) -> (r: ()) {
        UserHandler::remove_session_token(self, user_id)
    }

    fn ensure_admin_user_is_registered(&self, username: &str) -> (r: bool) {
        UserHandler::ensure_admin_user_is_registered(self, username)
    }
}

} // verus!
