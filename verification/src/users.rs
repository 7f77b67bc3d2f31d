//! Users: registration with a unique username, login against the stored
//! password hash, and the authenticated self-read. Registration and login
//! both answer with a fresh session token.

use vstd::prelude::*;
use crate::auth::{SESSION_SECONDS, claims_of, issue};
use crate::error::Error;
use crate::model::{
    Forum, UserRec, find_user_by_id, find_user_by_name, has_user_id, has_username,
    lemma_users_push, user_idx_by_id, user_idx_by_name,
};
use crate::password::{hash_password, pwd_check, verify_password};

verus! {

/// What registration, login and the self-read answer with: the username, a
/// fresh bearer token naming the user, and the account's creation timestamp.
#[derive(Debug)]
pub struct User {
    pub username: String,
    pub token: String,
    pub created_at: i64,
}

/// The error that a taken username produces at registration: a validation
/// failure naming the `username` field.
pub open spec fn is_username_taken_error(e: Error) -> bool {
    match e {
        Error::UnprocessableEntity { errors } => errors@.len() == 1 && errors@[0].0@ == "username"@
            && errors@[0].1@ == "username taken"@,
        _ => false,
    }
}

/// The error that an unknown username produces at login: a validation
/// failure naming the `username` field.
pub open spec fn is_username_missing_error(e: Error) -> bool {
    match e {
        Error::UnprocessableEntity { errors } => errors@.len() == 1 && errors@[0].0@ == "username"@
            && errors@[0].1@ == "does not exist"@,
        _ => false,
    }
}

impl Forum {
    /// Registers a user under a fresh identity. A taken username is rejected
    /// as a validation failure naming the `username` field and stores
    /// nothing; a failure of the hashing primitive is an internal failure.
    /// On success the stored hash verifies against the given password, and
    /// the answer carries a token that names the new identity until its
    /// expiry.
    pub fn register(&mut self, username: &str, password: &str, key: &[u8], now: i64) -> (r: Result<
        User,
        Error,
    >)
        requires
            old(self).wf(),
            old(self).next_user_id < i64::MAX,
            now + SESSION_SECONDS <= i64::MAX,
        ensures
            final(self).wf(),
            has_username(old(self).users@, username@) ==> r is Err,
            match r {
                Ok(u) => {
                    &&& !has_username(old(self).users@, username@)
                    &&& final(self).users@.len() == old(self).users@.len() + 1
                    &&& final(self).users@.subrange(0, old(self).users@.len() as int) == old(
                        self,
                    ).users@
                    &&& final(self).users@.last().id == old(self).next_user_id
                    &&& final(self).users@.last().username@ == username@
                    &&& final(self).users@.last().created_at == now
                    &&& pwd_check(password@, final(self).users@.last().password_hash@) == Some(true)
                    &&& final(self).next_user_id == old(self).next_user_id + 1
                    &&& final(self).threads == old(self).threads
                    &&& final(self).comments == old(self).comments
                    &&& final(self).thread_votes == old(self).thread_votes
                    &&& final(self).comment_votes == old(self).comment_votes
                    &&& final(self).follows == old(self).follows
                    &&& final(self).next_thread_id == old(self).next_thread_id
                    &&& final(self).next_comment_id == old(self).next_comment_id
                    &&& u.username@ == username@
                    &&& u.created_at == now
                    &&& claims_of(u.token@, key@) == Some(
                        (old(self).next_user_id, (now + SESSION_SECONDS) as i64),
                    )
                },
                Err(e) => final(self).same_state(*old(self)) && if has_username(
                    old(self).users@,
                    username@,
                ) {
                    is_username_taken_error(e)
                } else {
                    e == Error::Internal
                },
            },
    {
        if find_user_by_name(&self.users, username).is_some() {
            let mut errors: Vec<(String, String)> = Vec::new();
            errors.push(("username".to_owned(), "username taken".to_owned()));
            return Err(Error::unprocessable_entity(errors));
        }
        let hash = match hash_password(password) {
            None => {
                return Err(Error::Internal);
            },
            Some(h) => h,
        };
        self.register_hashed(username, hash, key, now)
    }

    /// Stores a user under a fresh identity, with an already-computed
    /// password hash. This is the storage half of registration, past the
    /// hashing primitive's say: success is owed exactly when the username is
    /// free.
    pub fn register_hashed(&mut self, username: &str, password_hash: String, key: &[u8], now: i64) -> (r:
        Result<User, Error>)
        requires
            old(self).wf(),
            old(self).next_user_id < i64::MAX,
            now + SESSION_SECONDS <= i64::MAX,
        ensures
            final(self).wf(),
            match r {
                Ok(u) => {
                    &&& !has_username(old(self).users@, username@)
                    &&& final(self).users@.len() == old(self).users@.len() + 1
                    &&& final(self).users@.subrange(0, old(self).users@.len() as int) == old(
                        self,
                    ).users@
                    &&& final(self).users@.last().id == old(self).next_user_id
                    &&& final(self).users@.last().username@ == username@
                    &&& final(self).users@.last().password_hash == password_hash
                    &&& final(self).users@.last().created_at == now
                    &&& final(self).next_user_id == old(self).next_user_id + 1
                    &&& final(self).threads == old(self).threads
                    &&& final(self).comments == old(self).comments
                    &&& final(self).thread_votes == old(self).thread_votes
                    &&& final(self).comment_votes == old(self).comment_votes
                    &&& final(self).follows == old(self).follows
                    &&& final(self).next_thread_id == old(self).next_thread_id
                    &&& final(self).next_comment_id == old(self).next_comment_id
                    &&& u.username@ == username@
                    &&& u.created_at == now
                    &&& claims_of(u.token@, key@) == Some(
                        (old(self).next_user_id, (now + SESSION_SECONDS) as i64),
                    )
                },
                Err(e) => has_username(old(self).users@, username@) && is_username_taken_error(e)
                    && final(self).same_state(*old(self)),
            },
    {
        if find_user_by_name(&self.users, username).is_some() {
            let mut errors: Vec<(String, String)> = Vec::new();
            errors.push(("username".to_owned(), "username taken".to_owned()));
            return Err(Error::unprocessable_entity(errors));
        }
        let id = self.next_user_id;
        let rec = UserRec {
            id,
            username: username.to_owned(),
            password_hash,
            created_at: now,
        };
        proof {
            lemma_users_push(self.users@, rec);
        }
        self.users.push(rec);
        self.next_user_id = self.next_user_id + 1;
        let token = issue(id, key, now);
        Ok(User { username: username.to_owned(), token, created_at: now })
    }

    /// Logs a user in: an unknown username is a validation failure naming
    /// the `username` field, a password that does not match the stored hash
    /// is `Unauthorized`, a stored hash that cannot be checked at all an
    /// internal failure. On success the answer carries a fresh token naming
    /// the user.
    pub fn login(&self, username: &str, password: &str, key: &[u8], now: i64) -> (r: Result<
        User,
        Error,
    >)
        requires
            self.wf(),
            now + SESSION_SECONDS <= i64::MAX,
        ensures
            match r {
                Ok(u) => {
                    &&& has_username(self.users@, username@)
                    &&& {
                        let rec = self.users@[user_idx_by_name(self.users@, username@)];
                        pwd_check(password@, rec.password_hash@) == Some(true) && u.username@
                            == rec.username@ && u.created_at == rec.created_at && claims_of(
                            u.token@,
                            key@,
                        ) == Some((rec.id, (now + SESSION_SECONDS) as i64))
                    }
                },
                Err(e) => if !has_username(self.users@, username@) {
                    is_username_missing_error(e)
                } else {
                    match pwd_check(
                        password@,
                        self.users@[user_idx_by_name(self.users@, username@)].password_hash@,
                    ) {
                        Some(b) => !b && e == Error::Unauthorized,
                        None => e == Error::Internal,
                    }
                },
            },
    {
        let ui = match find_user_by_name(&self.users, username) {
            None => {
                let mut errors: Vec<(String, String)> = Vec::new();
                errors.push(("username".to_owned(), "does not exist".to_owned()));
                return Err(Error::unprocessable_entity(errors));
            },
            Some(u) => u,
        };
        proof {
            let k = user_idx_by_name(self.users@, username@);
            assert(self.users@[k].username@ == username@);
            assert(k == ui as int);
        }
        let user = &self.users[ui];
        match verify_password(password, user.password_hash.as_str()) {
            Err(e) => Err(e),
            Ok(()) => {
                let token = issue(user.id, key, now);
                Ok(User { username: user.username.clone(), token, created_at: user.created_at })
            },
        }
    }

    /// The authenticated self-read: answers with the user's own profile
    /// fields and a fresh token. An identity that does not resolve is
    /// `NotFound`.
    pub fn get_user(&self, id: i64, key: &[u8], now: i64) -> (r: Result<User, Error>)
        requires
            self.wf(),
            now + SESSION_SECONDS <= i64::MAX,
        ensures
            match r {
                Ok(u) => {
                    &&& has_user_id(self.users@, id)
                    &&& {
                        let rec = self.users@[user_idx_by_id(self.users@, id)];
                        u.username@ == rec.username@ && u.created_at == rec.created_at && claims_of(
                            u.token@,
                            key@,
                        ) == Some((id, (now + SESSION_SECONDS) as i64))
                    }
                },
                Err(e) => e == Error::NotFound && !has_user_id(self.users@, id),
            },
    {
        let ui = match find_user_by_id(&self.users, id) {
            None => {
                return Err(Error::NotFound);
            },
            Some(u) => u,
        };
        proof {
            let k = user_idx_by_id(self.users@, id);
            assert(self.users@[k].id == id);
            assert(k == ui as int);
        }
        let user = &self.users[ui];
        let token = issue(id, key, now);
        Ok(User { username: user.username.clone(), token, created_at: user.created_at })
    }
}

} // verus!
