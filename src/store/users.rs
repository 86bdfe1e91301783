//! The users table: sign-up, login and profile changes.
use vstd::prelude::*;

use crate::models::user::{User, UserView};
use crate::text::{join3, opt_text, same_text};
use super::{Store, StoreError, StoreView, UserRecord};
use jsonwebtoken::{Algorithm, EncodingKey};

verus! {

/// The keyed digest that `jsonwebtoken::crypto::sign` computes (HMAC-SHA256,
/// base64url) of `message` under `key`.
pub uninterp spec fn hs256_of(message: Seq<char>, key: Seq<u8>) -> Seq<char>;

/// Relies on `jsonwebtoken::crypto::sign` with HS256, which for that algorithm
/// always succeeds and depends on the message and the key alone.
#[verifier::external_body]
fn keyed_digest(message: &str, key: &[u8]) -> (r: String)
    ensures
        r@ == hs256_of(message@, key@),
{
    let key = EncodingKey::from_secret(key);
    match jsonwebtoken::crypto::sign(message.as_bytes(), &key, Algorithm::HS256) {
        Ok(s) => s,
        Err(_) => String::new(),
    }
}

/// What a password is digested as: the username, a colon, the password. The
/// username salts the digest, so equal passwords of two users differ.
pub open spec fn salted(username: Seq<char>, password: Seq<char>) -> Seq<char> {
    username + ":"@ + password
}

/// The digest of `password` for `username` under the store's key.
fn salted_digest(username: &str, password: &str, key: &[u8]) -> (r: String)
    ensures
        r@ == hs256_of(salted(username@, password@), key@),
{
    let message = join3(username, ":", password);
    keyed_digest(message.as_str(), key)
}

pub open spec fn user_named(users: Seq<UserRecord>, name: Seq<char>) -> bool {
    exists|i: int| 0 <= i < users.len() && (#[trigger] users[i]).username@ == name
}

pub open spec fn email_taken(users: Seq<UserRecord>, email: Seq<char>) -> bool {
    exists|i: int| 0 <= i < users.len() && (#[trigger] users[i]).email@ == email
}

impl Store {
    pub(super) fn find_user(&self, username: &str) -> (r: Option<usize>)
        ensures
            match r {
                Some(i) => i < self@.users.len() && self@.users[i as int].username@ == username@,
                None => !user_named(self@.users, username@),
            },
    {
        let mut i: usize = 0;
        while i < self.users.len()
            invariant
                i <= self@.users.len(),
                self@.users == self.users@,
                forall|j: int| 0 <= j < i ==> (#[trigger] self@.users[j]).username@ != username@,
            decreases self.users.len() - i,
        {
            if same_text(self.users[i].username.as_str(), username) {
                return Some(i);
            }
            i = i + 1;
        }
        None
    }

    fn find_email(&self, email: &str) -> (r: Option<usize>)
        ensures
            match r {
                Some(i) => i < self@.users.len() && self@.users[i as int].email@ == email@,
                None => !email_taken(self@.users, email@),
            },
    {
        let mut i: usize = 0;
        while i < self.users.len()
            invariant
                i <= self@.users.len(),
                self@.users == self.users@,
                forall|j: int| 0 <= j < i ==> (#[trigger] self@.users[j]).email@ != email@,
            decreases self.users.len() - i,
        {
            if same_text(self.users[i].email.as_str(), email) {
                return Some(i);
            }
            i = i + 1;
        }
        None
    }

    /// Whether a user with that name exists.
    pub fn has_user(&self, username: &str) -> (r: bool)
        ensures
            r == user_named(self@.users, username@),
    {
        self.find_user(username).is_some()
    }

    fn profile(&self, i: usize) -> (r: User)
        requires
            i < self@.users.len(),
        ensures
            r@ == profile_view(self@.users[i as int]),
    {
        let u = &self.users[i];
        User::with_profile(u.username.clone(), u.email.clone(), u.bio.clone(), u.image.clone())
    }

    /// The user with that name, without its password.
    pub fn get_user(&self, username: &str) -> (r: Option<User>)
        requires
            self.wf(),
        ensures
            match r {
                Some(u) => exists|i: int|
                    0 <= i < self@.users.len() && (#[trigger] self@.users[i]).username@ == username@
                        && u@ == profile_view(self@.users[i]),
                None => !user_named(self@.users, username@),
            },
    {
        match self.find_user(username) {
            Some(i) => Some(self.profile(i)),
            None => None,
        }
    }

    /// The user with that email, without its password.
    pub fn get_user_by_email(&self, email: &str) -> (r: Option<User>)
        requires
            self.wf(),
        ensures
            match r {
                Some(u) => exists|i: int|
                    0 <= i < self@.users.len() && (#[trigger] self@.users[i]).email@ == email@
                        && u@ == profile_view(self@.users[i]),
                None => !email_taken(self@.users, email@),
            },
    {
        match self.find_email(email) {
            Some(i) => Some(self.profile(i)),
            None => None,
        }
    }

    /// Adds a user whose password is set. A taken username is refused first,
    /// then a taken email.
    pub fn insert_user(&mut self, user: &User) -> (r: Result<(), StoreError>)
        requires
            old(self).wf(),
            user@.password is Some,
        ensures
            final(self).wf(),
            user_named(old(self)@.users, user@.username) ==> r == Err::<(), StoreError>(
                StoreError::DuplicateUser,
            ),
            !user_named(old(self)@.users, user@.username) && email_taken(old(self)@.users, user@.email)
                ==> r == Err::<(), StoreError>(StoreError::DuplicateEmail),
            r is Err ==> final(self)@ == old(self)@,
            r is Ok <==> !user_named(old(self)@.users, user@.username) && !email_taken(
                old(self)@.users,
                user@.email,
            ),
            r is Ok ==> final(self)@ == (StoreView {
                users: old(self)@.users.push(final(self)@.users.last()),
                ..old(self)@
            }),
            r is Ok ==> record_of(final(self)@.users.last(), user@, old(self)@.password_key),
    {
        let name = user.username();
        let email = user.email();
        if self.find_user(name.as_str()).is_some() {
            return Err(StoreError::DuplicateUser);
        }
        if self.find_email(email.as_str()).is_some() {
            return Err(StoreError::DuplicateEmail);
        }
        let password = match user.password() {
            Some(p) => p,
            None => String::new(),
        };
        let digest = salted_digest(name.as_str(), password.as_str(), self.password_key.as_slice());
        let rec = UserRecord {
            username: name,
            email,
            password_digest: digest,
            bio: user.bio(),
            image: user.image(),
        };
        self.users.push(rec);
        proof {
            let us = self@.users;
            assert forall|i: int, j: int| 0 <= i < j < us.len() implies (#[trigger] us[i]).username@
                != (#[trigger] us[j]).username@ && us[i].email@ != us[j].email@ by {
                if j == us.len() - 1 {
                    assert(us[i] == old(self)@.users[i]);
                }
            }
        }
        Ok(())
    }

    /// The digest this store keeps for `password` of the user `username`.
    pub fn password_digest(&self, username: &str, password: &str) -> (r: String)
        ensures
            r@ == hs256_of(salted(username@, password@), self@.password_key),
    {
        salted_digest(username, password, self.password_key.as_slice())
    }

    /// Whether `password` is the password of the user named `username`.
    pub fn check_login(&self, username: &str, password: &str) -> (r: bool)
        requires
            self.wf(),
        ensures
            r == exists|i: int|
                0 <= i < self@.users.len() && (#[trigger] self@.users[i]).username@ == username@
                    && self@.users[i].password_digest@ == hs256_of(
                    salted(username@, password@),
                    self@.password_key,
                ),
    {
        match self.find_user(username) {
            None => false,
            Some(i) => {
                let digest = salted_digest(username, password, self.password_key.as_slice());
                let ok = digest == self.users[i].password_digest;
                proof {
                    if !ok {
                        assert forall|j: int|
                            0 <= j < self@.users.len() && (#[trigger] self@.users[j]).username@
                                == username@ implies self@.users[j].password_digest@ != hs256_of(
                            salted(username@, password@),
                            self@.password_key,
                        ) by {
                            if j != i {
                                if j < i {
                                    assert(self@.users[j].username@ != self@.users[i as int].username@);
                                } else {
                                    assert(self@.users[i as int].username@ != self@.users[j].username@);
                                }
                            }
                        }
                    }
                }
                ok
            },
        }
    }

    /// Updates email, bio, image and, if the user carries one, the password of
    /// the stored user with the same name. An email held by another user is refused.
    pub fn update_user(&mut self, user: &User) -> (r: Result<(), StoreError>)
        requires
            old(self).wf(),
        ensures
            final(self).wf(),
            !user_named(old(self)@.users, user@.username) ==> r == Err::<(), StoreError>(
                StoreError::NotFound,
            ),
            r is Err ==> final(self)@ == old(self)@,
            r is Err ==> r == Err::<(), StoreError>(StoreError::NotFound) || r == Err::<
                (),
                StoreError,
            >(StoreError::DuplicateEmail),
            user_named(old(self)@.users, user@.username) ==> r != Err::<(), StoreError>(
                StoreError::NotFound,
            ),
            r is Ok ==> exists|i: int|
                0 <= i < old(self)@.users.len() && (#[trigger] old(self)@.users[i]).username@
                    == user@.username && final(self)@ == (StoreView {
                    users: old(self)@.users.update(i, final(self)@.users[i]),
                    ..old(self)@
                }) && updated_record(old(self)@.users[i], final(self)@.users[i], user@, old(self)@.password_key),
            r == Err::<(), StoreError>(StoreError::DuplicateEmail) <==> user_named(
                old(self)@.users,
                user@.username,
            ) && (exists|j: int|
                0 <= j < old(self)@.users.len() && (#[trigger] old(self)@.users[j]).email@ == user@.email
                    && old(self)@.users[j].username@ != user@.username),
    {
        let name = user.username();
        let email = user.email();
        let i = match self.find_user(name.as_str()) {
            Some(i) => i,
            None => return Err(StoreError::NotFound),
        };
        match self.find_email(email.as_str()) {
            Some(j) => {
                if j != i {
                    proof {
                        assert(self@.users[j as int].username@ != self@.users[i as int].username@);
                    }
                    return Err(StoreError::DuplicateEmail);
                }
            },
            None => {},
        }
        let ghost others_free = forall|j: int|
            0 <= j < self@.users.len() && j != i ==> (#[trigger] self@.users[j]).email@ != email@;
        proof {
            assert forall|j: int| 0 <= j < self@.users.len() && j != i implies (
            #[trigger] self@.users[j]).email@ != email@ by {
                if self@.users[j].email@ == email@ {
                    assert(email_taken(self@.users, email@));
                }
            }
        }
        let digest = match user.password() {
            Some(p) => salted_digest(
                self.users[i].username.as_str(),
                p.as_str(),
                self.password_key.as_slice(),
            ),
            None => self.users[i].password_digest.clone(),
        };
        let rec = UserRecord {
            username: self.users[i].username.clone(),
            email,
            password_digest: digest,
            bio: user.bio(),
            image: user.image(),
        };
        let ghost old_users = self@.users;
        self.users.set(i, rec);
        proof {
            let us = self@.users;
            assert forall|a: int, b: int| 0 <= a < b < us.len() implies (#[trigger] us[a]).username@
                != (#[trigger] us[b]).username@ && us[a].email@ != us[b].email@ by {
                if a != i && b != i {
                    assert(us[a] == old_users[a] && us[b] == old_users[b]);
                } else if a == i {
                    assert(us[b] == old_users[b]);
                    assert(old_users[a].username@ != old_users[b].username@);
                } else {
                    assert(us[a] == old_users[a]);
                    assert(old_users[a].username@ != old_users[b].username@);
                }
            }
            assert(self@.users =~= old_users.update(i as int, self@.users[i as int]));
            if exists|j: int|
                0 <= j < old_users.len() && (#[trigger] old_users[j]).email@ == user@.email
                    && old_users[j].username@ != user@.username {
                let j = choose|j: int|
                    0 <= j < old_users.len() && (#[trigger] old_users[j]).email@ == user@.email
                        && old_users[j].username@ != user@.username;
                assert(j != i);
            }
        }
        Ok(())
    }
}

/// The user that the store hands out for a record: no password.
pub open spec fn profile_view(rec: UserRecord) -> UserView {
    UserView {
        username: rec.username@,
        password: None,
        email: rec.email@,
        bio: opt_text(rec.bio),
        image: opt_text(rec.image),
    }
}

/// `rec` stores `user`, its password as a digest under `key`.
pub open spec fn record_of(rec: UserRecord, user: UserView, key: Seq<u8>) -> bool {
    &&& rec.username@ == user.username
    &&& rec.email@ == user.email
    &&& opt_text(rec.bio) == user.bio
    &&& opt_text(rec.image) == user.image
    &&& user.password matches Some(p) && rec.password_digest@ == hs256_of(
        salted(user.username, p),
        key,
    )
}

/// `new` is `old` with the profile of `user`; the password digest changes only
/// where `user` carries a password.
pub open spec fn updated_record(old: UserRecord, new: UserRecord, user: UserView, key: Seq<u8>) -> bool {
    &&& new.username@ == old.username@
    &&& new.email@ == user.email
    &&& opt_text(new.bio) == user.bio
    &&& opt_text(new.image) == user.image
    &&& match user.password {
        Some(p) => new.password_digest@ == hs256_of(salted(old.username@, p), key),
        None => new.password_digest@ == old.password_digest@,
    }
}

} // verus!
