//! The platform's endpoints: each validates its input, consults or changes the
//! store, and says what to answer and which session cookie to set.
use vstd::prelude::*;

use crate::auth::cookie::{extract_token, session_cookie, session_value, REMOVE_COOKIE};
use crate::auth::guard::{guard_decision, path_kind, route_guard, action_view, GuardAction};
use crate::auth::token::{issue, issue_with_ttl, issued_for, verdict, decode_token, RESET_TTL, SESSION_TTL};
use crate::editor::{article_problem, tag_set, validate_article};
use crate::models::user::{
    bad_email_message, bad_image_message, checked, email_pattern_matches, is_web_link,
    short_bio_message, short_username_message, weak_password_message, User, UserView, BIO_MIN,
    PASSWORD_MIN, USERNAME_MIN,
};
use crate::store::{
    has_link, slug_taken, user_named, email_taken, Store, StoreError, StoreView,
};
use crate::models::article::Article;
use crate::text::{opt_text, owned, same_text};

verus! {

/// What signing up answers.
#[derive(Clone, Debug)]
pub enum SignupResponse {
    /// A field broke a rule; the message says which.
    ValidationError(String),
    /// The user could not be created; the message says why.
    CreateUserError(String),
    Success,
}

/// What logging in answers.
#[derive(Clone, Copy, Debug, PartialEq, Eq, Structural)]
pub enum LoginMessages {
    Successful,
    Unsuccessful,
}

/// Why an endpoint refused to act.
#[derive(Clone, Copy, Debug, PartialEq, Eq, Structural)]
pub enum ActionError {
    /// The endpoint needs a session.
    Unauthenticated,
    /// The store refused the change.
    Store(StoreError),
}

/// The first rule that a signup breaks, as its message.
pub open spec fn signup_problem(username: Seq<char>, email: Seq<char>, password: Seq<char>) -> Option<Seq<char>> {
    if username.len() < USERNAME_MIN {
        Some(short_username_message(username))
    } else if password.len() < PASSWORD_MIN {
        Some(weak_password_message())
    } else if !email_pattern_matches(email) {
        Some(bad_email_message(email))
    } else {
        None
    }
}

/// Checks username, then password, then email, and builds the new user.
pub fn validate_signup(username: String, email: String, password: String) -> (r: Result<User, String>)
    ensures
        match signup_problem(username@, email@, password@) {
            Some(m) => checked(r) == Err::<UserView, Seq<char>>(m),
            None => checked(r) == Ok::<UserView, Seq<char>>(
                UserView {
                    username: username@,
                    password: Some(password@),
                    email: email@,
                    bio: None,
                    image: None,
                },
            ),
        },
{
    let u = match User::new().set_username(username) {
        Ok(u) => u,
        Err(m) => return Err(m),
    };
    let u = match u.set_password(password) {
        Ok(u) => u,
        Err(m) => return Err(m),
    };
    u.set_email(email)
}

/// `c` is a session cookie carrying a token issued for `subject` at `now`.
pub open spec fn cookie_for(c: Option<String>, subject: Seq<char>, secret: Seq<u8>, now: u64) -> bool {
    c matches Some(v) && exists|t: Seq<char>|
        issued_for(t, subject, secret, now, SESSION_TTL) && v@ == "token="@ + t + "; path=/; HttpOnly"@
}

/// The `Set-Cookie` value that logs `subject` in: a session token valid for
/// `SESSION_TTL` seconds from `now`.
pub fn set_username(subject: &str, secret: &[u8], now: u64) -> (r: String)
    requires
        now + SESSION_TTL <= u64::MAX,
    ensures
        cookie_for(Some(r), subject@, secret@, now),
{
    let t = issue(subject, secret, now);
    session_cookie(t.as_str())
}

/// Signs up a user: validation first, then a taken username, then a taken
/// email; on success the user is stored and a session cookie is made.
/// Returns the answer and the `Set-Cookie` value, if any.
pub fn signup_action(
    store: &mut Store,
    username: String,
    email: String,
    password: String,
    secret: &[u8],
    now: u64,
) -> (r: (SignupResponse, Option<String>))
    requires
        old(store).wf(),
        now + SESSION_TTL <= u64::MAX,
    ensures
        final(store).wf(),
        username@.len() < USERNAME_MIN ==> (r.0 matches SignupResponse::ValidationError(m) && m@
            == short_username_message(username@)) && final(store)@ == old(store)@ && r.1 is None,
        signup_problem(username@, email@, password@) matches Some(p) ==> (
        r.0 matches SignupResponse::ValidationError(m) && m@ == p),
        signup_problem(username@, email@, password@) is None && user_named(
            old(store)@.users,
            username@,
        ) ==> (r.0 matches SignupResponse::CreateUserError(m) && m@ == "Duplicated user"@)
            && final(store)@ == old(store)@ && r.1 is None,
        signup_problem(username@, email@, password@) is None && !user_named(
            old(store)@.users,
            username@,
        ) && email_taken(old(store)@.users, email@) ==> (
        r.0 matches SignupResponse::CreateUserError(m) && m@ == "Duplicated email"@),
        !(r.0 is Success) ==> final(store)@ == old(store)@ && r.1 is None,
        r.0 is Success <==> signup_problem(username@, email@, password@) is None && !user_named(
            old(store)@.users,
            username@,
        ) && !email_taken(old(store)@.users, email@),
        r.0 is Success ==> user_named(final(store)@.users, username@) && final(store)@.users
            == old(store)@.users.push(final(store)@.users.last()) && cookie_for(
            r.1,
            username@,
            secret@,
            now,
        ),
        r.0 is Success ==> crate::store::record_of(
            final(store)@.users.last(),
            UserView {
                username: username@,
                password: Some(password@),
                email: email@,
                bio: None,
                image: None,
            },
            old(store)@.password_key,
        ),
{
    let user = match validate_signup(username, email, password) {
        Ok(u) => u,
        Err(m) => return (SignupResponse::ValidationError(m), None),
    };
    match store.insert_user(&user) {
        Ok(()) => {
            let name = user.username();
            let cookie = set_username(name.as_str(), secret, now);
            (SignupResponse::Success, Some(cookie))
        },
        Err(StoreError::DuplicateUser) => (
            SignupResponse::CreateUserError(owned("Duplicated user")),
            None,
        ),
        Err(_) => (SignupResponse::CreateUserError(owned("Duplicated email")), None),
    }
}

/// Logs in: on the right password for an existing user, a session cookie is
/// made; otherwise the answer is `Unsuccessful`, the same whichever of the two
/// was wrong, and no cookie changes.
pub fn login_action(store: &Store, username: &str, password: &str, secret: &[u8], now: u64) -> (r: (
    LoginMessages,
    Option<String>,
))
    requires
        store.wf(),
        now + SESSION_TTL <= u64::MAX,
    ensures
        (r.0 == LoginMessages::Successful) == exists|i: int|
            0 <= i < store@.users.len() && (#[trigger] store@.users[i]).username@ == username@
                && store@.users[i].password_digest@ == crate::store::hs256_of(
                crate::store::salted(username@, password@),
                store@.password_key,
            ),
        r.0 == LoginMessages::Unsuccessful ==> r.1 is None,
        r.0 == LoginMessages::Successful ==> cookie_for(r.1, username@, secret@, now),
{
    if store.check_login(username, password) {
        (LoginMessages::Successful, Some(set_username(username, secret, now)))
    } else {
        (LoginMessages::Unsuccessful, None)
    }
}

/// Logs out: the `Set-Cookie` value that evicts the session cookie, whether or
/// not there was a session.
pub fn logout_action() -> (r: String)
    ensures
        r@ == REMOVE_COOKIE@,
{
    owned(REMOVE_COOKIE)
}

/// The user a `Cookie` header speaks for at time `now`: the token of the session
/// cookie must verify and its subject must still exist.
pub open spec fn session_of(s: StoreView, header: Option<Seq<char>>, secret: Seq<u8>, now: u64) -> Option<Seq<char>> {
    match header {
        None => None,
        Some(h) => match session_value(h) {
            None => None,
            Some(t) => match verdict(t, secret, now) {
                Err(_) => None,
                Ok((sub, _)) => if user_named(s.users, sub) {
                    Some(sub)
                } else {
                    None
                },
            },
        },
    }
}

/// Recovers the session of a request from its `Cookie` header, if any.
pub fn resolve_session(store: &Store, cookie_header: Option<&str>, secret: &[u8], now: u64) -> (r:
    Option<String>)
    ensures
        opt_text(r) == session_of(
            store@,
            match cookie_header {
                Some(h) => Some(h@),
                None => None,
            },
            secret@,
            now,
        ),
{
    let header = match cookie_header {
        Some(h) => h,
        None => return None,
    };
    let token = match extract_token(header) {
        Some(t) => t,
        None => return None,
    };
    match decode_token(token.as_str(), secret, now) {
        Err(_) => None,
        Ok(claims) => if store.has_user(claims.sub.as_str()) {
            Some(claims.sub)
        } else {
            None
        },
    }
}

/// The guard's decision for a request with this `Cookie` header and path.
pub fn guard_request(store: &Store, cookie_header: Option<&str>, path: &str, secret: &[u8], now: u64) -> (r:
    GuardAction)
    ensures
        action_view(r) == guard_decision(
            session_of(
                store@,
                match cookie_header {
                    Some(h) => Some(h@),
                    None => None,
                },
                secret@,
                now,
            ) is Some,
            path_kind(path@),
        ),
{
    let session = resolve_session(store, cookie_header, secret, now);
    route_guard(&session, path)
}

/// Follows or unfollows `other` as the session's user; true when now following.
pub fn follow_action(store: &mut Store, session: &Option<String>, other: &str) -> (r: Result<bool, ActionError>)
    requires
        old(store).wf(),
    ensures
        final(store).wf(),
        session is None ==> r == Err::<bool, ActionError>(ActionError::Unauthenticated),
        r is Err ==> final(store)@ == old(store)@,
        session matches Some(u) ==> match r {
            Ok(on) => crate::store::follow_toggled(old(store)@, final(store)@, u@, other@, on),
            Err(e) => e == ActionError::Store(StoreError::NotFound) && !(user_named(
                old(store)@.users,
                u@,
            ) && user_named(old(store)@.users, other@)),
        },
{
    let username = match session {
        Some(u) => u,
        None => return Err(ActionError::Unauthenticated),
    };
    match store.toggle_follow(username.as_str(), other) {
        Ok(on) => Ok(on),
        Err(e) => Err(ActionError::Store(e)),
    }
}

/// Favorites or takes back the favorite of `slug` as the session's user; true
/// when now favorited.
pub fn fav_action(store: &mut Store, session: &Option<String>, slug: &str) -> (r: Result<bool, ActionError>)
    requires
        old(store).wf(),
    ensures
        final(store).wf(),
        session is None ==> r == Err::<bool, ActionError>(ActionError::Unauthenticated),
        r is Err ==> final(store)@ == old(store)@,
        session matches Some(u) ==> match r {
            Ok(on) => crate::store::favorite_toggled(old(store)@, final(store)@, u@, slug@, on),
            Err(e) => (e == ActionError::Store(StoreError::NotFound) && !(user_named(
                old(store)@.users,
                u@,
            ) && slug_taken(old(store)@.articles, slug@))) || (e == ActionError::Store(
                StoreError::Exhausted,
            ) && old(store)@.favorites.len() == i64::MAX),
        },
        session matches Some(u) ==> (user_named(old(store)@.users, u@) && slug_taken(
            old(store)@.articles,
            slug@,
        ) && old(store)@.favorites.len() < i64::MAX ==> r is Ok),
{
    let username = match session {
        Some(u) => u,
        None => return Err(ActionError::Unauthenticated),
    };
    match store.toggle_favorite(slug, username.as_str()) {
        Ok(on) => Ok(on),
        Err(e) => Err(ActionError::Store(e)),
    }
}

/// What saving from the editor answers.
#[derive(Clone, Debug)]
pub enum EditorResponse {
    /// Not authenticated, or a field broke a rule; the message says which.
    ValidationError(String),
    /// The store refused the article.
    UpdateError,
    /// Saved under this slug.
    Successful(String),
}

/// Saves an article from the editor as the session's user: an empty `slug`
/// creates one, another updates the article of that slug.
pub fn editor_action(
    store: &mut Store,
    session: &Option<String>,
    title: String,
    description: String,
    body: String,
    tag_list: String,
    slug: String,
    now: u64,
) -> (r: EditorResponse)
    requires
        old(store).wf(),
    ensures
        final(store).wf(),
        session is None ==> (r matches EditorResponse::ValidationError(m) && m@
            == "you should be authenticated"@),
        session is Some ==> (article_problem(title@, description@, body@) matches Some(p) ==> (
        r matches EditorResponse::ValidationError(m) && m@ == p)),
        !(r is Successful) ==> final(store)@ == old(store)@,
        r matches EditorResponse::Successful(s) ==> session matches Some(u) && article_problem(
            title@,
            description@,
            body@,
        ) is None && user_named(old(store)@.users, u@) && s@ == crate::store::target_slug(
            slug@,
            title@,
        ) && crate::store::article_saved(
            old(store)@,
            final(store)@,
            u@,
            slug@,
            title@,
            description@,
            body@,
            tag_set(tag_list@),
            now,
        ),
        session matches Some(u) ==> (article_problem(title@, description@, body@) is None ==> (
        r is UpdateError || r is Successful)),
        session matches Some(u) ==> (article_problem(title@, description@, body@) is None ==> (
        r is UpdateError <==> (!user_named(old(store)@.users, u@) || (slug@.len() > 0
            && !crate::store::owned_by(old(store)@.articles, slug@, u@)) || (slug@.len() == 0
            && slug_taken(old(store)@.articles, crate::editor::slug_of(title@)))))),
{
    let author = match session {
        Some(a) => a,
        None => return EditorResponse::ValidationError(owned("you should be authenticated")),
    };
    let article = match validate_article(title, description, body, tag_list) {
        Ok(a) => a,
        Err(m) => return EditorResponse::ValidationError(m),
    };
    match store.save_article(author.as_str(), slug.as_str(), &article, now) {
        Ok(s) => EditorResponse::Successful(s),
        Err(_) => EditorResponse::UpdateError,
    }
}

/// Posts a comment as the session's user; returns its id.
pub fn post_comment(store: &mut Store, session: &Option<String>, slug: &str, body: &str, now: u64) -> (r:
    Result<i32, ActionError>)
    requires
        old(store).wf(),
    ensures
        final(store).wf(),
        session is None ==> r == Err::<i32, ActionError>(ActionError::Unauthenticated),
        r is Err ==> final(store)@ == old(store)@,
        session matches Some(u) ==> (r is Ok ==> final(store)@.comments.last().username@ == u@
            && final(store)@.comments.last().article@ == slug@ && final(store)@.comments.last().body@
            == body@ && final(store)@.comments == old(store)@.comments.push(
            final(store)@.comments.last(),
        )),
        session matches Some(u) ==> (r is Ok <==> slug_taken(old(store)@.articles, slug@)
            && user_named(old(store)@.users, u@) && body@.len() > 0 && old(store)@.next_comment_id
            < i32::MAX),
{
    let username = match session {
        Some(u) => u,
        None => return Err(ActionError::Unauthenticated),
    };
    match store.insert_comment(slug, username.as_str(), body, now) {
        Ok(id) => Ok(id),
        Err(e) => Err(ActionError::Store(e)),
    }
}

/// Deletes comment `id` if the session's user wrote it.
pub fn delete_comment(store: &mut Store, session: &Option<String>, id: i32) -> (r: Result<(), ActionError>)
    requires
        old(store).wf(),
    ensures
        final(store).wf(),
        session is None ==> r == Err::<(), ActionError>(ActionError::Unauthenticated),
        r is Err ==> final(store)@ == old(store)@,
        session matches Some(u) ==> (r is Ok <==> exists|i: int|
            0 <= i < old(store)@.comments.len() && (#[trigger] old(store)@.comments[i]).id == id
                && old(store)@.comments[i].username@ == u@),
        r is Ok ==> exists|i: int|
            0 <= i < old(store)@.comments.len() && (#[trigger] old(store)@.comments[i]).id == id
                && final(store)@ == (StoreView { comments: old(store)@.comments.remove(i), ..old(store)@ }),
{
    let username = match session {
        Some(u) => u,
        None => return Err(ActionError::Unauthenticated),
    };
    match store.delete_comment(id, username.as_str()) {
        Ok(()) => Ok(()),
        Err(e) => Err(ActionError::Store(e)),
    }
}

/// The session's user, without password.
pub fn current_user(store: &Store, session: &Option<String>) -> (r: Result<User, ActionError>)
    requires
        store.wf(),
    ensures
        session is None ==> r == Err::<User, ActionError>(ActionError::Unauthenticated),
        session matches Some(u) ==> match r {
            Ok(user) => exists|i: int|
                0 <= i < store@.users.len() && (#[trigger] store@.users[i]).username@ == u@
                    && user@ == crate::store::profile_view(store@.users[i]),
            Err(e) => e == ActionError::Store(StoreError::NotFound) && !user_named(store@.users, u@),
        },
{
    let username = match session {
        Some(u) => u,
        None => return Err(ActionError::Unauthenticated),
    };
    match store.get_user(username.as_str()) {
        Some(u) => Ok(u),
        None => Err(ActionError::Store(StoreError::NotFound)),
    }
}

/// What updating the settings answers.
#[derive(Clone, Debug)]
pub enum SettingsUpdateError {
    /// The new password and its confirmation differ.
    PasswordsNotMatch,
    Successful,
    /// A field broke a rule; the message says which.
    ValidationError(String),
}

/// The settings checked in order: a new password (if one is given) must match
/// its confirmation and be strong enough, then the email, bio and image are set.
/// `Err(None)`: the passwords differ; `Err(Some(m))`: a rule broken, with its message.
pub open spec fn settings_result(
    u: UserView,
    image: Seq<char>,
    bio: Seq<char>,
    email: Seq<char>,
    password: Seq<char>,
    confirm: Seq<char>,
) -> Result<UserView, Option<Seq<char>>> {
    if password.len() > 0 && password != confirm {
        Err(None)
    } else if password.len() > 0 && password.len() < PASSWORD_MIN {
        Err(Some(weak_password_message()))
    } else if !email_pattern_matches(email) {
        Err(Some(bad_email_message(email)))
    } else if 0 < bio.len() < BIO_MIN {
        Err(Some(short_bio_message()))
    } else if image.len() > 0 && !is_web_link(image) {
        Err(Some(bad_image_message()))
    } else {
        Ok(
            UserView {
                username: u.username,
                password: if password.len() > 0 {
                    Some(password)
                } else {
                    u.password
                },
                email,
                bio: if bio.len() == 0 {
                    None
                } else {
                    Some(bio)
                },
                image: if image.len() == 0 {
                    None
                } else {
                    Some(image)
                },
            },
        )
    }
}

pub open spec fn settings_view(r: Result<User, SettingsUpdateError>) -> Result<UserView, Option<Seq<char>>> {
    match r {
        Ok(u) => Ok(u@),
        Err(SettingsUpdateError::ValidationError(m)) => Err(Some(m@)),
        Err(_) => Err(None),
    }
}

/// Applies the settings form to `user`, checking each field.
pub fn update_user_validation(
    user: User,
    image: String,
    bio: String,
    email: String,
    password: String,
    confirm_password: &str,
) -> (r: Result<User, SettingsUpdateError>)
    ensures
        settings_view(r) == settings_result(user@, image@, bio@, email@, password@, confirm_password@),
        r matches Err(e) ==> !(e is Successful),
{
    let mut user = user;
    if password.unicode_len() > 0 {
        if !same_text(password.as_str(), confirm_password) {
            return Err(SettingsUpdateError::PasswordsNotMatch);
        }
        user = match user.set_password(password) {
            Ok(u) => u,
            Err(m) => return Err(SettingsUpdateError::ValidationError(m)),
        };
    }
    let user = match user.set_email(email) {
        Ok(u) => u,
        Err(m) => return Err(SettingsUpdateError::ValidationError(m)),
    };
    let user = match user.set_bio(bio) {
        Ok(u) => u,
        Err(m) => return Err(SettingsUpdateError::ValidationError(m)),
    };
    match user.set_image(image) {
        Ok(u) => Ok(u),
        Err(m) => Err(SettingsUpdateError::ValidationError(m)),
    }
}

/// Updates the session user's settings. The answer is the validation outcome,
/// or `Successful` once stored; an email held by another user is refused by
/// the store.
pub fn settings_update(
    store: &mut Store,
    session: &Option<String>,
    image: String,
    bio: String,
    email: String,
    password: String,
    confirm_password: String,
) -> (r: Result<SettingsUpdateError, ActionError>)
    requires
        old(store).wf(),
    ensures
        final(store).wf(),
        session is None ==> r == Err::<SettingsUpdateError, ActionError>(ActionError::Unauthenticated),
        !(r matches Ok(SettingsUpdateError::Successful)) ==> final(store)@ == old(store)@,
        session matches Some(u) ==> (!user_named(old(store)@.users, u@) ==> r == Err::<
            SettingsUpdateError,
            ActionError,
        >(ActionError::Store(StoreError::NotFound))),
        session matches Some(u) ==> (forall|i: int|
            0 <= i < old(store)@.users.len() && (#[trigger] old(store)@.users[i]).username@ == u@
                ==> match settings_result(
                crate::store::profile_view(old(store)@.users[i]),
                image@,
                bio@,
                email@,
                password@,
                confirm_password@,
            ) {
                Err(None) => r matches Ok(SettingsUpdateError::PasswordsNotMatch),
                Err(Some(m)) => r matches Ok(SettingsUpdateError::ValidationError(x)) && x@ == m,
                Ok(v) => (r matches Ok(SettingsUpdateError::Successful) && crate::store::updated_record(
                    old(store)@.users[i],
                    final(store)@.users[i],
                    v,
                    old(store)@.password_key,
                ) && final(store)@ == (StoreView {
                    users: old(store)@.users.update(i, final(store)@.users[i]),
                    ..old(store)@
                })) || (r == Err::<SettingsUpdateError, ActionError>(
                    ActionError::Store(StoreError::DuplicateEmail),
) && (exists|j: int|
                    0 <= j < old(store)@.users.len() && (#[trigger] old(store)@.users[j]).email@
                        == email@ && old(store)@.users[j].username@ != u@)),
            }),
{
    let current = match current_user(store, session) {
        Ok(u) => u,
        Err(e) => return Err(e),
    };
    let ghost cur = current@;
    let ghost old_store = store@;
    let updated = match update_user_validation(current, image, bio, email, password, confirm_password.as_str()) {
        Ok(u) => u,
        Err(e) => return Ok(e),
    };
    proof {
        let i = choose|i: int|
            0 <= i < old_store.users.len() && (#[trigger] old_store.users[i]).username@ == cur.username
                && cur == crate::store::profile_view(old_store.users[i]);
        assert forall|j: int|
            0 <= j < old_store.users.len() && (#[trigger] old_store.users[j]).username@ == cur.username implies j
            == i by {
            if j < i {
                assert(old_store.users[j].username@ != old_store.users[i].username@);
            } else if j > i {
                assert(old_store.users[i].username@ != old_store.users[j].username@);
            }
        }
    }
    match store.update_user(&updated) {
        Ok(()) => {
            proof {
                let i = choose|i: int|
                    0 <= i < old_store.users.len() && (#[trigger] old_store.users[i]).username@
                        == updated@.username && store@ == (StoreView {
                        users: old_store.users.update(i, store@.users[i]),
                        ..old_store
                    }) && crate::store::updated_record(
                        old_store.users[i],
                        store@.users[i],
                        updated@,
                        old_store.password_key,
                    );
                assert(old_store.users[i].username@ == cur.username);
            }
            Ok(SettingsUpdateError::Successful)
        },
        Err(e) => {
            proof {
                if e == StoreError::DuplicateEmail {
                    let j = choose|j: int|
                        0 <= j < old_store.users.len() && (#[trigger] old_store.users[j]).email@
                            == updated@.email && old_store.users[j].username@ != updated@.username;
                }
            }
            Err(ActionError::Store(e))
        },
    }
}

/// The password and its confirmation are the same.
pub fn validate_reset(password: &str, confirm: &str) -> (r: bool)
    ensures
        r == (password@ == confirm@),
{
    same_text(password, confirm)
}

/// First step of a password reset: the answer never tells whether the email
/// is known. For a known email, a reset token with the email as subject, valid
/// for `RESET_TTL` seconds, is handed back to be mailed.
pub fn reset_password_1(store: &Store, email: &str, secret: &[u8], now: u64) -> (r: (String, Option<String>))
    requires
        store.wf(),
        now + RESET_TTL <= u64::MAX,
    ensures
        r.0@ == "Check your email"@,
        r.1 is Some <==> email_taken(store@.users, email@),
        r.1 matches Some(t) ==> issued_for(
            t@,
            email@,
            secret@,
            now,
            RESET_TTL,
        ),
{
    let token = match store.get_user_by_email(email) {
        Some(_) => Some(issue_with_ttl(email, secret, now, RESET_TTL)),
        None => None,
    };
    (owned("Check your email"), token)
}

pub open spec fn reset_failed_message() -> Seq<char> {
    "Something went wrong, try again later"@
}

pub open spec fn reset_done_message() -> Seq<char> {
    "Password successfully reset, please, proceed to login"@
}

/// Second step of a password reset: with matching passwords and a valid reset
/// token whose subject is a known email, that user's password is replaced.
/// The token stays valid until it expires.
pub fn reset_password_2(
    store: &mut Store,
    token: &str,
    password: String,
    confirm: &str,
    secret: &[u8],
    now: u64,
) -> (r: String)
    requires
        old(store).wf(),
    ensures
        final(store).wf(),
        r@ != reset_done_message() ==> final(store)@ == old(store)@,
        password@ != confirm@ ==> r@ == reset_failed_message(),
        verdict(token@, secret@, now) is Err ==> r@ == reset_failed_message(),
        verdict(token@, secret@, now) matches Ok((sub, _)) ==> (!email_taken(old(store)@.users, sub)
            ==> r@ == reset_failed_message()),
        verdict(token@, secret@, now) matches Ok((sub, _)) ==> (password@ == confirm@ && email_taken(
            old(store)@.users,
            sub,
        ) ==> if password@.len() < PASSWORD_MIN {
            r@ == weak_password_message()
        } else {
            r@ == reset_done_message() && exists|i: int|
                0 <= i < old(store)@.users.len() && (#[trigger] old(store)@.users[i]).email@ == sub
                    && final(store)@.users == old(store)@.users.update(i, final(store)@.users[i])
                    && final(store)@.users[i].password_digest@ == crate::store::hs256_of(
                    crate::store::salted(old(store)@.users[i].username@, password@),
                    old(store)@.password_key,
                ) && final(store)@.users[i].username@ == old(store)@.users[i].username@
                    && final(store)@.users[i].email@ == old(store)@.users[i].email@ && opt_text(
                    final(store)@.users[i].bio,
                ) == opt_text(old(store)@.users[i].bio) && opt_text(final(store)@.users[i].image)
                    == opt_text(old(store)@.users[i].image) && final(store)@ == (StoreView {
                    users: final(store)@.users,
                    ..old(store)@
                })
        }),
{
    proof {
        reveal_strlit("Something went wrong, try again later");
        reveal_strlit("Password successfully reset, please, proceed to login");
        reveal_strlit("You need to provide a stronger password");
    }
    let failed = owned("Something went wrong, try again later");
    if !validate_reset(password.as_str(), confirm) {
        return failed;
    }
    let claims = match decode_token(token, secret, now) {
        Ok(c) => c,
        Err(_) => return failed,
    };
    let user = match store.get_user_by_email(claims.sub.as_str()) {
        Some(u) => u,
        None => return failed,
    };
    let ghost old_store = store@;
    let ghost prof = user@;
    let user = match user.set_password(password) {
        Ok(u) => u,
        Err(m) => return m,
    };
    proof {
        let i = choose|i: int|
            0 <= i < old_store.users.len() && (#[trigger] old_store.users[i]).email@ == claims.sub@
                && prof == crate::store::profile_view(old_store.users[i]);
        assert(user_named(old_store.users, user@.username));
        assert forall|j: int|
            0 <= j < old_store.users.len() && (#[trigger] old_store.users[j]).email@ == user@.email implies old_store.users[j].username@
            == user@.username by {
            if j < i {
                assert(old_store.users[j].email@ != old_store.users[i].email@);
            } else if j > i {
                assert(old_store.users[i].email@ != old_store.users[j].email@);
            }
        }
    }
    match store.update_user(&user) {
        Ok(()) => {
            proof {
                let i = choose|i: int|
                    0 <= i < old_store.users.len() && (#[trigger] old_store.users[i]).username@
                        == user@.username && store@ == (StoreView {
                        users: old_store.users.update(i, store@.users[i]),
                        ..old_store
                    }) && crate::store::updated_record(
                        old_store.users[i],
                        store@.users[i],
                        user@,
                        old_store.password_key,
                    );
                let k = choose|k: int|
                    0 <= k < old_store.users.len() && (#[trigger] old_store.users[k]).email@ == claims.sub@
                        && prof == crate::store::profile_view(old_store.users[k]);
                if k != i {
                    if k < i {
                        assert(old_store.users[k].username@ != old_store.users[i].username@);
                    } else {
                        assert(old_store.users[i].username@ != old_store.users[k].username@);
                    }
                }
            }
            owned("Password successfully reset, please, proceed to login")
        },
        Err(_) => failed,
    }
}

/// Deletes the article `slug` as the session's user, who must have written it.
pub fn delete_article(store: &mut Store, session: &Option<String>, slug: &str) -> (r: Result<(), ActionError>)
    requires
        old(store).wf(),
    ensures
        final(store).wf(),
        session is None ==> r == Err::<(), ActionError>(ActionError::Unauthenticated),
        r is Err ==> final(store)@ == old(store)@,
        session matches Some(u) ==> (r is Ok <==> crate::store::owned_by(old(store)@.articles, slug@, u@)),
        r is Ok ==> !slug_taken(final(store)@.articles, slug@),
{
    let author = match session {
        Some(a) => a,
        None => return Err(ActionError::Unauthenticated),
    };
    match store.delete_article(slug, author.as_str()) {
        Ok(()) => Ok(()),
        Err(e) => Err(ActionError::Store(e)),
    }
}

/// A profile page: the user, and whether the viewer follows them (`None`
/// without a viewer).
#[derive(Clone, Debug)]
pub struct UserProfileModel {
    pub user: User,
    pub following: Option<bool>,
}

/// The profile of `username` as the session's user sees it.
pub fn user_profile(store: &Store, username: &str, session: &Option<String>) -> (r: Option<UserProfileModel>)
    requires
        store.wf(),
    ensures
        r is None <==> !user_named(store@.users, username@),
        r matches Some(m) ==> m.user@.username == username@ && m.following == match session {
            Some(v) => Some(has_link(store@.follows, v@, username@)),
            None => None,
        },
{
    let user = match store.get_user(username) {
        Some(u) => u,
        None => return None,
    };
    let following = match session {
        Some(v) => Some(store.is_following(v.as_str(), username)),
        None => None,
    };
    Some(UserProfileModel { user, following })
}

/// An article page: the article, and the session's user if there is one.
#[derive(Clone, Debug)]
pub struct ArticleResult {
    pub article: Article,
    pub logged_user: Option<User>,
}

/// The article `slug` with its body, and the session's user.
pub fn get_article(store: &Store, slug: &str, session: &Option<String>) -> (r: Option<ArticleResult>)
    requires
        store.wf(),
    ensures
        r is None <==> !slug_taken(store@.articles, slug@),
        r matches Some(a) ==> a.article.slug@ == slug@ && exists|i: int|
            0 <= i < store@.articles.len() && (#[trigger] store@.articles[i]).slug@ == slug@
                && crate::store::row_is(store@, store@.articles[i], opt_text(*session), true, a.article),
        r matches Some(a) ==> (a.logged_user is Some ==> session is Some),
{
    let article = match store.article(slug, session) {
        Some(a) => a,
        None => return None,
    };
    let logged_user = match current_user(store, session) {
        Ok(u) => Some(u),
        Err(_) => None,
    };
    Some(ArticleResult { article, logged_user })
}

} // verus!
