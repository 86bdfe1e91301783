//! Users and the validation rules of their fields.
use vstd::prelude::*;

use crate::text::{char_count, join3, opt_text, starts_with};

verus! {

/// Fewest characters in a username.
pub const USERNAME_MIN: usize = 4;

/// Fewest characters in a password.
pub const PASSWORD_MIN: usize = 4;

/// Fewest characters in a non-empty bio.
pub const BIO_MIN: usize = 10;

/// The pattern an email address must match.
pub const EMAIL_PATTERN: &'static str = r"^[\w\-\.]+@([\w-]+\.)+\w{2,4}$";

/// Whether `email` matches `EMAIL_PATTERN`, as the `regex` crate decides it.
pub uninterp spec fn email_pattern_matches(email: Seq<char>) -> bool;

/// Relies on `regex::Regex::new` and `regex::Regex::is_match`: whether the whole
/// address matches `EMAIL_PATTERN`, which depends on the address alone.
#[verifier::external_body]
fn email_matches(email: &str) -> (r: bool)
    ensures
        r == email_pattern_matches(email@),
{
    match regex::Regex::new(EMAIL_PATTERN) {
        Ok(re) => re.is_match(email),
        Err(_) => false,
    }
}

/// A user as another user sees it next to an article.
#[derive(Clone, Debug, Default)]
pub struct UserPreview {
    pub username: String,
    pub image: Option<String>,
    pub following: bool,
}

/// A registered user. The password is held only on its way to the store.
#[derive(Clone, Debug)]
pub struct User {
    username: String,
    password: Option<String>,
    email: String,
    bio: Option<String>,
    image: Option<String>,
}

/// What a `User` holds, as character sequences.
pub struct UserView {
    pub username: Seq<char>,
    pub password: Option<Seq<char>>,
    pub email: Seq<char>,
    pub bio: Option<Seq<char>>,
    pub image: Option<Seq<char>>,
}

impl View for User {
    type V = UserView;

    closed spec fn view(&self) -> UserView {
        UserView {
            username: self.username@,
            password: opt_text(self.password),
            email: self.email@,
            bio: opt_text(self.bio),
            image: opt_text(self.image),
        }
    }
}

pub open spec fn short_username_message(username: Seq<char>) -> Seq<char> {
    "Username "@ + username + " is too short, at least 4 characters"@
}

pub open spec fn weak_password_message() -> Seq<char> {
    "You need to provide a stronger password"@
}

pub open spec fn bad_email_message(email: Seq<char>) -> Seq<char> {
    "The email "@ + email + " is invalid, provide a correct one"@
}

pub open spec fn short_bio_message() -> Seq<char> {
    "bio too short, at least 10 characters"@
}

pub open spec fn bad_image_message() -> Seq<char> {
    "Invalid image!"@
}

/// The view of a validation result: the user's view, or the message.
pub open spec fn checked(r: Result<User, String>) -> Result<UserView, Seq<char>> {
    match r {
        Ok(u) => Ok(u@),
        Err(m) => Err(m@),
    }
}

impl User {
    /// A user with every field empty.
    pub fn new() -> (r: User)
        ensures
            r@ == (UserView {
                username: Seq::empty(),
                password: None,
                email: Seq::empty(),
                bio: None,
                image: None,
            }),
    {
        User {
            username: String::new(),
            password: None,
            email: String::new(),
            bio: None,
            image: None,
        }
    }

    /// A user as the store hands it out: no password.
    pub fn with_profile(
        username: String,
        email: String,
        bio: Option<String>,
        image: Option<String>,
    ) -> (r: User)
        ensures
            r@ == (UserView {
                username: username@,
                password: None,
                email: email@,
                bio: opt_text(bio),
                image: opt_text(image),
            }),
    {
        User { username, password: None, email, bio, image }
    }

    pub fn username(&self) -> (r: String)
        ensures
            r@ == self@.username,
    {
        self.username.clone()
    }

    pub fn email(&self) -> (r: String)
        ensures
            r@ == self@.email,
    {
        self.email.clone()
    }

    pub fn bio(&self) -> (r: Option<String>)
        ensures
            opt_text(r) == self@.bio,
    {
        self.bio.clone()
    }

    pub fn image(&self) -> (r: Option<String>)
        ensures
            opt_text(r) == self@.image,
    {
        self.image.clone()
    }

    /// The password on its way to the store, if one was set.
    pub fn password(&self) -> (r: Option<String>)
        ensures
            opt_text(r) == self@.password,
    {
        self.password.clone()
    }

    /// Sets the password; it needs at least `PASSWORD_MIN` characters.
    pub fn set_password(self, password: String) -> (r: Result<User, String>)
        ensures
            password@.len() < PASSWORD_MIN ==> checked(r) == Err::<UserView, Seq<char>>(
                weak_password_message(),
            ),
            password@.len() >= PASSWORD_MIN ==> checked(r) == Ok::<UserView, Seq<char>>(
                UserView { password: Some(password@), ..self@ },
            ),
    {
        if char_count(password.as_str()) < PASSWORD_MIN {
            return Err(String::from_str("You need to provide a stronger password"));
        }
        let mut u = self;
        u.password = Some(password);
        Ok(u)
    }

    /// Sets the username; it needs at least `USERNAME_MIN` characters.
    pub fn set_username(self, username: String) -> (r: Result<User, String>)
        ensures
            username@.len() < USERNAME_MIN ==> checked(r) == Err::<UserView, Seq<char>>(
                short_username_message(username@),
            ),
            username@.len() >= USERNAME_MIN ==> checked(r) == Ok::<UserView, Seq<char>>(
                UserView { username: username@, ..self@ },
            ),
    {
        if char_count(username.as_str()) < USERNAME_MIN {
            return Err(
                join3("Username ", username.as_str(), " is too short, at least 4 characters"),
            );
        }
        let mut u = self;
        u.username = username;
        Ok(u)
    }

    /// Whether `email` has the shape of an address.
    pub fn validate_email(email: &str) -> (r: bool)
        ensures
            r == email_pattern_matches(email@),
    {
        email_matches(email)
    }

    /// Sets the email; it has to have the shape of an address.
    pub fn set_email(self, email: String) -> (r: Result<User, String>)
        ensures
            !email_pattern_matches(email@) ==> checked(r) == Err::<UserView, Seq<char>>(
                bad_email_message(email@),
            ),
            email_pattern_matches(email@) ==> checked(r) == Ok::<UserView, Seq<char>>(
                UserView { email: email@, ..self@ },
            ),
    {
        if !Self::validate_email(email.as_str()) {
            return Err(join3("The email ", email.as_str(), " is invalid, provide a correct one"));
        }
        let mut u = self;
        u.email = email;
        Ok(u)
    }

    /// Sets the bio: an empty one clears it, otherwise it needs `BIO_MIN` characters.
    pub fn set_bio(self, bio: String) -> (r: Result<User, String>)
        ensures
            bio@.len() == 0 ==> checked(r) == Ok::<UserView, Seq<char>>(
                UserView { bio: None, ..self@ },
            ),
            0 < bio@.len() < BIO_MIN ==> checked(r) == Err::<UserView, Seq<char>>(
                short_bio_message(),
            ),
            bio@.len() >= BIO_MIN ==> checked(r) == Ok::<UserView, Seq<char>>(
                UserView { bio: Some(bio@), ..self@ },
            ),
    {
        let n = char_count(bio.as_str());
        let mut u = self;
        if n == 0 {
            u.bio = None;
        } else if n < BIO_MIN {
            return Err(String::from_str("bio too short, at least 10 characters"));
        } else {
            u.bio = Some(bio);
        }
        Ok(u)
    }

    /// Sets the image link: an empty one clears it, otherwise it must start with `http`.
    pub fn set_image(self, image: String) -> (r: Result<User, String>)
        ensures
            image@.len() == 0 ==> checked(r) == Ok::<UserView, Seq<char>>(
                UserView { image: None, ..self@ },
            ),
            image@.len() > 0 && !is_web_link(image@) ==> checked(r) == Err::<
                UserView,
                Seq<char>,
            >(bad_image_message()),
            image@.len() > 0 && is_web_link(image@) ==> checked(r) == Ok::<UserView, Seq<char>>(
                UserView { image: Some(image@), ..self@ },
            ),
    {
        proof {
            reveal_strlit("http");
        }
        let mut u = self;
        if char_count(image.as_str()) == 0 {
            u.image = None;
        } else if !starts_with(image.as_str(), "http") {
            return Err(String::from_str("Invalid image!"));
        } else {
            u.image = Some(image);
        }
        Ok(u)
    }
}

impl Default for User {
    fn default() -> (r: User)
        ensures
            r@ == (UserView {
                username: Seq::empty(),
                password: None,
                email: Seq::empty(),
                bio: None,
                image: None,
            }),
    {
        User::new()
    }
}

/// Whether the text starts with `http`.
pub open spec fn is_web_link(s: Seq<char>) -> bool {
    4 <= s.len() && s.subrange(0, 4) == "http"@
}

} // verus!
