use conduit::api::{
    delete_article, delete_comment, editor_action, fav_action, follow_action, get_article,
    guard_request, login_action, logout_action, post_comment, reset_password_1, reset_password_2,
    resolve_session, settings_update, signup_action, user_profile, validate_reset,
    validate_signup, ActionError, EditorResponse, LoginMessages, SettingsUpdateError,
    SignupResponse,
};
use conduit::auth::guard::GuardAction;
use conduit::editor::validate_article;
use conduit::models::Pagination;
use conduit::store::{Store, StoreError};

const SECRET: &[u8] = b"session secret";
const NOW: u64 = 1_700_000_000;

fn store() -> Store {
    Store::new(b"password key".to_vec())
}

fn sign_up(s: &mut Store, name: &str, email: &str) {
    let (r, _) = signup_action(s, name.to_string(), email.to_string(), "secret1".to_string(), SECRET, NOW);
    assert!(matches!(r, SignupResponse::Success));
}

fn write(s: &mut Store, author: &str, title: &str, tags: &str, now: u64) -> String {
    let upd = validate_article(
        title.to_string(),
        "a description".to_string(),
        "a body long enough".to_string(),
        tags.to_string(),
    )
    .unwrap();
    s.save_article(author, "", &upd, now).unwrap()
}

fn session(name: &str) -> Option<String> {
    Some(name.to_string())
}

fn cookie_token(cookie: &str) -> String {
    cookie.strip_prefix("token=").unwrap().strip_suffix("; path=/; HttpOnly").unwrap().to_string()
}

#[test]
fn signup_short_username_is_rejected() {
    let mut s = store();
    let (r, c) = signup_action(&mut s, "bob".into(), "b@x.com".into(), "secret1".into(), SECRET, NOW);
    match r {
        SignupResponse::ValidationError(m) => {
            assert_eq!(m, "Username bob is too short, at least 4 characters")
        }
        _ => panic!("expected a validation error"),
    }
    assert!(c.is_none());
    assert!(!s.has_user("bob"));
}

#[test]
fn signup_taken_username_is_rejected() {
    let mut s = store();
    sign_up(&mut s, "alice", "a@x.com");
    let (r, c) = signup_action(&mut s, "alice".into(), "other@x.com".into(), "secret1".into(), SECRET, NOW);
    match r {
        SignupResponse::CreateUserError(m) => assert_eq!(m, "Duplicated user"),
        _ => panic!("expected a duplicate user"),
    }
    assert!(c.is_none());
}

#[test]
fn signup_taken_email_is_rejected() {
    let mut s = store();
    sign_up(&mut s, "alice", "a@x.com");
    let (r, _) = signup_action(&mut s, "alice2".into(), "a@x.com".into(), "secret1".into(), SECRET, NOW);
    match r {
        SignupResponse::CreateUserError(m) => assert_eq!(m, "Duplicated email"),
        _ => panic!("expected a duplicate email"),
    }
    assert!(!s.has_user("alice2"));
}

#[test]
fn signup_validation_order() {
    let e = validate_signup("alice".into(), "bad".into(), "123".into()).unwrap_err();
    assert_eq!(e, "You need to provide a stronger password");
    let e = validate_signup("alice".into(), "bad".into(), "1234".into()).unwrap_err();
    assert_eq!(e, "The email bad is invalid, provide a correct one");
    let u = validate_signup("alice".into(), "a@x.com".into(), "1234".into()).unwrap();
    assert_eq!(u.username(), "alice");
}

#[test]
fn signup_issues_session_cookie() {
    let mut s = store();
    let (r, c) = signup_action(&mut s, "alice".into(), "a@x.com".into(), "secret1".into(), SECRET, NOW);
    assert!(matches!(r, SignupResponse::Success));
    let c = c.unwrap();
    let header = format!("token={}", cookie_token(&c));
    assert_eq!(resolve_session(&s, Some(header.as_str()), SECRET, NOW), Some("alice".to_string()));
}

#[test]
fn password_digest_is_keyed_and_salted() {
    let s = store();
    let d = s.password_digest("alice", "secret1");
    assert_ne!(d, "secret1");
    assert_eq!(d.len(), 43);
    assert_eq!(d, s.password_digest("alice", "secret1"));
    assert_ne!(d, s.password_digest("carol", "secret1"));
    assert_ne!(d, Store::new(b"other key".to_vec()).password_digest("alice", "secret1"));
}

#[test]
fn login_checks_password() {
    let mut s = store();
    sign_up(&mut s, "alice", "a@x.com");
    let (r, c) = login_action(&s, "alice", "wrong", SECRET, NOW);
    assert_eq!(r, LoginMessages::Unsuccessful);
    assert!(c.is_none());
    let (r, c) = login_action(&s, "nobody", "secret1", SECRET, NOW);
    assert_eq!(r, LoginMessages::Unsuccessful);
    assert!(c.is_none());
    let (r, _) = login_action(&s, "", "", SECRET, NOW);
    assert_eq!(r, LoginMessages::Unsuccessful);
    let (r, c) = login_action(&s, "alice", "secret1", SECRET, NOW);
    assert_eq!(r, LoginMessages::Successful);
    assert!(c.unwrap().starts_with("token="));
}

#[test]
fn logout_clears_cookie() {
    assert_eq!(logout_action(), "token=; path=/; expires=Thu, 01 Jan 1970 00:00:00 GMT");
}

#[test]
fn session_resolution() {
    let mut s = store();
    sign_up(&mut s, "alice", "a@x.com");
    let token = conduit::auth::token::issue("alice", SECRET, NOW);
    let header = format!("theme=dark; token={}", token);
    assert_eq!(resolve_session(&s, Some(header.as_str()), SECRET, NOW + 5), Some("alice".to_string()));
    assert_eq!(resolve_session(&s, None, SECRET, NOW), None);
    assert_eq!(resolve_session(&s, Some("theme=dark"), SECRET, NOW), None);
    assert_eq!(resolve_session(&s, Some(header.as_str()), b"other", NOW), None);
    assert_eq!(resolve_session(&s, Some(header.as_str()), SECRET, NOW + 3_600_001), None);
    let ghost = conduit::auth::token::issue("ghost", SECRET, NOW);
    assert_eq!(resolve_session(&s, Some(format!("token={}", ghost).as_str()), SECRET, NOW), None);
}

#[test]
fn guard_uses_resolved_session() {
    let mut s = store();
    sign_up(&mut s, "alice", "a@x.com");
    let token = conduit::auth::token::issue("alice", SECRET, NOW);
    let header = format!("token={}", token);
    match guard_request(&s, Some(header.as_str()), "/login", SECRET, NOW) {
        GuardAction::Redirect { location, clear_cookie } => {
            assert_eq!(location, "/");
            assert!(!clear_cookie);
        }
        GuardAction::Forward => panic!("expected a redirect"),
    }
    assert!(matches!(guard_request(&s, Some(header.as_str()), "/settings", SECRET, NOW), GuardAction::Forward));
    match guard_request(&s, Some("token=forged"), "/editor", SECRET, NOW) {
        GuardAction::Redirect { location, clear_cookie } => {
            assert_eq!(location, "/login");
            assert!(clear_cookie);
        }
        GuardAction::Forward => panic!("expected a redirect"),
    }
}

#[test]
fn feed_pages_newest_first() {
    let mut s = store();
    sign_up(&mut s, "alice", "a@x.com");
    for i in 0..25u64 {
        write(&mut s, "alice", &format!("Post {}", i), "", NOW + i);
    }
    let p = Pagination::new();
    let page0 = s.list_articles(&p, &None);
    assert_eq!(page0.len(), 10);
    assert_eq!(page0[0].slug, "post-24");
    assert_eq!(page0[9].slug, "post-15");
    for w in page0.windows(2) {
        assert!(w[0].created_at >= w[1].created_at);
    }
    assert!(page0.iter().all(|a| a.body.is_none()));
    let page1 = s.list_articles(&p.clone().next_page(), &None);
    assert_eq!(page1.len(), 10);
    assert_eq!(page1[0].slug, "post-14");
    assert_eq!(page1[9].slug, "post-5");
    let page2 = s.list_articles(&p.clone().next_page().next_page(), &None);
    assert_eq!(page2.len(), 5);
    assert_eq!(page2[4].slug, "post-0");
    let page3 = s.list_articles(&p.clone().next_page().next_page().next_page(), &None);
    assert!(page3.is_empty());
    assert!(s.list_articles(&p.set_amount(0), &None).is_empty());
}

#[test]
fn feed_of_empty_store_is_empty() {
    let s = store();
    assert!(s.list_articles(&Pagination::new(), &None).is_empty());
}

#[test]
fn feed_filters_by_tag_and_follows() {
    let mut s = store();
    sign_up(&mut s, "alice", "a@x.com");
    sign_up(&mut s, "carol", "c@x.com");
    sign_up(&mut s, "dave", "d@x.com");
    write(&mut s, "carol", "Carol One", "rust web", NOW);
    write(&mut s, "dave", "Dave One", "rust", NOW + 1);
    write(&mut s, "dave", "Dave Two", "Rust", NOW + 2);
    let rust = s.list_articles(&Pagination::new().set_tag("rust"), &None);
    let slugs: Vec<&str> = rust.iter().map(|a| a.slug.as_str()).collect();
    assert_eq!(slugs, vec!["dave-one", "carol-one"]);
    assert_eq!(follow_action(&mut s, &session("alice"), "carol"), Ok(true));
    let feed = s.list_articles(&Pagination::new().set_my_feed(true), &session("alice"));
    assert_eq!(feed.len(), 1);
    assert_eq!(feed[0].slug, "carol-one");
    assert!(feed[0].author.following);
    let anonymous = s.list_articles(&Pagination::new().set_my_feed(true), &None);
    assert_eq!(anonymous.len(), 3);
    assert!(anonymous.iter().all(|a| !a.author.following));
    let carol = &s.list_articles(&Pagination::new(), &None)[2];
    assert_eq!(carol.tag_list, vec!["rust", "web"]);
}

#[test]
fn favorite_toggle_twice_restores_state() {
    let mut s = store();
    sign_up(&mut s, "alice", "a@x.com");
    sign_up(&mut s, "bob1", "b@x.com");
    let slug = write(&mut s, "alice", "Hello World", "", NOW);
    assert_eq!(fav_action(&mut s, &session("bob1"), &slug), Ok(true));
    let before = s.article(&slug, &session("alice")).unwrap();
    assert_eq!(before.favorites_count, 1);
    assert!(!before.fav);
    assert_eq!(fav_action(&mut s, &session("alice"), &slug), Ok(true));
    let mid = s.article(&slug, &session("alice")).unwrap();
    assert_eq!(mid.favorites_count, 2);
    assert!(mid.fav);
    assert_eq!(fav_action(&mut s, &session("alice"), &slug), Ok(false));
    let after = s.article(&slug, &session("alice")).unwrap();
    assert_eq!(after.favorites_count, before.favorites_count);
    assert_eq!(after.fav, before.fav);
}

#[test]
fn toggles_need_session_and_rows() {
    let mut s = store();
    sign_up(&mut s, "alice", "a@x.com");
    assert_eq!(fav_action(&mut s, &None, "x"), Err(ActionError::Unauthenticated));
    assert_eq!(fav_action(&mut s, &session("alice"), "missing"), Err(ActionError::Store(StoreError::NotFound)));
    assert_eq!(follow_action(&mut s, &None, "alice"), Err(ActionError::Unauthenticated));
    assert_eq!(follow_action(&mut s, &session("alice"), "nobody"), Err(ActionError::Store(StoreError::NotFound)));
}

#[test]
fn follow_toggle_twice() {
    let mut s = store();
    sign_up(&mut s, "alice", "a@x.com");
    sign_up(&mut s, "carol", "c@x.com");
    assert!(!s.is_following("alice", "carol"));
    assert_eq!(follow_action(&mut s, &session("alice"), "carol"), Ok(true));
    assert!(s.is_following("alice", "carol"));
    assert!(!s.is_following("carol", "alice"));
    assert_eq!(follow_action(&mut s, &session("alice"), "carol"), Ok(false));
    assert!(!s.is_following("alice", "carol"));
    let m = user_profile(&s, "carol", &session("alice")).unwrap();
    assert_eq!(m.following, Some(false));
    assert_eq!(user_profile(&s, "carol", &None).unwrap().following, None);
    assert!(user_profile(&s, "nobody", &None).is_none());
}

#[test]
fn end_to_end_alice() {
    let mut s = store();
    let (r, c) = signup_action(&mut s, "alice".into(), "a@x.com".into(), "secret1".into(), SECRET, NOW);
    assert!(matches!(r, SignupResponse::Success));
    assert!(c.is_some());
    let (r, c) = login_action(&s, "alice", "wrong", SECRET, NOW);
    assert_eq!(r, LoginMessages::Unsuccessful);
    assert!(c.is_none());
    let r = editor_action(
        &mut s,
        &session("alice"),
        "Hello World".into(),
        "about greetings".into(),
        "a body long enough".into(),
        String::new(),
        String::new(),
        NOW,
    );
    match r {
        EditorResponse::Successful(slug) => assert_eq!(slug, "hello-world"),
        _ => panic!("expected the article to be saved"),
    }
    let a = s.article("hello-world", &None).unwrap();
    assert!(a.tag_list.is_empty());
    assert_eq!(a.body, Some("a body long enough".to_string()));
    assert_eq!(fav_action(&mut s, &session("alice"), "hello-world"), Ok(true));
    let mine = s.list_articles(&Pagination::new(), &session("alice"));
    assert_eq!(mine[0].favorites_count, 1);
    assert!(mine[0].fav);
    let anon = s.list_articles(&Pagination::new(), &None);
    assert_eq!(anon[0].favorites_count, 1);
    assert!(!anon[0].fav);
}

#[test]
fn editor_rules() {
    let mut s = store();
    sign_up(&mut s, "alice", "a@x.com");
    sign_up(&mut s, "mallory", "m@x.com");
    let r = editor_action(&mut s, &None, "Title".into(), "desc".into(), "body long enough".into(), String::new(), String::new(), NOW);
    assert!(matches!(r, EditorResponse::ValidationError(m) if m == "you should be authenticated"));
    let r = editor_action(&mut s, &session("alice"), "Tit".into(), "desc".into(), "body long enough".into(), String::new(), String::new(), NOW);
    assert!(matches!(r, EditorResponse::ValidationError(m) if m == "You need to provide a title with at least 4 characters"));
    let slug = write(&mut s, "alice", "First Post", "a b", NOW);
    let r = editor_action(&mut s, &session("alice"), "First Post".into(), "desc".into(), "body long enough".into(), String::new(), String::new(), NOW);
    assert!(matches!(r, EditorResponse::UpdateError));
    let r = editor_action(&mut s, &session("mallory"), "Hijacked".into(), "desc".into(), "body long enough".into(), String::new(), slug.clone(), NOW);
    assert!(matches!(r, EditorResponse::UpdateError));
    let r = editor_action(&mut s, &session("alice"), "New Title".into(), "new desc".into(), "new body long enough".into(), "c a".into(), slug.clone(), NOW + 50);
    assert!(matches!(r, EditorResponse::Successful(x) if x == "first-post"));
    let a = s.article(&slug, &None).unwrap();
    assert_eq!(a.title, "New Title");
    assert_eq!(a.tag_list, vec!["c", "a"]);
    assert_eq!(a.created_at, NOW);
    assert_eq!(s.all_tags(), vec!["c", "a"]);
}

#[test]
fn new_article_never_dates_before_newest() {
    let mut s = store();
    sign_up(&mut s, "alice", "a@x.com");
    write(&mut s, "alice", "Later", "", NOW + 100);
    write(&mut s, "alice", "Earlier Clock", "", NOW);
    let a = s.article("earlier-clock", &None).unwrap();
    assert_eq!(a.created_at, NOW + 100);
    assert_eq!(s.list_articles(&Pagination::new(), &None)[0].slug, "earlier-clock");
}

#[test]
fn all_tags_are_distinct() {
    let mut s = store();
    sign_up(&mut s, "alice", "a@x.com");
    write(&mut s, "alice", "One Post", "x y", NOW);
    write(&mut s, "alice", "Two Post", "y z", NOW + 1);
    assert_eq!(s.all_tags(), vec!["x", "y", "z"]);
}

#[test]
fn comments_lifecycle() {
    let mut s = store();
    sign_up(&mut s, "alice", "a@x.com");
    sign_up(&mut s, "bob1", "b@x.com");
    let slug = write(&mut s, "alice", "Hello World", "", NOW);
    assert_eq!(post_comment(&mut s, &None, &slug, "hi", NOW), Err(ActionError::Unauthenticated));
    assert_eq!(post_comment(&mut s, &session("bob1"), &slug, "", NOW), Err(ActionError::Store(StoreError::EmptyBody)));
    assert_eq!(post_comment(&mut s, &session("bob1"), "missing", "hi", NOW), Err(ActionError::Store(StoreError::NotFound)));
    let id1 = post_comment(&mut s, &session("bob1"), &slug, "first", NOW).unwrap();
    let id2 = post_comment(&mut s, &session("alice"), &slug, "second", NOW + 1).unwrap();
    assert!(id1 < id2);
    let cs = s.comments_of(&slug);
    assert_eq!(cs.len(), 2);
    assert_eq!(cs[0].body, "first");
    assert_eq!(cs[0].username, "bob1");
    assert_eq!(cs[1].id, id2);
    assert_eq!(delete_comment(&mut s, &session("alice"), id1), Err(ActionError::Store(StoreError::NotFound)));
    assert_eq!(delete_comment(&mut s, &None, id1), Err(ActionError::Unauthenticated));
    assert_eq!(delete_comment(&mut s, &session("bob1"), id1), Ok(()));
    assert_eq!(s.comments_of(&slug).len(), 1);
    assert_eq!(delete_comment(&mut s, &session("bob1"), id1), Err(ActionError::Store(StoreError::NotFound)));
}

#[test]
fn deleting_an_article_cascades() {
    let mut s = store();
    sign_up(&mut s, "alice", "a@x.com");
    sign_up(&mut s, "bob1", "b@x.com");
    let slug = write(&mut s, "alice", "Hello World", "t1", NOW);
    assert_eq!(fav_action(&mut s, &session("bob1"), &slug), Ok(true));
    post_comment(&mut s, &session("bob1"), &slug, "nice", NOW).unwrap();
    assert_eq!(delete_article(&mut s, &session("bob1"), &slug), Err(ActionError::Store(StoreError::NotFound)));
    assert_eq!(delete_article(&mut s, &None, &slug), Err(ActionError::Unauthenticated));
    assert_eq!(delete_article(&mut s, &session("alice"), &slug), Ok(()));
    assert!(s.article(&slug, &None).is_none());
    assert!(get_article(&s, &slug, &None).is_none());
    assert!(s.comments_of(&slug).is_empty());
    assert!(s.all_tags().is_empty());
    let again = write(&mut s, "alice", "Hello World", "", NOW + 1);
    assert_eq!(s.article(&again, &None).unwrap().favorites_count, 0);
}

#[test]
fn profile_lists() {
    let mut s = store();
    sign_up(&mut s, "alice", "a@x.com");
    sign_up(&mut s, "carol", "c@x.com");
    write(&mut s, "alice", "Alice One", "", NOW);
    let c1 = write(&mut s, "carol", "Carol One", "", NOW + 1);
    write(&mut s, "alice", "Alice Two", "", NOW + 2);
    let own = s.profile_articles("alice", false, &None);
    let slugs: Vec<&str> = own.iter().map(|a| a.slug.as_str()).collect();
    assert_eq!(slugs, vec!["alice-two", "alice-one"]);
    assert!(s.profile_articles("alice", true, &None).is_empty());
    fav_action(&mut s, &session("alice"), &c1).unwrap();
    let favs = s.profile_articles("alice", true, &session("alice"));
    assert_eq!(favs.len(), 1);
    assert!(favs[0].fav);
}

#[test]
fn get_article_with_logged_user() {
    let mut s = store();
    sign_up(&mut s, "alice", "a@x.com");
    let slug = write(&mut s, "alice", "Hello World", "", NOW);
    let r = get_article(&s, &slug, &session("alice")).unwrap();
    assert_eq!(r.article.slug, slug);
    assert_eq!(r.logged_user.unwrap().username(), "alice");
    assert!(get_article(&s, &slug, &None).unwrap().logged_user.is_none());
}

#[test]
fn settings_update_flow() {
    let mut s = store();
    sign_up(&mut s, "alice", "a@x.com");
    sign_up(&mut s, "bob1", "b@x.com");
    let r = settings_update(&mut s, &None, String::new(), String::new(), "a@x.com".into(), String::new(), String::new());
    assert!(matches!(r, Err(ActionError::Unauthenticated)));
    let r = settings_update(&mut s, &session("alice"), String::new(), String::new(), "a@x.com".into(), "newpass".into(), "other".into());
    assert!(matches!(r, Ok(SettingsUpdateError::PasswordsNotMatch)));
    let r = settings_update(&mut s, &session("alice"), String::new(), "short".into(), "a@x.com".into(), String::new(), String::new());
    assert!(matches!(r, Ok(SettingsUpdateError::ValidationError(m)) if m == "bio too short, at least 10 characters"));
    let r = settings_update(&mut s, &session("alice"), String::new(), String::new(), "b@x.com".into(), String::new(), String::new());
    assert!(matches!(r, Err(ActionError::Store(StoreError::DuplicateEmail))));
    let r = settings_update(&mut s, &session("alice"), "http://img".into(), "a long enough bio".into(), "new@x.com".into(), "newpass".into(), "newpass".into());
    assert!(matches!(r, Ok(SettingsUpdateError::Successful)));
    let u = s.get_user("alice").unwrap();
    assert_eq!(u.email(), "new@x.com");
    assert_eq!(u.bio(), Some("a long enough bio".to_string()));
    assert_eq!(u.image(), Some("http://img".to_string()));
    assert_eq!(login_action(&s, "alice", "newpass", SECRET, NOW).0, LoginMessages::Successful);
    assert_eq!(login_action(&s, "alice", "secret1", SECRET, NOW).0, LoginMessages::Unsuccessful);
}

#[test]
fn password_reset_flow() {
    let mut s = store();
    sign_up(&mut s, "alice", "a@x.com");
    let (m, t) = reset_password_1(&s, "nobody@x.com", SECRET, NOW);
    assert_eq!(m, "Check your email");
    assert!(t.is_none());
    let (m, t) = reset_password_1(&s, "a@x.com", SECRET, NOW);
    assert_eq!(m, "Check your email");
    let token = t.unwrap();
    assert!(!validate_reset("abcd", "abce"));
    assert!(validate_reset("abcd", "abcd"));
    let failed = "Something went wrong, try again later";
    assert_eq!(reset_password_2(&mut s, &token, "newpass".into(), "other", SECRET, NOW), failed);
    assert_eq!(reset_password_2(&mut s, "bad", "newpass".into(), "newpass", SECRET, NOW), failed);
    assert_eq!(reset_password_2(&mut s, &token, "newpass".into(), "newpass", SECRET, NOW + 3_601), failed);
    assert_eq!(
        reset_password_2(&mut s, &token, "abc".into(), "abc", SECRET, NOW),
        "You need to provide a stronger password"
    );
    assert_eq!(
        reset_password_2(&mut s, &token, "newpass".into(), "newpass", SECRET, NOW + 10),
        "Password successfully reset, please, proceed to login"
    );
    assert_eq!(login_action(&s, "alice", "newpass", SECRET, NOW).0, LoginMessages::Successful);
    let session_token = conduit::auth::token::issue("alice", SECRET, NOW);
    assert_eq!(
        reset_password_2(&mut s, &session_token, "x1234".into(), "x1234", SECRET, NOW),
        failed
    );
}

#[test]
fn store_errors_for_users() {
    let mut s = store();
    sign_up(&mut s, "alice", "a@x.com");
    let u = validate_signup("carol".into(), "c@x.com".into(), "secret1".into()).unwrap();
    assert_eq!(s.update_user(&u), Err(StoreError::NotFound));
    assert_eq!(s.insert_user(&u), Ok(()));
    assert_eq!(s.insert_user(&u), Err(StoreError::DuplicateUser));
    assert!(s.get_user_by_email("c@x.com").is_some());
    assert!(s.get_user_by_email("z@x.com").is_none());
    assert!(s.check_login("carol", "secret1"));
}

#[test]
fn duplicate_slug_is_refused() {
    let mut s = store();
    sign_up(&mut s, "alice", "a@x.com");
    write(&mut s, "alice", "Same Title", "", NOW);
    let upd = validate_article("Same Title".into(), "desc".into(), "body long enough".into(), String::new()).unwrap();
    assert_eq!(s.save_article("alice", "", &upd, NOW), Err(StoreError::DuplicateSlug));
    assert_eq!(s.save_article("nobody", "", &upd, NOW), Err(StoreError::NotFound));
}

#[test]
fn editor_creates_hello_world() {
    let mut s = store();
    sign_up(&mut s, "alice", "a@x.com");
    let r = editor_action(
        &mut s,
        &session("alice"),
        "Hello World".into(),
        "about greetings".into(),
        "a body long enough".into(),
        "x x y".into(),
        String::new(),
        NOW,
    );
    assert!(matches!(r, EditorResponse::Successful(slug) if slug == "hello-world"));
    let a = s.article("hello-world", &None).unwrap();
    assert_eq!(a.title, "Hello World");
    assert_eq!(a.author.username, "alice");
    assert_eq!(a.tag_list, vec!["x", "y"]);
}

#[test]
fn reset_keeps_profile() {
    let mut s = store();
    sign_up(&mut s, "alice", "a@x.com");
    let r = settings_update(&mut s, &session("alice"), "http://img".into(), "a long enough bio".into(), "a@x.com".into(), String::new(), String::new());
    assert!(matches!(r, Ok(SettingsUpdateError::Successful)));
    let token = reset_password_1(&s, "a@x.com", SECRET, NOW).1.unwrap();
    reset_password_2(&mut s, &token, "newpass".into(), "newpass", SECRET, NOW);
    let u = s.get_user("alice").unwrap();
    assert_eq!(u.email(), "a@x.com");
    assert_eq!(u.bio(), Some("a long enough bio".to_string()));
    assert_eq!(u.image(), Some("http://img".to_string()));
}

#[test]
fn settings_keep_own_email() {
    let mut s = store();
    sign_up(&mut s, "alice", "a@x.com");
    let r = settings_update(&mut s, &session("alice"), String::new(), String::new(), "a@x.com".into(), String::new(), String::new());
    assert!(matches!(r, Ok(SettingsUpdateError::Successful)));
}
