use conduit::editor::{parse_tags, slugify, validate_article};
use conduit::models::{Article, ArticlePreview, Pagination, User, UserPreview};

#[test]
fn username_needs_four_characters() {
    let e = User::new().set_username("abc".to_string()).unwrap_err();
    assert_eq!(e, "Username abc is too short, at least 4 characters");
    let u = User::new().set_username("abcd".to_string()).unwrap();
    assert_eq!(u.username(), "abcd");
}

#[test]
fn username_counts_characters() {
    assert!(User::new().set_username("äöü".to_string()).is_err());
    assert!(User::new().set_username("äöüß".to_string()).is_ok());
}

#[test]
fn password_needs_four_characters() {
    let e = User::new().set_password("123".to_string()).unwrap_err();
    assert_eq!(e, "You need to provide a stronger password");
    let u = User::new().set_password("1234".to_string()).unwrap();
    assert_eq!(u.password(), Some("1234".to_string()));
}

#[test]
fn email_shape() {
    assert!(User::validate_email("a@x.com"));
    assert!(User::validate_email("first.last-1@mail.example.org"));
    assert!(!User::validate_email("a@x"));
    assert!(!User::validate_email("no-at-sign.com"));
    assert!(!User::validate_email(""));
    let e = User::new().set_email("bad".to_string()).unwrap_err();
    assert_eq!(e, "The email bad is invalid, provide a correct one");
    assert_eq!(User::new().set_email("a@x.com".to_string()).unwrap().email(), "a@x.com");
}

#[test]
fn bio_rules() {
    let u = User::new().set_bio(String::new()).unwrap();
    assert_eq!(u.bio(), None);
    let e = User::new().set_bio("too short".to_string()).unwrap_err();
    assert_eq!(e, "bio too short, at least 10 characters");
    let u = User::new().set_bio("long enough".to_string()).unwrap();
    assert_eq!(u.bio(), Some("long enough".to_string()));
}

#[test]
fn image_rules() {
    assert_eq!(User::new().set_image(String::new()).unwrap().image(), None);
    assert_eq!(User::new().set_image("ftp://x".to_string()).unwrap_err(), "Invalid image!");
    assert_eq!(
        User::new().set_image("https://x/y.png".to_string()).unwrap().image(),
        Some("https://x/y.png".to_string())
    );
}

#[test]
fn user_default_is_empty() {
    let u = User::default();
    assert_eq!(u.username(), "");
    assert_eq!(u.email(), "");
    assert_eq!(u.bio(), None);
    assert_eq!(u.image(), None);
    assert_eq!(u.password(), None);
}

#[test]
fn slug_from_title() {
    assert_eq!(slugify("Hello World"), "hello-world");
    assert_eq!(slugify("Rust & Verus!"), "rust--verus");
    assert_eq!(slugify("ÄBC-12 x"), "bc-12-x");
    assert_eq!(slugify(""), "");
}

#[test]
fn tags_are_distinct_words() {
    assert_eq!(parse_tags("  rust  verus rust\tweb\n"), vec!["rust", "verus", "web"]);
    assert!(parse_tags("").is_empty());
    assert!(parse_tags("   ").is_empty());
    assert_eq!(parse_tags("one"), vec!["one"]);
}

#[test]
fn article_validation_order() {
    let e = validate_article("abc".into(), "abc".into(), "short".into(), String::new()).unwrap_err();
    assert_eq!(e, "You need to provide a title with at least 4 characters");
    let e = validate_article("abcd".into(), "abc".into(), "short".into(), String::new()).unwrap_err();
    assert_eq!(e, "You need to provide a description with at least 4 characters");
    let e = validate_article("abcd".into(), "abcd".into(), "short".into(), String::new()).unwrap_err();
    assert_eq!(e, "You need to provide a body with at least 10 characters");
    let a = validate_article("abcd".into(), "abcd".into(), "long enough".into(), "b a b".into())
        .unwrap();
    assert_eq!(a.title, "abcd");
    assert_eq!(a.tag_list, vec!["b", "a"]);
}

#[test]
fn pagination_defaults() {
    let p = Pagination::default();
    assert_eq!(p.get_tag(), "");
    assert!(!p.get_my_feed());
    assert_eq!(p.get_page(), 0);
    assert_eq!(p.get_amount(), 10);
    let q = Pagination::from_parts(None, None, None, None);
    assert_eq!(q.get_tag(), "");
    assert_eq!(q.get_amount(), 10);
    assert_eq!(q.get_page(), 0);
}

#[test]
fn pagination_link() {
    let p = Pagination::new();
    assert_eq!(p.to_string(), "/?tag=&my_feed=false&page=0&amount=10");
    let p = p.set_tag("rust").set_my_feed(true).set_amount(25).next_page().next_page();
    assert_eq!(p.to_string(), "/?tag=rust&my_feed=true&page=2&amount=25");
    let p = Pagination::from_parts(None, None, Some(4_294_967_295), Some(0));
    assert_eq!(p.to_string(), "/?tag=&my_feed=false&page=4294967295&amount=0");
}

#[test]
fn pagination_page_moves_saturate() {
    let p = Pagination::new().previous_page();
    assert_eq!(p.get_page(), 0);
    let p = Pagination::from_parts(None, None, Some(u32::MAX), None).next_page();
    assert_eq!(p.get_page(), u32::MAX);
    let p = Pagination::new().next_page().next_page().previous_page();
    assert_eq!(p.get_page(), 1);
    assert_eq!(p.reset_page().get_page(), 0);
}

#[test]
fn article_preview_copies_fields() {
    let a = Article {
        slug: "s".into(),
        title: "t".into(),
        body: None,
        description: "d".into(),
        created_at: 5,
        favorites_count: 3,
        tag_list: vec!["x".into(), "y".into()],
        author: UserPreview { username: "u".into(), image: None, following: true },
        fav: true,
    };
    let p = ArticlePreview::of(&a);
    assert_eq!(p.slug, "s");
    assert_eq!(p.favorites_count, Some(3));
    assert_eq!(p.tags, vec!["x", "y"]);
    assert!(p.fav);
    assert!(p.author.following);
}

#[test]
fn pagination_link_encodes_tag() {
    let p = Pagination::new().set_tag("a&b c");
    assert_eq!(p.to_string(), "/?tag=a%26b%20c&my_feed=false&page=0&amount=10");
    let p = Pagination::new().set_tag("é#+%-_.~");
    assert_eq!(p.to_string(), "/?tag=%C3%A9%23%2B%25-_.~&my_feed=false&page=0&amount=10");
    assert_eq!(conduit::models::pagination::percent_encode("rust"), "rust");
}
