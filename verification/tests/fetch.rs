use gophsters::data::{Comment, Date, Story, User};
use gophsters::error::{DecodeError, Error};
use gophsters::fetch::{
    base_url, comments_url, fetch_comments, fetch_stories, stories_url, Response,
};
use gophsters::json::Json;

fn text(s: &str) -> Json {
    Json::Text(String::from(s))
}

fn object(fields: Vec<(&str, Json)>) -> Json {
    Json::Object(fields.into_iter().map(|(key, value)| (String::from(key), value)).collect())
}

fn comment_json(body: &str, author: &str) -> Json {
    object(vec![
        ("created_at", text("2019-03-18T15:36:44Z")),
        ("score", Json::Int(1)),
        ("comment", text(body)),
        ("indent_level", Json::Int(1)),
        ("commenting_user", object(vec![("username", text(author))])),
    ])
}

fn thread_json(bodies: Vec<&str>) -> Json {
    object(vec![
        ("short_id", text("abc1")),
        ("title", text("ignored")),
        (
            "comments",
            Json::List(bodies.into_iter().map(|body| comment_json(body, "bob")).collect()),
        ),
    ])
}

fn story_json(id: &str) -> Json {
    object(vec![
        ("short_id", text(id)),
        ("short_id_url", text("https://lobste.rs/s/abc1")),
        ("created_at", text("2019-03-18T15:36:44Z")),
        ("title", text("Test")),
        ("url", Json::Null),
        ("score", Json::Int(5)),
        ("comment_count", Json::Int(0)),
        ("description", text("")),
        ("submitter_user", object(vec![("username", text("alice"))])),
        ("tags", Json::List(vec![text("x")])),
    ])
}

fn story(id: &str) -> Story {
    Story {
        title: String::from("Test"),
        date: Date { seconds: 1552923404, nanos: 0 },
        score: 5,
        count: 0,
        id: String::from(id),
        permalink: String::from("https://lobste.rs/s/abc1"),
        url: None,
        tags: vec![String::from("x")],
        user: User { name: String::from("alice") },
        comments: vec![],
        text: String::new(),
    }
}

fn comment(body: &str) -> Comment {
    Comment {
        text: String::from(body),
        date: Date { seconds: 1552923404, nanos: 0 },
        score: 1,
        indentation: 1,
        user: User { name: String::from("bob") },
    }
}

#[test]
fn base_url_puts_https_before_a_bare_host() {
    assert_eq!(base_url("lobste.rs"), "https://lobste.rs");
    assert_eq!(base_url("example.org:8080"), "https://example.org:8080");
    assert_eq!(base_url(""), "https://");
    assert_eq!(base_url("htt"), "https://htt");
}

#[test]
fn base_url_keeps_a_host_with_a_scheme() {
    assert_eq!(base_url("https://lobste.rs"), "https://lobste.rs");
    assert_eq!(base_url("http://localhost:3000/"), "http://localhost:3000/");
    assert_eq!(base_url("httpbin.org"), "httpbin.org");
}

#[test]
fn stories_url_is_hottest_json_on_the_host() {
    assert_eq!(stories_url("lobste.rs"), Some(String::from("https://lobste.rs/hottest.json")));
    assert_eq!(stories_url("lobste.rs/"), Some(String::from("https://lobste.rs/hottest.json")));
    assert_eq!(
        stories_url("https://lobste.rs"),
        Some(String::from("https://lobste.rs/hottest.json"))
    );
    assert_eq!(
        stories_url("http://localhost:3000"),
        Some(String::from("http://localhost:3000/hottest.json"))
    );
    assert_eq!(
        stories_url("https://example.org/mirror/"),
        Some(String::from("https://example.org/mirror/hottest.json"))
    );
}

#[test]
fn stories_url_of_no_host_is_none() {
    assert_eq!(stories_url(""), None);
    assert_eq!(stories_url("httpbin.org"), None);
    assert_eq!(stories_url("https://"), None);
}

#[test]
fn comments_url_is_the_permalink_and_json() {
    assert_eq!(comments_url("https://lobste.rs/s/abc1"), "https://lobste.rs/s/abc1.json");
    assert_eq!(comments_url(""), ".json");
}

#[test]
fn fetch_stories_decodes_the_document() {
    let response = Response::Document(Json::List(vec![story_json("a"), story_json("b")]));
    let stories = fetch_stories(&response).unwrap();
    assert_eq!(stories, vec![story("a"), story("b")]);
    assert!(stories.iter().all(|story| story.comments.is_empty()));
}

#[test]
fn fetch_stories_hands_a_transport_error_on() {
    let response = Response::Failed(String::from("connection refused"));
    assert_eq!(fetch_stories(&response), Err(Error::Transport(String::from("connection refused"))));
}

#[test]
fn fetch_stories_hands_a_decode_error_on() {
    assert_eq!(fetch_stories(&Response::Malformed), Err(Error::Decode(DecodeError::Syntax)));
    assert_eq!(
        fetch_stories(&Response::Document(Json::Null)),
        Err(Error::Decode(DecodeError::Mismatch))
    );
    assert_eq!(
        fetch_stories(&Response::Document(Json::List(vec![object(vec![])]))),
        Err(Error::Decode(DecodeError::Missing))
    );
}

#[test]
fn fetch_comments_decodes_the_envelope() {
    let response = Response::Document(thread_json(vec!["one", "two"]));
    assert_eq!(fetch_comments(&response), Ok(vec![comment("one"), comment("two")]));
}

#[test]
fn fetch_comments_hands_errors_on() {
    assert_eq!(
        fetch_comments(&Response::Failed(String::from("timeout"))),
        Err(Error::Transport(String::from("timeout")))
    );
    assert_eq!(fetch_comments(&Response::Malformed), Err(Error::Decode(DecodeError::Syntax)));
    assert_eq!(
        fetch_comments(&Response::Document(Json::List(vec![]))),
        Err(Error::Decode(DecodeError::Mismatch))
    );
}

#[test]
fn story_fetch_comments_attaches_them_to_that_story_only() {
    let mut stories = vec![story("a"), story("b"), story("c")];
    let response = Response::Document(thread_json(vec!["one", "two"]));
    assert_eq!(stories[1].fetch_comments(&response), Ok(()));
    assert_eq!(stories[0], story("a"));
    assert_eq!(stories[2], story("c"));
    let mut expected = story("b");
    expected.comments = vec![comment("one"), comment("two")];
    assert_eq!(stories[1], expected);
}

#[test]
fn story_fetch_comments_replaces_earlier_comments() {
    let mut one = story("a");
    assert_eq!(one.fetch_comments(&Response::Document(thread_json(vec!["one", "two"]))), Ok(()));
    assert_eq!(one.fetch_comments(&Response::Document(thread_json(vec!["three"]))), Ok(()));
    assert_eq!(one.comments, vec![comment("three")]);
}

#[test]
fn story_fetch_comments_leaves_the_story_on_failure() {
    let mut one = story("a");
    one.comments = vec![comment("kept")];
    let before = one.clone();
    assert_eq!(
        one.fetch_comments(&Response::Failed(String::from("reset"))),
        Err(Error::Transport(String::from("reset")))
    );
    assert_eq!(one, before);
    assert_eq!(one.fetch_comments(&Response::Malformed), Err(Error::Decode(DecodeError::Syntax)));
    assert_eq!(one, before);
}

#[test]
fn story_identifier_is_checked_for_file_names() {
    assert!(story("abc1").is_well_formed());
    assert!(story("A-b_9").is_well_formed());
    assert!(!story("").is_well_formed());
    assert!(!story("../etc").is_well_formed());
    assert!(!story("a b").is_well_formed());
    assert!(!story("caf\u{e9}").is_well_formed());
}

#[test]
fn stories_url_writes_the_host_as_urls_do() {
    assert_eq!(
        stories_url("B\u{fc}cher.example"),
        Some(String::from("https://xn--bcher-kva.example/hottest.json"))
    );
    assert_eq!(stories_url("LOBSTE.RS"), Some(String::from("https://lobste.rs/hottest.json")));
}
