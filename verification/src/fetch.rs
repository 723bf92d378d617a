//! Where the records come from: the addresses that are requested, and what
//! is made of a response.

use crate::data::{Comment, CommentView, Story, StoryView, comment_views, story_views};
use crate::decode::{comment_root_of, decode_comment_root, decode_stories, story_views_of};
use crate::error::{DecodeError, Error};
use crate::json::Json;
use crate::text::starts_with;
use vstd::prelude::*;

verus! {

/// The host that is asked where none is named.
pub const DEFAULT_HOST: &'static str = "lobste.rs";

/// What a host that names a scheme begins with.
pub const SCHEME_MARK: &'static str = "http";

/// What is put before a host that names no scheme.
pub const SCHEME: &'static str = "https://";

/// The path of the list of the hottest stories, relative to the host.
pub const STORIES_PATH: &'static str = "hottest.json";

/// What follows a story's permalink in the address of its thread.
pub const THREAD_SUFFIX: &'static str = ".json";

/// The text of the URL that `url::Url::join` gives for `reference` on the
/// URL that `url::Url::parse` reads from `base`; `None` where either refuses.
pub uninterp spec fn joined_url(base: Seq<char>, reference: Seq<char>) -> Option<Seq<char>>;

/// Parses `base` with `url::Url::parse`, resolves `reference` against it
/// with `Url::join` and hands back the text of the outcome, which
/// `Url::as_str` gives. Nothing is claimed of the result beyond its name.
#[verifier::external_body]
fn join_url(base: &str, reference: &str) -> (out: Option<String>)
    ensures
        match joined_url(base@, reference@) {
            Some(text) => out matches Some(s) && s@ == text,
            None => out is None,
        },
{
    match url::Url::parse(base) {
        Ok(parsed) => match parsed.join(reference) {
            Ok(joined) => Some(String::from(joined.as_str())),
            Err(_) => None,
        },
        Err(_) => None,
    }
}

/// The base address for `host`: `host` itself where it names a scheme,
/// else `host` behind `https://`.
pub open spec fn base_url_text(host: Seq<char>) -> Seq<char> {
    if SCHEME_MARK@.is_prefix_of(host) {
        host
    } else {
        SCHEME@ + host
    }
}

/// Makes a base address of a host that was given with or without a scheme:
/// a host that does not begin with `http` is put behind `https://`.
pub fn base_url(host: &str) -> (out: String)
    ensures
        out@ == base_url_text(host@),
{
    if starts_with(host, SCHEME_MARK) {
        String::from_str(host)
    } else {
        let mut out = String::from_str(SCHEME);
        out.append(host);
        out
    }
}

/// The address of the story list on `host`.
pub open spec fn stories_url_text(host: Seq<char>) -> Option<Seq<char>> {
    joined_url(base_url_text(host), STORIES_PATH@)
}

/// The address of the list of the hottest stories on `host`, which may be
/// given with or without a scheme. `None` where `host` makes no URL.
pub fn stories_url(host: &str) -> (out: Option<String>)
    ensures
        match stories_url_text(host@) {
            Some(text) => out matches Some(s) && s@ == text,
            None => out is None,
        },
{
    let base = base_url(host);
    join_url(base.as_str(), STORIES_PATH)
}

/// The address of the thread of the story at `permalink`: the permalink as
/// it stands, then `.json`.
pub fn comments_url(permalink: &str) -> (out: String)
    ensures
        out@ == permalink@ + THREAD_SUFFIX@,
{
    let mut out = String::from_str(permalink);
    out.append(THREAD_SUFFIX);
    out
}

/// How a request ended.
#[derive(Debug, PartialEq, Eq)]
pub enum Response {
    /// No body arrived; the text is the transport's own message.
    Failed(String),
    /// A body arrived that is not JSON.
    Malformed,
    /// The body that arrived, parsed.
    Document(Json),
}

/// The stories that a response to the request for the list holds.
pub open spec fn fetched_stories(response: Response) -> Result<Seq<StoryView>, Error> {
    match response {
        Response::Failed(message) => Err(Error::Transport(message)),
        Response::Malformed => Err(Error::Decode(DecodeError::Syntax)),
        Response::Document(json) => match story_views_of(json) {
            Ok(views) => Ok(views),
            Err(e) => Err(Error::Decode(e)),
        },
    }
}

/// The comments that a response to the request for a thread holds.
pub open spec fn fetched_comments(response: Response) -> Result<Seq<CommentView>, Error> {
    match response {
        Response::Failed(message) => Err(Error::Transport(message)),
        Response::Malformed => Err(Error::Decode(DecodeError::Syntax)),
        Response::Document(json) => match comment_root_of(json) {
            Ok(views) => Ok(views),
            Err(e) => Err(Error::Decode(e)),
        },
    }
}

/// Makes the list of stories of the response to the request for it. A
/// failed request gives the transport's error, a body of the wrong shape a
/// decoding error; neither is changed on the way. The stories stand in the
/// order of the response, and none has comments unless the response gave
/// it some.
pub fn fetch_stories(response: &Response) -> (out: Result<Vec<Story>, Error>)
    ensures
        match fetched_stories(*response) {
            Ok(views) => out matches Ok(stories) && story_views(stories@) == views,
            Err(e) => out == Err::<Vec<Story>, Error>(e),
        },
        out matches Ok(stories) ==> {
            &&& *response matches Response::Document(Json::List(items))
            &&& stories@.len() == items@.len()
            &&& forall|i: int|
                0 <= i < items@.len() && items@[i].field("comments"@) is None ==> (
                #[trigger] stories@[i]).comments@.len() == 0
        },
{
    match response {
        Response::Failed(message) => Err(Error::Transport(message.clone())),
        Response::Malformed => Err(Error::Decode(DecodeError::Syntax)),
        Response::Document(json) => match decode_stories(json) {
            Ok(stories) => Ok(stories),
            Err(e) => Err(Error::Decode(e)),
        },
    }
}

/// Makes the comments of the response to the request for a thread, in the
/// order of the response. A failed request gives the transport's error, a
/// body of the wrong shape a decoding error.
pub fn fetch_comments(response: &Response) -> (out: Result<Vec<Comment>, Error>)
    ensures
        match fetched_comments(*response) {
            Ok(views) => out matches Ok(comments) && comment_views(comments@) == views,
            Err(e) => out == Err::<Vec<Comment>, Error>(e),
        },
{
    match response {
        Response::Failed(message) => Err(Error::Transport(message.clone())),
        Response::Malformed => Err(Error::Decode(DecodeError::Syntax)),
        Response::Document(json) => match decode_comment_root(json) {
            Ok(root) => Ok(root.comments),
            Err(e) => Err(Error::Decode(e)),
        },
    }
}

impl Story {
    /// Attaches to this story the comments of the response to the request
    /// for its thread. On success the story has exactly these comments, in
    /// the order of the response, and is otherwise as before; on failure it
    /// is left as it was and the error is handed on.
    pub fn fetch_comments(&mut self, response: &Response) -> (out: Result<(), Error>)
        ensures
            match fetched_comments(*response) {
                Ok(views) => {
                    &&& out is Ok
                    &&& comment_views(final(self).comments@) == views
                    &&& *final(self) == Story { comments: final(self).comments, ..*old(self) }
                },
                Err(e) => out == Err::<(), Error>(e) && *final(self) == *old(self),
            },
    {
        match fetch_comments(response) {
            Ok(comments) => {
                self.comments = comments;
                Ok(())
            },
            Err(e) => Err(e),
        }
    }
}

} // verus!
