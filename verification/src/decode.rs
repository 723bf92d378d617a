//! From a JSON document to records: which field is read under which name,
//! what may be absent, and what is refused.

use crate::data::{
    Comment, CommentRoot, CommentView, Date, Story, StoryView, User, UserView, comment_views,
    optional_text, story_views, texts,
};
use crate::error::DecodeError;
use crate::json::{Json, find, lemma_lookup_passes_over, lookup};
use vstd::prelude::*;

verus! {

/// The seconds and nanoseconds since the epoch of the time that `chrono`
/// reads from `text`, which is to be written as RFC 3339 asks; `None` where
/// `chrono` refuses `text`.
pub uninterp spec fn parsed_date(text: Seq<char>) -> Option<(i64, u32)>;

/// Parses `text` as `chrono::DateTime<chrono::Utc>` through `str::parse`, as
/// `chrono` itself does when it deserializes such a value, and takes the
/// outcome apart with `DateTime::timestamp` and
/// `DateTime::timestamp_subsec_nanos`. Nothing is claimed of the result
/// beyond its name.
#[verifier::external_body]
fn parse_date(text: &str) -> (out: Option<(i64, u32)>)
    ensures
        out == parsed_date(text@),
{
    match text.parse::<chrono::DateTime<chrono::Utc>>() {
        Ok(date) => Some((date.timestamp(), date.timestamp_subsec_nanos())),
        Err(_) => None,
    }
}

/// A required text field.
pub open spec fn text_of(value: Option<Json>) -> Result<Seq<char>, DecodeError> {
    match value {
        None => Err(DecodeError::Missing),
        Some(Json::Text(text)) => Ok(text@),
        Some(_) => Err(DecodeError::Mismatch),
    }
}

/// A text field that may be absent or null.
pub open spec fn optional_text_of(value: Option<Json>) -> Result<Option<Seq<char>>, DecodeError> {
    match value {
        None => Ok(None),
        Some(Json::Null) => Ok(None),
        Some(Json::Text(text)) => Ok(Some(text@)),
        Some(_) => Err(DecodeError::Mismatch),
    }
}

/// A required whole number.
pub open spec fn int_of(value: Option<Json>) -> Result<i64, DecodeError> {
    match value {
        None => Err(DecodeError::Missing),
        Some(Json::Int(n)) => Ok(n),
        Some(_) => Err(DecodeError::Mismatch),
    }
}

/// A required whole number from -128 to 127.
pub open spec fn i8_of(value: Option<Json>) -> Result<i8, DecodeError> {
    match int_of(value) {
        Ok(n) => if i8::MIN <= n <= i8::MAX {
            Ok(n as i8)
        } else {
            Err(DecodeError::Range)
        },
        Err(e) => Err(e),
    }
}

/// A required whole number from 0 to 255.
pub open spec fn u8_of(value: Option<Json>) -> Result<u8, DecodeError> {
    match int_of(value) {
        Ok(n) => if 0 <= n <= u8::MAX {
            Ok(n as u8)
        } else {
            Err(DecodeError::Range)
        },
        Err(e) => Err(e),
    }
}

/// A required date, written as text.
pub open spec fn date_of(value: Option<Json>) -> Result<Date, DecodeError> {
    match text_of(value) {
        Ok(text) => match parsed_date(text) {
            Some((seconds, nanos)) => Ok(Date { seconds, nanos }),
            None => Err(DecodeError::Date),
        },
        Err(e) => Err(e),
    }
}

/// The elements of `items`, each decoded by `one`, in the order of `items`.
/// Where some elements are refused, the error is that of the first of them.
pub open spec fn all_of<V>(items: Seq<Json>, one: spec_fn(Json) -> Result<V, DecodeError>)
    -> Result<Seq<V>, DecodeError>
    decreases items.len(),
{
    if items.len() == 0 {
        Ok(Seq::empty())
    } else {
        match all_of(items.drop_last(), one) {
            Ok(before) => match one(items.last()) {
                Ok(value) => Ok(before.push(value)),
                Err(e) => Err(e),
            },
            Err(e) => Err(e),
        }
    }
}

/// A required list whose elements are decoded by `one`.
pub open spec fn list_of<V>(value: Option<Json>, one: spec_fn(Json) -> Result<V, DecodeError>)
    -> Result<Seq<V>, DecodeError> {
    match value {
        None => Err(DecodeError::Missing),
        Some(Json::List(items)) => all_of(items@, one),
        Some(_) => Err(DecodeError::Mismatch),
    }
}

/// Reads an element as a text.
pub open spec fn a_text() -> spec_fn(Json) -> Result<Seq<char>, DecodeError> {
    |json: Json| text_of(Some(json))
}

/// Reads an element as a comment.
pub open spec fn a_comment() -> spec_fn(Json) -> Result<CommentView, DecodeError> {
    |json: Json| comment_view_of(json)
}

/// Reads an element as a story.
pub open spec fn a_story() -> spec_fn(Json) -> Result<StoryView, DecodeError> {
    |json: Json| story_view_of(json)
}

/// A user: an object whose `username` is the name.
pub open spec fn user_view_of(json: Json) -> Result<UserView, DecodeError> {
    match json {
        Json::Object(entries) => match text_of(lookup(entries@, "username"@)) {
            Ok(name) => Ok(UserView { name }),
            Err(e) => Err(e),
        },
        _ => Err(DecodeError::Mismatch),
    }
}

/// A required user.
pub open spec fn user_of(value: Option<Json>) -> Result<UserView, DecodeError> {
    match value {
        None => Err(DecodeError::Missing),
        Some(json) => user_view_of(json),
    }
}

/// A comment: an object read field by field, `comment` as the text,
/// `created_at` as the date, `score`, `indent_level` as the indentation and
/// `commenting_user` as the user. The first field in this order that is
/// absent or of the wrong kind gives the error; other fields are passed over.
pub open spec fn comment_view_of(json: Json) -> Result<CommentView, DecodeError> {
    match json {
        Json::Object(entries) => {
            let fields = entries@;
            let text = text_of(lookup(fields, "comment"@));
            let date = date_of(lookup(fields, "created_at"@));
            let score = i8_of(lookup(fields, "score"@));
            let indentation = u8_of(lookup(fields, "indent_level"@));
            let user = user_of(lookup(fields, "commenting_user"@));
            if text is Err {
                Err(text->Err_0)
            } else if date is Err {
                Err(date->Err_0)
            } else if score is Err {
                Err(score->Err_0)
            } else if indentation is Err {
                Err(indentation->Err_0)
            } else if user is Err {
                Err(user->Err_0)
            } else {
                Ok(
                    CommentView {
                        text: text->Ok_0,
                        date: date->Ok_0,
                        score: score->Ok_0,
                        indentation: indentation->Ok_0,
                        user: user->Ok_0,
                    },
                )
            }
        },
        _ => Err(DecodeError::Mismatch),
    }
}

/// The comments of a story: none where the field is absent, else a list of
/// comments.
pub open spec fn comments_of(value: Option<Json>) -> Result<Seq<CommentView>, DecodeError> {
    match value {
        None => Ok(Seq::empty()),
        Some(_) => list_of(value, a_comment()),
    }
}

/// A story: an object read field by field, `title`, `created_at` as the
/// date, `score`, `comment_count` as the count, `short_id` as the
/// identifier, `short_id_url` as the permalink, `url`, `tags`,
/// `submitter_user` as the user, `comments` and `description` as the text.
/// `url` may be absent or null, `comments` may be absent. The first field in
/// this order that is refused gives the error; other fields are passed over.
pub open spec fn story_view_of(json: Json) -> Result<StoryView, DecodeError> {
    match json {
        Json::Object(entries) => {
            let fields = entries@;
            let title = text_of(lookup(fields, "title"@));
            let date = date_of(lookup(fields, "created_at"@));
            let score = i8_of(lookup(fields, "score"@));
            let count = u8_of(lookup(fields, "comment_count"@));
            let id = text_of(lookup(fields, "short_id"@));
            let permalink = text_of(lookup(fields, "short_id_url"@));
            let url = optional_text_of(lookup(fields, "url"@));
            let tags = list_of(lookup(fields, "tags"@), a_text());
            let user = user_of(lookup(fields, "submitter_user"@));
            let comments = comments_of(lookup(fields, "comments"@));
            let text = text_of(lookup(fields, "description"@));
            if title is Err {
                Err(title->Err_0)
            } else if date is Err {
                Err(date->Err_0)
            } else if score is Err {
                Err(score->Err_0)
            } else if count is Err {
                Err(count->Err_0)
            } else if id is Err {
                Err(id->Err_0)
            } else if permalink is Err {
                Err(permalink->Err_0)
            } else if url is Err {
                Err(url->Err_0)
            } else if tags is Err {
                Err(tags->Err_0)
            } else if user is Err {
                Err(user->Err_0)
            } else if comments is Err {
                Err(comments->Err_0)
            } else if text is Err {
                Err(text->Err_0)
            } else {
                Ok(
                    StoryView {
                        title: title->Ok_0,
                        date: date->Ok_0,
                        score: score->Ok_0,
                        count: count->Ok_0,
                        id: id->Ok_0,
                        permalink: permalink->Ok_0,
                        url: url->Ok_0,
                        tags: tags->Ok_0,
                        user: user->Ok_0,
                        comments: comments->Ok_0,
                        text: text->Ok_0,
                    },
                )
            }
        },
        _ => Err(DecodeError::Mismatch),
    }
}

/// The response to a request for the story list: a list of stories.
pub open spec fn story_views_of(json: Json) -> Result<Seq<StoryView>, DecodeError> {
    list_of(Some(json), a_story())
}

/// The response to a request for a thread: an object of which only the
/// field `comments`, a list of comments, is read.
pub open spec fn comment_root_of(json: Json) -> Result<Seq<CommentView>, DecodeError> {
    match json {
        Json::Object(entries) => list_of(lookup(entries@, "comments"@), a_comment()),
        _ => Err(DecodeError::Mismatch),
    }
}

/// Where the first elements of a list are refused, the list is refused with
/// the same error.
pub proof fn lemma_all_of_prefix<V>(
    items: Seq<Json>,
    one: spec_fn(Json) -> Result<V, DecodeError>,
    n: int,
)
    requires
        0 <= n <= items.len(),
        all_of(items.take(n), one) is Err,
    ensures
        all_of(items, one) == all_of(items.take(n), one),
    decreases items.len(),
{
    if n < items.len() {
        assert(items.drop_last().take(n) =~= items.take(n));
        lemma_all_of_prefix(items.drop_last(), one, n);
    } else {
        assert(items.take(n) =~= items);
    }
}

/// A list that is accepted has as many records as elements, and each record
/// is what its own element decodes to.
pub proof fn lemma_all_of_each<V>(items: Seq<Json>, one: spec_fn(Json) -> Result<V, DecodeError>)
    requires
        all_of(items, one) is Ok,
    ensures
        all_of(items, one)->Ok_0.len() == items.len(),
        forall|i: int|
            0 <= i < items.len() ==> one(#[trigger] items[i]) == Ok::<V, DecodeError>(
                all_of(items, one)->Ok_0[i],
            ),
    decreases items.len(),
{
    if items.len() > 0 {
        lemma_all_of_each(items.drop_last(), one);
        let before = all_of(items.drop_last(), one)->Ok_0;
        assert forall|i: int| 0 <= i < items.len() implies one(#[trigger] items[i]) == Ok::<
            V,
            DecodeError,
        >(all_of(items, one)->Ok_0[i]) by {
            if i < items.len() - 1 {
                assert(items.drop_last()[i] == items[i]);
            }
        }
    }
}

/// A story list that is accepted is a list, and it gives as many stories as
/// it has elements, each the story of its own element; a story whose element
/// has no `comments` has no comments.
pub proof fn lemma_story_list(json: Json)
    requires
        story_views_of(json) is Ok,
    ensures
        json matches Json::List(items) && ({
            let stories = story_views_of(json)->Ok_0;
            &&& stories.len() == items@.len()
            &&& forall|i: int|
                0 <= i < items@.len() ==> #[trigger] story_view_of(items@[i]) == Ok::<
                    StoryView,
                    DecodeError,
                >(stories[i])
            &&& forall|i: int|
                0 <= i < items@.len() && items@[i].field("comments"@) is None ==> (
                #[trigger] stories[i]).comments.len() == 0
        }),
{
    match json {
        Json::List(items) => {
            lemma_all_of_each(items@, a_story());
            let stories = story_views_of(json)->Ok_0;
            assert forall|i: int| 0 <= i < items@.len() implies #[trigger] story_view_of(items@[i])
                == Ok::<StoryView, DecodeError>(stories[i]) by {
                assert(a_story()(items@[i]) == story_view_of(items@[i]));
            }
            assert forall|i: int|
                0 <= i < items@.len() && items@[i].field("comments"@) is None implies (
            #[trigger] stories[i]).comments.len() == 0 by {
                assert(story_view_of(items@[i]) == Ok::<StoryView, DecodeError>(stories[i]));
            }
        },
        _ => {},
    }
}

/// Whether a story is read from a field called `name`.
pub open spec fn is_story_field(name: Seq<char>) -> bool {
    name == "title"@ || name == "created_at"@ || name == "score"@ || name == "comment_count"@
        || name == "short_id"@ || name == "short_id_url"@ || name == "url"@ || name == "tags"@
        || name == "submitter_user"@ || name == "comments"@ || name == "description"@
}

/// Whether a comment is read from a field called `name`.
pub open spec fn is_comment_field(name: Seq<char>) -> bool {
    name == "comment"@ || name == "created_at"@ || name == "score"@ || name == "indent_level"@
        || name == "commenting_user"@
}

/// A field that no story is read from changes nothing: the object with the
/// field added decodes as the object without it does.
pub proof fn lemma_story_passes_over(shorter: Json, longer: Json, extra: (String, Json))
    requires
        shorter matches Json::Object(fields) && longer matches Json::Object(more) && more@
            == fields@.push(extra),
        !is_story_field(extra.0@),
    ensures
        story_view_of(longer) == story_view_of(shorter),
{
    let fields = shorter->Object_0@;
    lemma_lookup_passes_over(fields, extra, "title"@);
    lemma_lookup_passes_over(fields, extra, "created_at"@);
    lemma_lookup_passes_over(fields, extra, "score"@);
    lemma_lookup_passes_over(fields, extra, "comment_count"@);
    lemma_lookup_passes_over(fields, extra, "short_id"@);
    lemma_lookup_passes_over(fields, extra, "short_id_url"@);
    lemma_lookup_passes_over(fields, extra, "url"@);
    lemma_lookup_passes_over(fields, extra, "tags"@);
    lemma_lookup_passes_over(fields, extra, "submitter_user"@);
    lemma_lookup_passes_over(fields, extra, "comments"@);
    lemma_lookup_passes_over(fields, extra, "description"@);
}

/// A field that no comment is read from changes nothing: the object with
/// the field added decodes as the object without it does.
pub proof fn lemma_comment_passes_over(shorter: Json, longer: Json, extra: (String, Json))
    requires
        shorter matches Json::Object(fields) && longer matches Json::Object(more) && more@
            == fields@.push(extra),
        !is_comment_field(extra.0@),
    ensures
        comment_view_of(longer) == comment_view_of(shorter),
{
    let fields = shorter->Object_0@;
    lemma_lookup_passes_over(fields, extra, "comment"@);
    lemma_lookup_passes_over(fields, extra, "created_at"@);
    lemma_lookup_passes_over(fields, extra, "score"@);
    lemma_lookup_passes_over(fields, extra, "indent_level"@);
    lemma_lookup_passes_over(fields, extra, "commenting_user"@);
}

/// Reads the required text field `key`.
fn text_field(entries: &Vec<(String, Json)>, key: &str) -> (out: Result<String, DecodeError>)
    ensures
        match text_of(lookup(entries@, key@)) {
            Ok(text) => out matches Ok(s) && s@ == text,
            Err(e) => out == Err::<String, DecodeError>(e),
        },
{
    match find(entries, key) {
        None => Err(DecodeError::Missing),
        Some(Json::Text(text)) => Ok(text.clone()),
        Some(_) => Err(DecodeError::Mismatch),
    }
}

/// Reads the text field `key`, which may be absent or null.
fn optional_text_field(entries: &Vec<(String, Json)>, key: &str) -> (out: Result<
    Option<String>,
    DecodeError,
>)
    ensures
        match optional_text_of(lookup(entries@, key@)) {
            Ok(text) => out matches Ok(s) && optional_text(s) == text,
            Err(e) => out == Err::<Option<String>, DecodeError>(e),
        },
{
    match find(entries, key) {
        None => Ok(None),
        Some(Json::Null) => Ok(None),
        Some(Json::Text(text)) => Ok(Some(text.clone())),
        Some(_) => Err(DecodeError::Mismatch),
    }
}

/// Reads the required whole number `key`.
fn int_field(entries: &Vec<(String, Json)>, key: &str) -> (out: Result<i64, DecodeError>)
    ensures
        out == int_of(lookup(entries@, key@)),
{
    match find(entries, key) {
        None => Err(DecodeError::Missing),
        Some(Json::Int(n)) => Ok(*n),
        Some(_) => Err(DecodeError::Mismatch),
    }
}

/// Reads the required number `key`, which must fit an `i8`.
fn i8_field(entries: &Vec<(String, Json)>, key: &str) -> (out: Result<i8, DecodeError>)
    ensures
        out == i8_of(lookup(entries@, key@)),
{
    match int_field(entries, key) {
        Ok(n) => if -128 <= n && n <= 127 {
            Ok(n as i8)
        } else {
            Err(DecodeError::Range)
        },
        Err(e) => Err(e),
    }
}

/// Reads the required number `key`, which must fit a `u8`.
fn u8_field(entries: &Vec<(String, Json)>, key: &str) -> (out: Result<u8, DecodeError>)
    ensures
        out == u8_of(lookup(entries@, key@)),
{
    match int_field(entries, key) {
        Ok(n) => if 0 <= n && n <= 255 {
            Ok(n as u8)
        } else {
            Err(DecodeError::Range)
        },
        Err(e) => Err(e),
    }
}

/// Reads the required date `key`.
fn date_field(entries: &Vec<(String, Json)>, key: &str) -> (out: Result<Date, DecodeError>)
    ensures
        out == date_of(lookup(entries@, key@)),
{
    match text_field(entries, key) {
        Ok(text) => match parse_date(text.as_str()) {
            Some((seconds, nanos)) => Ok(Date { seconds, nanos }),
            None => Err(DecodeError::Date),
        },
        Err(e) => Err(e),
    }
}

/// Decodes a user: an object whose `username` is the name. Anything but an
/// object is a mismatch; other fields are passed over.
pub fn decode_user(json: &Json) -> (out: Result<User, DecodeError>)
    ensures
        match user_view_of(*json) {
            Ok(view) => out matches Ok(user) && user@ == view,
            Err(e) => out == Err::<User, DecodeError>(e),
        },
{
    match json {
        Json::Object(entries) => match text_field(entries, "username") {
            Ok(name) => Ok(User { name }),
            Err(e) => Err(e),
        },
        _ => Err(DecodeError::Mismatch),
    }
}

/// Reads the required user `key`.
fn user_field(entries: &Vec<(String, Json)>, key: &str) -> (out: Result<User, DecodeError>)
    ensures
        match user_of(lookup(entries@, key@)) {
            Ok(view) => out matches Ok(user) && user@ == view,
            Err(e) => out == Err::<User, DecodeError>(e),
        },
{
    match find(entries, key) {
        None => Err(DecodeError::Missing),
        Some(json) => decode_user(json),
    }
}

/// Decodes a comment, reading `comment` as the text, `created_at` as the
/// date, `score`, `indent_level` as the indentation and `commenting_user` as
/// the user. All five are required.
pub fn decode_comment(json: &Json) -> (out: Result<Comment, DecodeError>)
    ensures
        match comment_view_of(*json) {
            Ok(view) => out matches Ok(comment) && comment@ == view,
            Err(e) => out == Err::<Comment, DecodeError>(e),
        },
{
    match json {
        Json::Object(entries) => {
            let text = text_field(entries, "comment")?;
            let date = date_field(entries, "created_at")?;
            let score = i8_field(entries, "score")?;
            let indentation = u8_field(entries, "indent_level")?;
            let user = user_field(entries, "commenting_user")?;
            Ok(Comment { text, date, score, indentation, user })
        },
        _ => Err(DecodeError::Mismatch),
    }
}

/// Decodes every element of `items` as a text.
fn decode_texts(items: &Vec<Json>) -> (out: Result<Vec<String>, DecodeError>)
    ensures
        match all_of(items@, a_text()) {
            Ok(views) => out matches Ok(found) && texts(found@) == views,
            Err(e) => out == Err::<Vec<String>, DecodeError>(e),
        },
{
    let mut found: Vec<String> = Vec::new();
    let mut i: usize = 0;
    while i < items.len()
        invariant
            i <= items.len(),
            all_of(items@.take(i as int), a_text()) matches Ok(views) && texts(found@) == views,
        decreases items.len() - i,
    {
        assert(items@.take(i + 1).drop_last() =~= items@.take(i as int));
        assert(items@.take(i + 1).last() == items@[i as int]);
        match &items[i] {
            Json::Text(text) => {
                let ghost before = texts(found@);
                found.push(text.clone());
                assert(texts(found@) =~= before.push(text@));
            },
            _ => {
                proof {
                    lemma_all_of_prefix(items@, a_text(), i + 1);
                }
                return Err(DecodeError::Mismatch);
            },
        }
        i += 1;
    }
    assert(items@.take(items.len() as int) =~= items@);
    Ok(found)
}

/// Decodes every element of `items` as a comment.
fn decode_comments(items: &Vec<Json>) -> (out: Result<Vec<Comment>, DecodeError>)
    ensures
        match all_of(items@, a_comment()) {
            Ok(views) => out matches Ok(found) && comment_views(found@) == views,
            Err(e) => out == Err::<Vec<Comment>, DecodeError>(e),
        },
{
    let mut found: Vec<Comment> = Vec::new();
    let mut i: usize = 0;
    while i < items.len()
        invariant
            i <= items.len(),
            all_of(items@.take(i as int), a_comment()) matches Ok(views) && comment_views(found@)
                == views,
        decreases items.len() - i,
    {
        assert(items@.take(i + 1).drop_last() =~= items@.take(i as int));
        assert(items@.take(i + 1).last() == items@[i as int]);
        match decode_comment(&items[i]) {
            Ok(comment) => {
                let ghost before = comment_views(found@);
                found.push(comment);
                assert(comment_views(found@) =~= before.push(comment@));
            },
            Err(e) => {
                proof {
                    lemma_all_of_prefix(items@, a_comment(), i + 1);
                }
                return Err(e);
            },
        }
        i += 1;
    }
    assert(items@.take(items.len() as int) =~= items@);
    Ok(found)
}

/// Reads the required list of texts `key`.
fn texts_field(entries: &Vec<(String, Json)>, key: &str) -> (out: Result<
    Vec<String>,
    DecodeError,
>)
    ensures
        match list_of(lookup(entries@, key@), a_text()) {
            Ok(views) => out matches Ok(found) && texts(found@) == views,
            Err(e) => out == Err::<Vec<String>, DecodeError>(e),
        },
{
    match find(entries, key) {
        None => Err(DecodeError::Missing),
        Some(Json::List(items)) => decode_texts(items),
        Some(_) => Err(DecodeError::Mismatch),
    }
}

/// Reads the list of comments `key`: empty where the field is absent.
fn comments_field(entries: &Vec<(String, Json)>, key: &str) -> (out: Result<
    Vec<Comment>,
    DecodeError,
>)
    ensures
        match comments_of(lookup(entries@, key@)) {
            Ok(views) => out matches Ok(found) && comment_views(found@) == views,
            Err(e) => out == Err::<Vec<Comment>, DecodeError>(e),
        },
        lookup(entries@, key@) is None ==> (out matches Ok(found) && found@.len() == 0),
{
    match find(entries, key) {
        None => Ok(Vec::new()),
        Some(Json::List(items)) => decode_comments(items),
        Some(_) => Err(DecodeError::Mismatch),
    }
}

/// Decodes a story, reading `created_at` as the date, `comment_count` as the
/// count, `short_id` as the identifier, `short_id_url` as the permalink,
/// `submitter_user` as the user and `description` as the text. `url` may be
/// absent or null. Where `comments` is absent the story has no comments.
pub fn decode_story(json: &Json) -> (out: Result<Story, DecodeError>)
    ensures
        match story_view_of(*json) {
            Ok(view) => out matches Ok(story) && story@ == view,
            Err(e) => out == Err::<Story, DecodeError>(e),
        },
        json.field("comments"@) is None && out is Ok ==> out->Ok_0.comments@.len() == 0,
{
    match json {
        Json::Object(entries) => {
            let title = text_field(entries, "title")?;
            let date = date_field(entries, "created_at")?;
            let score = i8_field(entries, "score")?;
            let count = u8_field(entries, "comment_count")?;
            let id = text_field(entries, "short_id")?;
            let permalink = text_field(entries, "short_id_url")?;
            let url = optional_text_field(entries, "url")?;
            let tags = texts_field(entries, "tags")?;
            let user = user_field(entries, "submitter_user")?;
            let comments = comments_field(entries, "comments")?;
            let text = text_field(entries, "description")?;
            Ok(
                Story {
                    title,
                    date,
                    score,
                    count,
                    id,
                    permalink,
                    url,
                    tags,
                    user,
                    comments,
                    text,
                },
            )
        },
        _ => Err(DecodeError::Mismatch),
    }
}

/// Decodes the response to a request for the story list: a list of stories.
/// It gives one story for each element, in the order of the list, and is
/// refused with the error of the first element that is no story. A story
/// whose element has no `comments` has no comments.
pub fn decode_stories(json: &Json) -> (out: Result<Vec<Story>, DecodeError>)
    ensures
        match story_views_of(*json) {
            Ok(views) => out matches Ok(stories) && story_views(stories@) == views,
            Err(e) => out == Err::<Vec<Story>, DecodeError>(e),
        },
        out matches Ok(stories) ==> {
            &&& *json matches Json::List(items)
            &&& stories@.len() == items@.len()
            &&& forall|i: int|
                0 <= i < items@.len() ==> #[trigger] story_view_of(items@[i]) == Ok::<
                    StoryView,
                    DecodeError,
                >(stories@[i]@)
            &&& forall|i: int|
                0 <= i < items@.len() && items@[i].field("comments"@) is None ==> (
                #[trigger] stories@[i]).comments@.len() == 0
        },
{
    match json {
        Json::List(items) => {
            let mut stories: Vec<Story> = Vec::new();
            let mut i: usize = 0;
            while i < items.len()
                invariant
                    i <= items.len(),
                    *json == Json::List(*items),
                    stories@.len() == i,
                    all_of(items@.take(i as int), a_story()) matches Ok(views) && story_views(
                        stories@,
                    ) == views,
                    forall|j: int|
                        0 <= j < i ==> #[trigger] story_view_of(items@[j]) == Ok::<
                            StoryView,
                            DecodeError,
                        >(stories@[j]@),
                    forall|j: int|
                        0 <= j < i && items@[j].field("comments"@) is None ==> (
                        #[trigger] stories@[j]).comments@.len() == 0,
                decreases items.len() - i,
            {
                assert(items@.take(i + 1).drop_last() =~= items@.take(i as int));
                assert(items@.take(i + 1).last() == items@[i as int]);
                match decode_story(&items[i]) {
                    Ok(story) => {
                        let ghost before = story_views(stories@);
                        stories.push(story);
                        assert(story_views(stories@) =~= before.push(story@));
                    },
                    Err(e) => {
                        proof {
                            lemma_all_of_prefix(items@, a_story(), i + 1);
                        }
                        return Err(e);
                    },
                }
                i += 1;
            }
            assert(items@.take(items.len() as int) =~= items@);
            Ok(stories)
        },
        _ => Err(DecodeError::Mismatch),
    }
}

/// Decodes the response to a request for a thread: an object whose
/// `comments` is a list of comments. They are kept in the order of the list;
/// every other field of the object is passed over.
pub fn decode_comment_root(json: &Json) -> (out: Result<CommentRoot, DecodeError>)
    ensures
        match comment_root_of(*json) {
            Ok(views) => out matches Ok(root) && root@ == views,
            Err(e) => out == Err::<CommentRoot, DecodeError>(e),
        },
{
    match json {
        Json::Object(entries) => match find(entries, "comments") {
            None => Err(DecodeError::Missing),
            Some(Json::List(items)) => match decode_comments(items) {
                Ok(comments) => Ok(CommentRoot { comments }),
                Err(e) => Err(e),
            },
            Some(_) => Err(DecodeError::Mismatch),
        },
        _ => Err(DecodeError::Mismatch),
    }
}

} // verus!
