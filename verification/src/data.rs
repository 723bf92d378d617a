//! The records of a run: stories, their comments and their authors.

use vstd::prelude::*;

verus! {

/// A point in time: whole seconds since 1970-01-01 00:00:00 UTC, and the
/// nanoseconds past that second.
#[derive(Debug, Clone, Copy, PartialEq, Eq, Structural)]
pub struct Date {
    pub seconds: i64,
    pub nanos: u32,
}

/// Who submitted a story or wrote a comment.
#[derive(Debug, Clone, PartialEq, Eq)]
pub struct User {
    pub name: String,
}

/// One comment of a thread. `indentation` is its nesting depth; a thread is a
/// flat sequence whose order is that of the response.
#[derive(Debug, Clone, PartialEq, Eq)]
pub struct Comment {
    pub text: String,
    pub date: Date,
    pub score: i8,
    pub indentation: u8,
    pub user: User,
}

/// One story of the list. `comments` is empty until the thread has been
/// fetched and attached.
#[derive(Debug, Clone, PartialEq, Eq)]
pub struct Story {
    pub title: String,
    pub date: Date,
    pub score: i8,
    pub count: u8,
    pub id: String,
    pub permalink: String,
    pub url: Option<String>,
    pub tags: Vec<String>,
    pub user: User,
    pub comments: Vec<Comment>,
    pub text: String,
}

/// The envelope of a thread response: of all its fields only the comments
/// are kept.
#[derive(Debug, Clone, PartialEq, Eq)]
pub struct CommentRoot {
    pub comments: Vec<Comment>,
}

/// A `User` as a mathematical value.
pub ghost struct UserView {
    pub name: Seq<char>,
}

/// A `Comment` as a mathematical value.
pub ghost struct CommentView {
    pub text: Seq<char>,
    pub date: Date,
    pub score: i8,
    pub indentation: u8,
    pub user: UserView,
}

/// A `Story` as a mathematical value.
pub ghost struct StoryView {
    pub title: Seq<char>,
    pub date: Date,
    pub score: i8,
    pub count: u8,
    pub id: Seq<char>,
    pub permalink: Seq<char>,
    pub url: Option<Seq<char>>,
    pub tags: Seq<Seq<char>>,
    pub user: UserView,
    pub comments: Seq<CommentView>,
    pub text: Seq<char>,
}

impl View for User {
    type V = UserView;

    open spec fn view(&self) -> UserView {
        UserView { name: self.name@ }
    }
}

impl View for Comment {
    type V = CommentView;

    open spec fn view(&self) -> CommentView {
        CommentView {
            text: self.text@,
            date: self.date,
            score: self.score,
            indentation: self.indentation,
            user: self.user@,
        }
    }
}

/// The texts of a sequence of strings.
pub open spec fn texts(strings: Seq<String>) -> Seq<Seq<char>> {
    Seq::new(strings.len(), |i: int| strings[i]@)
}

/// The values of a sequence of comments, in the same order.
pub open spec fn comment_views(comments: Seq<Comment>) -> Seq<CommentView> {
    Seq::new(comments.len(), |i: int| comments[i]@)
}

/// The values of a sequence of stories, in the same order.
pub open spec fn story_views(stories: Seq<Story>) -> Seq<StoryView> {
    Seq::new(stories.len(), |i: int| stories[i]@)
}

/// The text of an optional string.
pub open spec fn optional_text(text: Option<String>) -> Option<Seq<char>> {
    match text {
        Some(s) => Some(s@),
        None => None,
    }
}

impl View for Story {
    type V = StoryView;

    open spec fn view(&self) -> StoryView {
        StoryView {
            title: self.title@,
            date: self.date,
            score: self.score,
            count: self.count,
            id: self.id@,
            permalink: self.permalink@,
            url: optional_text(self.url),
            tags: texts(self.tags@),
            user: self.user@,
            comments: comment_views(self.comments@),
            text: self.text@,
        }
    }
}

impl View for CommentRoot {
    type V = Seq<CommentView>;

    open spec fn view(&self) -> Seq<CommentView> {
        comment_views(self.comments@)
    }
}

/// Whether `c` may stand in a file name: an ASCII letter or digit, `-` or `_`.
pub open spec fn is_name_char(c: char) -> bool {
    ('a' <= c && c <= 'z') || ('A' <= c && c <= 'Z') || ('0' <= c && c <= '9') || c == '-' || c
        == '_'
}

/// Whether `id` can be a file name's stem as it stands: it is not empty and
/// holds nothing but name characters.
pub open spec fn is_file_stem(id: Seq<char>) -> bool {
    id.len() > 0 && forall|i: int| 0 <= i < id.len() ==> is_name_char(#[trigger] id[i])
}

impl StoryView {
    /// This story with `comments` in place of its own.
    pub open spec fn with_comments(self, comments: Seq<CommentView>) -> StoryView {
        StoryView { comments: comments, ..self }
    }
}

impl Story {
    /// The invariant that the upstream data is trusted to keep: the identifier
    /// can be used as a file name's stem.
    pub open spec fn well_formed(&self) -> bool {
        is_file_stem(self.id@)
    }

    /// Whether the identifier can be used as a file name's stem.
    pub fn is_well_formed(&self) -> (out: bool)
        ensures
            out == self.well_formed(),
    {
        let id = self.id.as_str();
        let n = id.unicode_len();
        if n == 0 {
            return false;
        }
        let mut i: usize = 0;
        while i < n
            invariant
                i <= n,
                n == id@.len(),
                id@ == self.id@,
                forall|j: int| 0 <= j < i ==> is_name_char(#[trigger] id@[j]),
            decreases n - i,
        {
            let c = id.get_char(i);
            let ok = ('a' <= c && c <= 'z') || ('A' <= c && c <= 'Z') || ('0' <= c && c <= '9')
                || c == '-' || c == '_';
            if !ok {
                assert(!is_name_char(id@[i as int]));
                return false;
            }
            i += 1;
        }
        true
    }
}

} // verus!
