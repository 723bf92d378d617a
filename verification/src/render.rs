//! The two kinds of page: the index of stories, and one article for each
//! story with its comments.

use crate::data::{
    Comment, CommentView, Date, Story, StoryView, comment_views, is_file_stem, is_name_char,
    optional_text, story_views, texts,
};
use crate::error::RenderError;
use crate::numbers::{decimal, decimal_string};
use crate::text::{
    MAX_DEPTH, cleanup, cleanup_text, deunicode, indent_comment, indent_comment_text, join, joined,
    same_text, transliterated,
};
use vstd::prelude::*;

verus! {

/// How dates are written on a page, in `strftime` notation.
pub const DATE_FORMAT: &'static str = "%a %b %e %T %Y";

/// The name of the index file.
pub const INDEX_NAME: &'static str = "gophermap";

/// What every article file's name ends in.
pub const ARTICLE_SUFFIX: &'static str = ".txt";

/// The drawing at the top of every page.
pub const BANNER: &'static str = "
 .----------------.
| .--------------. |
| |   _____      | |
| |  |_   _|     | |
| |    | |       | |
| |    | |   _   | |
| |   _| |__/ |  | |
| |  |________|  | |
| |              | |
| '--------------' |
 '----------------'
";

/// What the index says of itself, up to the time of the run.
pub const INTRODUCTION: &'static str = "
This is an unofficial Lobste.rs mirror on gopher.
You can find the 25 hottest stories and their comments.
Sync happens every 10 minutes or so.

Last updated ";

/// The text that `chrono` writes for the UTC time `seconds` and `nanos`
/// after the epoch in the notation `format`; `None` where the time is out of
/// `chrono`'s range or `format` is not valid.
pub uninterp spec fn formatted_date(seconds: i64, nanos: u32, format: Seq<char>) -> Option<
    Seq<char>,
>;

/// Makes the UTC time with `chrono::DateTime::from_timestamp`, formats it
/// with `DateTime::format` and writes the outcome to a string. Nothing is
/// claimed of the result beyond its name.
#[verifier::external_body]
fn format_date(seconds: i64, nanos: u32, format: &str) -> (out: Option<String>)
    ensures
        match formatted_date(seconds, nanos, format@) {
            Some(text) => out matches Some(s) && s@ == text,
            None => out is None,
        },
{
    let date = chrono::DateTime::from_timestamp(seconds, nanos)?;
    let mut out = String::new();
    match date.format(format).write_to(&mut out) {
        Ok(()) => Some(out),
        Err(_) => None,
    }
}

/// A date as it stands on a page.
pub open spec fn pretty_date_text(date: Date) -> Option<Seq<char>> {
    formatted_date(date.seconds, date.nanos, DATE_FORMAT@)
}

/// Writes a date as pages show it, such as `Mon Mar 18 15:36:44 2019`.
/// Fails where the date is outside the range that can be written.
pub fn pretty_date(date: &Date) -> (out: Result<String, RenderError>)
    ensures
        match pretty_date_text(*date) {
            Some(text) => out matches Ok(s) && s@ == text,
            None => out == Err::<String, RenderError>(RenderError::Date),
        },
{
    match format_date(date.seconds, date.nanos, DATE_FORMAT) {
        Some(text) => Ok(text),
        None => Err(RenderError::Date),
    }
}

/// The top of the index, for a time of the run written as `stamp`.
pub open spec fn main_title_text(stamp: Seq<char>) -> Seq<char> {
    BANNER@ + INTRODUCTION@ + stamp + seq!['\n', '\n']
}

/// The top of the index: the banner, what the index is, and when it was
/// last updated. `stamp` is the time of the run as it is to be shown.
pub fn main_title(stamp: &str) -> (out: String)
    ensures
        out@ == main_title_text(stamp@),
{
    proof {
        reveal_strlit("\n\n");
    }
    let mut out = String::from_str(BANNER);
    out.append(INTRODUCTION);
    out.append(stamp);
    out.append("\n\n");
    out
}

/// The top of an article, for a story title written as `title`.
pub open spec fn comment_title_text(title: Seq<char>) -> Seq<char> {
    BANNER@ + "\n\nViewing comments for \""@ + title + "\"\n---\n\n"@
}

/// Writes the top of the article of the story called `title`: the banner
/// and the title, in which every character that is not ASCII has given way
/// to an ASCII approximation. A title that is ASCII already is written as it
/// is.
pub fn comment_title(title: &str) -> (out: String)
    ensures
        out@ == comment_title_text(transliterated(title@)),
        vstd::utf8::is_ascii_chars(transliterated(title@)),
        vstd::utf8::is_ascii_chars(title@) ==> out@ == comment_title_text(title@),
        vstd::utf8::is_ascii_chars(out@),
{
    let plain = deunicode(title);
    let mut out = String::from_str(BANNER);
    let lead = "\n\nViewing comments for \"";
    let end = "\"\n---\n\n";
    out.append(lead);
    out.append(plain.as_str());
    out.append(end);
    proof {
        lemma_banner_is_ascii();
        reveal_strlit("\n\nViewing comments for \"");
        reveal_strlit("\"\n---\n\n");
        assert(vstd::utf8::is_ascii_chars(lead@));
        assert(vstd::utf8::is_ascii_chars(end@));
        assert forall|i: int| 0 <= i < out@.len() implies '\0' <= #[trigger] out@[i]
            <= '\u{7f}' by {
            let a = BANNER@.len() as int;
            let b = a + lead@.len();
            let c = b + plain@.len();
            if i < a {
                assert(out@[i] == BANNER@[i]);
            } else if i < b {
                assert(out@[i] == lead@[i - a]);
            } else if i < c {
                assert(out@[i] == plain@[i - b]);
            } else {
                assert(out@[i] == end@[i - c]);
            }
        }
    }
    out
}

/// The banner is drawn with ASCII characters only.
pub proof fn lemma_banner_is_ascii()
    ensures
        vstd::utf8::is_ascii_chars(BANNER@),
{
    reveal_strlit("
 .----------------.
| .--------------. |
| |   _____      | |
| |  |_   _|     | |
| |    | |       | |
| |    | |   _   | |
| |   _| |__/ |  | |
| |  |________|  | |
| |              | |
| '--------------' |
 '----------------'
");
}

/// What follows a story's title on its first line: a tab and the link, or
/// nothing where the story has no link.
pub open spec fn url_segment(url: Option<Seq<char>>) -> Seq<char> {
    match url {
        Some(link) => "\tURL:"@ + link,
        None => Seq::empty(),
    }
}

/// A story's first line on the index: its score, its title and its link.
pub open spec fn story_line_text(score: i8, title: Seq<char>, url: Option<Seq<char>>) -> Seq<
    char,
> {
    "h["@ + decimal(score as int) + "] - "@ + title + url_segment(url) + seq!['\n']
}

/// Writes a story's first line on the index: `h[score] - title`, then a tab
/// and `URL:` with the link where there is one. `title` is written as it is
/// given, and so is the link.
pub fn story_line(score: i8, title: &str, url: &Option<String>) -> (out: String)
    ensures
        out@ == story_line_text(score, title@, optional_text(*url)),
        *url is None ==> out@ == "h["@ + decimal(score as int) + "] - "@ + title@ + seq!['\n'],
{
    proof {
        reveal_strlit("\n");
    }
    let mut out = String::from_str("h[");
    out.append(decimal_string(score as i64).as_str());
    out.append("] - ");
    out.append(title);
    match url {
        Some(link) => {
            out.append("\tURL:");
            out.append(link.as_str());
        },
        None => {},
    }
    out.append("\n");
    assert(out@ =~= story_line_text(score, title@, optional_text(*url)));
    assert(*url is None ==> out@ =~= "h["@ + decimal(score as int) + "] - "@ + title@
        + seq!['\n']);
    out
}

/// A story's second line on the index: when it was submitted, by whom, and
/// under which tags.
pub open spec fn meta_line_text(date: Seq<char>, author: Seq<char>, tags: Seq<Seq<char>>) -> Seq<
    char,
> {
    "Submitted "@ + date + " by "@ + author + " | "@ + joined(tags, ", "@) + seq!['\n']
}

/// Writes a story's second line on the index: `Submitted date by author |
/// tags`, the tags in their own order with a comma and a space between them.
pub fn meta_line(date: &str, author: &str, tags: &Vec<String>) -> (out: String)
    ensures
        out@ == meta_line_text(date@, author@, texts(tags@)),
{
    proof {
        reveal_strlit("\n");
    }
    let mut out = String::from_str("Submitted ");
    out.append(date);
    out.append(" by ");
    out.append(author);
    out.append(" | ");
    out.append(join(tags, ", ").as_str());
    out.append("\n");
    out
}

/// The name of the file that holds the article of the story `id`.
pub open spec fn article_name_text(id: Seq<char>) -> Seq<char> {
    id + ARTICLE_SUFFIX@
}

/// Whether `name` names a file in the directory it is written to, and no
/// other place: it holds letters, digits, `-`, `_` and `.` only, and does
/// not begin with `.`.
pub open spec fn is_plain_file_name(name: Seq<char>) -> bool {
    &&& name.len() > 0
    &&& name[0] != '.'
    &&& forall|i: int| 0 <= i < name.len() ==> is_name_char(#[trigger] name[i]) || name[i] == '.'
}

/// The name of the file that holds the article of the story `id`: the
/// identifier as it stands, then `.txt`. An identifier that can be a file
/// name's stem gives a plain file name.
pub fn article_name(id: &str) -> (out: String)
    ensures
        out@ == article_name_text(id@),
        is_file_stem(id@) ==> is_plain_file_name(out@),
{
    let mut out = String::from_str(id);
    out.append(ARTICLE_SUFFIX);
    proof {
        reveal_strlit(".txt");
        if is_file_stem(id@) {
            assert(out@[0] == id@[0]);
            assert forall|i: int| 0 <= i < out@.len() implies is_name_char(#[trigger] out@[i])
                || out@[i] == '.' by {
                if i < id@.len() {
                    assert(out@[i] == id@[i]);
                }
            }
        }
    }
    out
}

/// A story's third line on the index, and the empty line after it: the
/// number of comments and where to read them.
pub open spec fn comment_line_text(count: u8, id: Seq<char>) -> Seq<char> {
    "0View comments ("@ + decimal(count as int) + ")\t"@ + article_name_text(id) + seq![
        '\n',
        '\n',
    ]
}

/// Writes a story's third line on the index, `0View comments (count)`, a tab
/// and the name of the story's article file, and an empty line after it.
pub fn comment_line(count: u8, id: &str) -> (out: String)
    ensures
        out@ == comment_line_text(count, id@),
{
    proof {
        reveal_strlit("\n\n");
    }
    let mut out = String::from_str("0View comments (");
    out.append(decimal_string(count as i64).as_str());
    out.append(")\t");
    out.append(article_name(id).as_str());
    out.append("\n\n");
    out
}

/// The three lines of a story on the index, for a date that is already
/// written out. The title stands on the first line as it is.
pub open spec fn entry_text(story: StoryView, date: Seq<char>) -> Seq<char> {
    story_line_text(story.score, story.title, story.url) + meta_line_text(
        date,
        story.user.name,
        story.tags,
    ) + comment_line_text(story.count, story.id)
}

/// The three lines of a story on the index, the date as pages show it.
/// `None` where the date cannot be written.
pub open spec fn story_entry_text(story: StoryView) -> Option<Seq<char>> {
    match pretty_date_text(story.date) {
        Some(date) => Some(entry_text(story, date)),
        None => None,
    }
}

/// The entries of `stories` one after the other, in the order of `stories`.
/// `None` where one of them has none.
pub open spec fn entries_text(stories: Seq<StoryView>) -> Option<Seq<char>>
    decreases stories.len(),
{
    if stories.len() == 0 {
        Some(Seq::empty())
    } else {
        match (entries_text(stories.drop_last()), story_entry_text(stories.last())) {
            (Some(before), Some(entry)) => Some(before + entry),
            _ => None,
        }
    }
}

/// The index page of `stories` for a run at the time `now`.
pub open spec fn index_text(stories: Seq<StoryView>, now: Date) -> Option<Seq<char>> {
    match (pretty_date_text(now), entries_text(stories)) {
        (Some(stamp), Some(body)) => Some(main_title_text(stamp) + body),
        _ => None,
    }
}

/// A story without an entry leaves the whole list without entries.
proof fn lemma_entries_none(stories: Seq<StoryView>, i: int)
    requires
        0 <= i < stories.len(),
        story_entry_text(stories[i]) is None,
    ensures
        entries_text(stories) is None,
    decreases stories.len(),
{
    if i < stories.len() - 1 {
        lemma_entries_none(stories.drop_last(), i);
    }
}

/// Writes the three lines of a story on the index: score, title and link;
/// date, author and tags; the number of comments and where to read them.
/// Title and link are written as they are. Fails where the story's date
/// cannot be written.
pub fn story_entry(story: &Story) -> (out: Result<String, RenderError>)
    ensures
        match story_entry_text(story@) {
            Some(text) => out matches Ok(s) && s@ == text,
            None => out == Err::<String, RenderError>(RenderError::Date),
        },
{
    let date = match pretty_date(&story.date) {
        Ok(date) => date,
        Err(e) => {
            return Err(e);
        },
    };
    let mut out = story_line(story.score, story.title.as_str(), &story.url);
    out.append(meta_line(date.as_str(), story.user.name.as_str(), &story.tags).as_str());
    out.append(comment_line(story.count, story.id.as_str()).as_str());
    Ok(out)
}

/// Writes the index page: the title with the time of the run, then the
/// entries of all the stories in their order. Fails where the time of the
/// run or a story's date cannot be written.
pub fn stories_to_gophermap(stories: &Vec<Story>, now: &Date) -> (out: Result<
    String,
    RenderError,
>)
    ensures
        match index_text(story_views(stories@), *now) {
            Some(text) => out matches Ok(s) && s@ == text,
            None => out == Err::<String, RenderError>(RenderError::Date),
        },
{
    let ghost views = story_views(stories@);
    let stamp = match pretty_date(now) {
        Ok(stamp) => stamp,
        Err(e) => {
            return Err(e);
        },
    };
    let mut out = main_title(stamp.as_str());
    let mut i: usize = 0;
    while i < stories.len()
        invariant
            i <= stories.len(),
            views == story_views(stories@),
            entries_text(views.take(i as int)) matches Some(body) && out@ == main_title_text(
                stamp@,
            ) + body,
        decreases stories.len() - i,
    {
        assert(views.take(i + 1).drop_last() =~= views.take(i as int));
        assert(views.take(i + 1).last() == stories@[i as int]@);
        match story_entry(&stories[i]) {
            Ok(entry) => {
                out.append(entry.as_str());
                assert(out@ =~= main_title_text(stamp@) + entries_text(views.take(i + 1))->0);
            },
            Err(e) => {
                proof {
                    lemma_entries_none(views, i as int);
                }
                return Err(e);
            },
        }
        i += 1;
    }
    assert(views.take(stories.len() as int) =~= views);
    Ok(out)
}

/// The line above a comment: who wrote it and how it was voted.
pub open spec fn comment_header_text(author: Seq<char>, score: i8) -> Seq<char> {
    author + " commented ["@ + decimal(score as int) + "]\n"@
}

/// Writes the line above a comment: `author commented [score]`. The line is
/// neither wrapped nor indented.
pub fn comment_header(author: &str, score: i8) -> (out: String)
    ensures
        out@ == comment_header_text(author@, score),
{
    let mut out = String::from_str(author);
    out.append(" commented [");
    out.append(decimal_string(score as i64).as_str());
    out.append("]\n");
    out
}

/// A comment on its article: the header line as it is, then the cleaned
/// text, wrapped and indented by the comment's depth, and a line break.
/// `None` where the text cannot be cleaned.
pub open spec fn comment_block_text(comment: CommentView) -> Option<Seq<char>> {
    match cleanup_text(comment.text) {
        Some(body) => Some(
            comment_header_text(comment.user.name, comment.score) + indent_comment_text(
                body,
                comment.indentation,
            ) + seq!['\n'],
        ),
        None => None,
    }
}

/// The blocks of `comments` one after the other, in the order of `comments`.
/// `None` where one of them has none.
pub open spec fn blocks_text(comments: Seq<CommentView>) -> Option<Seq<char>>
    decreases comments.len(),
{
    if comments.len() == 0 {
        Some(Seq::empty())
    } else {
        match (blocks_text(comments.drop_last()), comment_block_text(comments.last())) {
            (Some(before), Some(block)) => Some(before + block),
            _ => None,
        }
    }
}

/// The article page of `story`.
pub open spec fn article_text(story: StoryView) -> Option<Seq<char>> {
    match blocks_text(story.comments) {
        Some(body) => Some(comment_title_text(transliterated(story.title)) + body),
        None => None,
    }
}

/// A comment without a block leaves the whole thread without blocks.
proof fn lemma_blocks_none(comments: Seq<CommentView>, i: int)
    requires
        0 <= i < comments.len(),
        comment_block_text(comments[i]) is None,
    ensures
        blocks_text(comments) is None,
    decreases comments.len(),
{
    if i < comments.len() - 1 {
        lemma_blocks_none(comments.drop_last(), i);
    }
}

/// Writes a comment as it stands on its article: the header line, then the
/// text without markup, wrapped and indented by the comment's depth. Fails
/// only where the text cannot be cleaned.
pub fn comment_block(comment: &Comment) -> (out: Result<String, RenderError>)
    ensures
        match comment_block_text(comment@) {
            Some(text) => out matches Ok(s) && s@ == text,
            None => out == Err::<String, RenderError>(RenderError::Pattern),
        },
{
    proof {
        reveal_strlit("\n");
    }
    let body = match cleanup(comment.text.as_str()) {
        Ok(body) => body,
        Err(e) => {
            return Err(e);
        },
    };
    let mut out = comment_header(comment.user.name.as_str(), comment.score);
    out.append(indent_comment(body, comment.indentation).as_str());
    out.append("\n");
    Ok(out)
}

/// Writes the article page of a story: the title in ASCII, then the
/// story's comments in the order in which they were attached. Fails only
/// where a comment's text cannot be cleaned.
pub fn build_comments_page(story: &Story) -> (out: Result<String, RenderError>)
    ensures
        match article_text(story@) {
            Some(text) => out matches Ok(s) && s@ == text,
            None => out == Err::<String, RenderError>(RenderError::Pattern),
        },
{
    let ghost views = comment_views(story.comments@);
    let mut out = comment_title(story.title.as_str());
    let mut i: usize = 0;
    while i < story.comments.len()
        invariant
            i <= story.comments.len(),
            views == comment_views(story.comments@),
            blocks_text(views.take(i as int)) matches Some(body) && out@ == comment_title_text(
                transliterated(story.title@),
            ) + body,
        decreases story.comments.len() - i,
    {
        assert(views.take(i + 1).drop_last() =~= views.take(i as int));
        assert(views.take(i + 1).last() == story.comments@[i as int]@);
        match comment_block(&story.comments[i]) {
            Ok(block) => {
                out.append(block.as_str());
                assert(out@ =~= comment_title_text(transliterated(story.title@)) + blocks_text(
                    views.take(i + 1),
                )->0);
            },
            Err(e) => {
                proof {
                    lemma_blocks_none(views, i as int);
                }
                return Err(e);
            },
        }
        i += 1;
    }
    assert(views.take(story.comments.len() as int) =~= views);
    Ok(out)
}

/// A file to be written: its name and what it is to hold.
#[derive(Debug, Clone, PartialEq, Eq)]
pub struct Page {
    pub name: String,
    pub contents: String,
}

/// Builds the index file of a run at the time `now`: it is called
/// `gophermap` and lists `stories` in their order. Fails where the time of
/// the run or a story's date cannot be written.
pub fn build_gopher_section(stories: &Vec<Story>, now: &Date) -> (out: Result<Page, RenderError>)
    ensures
        match index_text(story_views(stories@), *now) {
            Some(text) => out matches Ok(page) && page.name@ == INDEX_NAME@ && page.contents@
                == text,
            None => out == Err::<Page, RenderError>(RenderError::Date),
        },
{
    match stories_to_gophermap(stories, now) {
        Ok(contents) => Ok(Page { name: String::from_str(INDEX_NAME), contents }),
        Err(e) => Err(e),
    }
}

/// Builds the article file of `story`: it is called after the story's
/// identifier and holds the story's comments as they are attached to it.
/// Fails only where a comment's text cannot be cleaned.
pub fn build_gopher_article(story: &Story) -> (out: Result<Page, RenderError>)
    ensures
        match article_text(story@) {
            Some(text) => out matches Ok(page) && page.name@ == article_name_text(story.id@)
                && page.contents@ == text,
            None => out == Err::<Page, RenderError>(RenderError::Pattern),
        },
        story.well_formed() ==> (out matches Ok(page) ==> is_plain_file_name(page.name@)),
{
    match build_comments_page(story) {
        Ok(contents) => Ok(Page { name: article_name(story.id.as_str()), contents }),
        Err(e) => Err(e),
    }
}

/// The name of the template of the index page.
pub const SECTION_TEMPLATE: &'static str = "gopher/section";

/// The name of the template of an article page.
pub const ARTICLE_TEMPLATE: &'static str = "gopher/article";

/// What a template reads.
pub enum Context<'a> {
    /// The stories of the index and the time of the run.
    Stories { stories: &'a Vec<Story>, now: Date },
    /// The story of an article, with its comments attached.
    Story { story: &'a Story },
}

/// The page that the template `name` gives for `context`.
pub open spec fn template_text(name: Seq<char>, context: Context) -> Result<
    Seq<char>,
    RenderError,
> {
    if name == SECTION_TEMPLATE@ {
        match context {
            Context::Stories { stories, now } => match index_text(story_views(stories@), now) {
                Some(text) => Ok(text),
                None => Err(RenderError::Date),
            },
            _ => Err(RenderError::Context),
        }
    } else if name == ARTICLE_TEMPLATE@ {
        match context {
            Context::Story { story } => match article_text(story@) {
                Some(text) => Ok(text),
                None => Err(RenderError::Pattern),
            },
            _ => Err(RenderError::Context),
        }
    } else {
        Err(RenderError::Template)
    }
}

/// Renders the template called `name` on `context`. `gopher/section` reads
/// stories and a time and gives the index page; `gopher/article` reads one
/// story and gives its article page. Any other name is refused, and so is a
/// context that does not hold what the named template reads.
pub fn build_template(name: &str, context: &Context) -> (out: Result<String, RenderError>)
    ensures
        match template_text(name@, *context) {
            Ok(text) => out matches Ok(s) && s@ == text,
            Err(e) => out == Err::<String, RenderError>(e),
        },
{
    if same_text(name, SECTION_TEMPLATE) {
        match context {
            Context::Stories { stories, now } => stories_to_gophermap(stories, now),
            _ => Err(RenderError::Context),
        }
    } else if same_text(name, ARTICLE_TEMPLATE) {
        match context {
            Context::Story { story } => build_comments_page(story),
            _ => Err(RenderError::Context),
        }
    } else {
        Err(RenderError::Template)
    }
}

/// Whether `part` stands somewhere in `whole`, character for character.
pub open spec fn occurs_in(part: Seq<char>, whole: Seq<char>) -> bool {
    exists|at: int|
        0 <= at && at + part.len() <= whole.len() && #[trigger] whole.subrange(
            at,
            at + part.len() as int,
        ) == part
}

/// What the index holds before the time of the run.
pub open spec fn index_head() -> Seq<char> {
    BANNER@ + INTRODUCTION@
}

/// What the index holds after the time of the run.
pub open spec fn index_tail(stories: Seq<StoryView>) -> Option<Seq<char>> {
    match entries_text(stories) {
        Some(body) => Some(seq!['\n', '\n'] + body),
        None => None,
    }
}

/// The entries of two lists in a row are the entries of the two lists put
/// together.
proof fn lemma_entries_split(first: Seq<StoryView>, second: Seq<StoryView>)
    ensures
        entries_text(first + second) == match (entries_text(first), entries_text(second)) {
            (Some(a), Some(b)) => Some(a + b),
            _ => None,
        },
    decreases second.len(),
{
    if second.len() == 0 {
        assert(first + second =~= first);
        if entries_text(first) is Some {
            assert(entries_text(first)->0 + Seq::<char>::empty() =~= entries_text(first)->0);
        }
    } else {
        assert((first + second).drop_last() =~= first + second.drop_last());
        assert((first + second).last() == second.last());
        lemma_entries_split(first, second.drop_last());
        match (
            entries_text(first),
            entries_text(second.drop_last()),
            story_entry_text(second.last()),
        ) {
            (Some(a), Some(b), Some(c)) => {
                assert((a + b) + c =~= a + (b + c));
            },
            _ => {},
        }
    }
}

/// The entries of a list are those of the stories before the one at `i`,
/// the entry of that story, and those of the stories after it.
proof fn lemma_entries_around(stories: Seq<StoryView>, i: int)
    requires
        0 <= i < stories.len(),
        entries_text(stories) is Some,
    ensures
        story_entry_text(stories[i]) is Some,
        entries_text(stories.take(i)) is Some,
        entries_text(stories.skip(i + 1)) is Some,
        entries_text(stories)->0 == entries_text(stories.take(i))->0 + story_entry_text(
            stories[i],
        )->0 + entries_text(stories.skip(i + 1))->0,
{
    let first = stories.take(i);
    let rest = stories.skip(i);
    let one = seq![stories[i]];
    let last = stories.skip(i + 1);
    assert(stories =~= first + rest);
    assert(rest =~= one + last);
    lemma_entries_split(first, rest);
    lemma_entries_split(one, last);
    assert(one.drop_last() =~= Seq::<StoryView>::empty());
    assert(one.last() == stories[i]);
    assert(entries_text(one.drop_last()) == Some(Seq::<char>::empty()));
    let entry = story_entry_text(stories[i])->0;
    assert(entries_text(one) == Some(Seq::<char>::empty() + entry));
    assert(Seq::<char>::empty() + entry =~= entry);
    assert(entries_text(first)->0 + (entry + entries_text(last)->0) =~= entries_text(first)->0
        + entry + entries_text(last)->0);
}

/// Two runs over the same stories give index pages that are the same but
/// for the time of the run: what stands before it and what stands after it
/// does not depend on it. An article page does not show the time at all.
pub proof fn lemma_index_differs_in_stamp_only(stories: Seq<StoryView>, first: Date, second: Date)
    requires
        index_text(stories, first) is Some,
        index_text(stories, second) is Some,
    ensures
        index_tail(stories) is Some,
        index_text(stories, first)->0 == index_head() + pretty_date_text(first)->0 + index_tail(
            stories,
        )->0,
        index_text(stories, second)->0 == index_head() + pretty_date_text(second)->0
            + index_tail(stories)->0,
        pretty_date_text(first) == pretty_date_text(second) ==> index_text(stories, first)
            == index_text(stories, second),
{
    let body = entries_text(stories)->0;
    let tail = index_tail(stories)->0;
    assert forall|stamp: Seq<char>| #[trigger]
        (main_title_text(stamp) + body) == index_head() + stamp + tail by {
        assert(main_title_text(stamp) + body =~= index_head() + stamp + tail);
    }
}

/// The blocks of two threads in a row are the blocks of the two threads put
/// together.
proof fn lemma_blocks_split(first: Seq<CommentView>, second: Seq<CommentView>)
    ensures
        blocks_text(first + second) == match (blocks_text(first), blocks_text(second)) {
            (Some(a), Some(b)) => Some(a + b),
            _ => None,
        },
    decreases second.len(),
{
    if second.len() == 0 {
        assert(first + second =~= first);
        if blocks_text(first) is Some {
            assert(blocks_text(first)->0 + Seq::<char>::empty() =~= blocks_text(first)->0);
        }
    } else {
        assert((first + second).drop_last() =~= first + second.drop_last());
        assert((first + second).last() == second.last());
        lemma_blocks_split(first, second.drop_last());
        match (
            blocks_text(first),
            blocks_text(second.drop_last()),
            comment_block_text(second.last()),
        ) {
            (Some(a), Some(b), Some(c)) => {
                assert((a + b) + c =~= a + (b + c));
            },
            _ => {},
        }
    }
}

/// The index lists every story, in the order of the list: the three lines
/// of a story stand on it as they are, behind the entries of the stories
/// before it and before those of the stories after it, whatever becomes of
/// any story's comments later. The first of the three is the story's line,
/// with the title and the link as they were given.
pub proof fn lemma_index_lists_every_story(stories: Seq<StoryView>, now: Date, i: int)
    requires
        0 <= i < stories.len(),
        index_text(stories, now) is Some,
    ensures
        story_entry_text(stories[i]) is Some,
        entries_text(stories.take(i)) is Some,
        entries_text(stories.skip(i + 1)) is Some,
        index_text(stories, now)->0 == main_title_text(pretty_date_text(now)->0) + entries_text(
            stories.take(i),
        )->0 + story_entry_text(stories[i])->0 + entries_text(stories.skip(i + 1))->0,
        occurs_in(story_entry_text(stories[i])->0, index_text(stories, now)->0),
        occurs_in(
            story_line_text(stories[i].score, stories[i].title, stories[i].url),
            index_text(stories, now)->0,
        ),
{
    lemma_entries_around(stories, i);
    let entry = story_entry_text(stories[i])->0;
    let head = main_title_text(pretty_date_text(now)->0) + entries_text(stories.take(i))->0;
    let tail = entries_text(stories.skip(i + 1))->0;
    let whole = index_text(stories, now)->0;
    assert(whole =~= head + entry + tail);
    assert(whole.subrange(head.len() as int, head.len() as int + entry.len()) =~= entry);
    let line = story_line_text(stories[i].score, stories[i].title, stories[i].url);
    assert(entry.subrange(0, line.len() as int) =~= line);
    assert(whole.subrange(head.len() as int, head.len() as int + line.len()) =~= line);
}

/// An article holds every comment of its story, in the order in which the
/// comments are attached: the block of a comment stands behind the blocks
/// of the comments before it and before those of the comments after it.
pub proof fn lemma_article_keeps_order(story: StoryView, i: int)
    requires
        0 <= i < story.comments.len(),
        article_text(story) is Some,
    ensures
        comment_block_text(story.comments[i]) is Some,
        blocks_text(story.comments.take(i)) is Some,
        blocks_text(story.comments.skip(i + 1)) is Some,
        article_text(story)->0 == comment_title_text(transliterated(story.title)) + blocks_text(
            story.comments.take(i),
        )->0 + comment_block_text(story.comments[i])->0 + blocks_text(
            story.comments.skip(i + 1),
        )->0,
{
    let comments = story.comments;
    let first = comments.take(i);
    let rest = comments.skip(i);
    let one = seq![comments[i]];
    let last = comments.skip(i + 1);
    assert(comments =~= first + rest);
    assert(rest =~= one + last);
    lemma_blocks_split(first, rest);
    lemma_blocks_split(one, last);
    assert(one.drop_last() =~= Seq::<CommentView>::empty());
    assert(one.last() == comments[i]);
    assert(blocks_text(one.drop_last()) == Some(Seq::<char>::empty()));
    let block = comment_block_text(comments[i])->0;
    assert(blocks_text(one) == Some(Seq::<char>::empty() + block));
    assert(Seq::<char>::empty() + block =~= block);
    assert(article_text(story)->0 =~= comment_title_text(transliterated(story.title))
        + blocks_text(first)->0 + block + blocks_text(last)->0);
}

/// A story without a link has nothing between its title and the end of its
/// first line; a story with a link has a tab, `URL:` and the link as it was
/// given.
pub proof fn lemma_url_segment(score: i8, title: Seq<char>, url: Option<Seq<char>>)
    ensures
        url is None ==> story_line_text(score, title, url) == "h["@ + decimal(score as int)
            + "] - "@ + title + seq!['\n'],
        url matches Some(link) ==> story_line_text(score, title, url) == "h["@ + decimal(
            score as int,
        ) + "] - "@ + title + "\tURL:"@ + link + seq!['\n'],
{
    match url {
        Some(link) => {
            assert(story_line_text(score, title, url) =~= "h["@ + decimal(score as int) + "] - "@
                + title + "\tURL:"@ + link + seq!['\n']);
        },
        None => {
            assert(story_line_text(score, title, url) =~= "h["@ + decimal(score as int) + "] - "@
                + title + seq!['\n']);
        },
    }
}

/// A comment nested deeper than `MAX_DEPTH` is drawn like one at
/// `MAX_DEPTH`.
pub proof fn lemma_depth_is_clamped(comment: CommentView)
    requires
        comment.indentation >= MAX_DEPTH,
    ensures
        comment_block_text(comment) == comment_block_text(
            CommentView { indentation: MAX_DEPTH, ..comment },
        ),
{
}

} // verus!
