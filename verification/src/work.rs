//! The work on one story once the response for its thread is in hand, and
//! the same for every story of a run.

use crate::data::{Story, StoryView};
use crate::error::{Error, RenderError};
use crate::fetch::{Response, fetched_comments};
use crate::render::{Page, article_name_text, article_text, build_gopher_article};
use vstd::prelude::*;

verus! {

/// How many stories are worked on at the same time, so that the one host
/// that serves them all is not flooded.
pub const WORKER_COUNT: usize = 4;

/// How the work on one story ended.
#[derive(Debug, Clone, PartialEq, Eq)]
pub enum Outcome {
    /// The article was rendered: here is the file to write.
    Rendered(Page),
    /// The story is left out of this run, for the reason given.
    Skipped(Error),
}

/// An `Outcome` as a mathematical value.
pub ghost enum OutcomeView {
    Rendered { name: Seq<char>, contents: Seq<char> },
    Skipped(Error),
}

impl View for Outcome {
    type V = OutcomeView;

    open spec fn view(&self) -> OutcomeView {
        match self {
            Outcome::Rendered(page) => OutcomeView::Rendered {
                name: page.name@,
                contents: page.contents@,
            },
            Outcome::Skipped(e) => OutcomeView::Skipped(*e),
        }
    }
}

/// The story after the work on it: with the comments of the response where
/// the response holds a thread, else unchanged.
pub open spec fn story_after(story: StoryView, response: Response) -> StoryView {
    match fetched_comments(response) {
        Ok(comments) => story.with_comments(comments),
        Err(_) => story,
    }
}

/// How the work on `story` ends for `response`: skipped with the error of
/// the fetch where the response holds no thread, skipped with a rendering
/// error where the article cannot be rendered, else rendered to the file
/// named after the story.
pub open spec fn outcome_of(story: StoryView, response: Response) -> OutcomeView {
    match fetched_comments(response) {
        Ok(comments) => match article_text(story.with_comments(comments)) {
            Some(contents) => OutcomeView::Rendered { name: article_name_text(story.id), contents },
            None => OutcomeView::Skipped(Error::Render(RenderError::Pattern)),
        },
        Err(e) => OutcomeView::Skipped(e),
    }
}

/// Does the work on one story: attaches the comments of `response` and
/// renders the article. A failure of either step skips the story; it never
/// stops the run.
pub fn process_story(story: &mut Story, response: &Response) -> (out: Outcome)
    ensures
        out@ == outcome_of(old(story)@, *response),
        final(story)@ == story_after(old(story)@, *response),
{
    match story.fetch_comments(response) {
        Ok(()) => match build_gopher_article(story) {
            Ok(page) => Outcome::Rendered(page),
            Err(e) => Outcome::Skipped(Error::Render(e)),
        },
        Err(e) => Outcome::Skipped(e),
    }
}

/// The outcome of the work on a story once its file has been written, or
/// could not be: `written` holds the system's message where it could not.
/// An article that could not be written is a story skipped.
pub fn after_write(outcome: Outcome, written: Result<(), String>) -> (out: Outcome)
    ensures
        out == match (outcome, written) {
            (Outcome::Rendered(_), Err(message)) => Outcome::Skipped(Error::Io(message)),
            _ => outcome,
        },
{
    match (outcome, written) {
        (Outcome::Rendered(_), Err(message)) => Outcome::Skipped(Error::Io(message)),
        (outcome, _) => outcome,
    }
}

/// Does the work on every story, each with the response for its own thread.
/// What becomes of a story, and how its work ends, depends on that story and
/// its response alone: a story that is skipped changes nothing for the
/// others.
pub fn process_stories(stories: &mut Vec<Story>, responses: &Vec<Response>) -> (out: Vec<Outcome>)
    requires
        old(stories).len() == responses.len(),
    ensures
        final(stories).len() == old(stories).len(),
        out.len() == old(stories).len(),
        forall|i: int|
            0 <= i < old(stories).len() ==> (#[trigger] out@[i])@ == outcome_of(
                old(stories)@[i]@,
                responses@[i],
            ),
        forall|i: int|
            0 <= i < old(stories).len() ==> (#[trigger] final(stories)@[i])@ == story_after(
                old(stories)@[i]@,
                responses@[i],
            ),
{
    let mut out: Vec<Outcome> = Vec::new();
    let mut i: usize = 0;
    while i < stories.len()
        invariant
            i <= stories.len(),
            stories.len() == old(stories).len(),
            stories.len() == responses.len(),
            out.len() == i,
            forall|j: int|
                0 <= j < i ==> (#[trigger] out@[j])@ == outcome_of(
                    old(stories)@[j]@,
                    responses@[j],
                ),
            forall|j: int|
                0 <= j < i ==> (#[trigger] stories@[j])@ == story_after(
                    old(stories)@[j]@,
                    responses@[j],
                ),
            forall|j: int| i <= j < stories.len() ==> #[trigger] stories@[j] == old(stories)@[j],
        decreases stories.len() - i,
    {
        let outcome = process_story(&mut stories[i], &responses[i]);
        out.push(outcome);
        i += 1;
    }
    out
}

} // verus!
