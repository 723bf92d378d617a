//! The course of a run: which step comes next, what counts as fatal, and
//! when the run is over.

use crate::data::{Story, story_views};
use crate::error::Error;
use crate::fetch::{Response, fetch_stories, fetched_stories};
use crate::work::Outcome;
use vstd::prelude::*;

verus! {

/// Where a run stands.
#[derive(Debug, Clone, Copy, PartialEq, Eq, Structural)]
pub enum Phase {
    /// Nothing has happened yet.
    Init,
    /// The response to the request for the story list has arrived.
    StoriesFetched,
    /// The stories are known and the index has been written or given up.
    IndexWritten,
    /// The stories are being worked on; at least one is still pending.
    ArticlesProcessing,
    /// Every story has been rendered or skipped.
    Done,
    /// The story list could not be had: the run is over without any file.
    FatalError,
}

/// Where the work on one story stands.
#[derive(Debug, Clone, Copy, PartialEq, Eq, Structural)]
pub enum StoryState {
    Pending,
    Rendered,
    Skipped,
}

/// What has happened outside.
#[derive(Debug, Clone, Copy, PartialEq, Eq, Structural)]
pub enum Event {
    /// A response to the request for the story list has arrived.
    ListArrived,
    /// The request for the story list failed.
    ListFailed,
    /// The response does not hold a story list.
    ListRefused,
    /// The response holds `stories` stories, and the index was written
    /// (`written`) or could not be rendered or written.
    IndexSettled { stories: usize, written: bool },
    /// The work on the stories has been handed out.
    FanOutStarted,
    /// The work on the story at place `story` of the list is over: its
    /// article was written (`rendered`), or the story was skipped.
    StorySettled { story: usize, rendered: bool },
}

/// What is to be done next.
#[derive(Debug, Clone, Copy, PartialEq, Eq, Structural)]
pub enum Action {
    /// Request the story list.
    FetchList,
    /// Decode the story list, then render and write the index.
    WriteIndex,
    /// Hand out the work on the stories.
    StartFanOut,
    /// Wait for the stories that are still pending.
    AwaitStories,
    /// Leave with this exit status.
    Exit(i32),
}

/// The exit status of a run that went through.
pub const EXIT_SUCCESS: i32 = 0;

/// The exit status of a run that could not get the story list.
pub const EXIT_FAILURE: i32 = 1;

/// The state of a run.
#[derive(Debug, Clone, PartialEq, Eq)]
pub struct Run {
    pub phase: Phase,
    pub index_written: bool,
    pub stories: Vec<StoryState>,
}

/// A `Run` as a mathematical value.
pub ghost struct RunView {
    pub phase: Phase,
    pub index_written: bool,
    pub stories: Seq<StoryState>,
}

impl View for Run {
    type V = RunView;

    open spec fn view(&self) -> RunView {
        RunView { phase: self.phase, index_written: self.index_written, stories: self.stories@ }
    }
}

/// Whether no story of `stories` is pending.
pub open spec fn all_settled(stories: Seq<StoryState>) -> bool {
    forall|i: int| 0 <= i < stories.len() ==> #[trigger] stories[i] != StoryState::Pending
}

/// Whether every story of `stories` is pending.
pub open spec fn all_pending(stories: Seq<StoryState>) -> bool {
    forall|i: int| 0 <= i < stories.len() ==> #[trigger] stories[i] == StoryState::Pending
}

/// The state of a story whose work is over.
pub open spec fn settled_as(rendered: bool) -> StoryState {
    if rendered {
        StoryState::Rendered
    } else {
        StoryState::Skipped
    }
}

impl RunView {
    /// What holds of every state that a run can be in: no story is known
    /// before the index is settled or after a fatal error; the work has not
    /// begun while the index is the last thing settled; a story is pending
    /// while articles are processed, and none is when the run is done.
    pub open spec fn well_formed(self) -> bool {
        match self.phase {
            Phase::Init | Phase::StoriesFetched | Phase::FatalError => self.stories.len() == 0
                && !self.index_written,
            Phase::IndexWritten => all_pending(self.stories),
            Phase::ArticlesProcessing => !all_settled(self.stories),
            Phase::Done => all_settled(self.stories),
        }
    }

    /// Whether `event` can happen in this state.
    pub open spec fn enabled(self, event: Event) -> bool {
        match (self.phase, event) {
            (Phase::Init, Event::ListArrived) => true,
            (Phase::Init, Event::ListFailed) => true,
            (Phase::StoriesFetched, Event::ListRefused) => true,
            (Phase::StoriesFetched, Event::IndexSettled { .. }) => true,
            (Phase::IndexWritten, Event::FanOutStarted) => true,
            (Phase::ArticlesProcessing, Event::StorySettled { story, .. }) => story
                < self.stories.len() && self.stories[story as int] == StoryState::Pending,
            _ => false,
        }
    }

    /// The state after `event`. An event that cannot happen changes nothing.
    pub open spec fn next(self, event: Event) -> RunView {
        if !self.enabled(event) {
            self
        } else {
            match event {
                Event::ListArrived => RunView { phase: Phase::StoriesFetched, ..self },
                Event::ListFailed => RunView { phase: Phase::FatalError, ..self },
                Event::ListRefused => RunView { phase: Phase::FatalError, ..self },
                Event::IndexSettled { stories, written } => RunView {
                    phase: Phase::IndexWritten,
                    index_written: written,
                    stories: Seq::new(stories as nat, |i: int| StoryState::Pending),
                },
                Event::FanOutStarted => RunView {
                    phase: if self.stories.len() == 0 {
                        Phase::Done
                    } else {
                        Phase::ArticlesProcessing
                    },
                    ..self
                },
                Event::StorySettled { story, rendered } => {
                    let stories = self.stories.update(story as int, settled_as(rendered));
                    RunView {
                        phase: if all_settled(stories) {
                            Phase::Done
                        } else {
                            Phase::ArticlesProcessing
                        },
                        stories: stories,
                        ..self
                    }
                },
            }
        }
    }

    /// What is to be done in this state.
    pub open spec fn action(self) -> Action {
        match self.phase {
            Phase::Init => Action::FetchList,
            Phase::StoriesFetched => Action::WriteIndex,
            Phase::IndexWritten => Action::StartFanOut,
            Phase::ArticlesProcessing => Action::AwaitStories,
            Phase::Done => Action::Exit(EXIT_SUCCESS),
            Phase::FatalError => Action::Exit(EXIT_FAILURE),
        }
    }

    /// The exit status, once the run is over.
    pub open spec fn exit_code(self) -> Option<i32> {
        match self.phase {
            Phase::Done => Some(EXIT_SUCCESS),
            Phase::FatalError => Some(EXIT_FAILURE),
            _ => None,
        }
    }
}

/// Whether no story of `stories` is pending.
fn none_pending(stories: &Vec<StoryState>) -> (out: bool)
    ensures
        out == all_settled(stories@),
{
    let mut i: usize = 0;
    while i < stories.len()
        invariant
            i <= stories.len(),
            forall|j: int| 0 <= j < i ==> #[trigger] stories@[j] != StoryState::Pending,
        decreases stories.len() - i,
    {
        if stories[i] == StoryState::Pending {
            return false;
        }
        i += 1;
    }
    true
}

impl Run {
    /// A run that has not begun.
    pub fn new() -> (out: Run)
        ensures
            out@ == (RunView { phase: Phase::Init, index_written: false, stories: Seq::empty() }),
            out@.well_formed(),
    {
        Run { phase: Phase::Init, index_written: false, stories: Vec::new() }
    }

    /// Takes note of `event`. Says whether the event could happen in the
    /// state the run was in; one that could not is passed over.
    pub fn step(&mut self, event: Event) -> (out: bool)
        ensures
            out == old(self)@.enabled(event),
            final(self)@ == old(self)@.next(event),
            old(self)@.well_formed() ==> final(self)@.well_formed(),
    {
        match (self.phase, event) {
            (Phase::Init, Event::ListArrived) => {
                self.phase = Phase::StoriesFetched;
                true
            },
            (Phase::Init, Event::ListFailed) => {
                self.phase = Phase::FatalError;
                true
            },
            (Phase::StoriesFetched, Event::ListRefused) => {
                self.phase = Phase::FatalError;
                true
            },
            (Phase::StoriesFetched, Event::IndexSettled { stories, written }) => {
                let mut states: Vec<StoryState> = Vec::new();
                let mut i: usize = 0;
                while i < stories
                    invariant
                        i <= stories,
                        states@ =~= Seq::new(i as nat, |j: int| StoryState::Pending),
                    decreases stories - i,
                {
                    states.push(StoryState::Pending);
                    i += 1;
                }
                self.phase = Phase::IndexWritten;
                self.index_written = written;
                self.stories = states;
                true
            },
            (Phase::IndexWritten, Event::FanOutStarted) => {
                if self.stories.len() == 0 {
                    self.phase = Phase::Done;
                } else {
                    assert(old(self)@.well_formed() ==> self.stories@[0] == StoryState::Pending);
                    self.phase = Phase::ArticlesProcessing;
                }
                true
            },
            (Phase::ArticlesProcessing, Event::StorySettled { story, rendered }) => {
                if story < self.stories.len() && self.stories[story] == StoryState::Pending {
                    let state = if rendered {
                        StoryState::Rendered
                    } else {
                        StoryState::Skipped
                    };
                    self.stories.set(story, state);
                    if none_pending(&self.stories) {
                        self.phase = Phase::Done;
                    }
                    true
                } else {
                    false
                }
            },
            _ => false,
        }
    }

    /// Takes in the response to the request for the story list and hands
    /// back its stories. A request that failed is fatal, and so is a
    /// response that holds no story list: the error is handed back as it is
    /// and the run is over. Otherwise the stories are fetched, and the index
    /// is next.
    pub fn receive_list(&mut self, response: &Response) -> (out: Result<Vec<Story>, Error>)
        ensures
            match fetched_stories(*response) {
                Ok(views) => out matches Ok(stories) && story_views(stories@) == views,
                Err(e) => out == Err::<Vec<Story>, Error>(e),
            },
            final(self)@ == if *response is Failed {
                old(self)@.next(Event::ListFailed)
            } else if fetched_stories(*response) is Ok {
                old(self)@.next(Event::ListArrived)
            } else {
                old(self)@.next(Event::ListArrived).next(Event::ListRefused)
            },
            old(self)@.phase == Phase::Init ==> final(self)@.phase == if out is Ok {
                Phase::StoriesFetched
            } else {
                Phase::FatalError
            },
            old(self)@.well_formed() ==> final(self)@.well_formed(),
    {
        match response {
            Response::Failed(_) => {
                self.step(Event::ListFailed);
            },
            _ => {
                self.step(Event::ListArrived);
            },
        }
        let stories = fetch_stories(response);
        match &stories {
            Ok(_) => {},
            Err(_) => match response {
                Response::Failed(_) => {},
                _ => {
                    self.step(Event::ListRefused);
                },
            },
        }
        stories
    }

    /// Takes note that the work on the stories was handed out and how it
    /// ended for each of them. However it ended, the run is done afterwards
    /// and its exit status is success: a story is rendered where its outcome
    /// says so and skipped where it does not.
    pub fn settle_all(&mut self, outcomes: &Vec<Outcome>)
        requires
            old(self)@.well_formed(),
            old(self)@.phase == Phase::IndexWritten,
            outcomes.len() == old(self).stories.len(),
        ensures
            final(self)@.well_formed(),
            final(self)@.phase == Phase::Done,
            final(self)@.exit_code() == Some(EXIT_SUCCESS),
            final(self)@.index_written == old(self)@.index_written,
            final(self)@.stories.len() == outcomes.len(),
            forall|i: int|
                0 <= i < outcomes.len() ==> #[trigger] final(self)@.stories[i] == settled_as(
                    outcomes@[i] is Rendered,
                ),
    {
        self.step(Event::FanOutStarted);
        let mut i: usize = 0;
        while i < outcomes.len()
            invariant
                i <= outcomes.len(),
                outcomes.len() == self.stories.len(),
                self@.well_formed(),
                self@.index_written == old(self)@.index_written,
                self@.phase == if i == outcomes.len() {
                    Phase::Done
                } else {
                    Phase::ArticlesProcessing
                },
                forall|j: int|
                    0 <= j < i ==> #[trigger] self@.stories[j] == settled_as(
                        outcomes@[j] is Rendered,
                    ),
                forall|j: int|
                    i <= j < outcomes.len() ==> #[trigger] self@.stories[j] == StoryState::Pending,
            decreases outcomes.len() - i,
        {
            let ghost before = self@;
            let rendered = match &outcomes[i] {
                Outcome::Rendered(_) => true,
                Outcome::Skipped(_) => false,
            };
            self.step(Event::StorySettled { story: i, rendered });
            proof {
                assert(before.enabled(Event::StorySettled { story: i, rendered }));
                if i + 1 < outcomes.len() {
                    assert(self@.stories[i + 1] == StoryState::Pending);
                } else {
                    assert forall|j: int| 0 <= j < self@.stories.len() implies (
                    #[trigger] self@.stories[j]) != StoryState::Pending by {
                        assert(self@.stories[j] == settled_as(outcomes@[j] is Rendered));
                    }
                }
            }
            i += 1;
        }
    }

    /// What is to be done next.
    pub fn action(&self) -> (out: Action)
        ensures
            out == self@.action(),
    {
        match self.phase {
            Phase::Init => Action::FetchList,
            Phase::StoriesFetched => Action::WriteIndex,
            Phase::IndexWritten => Action::StartFanOut,
            Phase::ArticlesProcessing => Action::AwaitStories,
            Phase::Done => Action::Exit(EXIT_SUCCESS),
            Phase::FatalError => Action::Exit(EXIT_FAILURE),
        }
    }

    /// The exit status, once the run is over: success when every story was
    /// rendered or skipped, failure when the story list could not be had.
    pub fn exit_code(&self) -> (out: Option<i32>)
        ensures
            out == self@.exit_code(),
    {
        match self.phase {
            Phase::Done => Some(EXIT_SUCCESS),
            Phase::FatalError => Some(EXIT_FAILURE),
            _ => None,
        }
    }
}

/// A run becomes fatal only before its stories are known: from `Init`, when
/// the request fails, or from `StoriesFetched`, when the response holds no
/// story list.
pub proof fn lemma_fatal_only_early(run: RunView, event: Event)
    requires
        run.phase != Phase::FatalError,
        run.next(event).phase == Phase::FatalError,
    ensures
        run.phase == Phase::Init || run.phase == Phase::StoriesFetched,
        event == Event::ListFailed || event == Event::ListRefused,
{
}

/// A story that is skipped changes the state of no other story and never
/// makes the run fatal: the run goes on, or is done if that story was the
/// last one pending, just as if the story had been rendered.
pub proof fn lemma_skip_is_contained(run: RunView, story: usize)
    requires
        run.well_formed(),
        run.enabled(Event::StorySettled { story, rendered: false }),
    ensures
        ({
            let after = run.next(Event::StorySettled { story, rendered: false });
            &&& after.phase == Phase::ArticlesProcessing || after.phase == Phase::Done
            &&& after.phase == run.next(Event::StorySettled { story, rendered: true }).phase
            &&& after.well_formed()
            &&& after.index_written == run.index_written
            &&& after.stories.len() == run.stories.len()
            &&& after.stories[story as int] == StoryState::Skipped
            &&& forall|j: int|
                0 <= j < run.stories.len() && j != story ==> #[trigger] after.stories[j]
                    == run.stories[j]
        }),
{
    let skipped = run.next(Event::StorySettled { story, rendered: false });
    let rendered = run.next(Event::StorySettled { story, rendered: true });
    if all_settled(skipped.stories) {
        assert forall|j: int| 0 <= j < rendered.stories.len() implies (
        #[trigger] rendered.stories[j]) != StoryState::Pending by {
            assert(skipped.stories[j] != StoryState::Pending);
        }
    }
    if all_settled(rendered.stories) {
        assert forall|j: int| 0 <= j < skipped.stories.len() implies (
        #[trigger] skipped.stories[j]) != StoryState::Pending by {
            assert(rendered.stories[j] != StoryState::Pending);
        }
    }
}

/// While articles are processed the run is done exactly when the last
/// pending story is settled, rendered or skipped.
pub proof fn lemma_done_when_all_settled(run: RunView, story: usize, rendered: bool)
    requires
        run.well_formed(),
        run.enabled(Event::StorySettled { story, rendered }),
    ensures
        ({
            let after = run.next(Event::StorySettled { story, rendered });
            (after.phase == Phase::Done) <==> (forall|j: int|
                0 <= j < run.stories.len() && j != story ==> #[trigger] run.stories[j]
                    != StoryState::Pending)
        }),
{
    let after = run.next(Event::StorySettled { story, rendered });
    if after.phase == Phase::Done {
        assert forall|j: int| 0 <= j < run.stories.len() && j != story implies (
        #[trigger] run.stories[j]) != StoryState::Pending by {
            assert(after.stories[j] != StoryState::Pending);
        }
    }
    if forall|j: int|
        0 <= j < run.stories.len() && j != story ==> #[trigger] run.stories[j]
            != StoryState::Pending {
        assert forall|j: int| 0 <= j < after.stories.len() implies (
        #[trigger] after.stories[j]) != StoryState::Pending by {
            if j != story {
                assert(run.stories[j] != StoryState::Pending);
            }
        }
    }
}

/// A run that is over has an exit status, and only such a run: success when
/// it is done, whatever stories were skipped, and failure when it is fatal.
pub proof fn lemma_exit_code(run: RunView)
    ensures
        run.exit_code() == Some(EXIT_SUCCESS) <==> run.phase == Phase::Done,
        run.exit_code() == Some(EXIT_FAILURE) <==> run.phase == Phase::FatalError,
        run.exit_code() is None <==> run.phase != Phase::Done && run.phase != Phase::FatalError,
{
}

/// A run that is over stays as it is: no event can happen any more.
pub proof fn lemma_terminal(run: RunView, event: Event)
    requires
        run.phase == Phase::Done || run.phase == Phase::FatalError,
    ensures
        !run.enabled(event),
        run.next(event) == run,
{
}

} // verus!
