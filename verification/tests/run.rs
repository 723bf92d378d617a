use gophsters::error::{DecodeError, Error};
use gophsters::fetch::Response;
use gophsters::json::Json;
use gophsters::render::Page;
use gophsters::run::{Action, Event, Phase, Run, StoryState, EXIT_FAILURE, EXIT_SUCCESS};
use gophsters::work::Outcome;

fn rendered() -> Outcome {
    Outcome::Rendered(Page { name: String::from("a.txt"), contents: String::from("text") })
}

fn skipped() -> Outcome {
    Outcome::Skipped(Error::Decode(DecodeError::Syntax))
}

fn at_fan_out(stories: usize) -> Run {
    let mut run = Run::new();
    assert!(run.step(Event::ListArrived));
    assert!(run.step(Event::IndexSettled { stories, written: true }));
    run
}

#[test]
fn a_new_run_has_not_begun() {
    let run = Run::new();
    assert_eq!(run.phase, Phase::Init);
    assert!(!run.index_written);
    assert!(run.stories.is_empty());
    assert_eq!(run.action(), Action::FetchList);
    assert_eq!(run.exit_code(), None);
}

#[test]
fn a_failed_request_is_fatal() {
    let mut run = Run::new();
    assert!(run.step(Event::ListFailed));
    assert_eq!(run.phase, Phase::FatalError);
    assert_eq!(run.action(), Action::Exit(EXIT_FAILURE));
    assert_eq!(run.exit_code(), Some(1));
}

#[test]
fn a_refused_list_is_fatal() {
    let mut run = Run::new();
    assert!(run.step(Event::ListArrived));
    assert_eq!(run.phase, Phase::StoriesFetched);
    assert_eq!(run.action(), Action::WriteIndex);
    assert!(run.step(Event::ListRefused));
    assert_eq!(run.phase, Phase::FatalError);
    assert_eq!(run.exit_code(), Some(EXIT_FAILURE));
    assert!(run.stories.is_empty());
}

#[test]
fn a_fatal_run_stays_fatal() {
    let mut run = Run::new();
    assert!(run.step(Event::ListFailed));
    let fatal = run.clone();
    for event in [
        Event::ListArrived,
        Event::ListFailed,
        Event::ListRefused,
        Event::IndexSettled { stories: 3, written: true },
        Event::FanOutStarted,
        Event::StorySettled { story: 0, rendered: true },
    ] {
        assert!(!run.step(event));
        assert_eq!(run, fatal);
    }
}

#[test]
fn the_index_may_fail_without_ending_the_run() {
    let mut run = Run::new();
    assert!(run.step(Event::ListArrived));
    assert!(run.step(Event::IndexSettled { stories: 2, written: false }));
    assert_eq!(run.phase, Phase::IndexWritten);
    assert!(!run.index_written);
    assert_eq!(run.stories, vec![StoryState::Pending, StoryState::Pending]);
    assert_eq!(run.action(), Action::StartFanOut);
    assert!(run.step(Event::FanOutStarted));
    assert_eq!(run.phase, Phase::ArticlesProcessing);
    assert_eq!(run.action(), Action::AwaitStories);
    assert_eq!(run.exit_code(), None);
}

#[test]
fn a_run_without_stories_is_done_at_once() {
    let mut run = at_fan_out(0);
    assert!(run.step(Event::FanOutStarted));
    assert_eq!(run.phase, Phase::Done);
    assert_eq!(run.action(), Action::Exit(EXIT_SUCCESS));
    assert_eq!(run.exit_code(), Some(0));
}

#[test]
fn a_run_is_done_when_the_last_story_is_settled() {
    let mut run = at_fan_out(3);
    assert!(run.step(Event::FanOutStarted));
    assert!(run.step(Event::StorySettled { story: 2, rendered: true }));
    assert_eq!(run.phase, Phase::ArticlesProcessing);
    assert!(run.step(Event::StorySettled { story: 0, rendered: false }));
    assert_eq!(run.phase, Phase::ArticlesProcessing);
    assert_eq!(run.stories, vec![StoryState::Skipped, StoryState::Pending, StoryState::Rendered]);
    assert_eq!(run.exit_code(), None);
    assert!(run.step(Event::StorySettled { story: 1, rendered: true }));
    assert_eq!(run.phase, Phase::Done);
    assert_eq!(run.stories, vec![StoryState::Skipped, StoryState::Rendered, StoryState::Rendered]);
    assert_eq!(run.exit_code(), Some(EXIT_SUCCESS));
}

#[test]
fn a_run_of_skipped_stories_still_succeeds() {
    let mut run = at_fan_out(2);
    assert!(run.step(Event::FanOutStarted));
    assert!(run.step(Event::StorySettled { story: 0, rendered: false }));
    assert!(run.step(Event::StorySettled { story: 1, rendered: false }));
    assert_eq!(run.phase, Phase::Done);
    assert_eq!(run.exit_code(), Some(0));
}

#[test]
fn a_story_is_settled_once() {
    let mut run = at_fan_out(2);
    assert!(run.step(Event::FanOutStarted));
    assert!(run.step(Event::StorySettled { story: 0, rendered: true }));
    let before = run.clone();
    assert!(!run.step(Event::StorySettled { story: 0, rendered: false }));
    assert_eq!(run, before);
    assert!(!run.step(Event::StorySettled { story: 2, rendered: true }));
    assert_eq!(run, before);
}

#[test]
fn events_out_of_turn_are_passed_over() {
    let mut run = Run::new();
    let fresh = run.clone();
    for event in [
        Event::ListRefused,
        Event::IndexSettled { stories: 1, written: true },
        Event::FanOutStarted,
        Event::StorySettled { story: 0, rendered: true },
    ] {
        assert!(!run.step(event));
        assert_eq!(run, fresh);
    }
    let mut run = at_fan_out(1);
    let before = run.clone();
    for event in [
        Event::ListArrived,
        Event::ListFailed,
        Event::ListRefused,
        Event::IndexSettled { stories: 1, written: true },
        Event::StorySettled { story: 0, rendered: true },
    ] {
        assert!(!run.step(event));
        assert_eq!(run, before);
    }
}

#[test]
fn settle_all_ends_the_run() {
    let mut run = at_fan_out(3);
    run.settle_all(&vec![rendered(), skipped(), rendered()]);
    assert_eq!(run.phase, Phase::Done);
    assert_eq!(run.stories, vec![StoryState::Rendered, StoryState::Skipped, StoryState::Rendered]);
    assert_eq!(run.exit_code(), Some(EXIT_SUCCESS));
    let mut run = at_fan_out(0);
    run.settle_all(&vec![]);
    assert_eq!(run.phase, Phase::Done);
}

#[test]
fn receive_list_takes_a_list_in() {
    let mut run = Run::new();
    assert_eq!(run.receive_list(&Response::Document(Json::List(vec![]))), Ok(vec![]));
    assert_eq!(run.phase, Phase::StoriesFetched);
    assert_eq!(run.action(), Action::WriteIndex);
    assert_eq!(run.exit_code(), None);
}

#[test]
fn receive_list_is_fatal_without_a_response() {
    let mut run = Run::new();
    assert_eq!(
        run.receive_list(&Response::Failed(String::from("no route to host"))),
        Err(Error::Transport(String::from("no route to host")))
    );
    assert_eq!(run.phase, Phase::FatalError);
    assert_eq!(run.exit_code(), Some(EXIT_FAILURE));
}

#[test]
fn receive_list_is_fatal_without_a_list() {
    let mut run = Run::new();
    assert_eq!(run.receive_list(&Response::Malformed), Err(Error::Decode(DecodeError::Syntax)));
    assert_eq!(run.phase, Phase::FatalError);
    let mut run = Run::new();
    assert_eq!(
        run.receive_list(&Response::Document(Json::Null)),
        Err(Error::Decode(DecodeError::Mismatch))
    );
    assert_eq!(run.phase, Phase::FatalError);
    assert_eq!(run.exit_code(), Some(1));
}

#[test]
fn receive_list_out_of_turn_changes_nothing() {
    let mut run = at_fan_out(2);
    let before = run.clone();
    assert_eq!(run.receive_list(&Response::Malformed), Err(Error::Decode(DecodeError::Syntax)));
    assert_eq!(run, before);
    assert_eq!(run.receive_list(&Response::Document(Json::List(vec![]))), Ok(vec![]));
    assert_eq!(run, before);
}
