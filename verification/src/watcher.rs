//! The watch scheduler's state machine.  The filesystem subscription and the
//! loop that performs builds live outside the crate; they feed events in and
//! carry actions out, one at a time, so at most one build cycle is ever in
//! flight.

use vstd::prelude::*;
use crate::chars::{ext_of_path, str_to_chars, chars_eq_str};
use crate::metadata::ProjectConfig;

verus! {

/// The scheduler's state: not watching yet, waiting for an event, running
/// one build cycle, or terminally stopped.
#[derive(Debug, Clone, Copy, PartialEq, Eq, Structural)]
pub enum WatchState {
    Idle,
    Watching,
    Building,
    Stopped,
}

/// What the loop around the scheduler must do next.
#[derive(Debug, Clone, Copy, PartialEq, Eq, Structural)]
pub enum SchedulerAction {
    StartBuild,
    Ignore,
    Stop,
}

/// One event handed to the scheduler: changed paths from the filesystem
/// subscription, or the loss of the event source.
#[derive(Debug)]
pub enum WatchEvent {
    Changed { paths: Vec<String> },
    Lost,
}

pub enum WatchEventView {
    Changed { paths: Seq<Seq<char>> },
    Lost,
}

impl View for WatchEvent {
    type V = WatchEventView;

    open spec fn view(&self) -> WatchEventView {
        match self {
            WatchEvent::Changed { paths } => WatchEventView::Changed { paths: paths.deep_view() },
            WatchEvent::Lost => WatchEventView::Lost,
        }
    }
}

/// Whether a changed path qualifies as a rebuild trigger: fragment files
/// and structured-data files.
pub open spec fn rebuild_trigger(path: Seq<char>) -> bool {
    ||| ext_of_path(path) == Some("md"@)
    ||| ext_of_path(path) == Some("yaml"@)
    ||| ext_of_path(path) == Some("yml"@)
}

/// Whether any changed path of an event qualifies.
pub open spec fn event_triggers(paths: Seq<Seq<char>>) -> bool {
    exists|i: int| 0 <= i < paths.len() && rebuild_trigger(paths[i])
}

/// The transition the scheduler makes on one event.  Events are only
/// consumed while watching; in any other state they are recorded by the
/// queue outside and do not start a concurrent build.
pub open spec fn scheduler_next(state: WatchState, e: WatchEventView) -> (WatchState,
    SchedulerAction) {
    if state is Watching {
        match e {
            WatchEventView::Changed { paths } => if event_triggers(paths) {
                (WatchState::Building, SchedulerAction::StartBuild)
            } else {
                (WatchState::Watching, SchedulerAction::Ignore)
            },
            WatchEventView::Lost => (WatchState::Stopped, SchedulerAction::Stop),
        }
    } else {
        (state, SchedulerAction::Ignore)
    }
}

/// The transition the scheduler makes when a build cycle finishes: back to
/// watching, whatever the outcome was.
pub open spec fn build_done_next(success: bool) -> WatchState {
    WatchState::Watching
}

/// Watch resilience: a failed build cycle leaves the scheduler watching,
/// and a following qualifying event still starts the next build cycle.
/// The loop never leaves the watch because a build failed.
pub proof fn lemma_watch_resilience(paths: Seq<Seq<char>>)
    requires
        event_triggers(paths),
    ensures
        build_done_next(false) == WatchState::Watching,
        scheduler_next(build_done_next(false), WatchEventView::Changed { paths }) == (
            WatchState::Building,
            SchedulerAction::StartBuild,
        ),
{
}

/// Runs the scheduler: one build on start, then one build cycle per
/// qualifying event, strictly one at a time.
pub struct FileWatcher {
    pub config: ProjectConfig,
}

impl FileWatcher {
    pub fn new(config: ProjectConfig) -> (r: FileWatcher)
        ensures
            r.config@ == config@,
    {
        FileWatcher { config }
    }

    /// Whether a changed path triggers a rebuild.
    pub fn should_rebuild(&self, path: &str) -> (r: bool)
        ensures
            r == rebuild_trigger(path@),
    {
        let chars = str_to_chars(path);
        match crate::chars::ext_of_path_chars(&chars) {
            Some(e) => chars_eq_str(&e, "md") || chars_eq_str(&e, "yaml") || chars_eq_str(
                &e,
                "yml",
            ),
            None => false,
        }
    }

    /// On start the scheduler runs one build cycle unconditionally.
    pub fn on_start(&self) -> (r: (WatchState, SchedulerAction))
        ensures
            r.0 is Building,
            r.1 is StartBuild,
    {
        (WatchState::Building, SchedulerAction::StartBuild)
    }

    /// Feeds one event to the scheduler.
    #[verifier::loop_isolation(false)]
    pub fn on_event(&self, state: WatchState, event: &WatchEvent) -> (r: (WatchState,
        SchedulerAction))
        ensures
            r == scheduler_next(state, event@),
    {
        if !matches!(state, WatchState::Watching) {
            return (state, SchedulerAction::Ignore);
        }
        match event {
            WatchEvent::Lost => (WatchState::Stopped, SchedulerAction::Stop),
            WatchEvent::Changed { paths } => {
                let ghost ps = paths.deep_view();
                let mut i: usize = 0;
                while i < paths.len()
                    invariant
                        i <= ps.len(),
                        ps == paths.deep_view(),
                        forall|j: int| 0 <= j < i ==> !rebuild_trigger(ps[j]),
                    decreases ps.len() - i,
                {
                    proof {
                        assert(ps[i as int] == paths@[i as int]@);
                    }
                    if self.should_rebuild(paths[i].as_str()) {
                        proof {
                            assert(event_triggers(ps)) by {
                                assert(rebuild_trigger(ps[i as int]));
                            }
                        }
                        return (WatchState::Building, SchedulerAction::StartBuild);
                    }
                    i += 1;
                }
                proof {
                    assert(!event_triggers(ps)) by {
                        if event_triggers(ps) {
                            let j = choose|j: int|
                                0 <= j < ps.len() && rebuild_trigger(ps[j]);
                            assert(!rebuild_trigger(ps[j]));
                        }
                    }
                }
                (WatchState::Watching, SchedulerAction::Ignore)
            },
        }
    }

    /// Marks the running build cycle finished.  The scheduler returns to
    /// watching whatever the outcome was: a failed cycle is reported by the
    /// loop and never ends the watch.
    pub fn on_build_done(&self, state: WatchState, success: bool) -> (r: WatchState)
        requires
            state is Building,
        ensures
            r == build_done_next(success),
            r is Watching,
    {
        WatchState::Watching
    }
}

} // verus!
