//! The course of one download session: a first run, at most one question to
//! the user, then one run for each item that is tried again.
//!
//! The session itself starts no process and asks no question. It is told
//! what happened and answers what to do next.

use vstd::prelude::*;
use crate::errors::{DownloadError, DownloadErrorModel, ErrorTable};
use crate::retry::{
    ask_for_redownload, resolve_retries, retry_options, retry_targets, with_verdict,
};
use crate::runner::error_models;
use crate::text::string_views;

verus! {

/// Where a session stands.
pub enum Stage {
    /// The first run is under way.
    FirstPass,
    /// The first run has failed for items that may be tried again, and the
    /// user has been asked which.
    AwaitingChoice { offered: Vec<DownloadError> },
    /// The items of `targets` are tried again one after the other; those
    /// before `next` have been started.
    Retrying { targets: Vec<String>, next: usize },
    /// Nothing is left to do.
    Finished,
}

/// What happened outside the session.
pub enum Event {
    /// A run of the downloader ended, with these failures if it had any.
    RunEnded(Option<Vec<DownloadError>>),
    /// The user picked these lines of the retry list.
    Chosen(Vec<usize>),
}

/// What the caller is to do next.
pub enum Action {
    /// Show the failures that cannot be retried. The session is over.
    Report { unrecoverable: Vec<DownloadError> },
    /// Show the failures that cannot be retried, then let the user pick from
    /// `options` and hand the picks back.
    Ask { unrecoverable: Vec<DownloadError>, options: Vec<String> },
    /// Download `item` again, with the configuration of the first run, and
    /// say when the run has ended.
    Launch { item: String },
    /// The session is over.
    Stop,
}

/// A `Stage` as plain values.
pub enum StageModel {
    FirstPass,
    AwaitingChoice { offered: Seq<DownloadErrorModel> },
    Retrying { targets: Seq<Seq<char>>, next: nat },
    Finished,
}

/// An `Event` as plain values.
pub enum EventModel {
    RunEnded(Option<Seq<DownloadErrorModel>>),
    Chosen(Seq<usize>),
}

/// An `Action` as plain values.
pub enum ActionModel {
    Report { unrecoverable: Seq<DownloadErrorModel> },
    Ask { unrecoverable: Seq<DownloadErrorModel>, options: Seq<Seq<char>> },
    Launch { item: Seq<char> },
    Stop,
}

impl View for Stage {
    type V = StageModel;

    open spec fn view(&self) -> StageModel {
        match *self {
            Stage::FirstPass => StageModel::FirstPass,
            Stage::AwaitingChoice { offered } => StageModel::AwaitingChoice {
                offered: error_models(offered@),
            },
            Stage::Retrying { targets, next } => StageModel::Retrying {
                targets: string_views(targets@),
                next: next as nat,
            },
            Stage::Finished => StageModel::Finished,
        }
    }
}

impl View for Event {
    type V = EventModel;

    open spec fn view(&self) -> EventModel {
        match *self {
            Event::RunEnded(Some(errors)) => EventModel::RunEnded(Some(error_models(errors@))),
            Event::RunEnded(None) => EventModel::RunEnded(None),
            Event::Chosen(selection) => EventModel::Chosen(selection@),
        }
    }
}

impl View for Action {
    type V = ActionModel;

    open spec fn view(&self) -> ActionModel {
        match *self {
            Action::Report { unrecoverable } => ActionModel::Report {
                unrecoverable: error_models(unrecoverable@),
            },
            Action::Ask { unrecoverable, options } => ActionModel::Ask {
                unrecoverable: error_models(unrecoverable@),
                options: string_views(options@),
            },
            Action::Launch { item } => ActionModel::Launch { item: item@ },
            Action::Stop => ActionModel::Stop,
        }
    }
}

/// What follows the end of the first run.
///
/// Without failures the session is over. Failures that no retry can mend
/// are always handed out to be shown. The user is asked only if a failure is
/// worth a retry.
pub open spec fn after_first_pass(
    errors: Option<Seq<DownloadErrorModel>>,
    table: Seq<(Seq<char>, bool)>,
) -> (StageModel, ActionModel) {
    match errors {
        None => (StageModel::Finished, ActionModel::Stop),
        Some(errors) => {
            let offered = with_verdict(errors, table, true);
            let reported = with_verdict(errors, table, false);
            if errors.len() == 0 {
                (StageModel::Finished, ActionModel::Stop)
            } else if offered.len() == 0 {
                (StageModel::Finished, ActionModel::Report { unrecoverable: reported })
            } else {
                (
                    StageModel::AwaitingChoice { offered },
                    ActionModel::Ask { unrecoverable: reported, options: retry_options(offered) },
                )
            }
        },
    }
}

/// What follows when `targets[next..]` are still to be tried again.
pub open spec fn launch_next(targets: Seq<Seq<char>>, next: nat) -> (StageModel, ActionModel) {
    if next < targets.len() {
        (
            StageModel::Retrying { targets, next: next + 1 },
            ActionModel::Launch { item: targets[next as int] },
        )
    } else {
        (StageModel::Finished, ActionModel::Stop)
    }
}

/// The next stage of a session and what its caller is to do, for an event.
///
/// An event that the stage does not wait for ends the session. The failures
/// of a retried run are not offered again.
pub open spec fn next_step(stage: StageModel, event: EventModel, table: Seq<(Seq<char>, bool)>) -> (
    StageModel,
    ActionModel,
) {
    match (stage, event) {
        (StageModel::FirstPass, EventModel::RunEnded(errors)) => after_first_pass(errors, table),
        (StageModel::AwaitingChoice { offered }, EventModel::Chosen(selection)) => launch_next(
            retry_targets(offered, selection),
            0,
        ),
        (StageModel::Retrying { targets, next }, EventModel::RunEnded(_)) => launch_next(
            targets,
            next,
        ),
        _ => (StageModel::Finished, ActionModel::Stop),
    }
}

/// Starts the next retry, if one is left.
fn launch(targets: Vec<String>, next: usize) -> (r: (Stage, Action))
    ensures
        (r.0@, r.1@) == launch_next(string_views(targets@), next as nat),
{
    if next < targets.len() {
        let item = targets[next].clone();
        (Stage::Retrying { targets, next: next + 1 }, Action::Launch { item })
    } else {
        (Stage::Finished, Action::Stop)
    }
}

/// Moves a session on by one event and says what to do next.
pub fn run_and_observe(stage: Stage, event: Event, table: &ErrorTable) -> (r: (Stage, Action))
    ensures
        (r.0@, r.1@) == next_step(stage@, event@, table@),
{
    match (stage, event) {
        (Stage::FirstPass, Event::RunEnded(None)) => (Stage::Finished, Action::Stop),
        (Stage::FirstPass, Event::RunEnded(Some(errors))) => {
            if errors.len() == 0 {
                return (Stage::Finished, Action::Stop);
            }
            let menu = ask_for_redownload(&errors, table);
            if menu.needs_prompt() {
                (
                    Stage::AwaitingChoice { offered: menu.recoverable },
                    Action::Ask { unrecoverable: menu.unrecoverable, options: menu.options },
                )
            } else {
                (Stage::Finished, Action::Report { unrecoverable: menu.unrecoverable })
            }
        },
        (Stage::AwaitingChoice { offered }, Event::Chosen(selection)) => {
            let targets = resolve_retries(&offered, &selection);
            launch(targets, 0)
        },
        (Stage::Retrying { targets, next }, Event::RunEnded(_)) => launch(targets, next),
        _ => (Stage::Finished, Action::Stop),
    }
}

} // verus!
