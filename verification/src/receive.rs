//! The course of one journaling session, as a sequence of decisions: where
//! the prompt comes from, what the editor is opened with, and whether the
//! edited text may be stored. The caller does what each step asks for and
//! reports back what happened.

use vstd::prelude::*;
use vstd::string::StringExecFns;
use crate::clock::{display_pattern, timestamp_text, utc_text, valid_time};
use crate::text::{clean_edited_text, cleaned, trim_text, trimmed};

verus! {

/// Where the prompt of a session came from.
#[derive(Clone, Copy, Debug, PartialEq, Eq, Structural)]
pub enum PromptOrigin {
    /// The user asked to type it.
    Manual,
    /// The generator supplied it.
    Generated,
    /// The generator failed and the user typed it instead.
    Fallback,
}

/// Why a session ended without an entry.
#[derive(Clone, Copy, Debug, PartialEq, Eq, Structural)]
pub enum ReceiveError {
    /// The prompt was empty.
    EmptyPrompt,
    /// The response was empty once its comment lines were gone.
    EmptyResponse,
    /// The current time cannot be stored.
    ClockOutOfRange,
    /// Something was reported that the session was not waiting for.
    OutOfTurn,
}

/// What a session is waiting for.
#[derive(Debug)]
pub enum ReceiveState {
    AwaitingGenerated,
    AwaitingTyped { degraded: bool },
    AwaitingResponse { prompt: String, origin: PromptOrigin },
    Closed,
}

/// What happened outside.
#[derive(Debug)]
pub enum ReceiveEvent {
    Generated(String),
    GenerationFailed,
    Typed(String),
    Edited(String),
}

/// What the caller is to do next.
#[derive(Debug)]
pub enum ReceiveAction {
    Generate,
    AskPrompt { degraded: bool },
    OpenEditor { template: String },
    Commit { prompt: String, response: String, origin: PromptOrigin },
    Fail(ReceiveError),
}

pub enum StateView {
    AwaitingGenerated,
    AwaitingTyped { degraded: bool },
    AwaitingResponse { prompt: Seq<char>, origin: PromptOrigin },
    Closed,
}

pub enum EventView {
    Generated(Seq<char>),
    GenerationFailed,
    Typed(Seq<char>),
    Edited(Seq<char>),
}

pub enum ActionView {
    Generate,
    AskPrompt { degraded: bool },
    OpenEditor { template: Seq<char> },
    Commit { prompt: Seq<char>, response: Seq<char>, origin: PromptOrigin },
    Fail(ReceiveError),
}

impl View for ReceiveState {
    type V = StateView;

    open spec fn view(&self) -> StateView {
        match *self {
            ReceiveState::AwaitingGenerated => StateView::AwaitingGenerated,
            ReceiveState::AwaitingTyped { degraded } => StateView::AwaitingTyped { degraded },
            ReceiveState::AwaitingResponse { prompt, origin } => StateView::AwaitingResponse {
                prompt: prompt@,
                origin,
            },
            ReceiveState::Closed => StateView::Closed,
        }
    }
}

impl View for ReceiveEvent {
    type V = EventView;

    open spec fn view(&self) -> EventView {
        match *self {
            ReceiveEvent::Generated(p) => EventView::Generated(p@),
            ReceiveEvent::GenerationFailed => EventView::GenerationFailed,
            ReceiveEvent::Typed(p) => EventView::Typed(p@),
            ReceiveEvent::Edited(t) => EventView::Edited(t@),
        }
    }
}

impl View for ReceiveAction {
    type V = ActionView;

    open spec fn view(&self) -> ActionView {
        match *self {
            ReceiveAction::Generate => ActionView::Generate,
            ReceiveAction::AskPrompt { degraded } => ActionView::AskPrompt { degraded },
            ReceiveAction::OpenEditor { template } => ActionView::OpenEditor {
                template: template@,
            },
            ReceiveAction::Commit { prompt, response, origin } => ActionView::Commit {
                prompt: prompt@,
                response: response@,
                origin,
            },
            ReceiveAction::Fail(e) => ActionView::Fail(e),
        }
    }
}

/// What the editor is opened with for `prompt` on the date `date`.
pub open spec fn template_text(prompt: Seq<char>, date: Seq<char>) -> Seq<char> {
    "# Creative Response Entry\n# Disruption: "@ + prompt + "\n# Date: "@ + date
        + "\n#\n# Let the strangeness work through you...\n# Lines starting with # will be ignored\n\n"@
}

/// How a session starts: with a typed prompt where the user asked for it,
/// with a generated one otherwise.
pub open spec fn first_step(manual: bool) -> (StateView, ActionView) {
    if manual {
        (StateView::AwaitingTyped { degraded: false }, ActionView::AskPrompt { degraded: false })
    } else {
        (StateView::AwaitingGenerated, ActionView::Generate)
    }
}

/// What follows when the prompt `raw` has arrived from `origin` at instant
/// `now`: the prompt is trimmed; an empty one ends the session, any other
/// opens the editor.
pub open spec fn with_prompt(raw: Seq<char>, origin: PromptOrigin, now: int) -> (
    StateView,
    ActionView,
) {
    let prompt = trimmed(raw);
    if prompt.len() == 0 {
        (StateView::Closed, ActionView::Fail(ReceiveError::EmptyPrompt))
    } else if !valid_time(now) {
        (StateView::Closed, ActionView::Fail(ReceiveError::ClockOutOfRange))
    } else {
        (
            StateView::AwaitingResponse { prompt, origin },
            ActionView::OpenEditor { template: template_text(prompt, utc_text(now, display_pattern())) },
        )
    }
}

/// What follows on `event` in `state` at instant `now`. A failed generation
/// falls back to a typed prompt. The edited text is stored unless nothing
/// is left of it without its comment lines. Whatever was not waited for
/// ends the session.
pub open spec fn next_step(state: StateView, event: EventView, now: int) -> (
    StateView,
    ActionView,
) {
    match (state, event) {
        (StateView::AwaitingGenerated, EventView::Generated(raw)) => with_prompt(
            raw,
            PromptOrigin::Generated,
            now,
        ),
        (StateView::AwaitingGenerated, EventView::GenerationFailed) => (
            StateView::AwaitingTyped { degraded: true },
            ActionView::AskPrompt { degraded: true },
        ),
        (StateView::AwaitingTyped { degraded }, EventView::Typed(raw)) => with_prompt(
            raw,
            if degraded {
                PromptOrigin::Fallback
            } else {
                PromptOrigin::Manual
            },
            now,
        ),
        (StateView::AwaitingResponse { prompt, origin }, EventView::Edited(text)) => {
            let response = cleaned(text);
            if response.len() == 0 {
                (StateView::Closed, ActionView::Fail(ReceiveError::EmptyResponse))
            } else {
                (StateView::Closed, ActionView::Commit { prompt, response, origin })
            }
        },
        _ => (StateView::Closed, ActionView::Fail(ReceiveError::OutOfTurn)),
    }
}

/// Puts the editor template together.
pub fn response_template(prompt: &str, date: &str) -> (r: String)
    ensures
        r@ == template_text(prompt@, date@),
{
    let mut r = String::new();
    r.append("# Creative Response Entry\n# Disruption: ");
    r.append(prompt);
    r.append("\n# Date: ");
    r.append(date);
    r.append(
        "\n#\n# Let the strangeness work through you...\n# Lines starting with # will be ignored\n\n",
    );
    assert(r@ =~= template_text(prompt@, date@));
    r
}

/// Starts a session.
pub fn begin_receive(manual: bool) -> (r: (ReceiveState, ReceiveAction))
    ensures
        (r.0@, r.1@) == first_step(manual),
{
    if manual {
        (ReceiveState::AwaitingTyped { degraded: false }, ReceiveAction::AskPrompt { degraded: false })
    } else {
        (ReceiveState::AwaitingGenerated, ReceiveAction::Generate)
    }
}

/// Takes a prompt that has arrived.
fn accept_prompt(raw: &str, origin: PromptOrigin, now: i64) -> (r: (ReceiveState, ReceiveAction))
    ensures
        (r.0@, r.1@) == with_prompt(raw@, origin, now as int),
{
    let prompt = trim_text(raw);
    if prompt.as_str().is_empty() {
        return (ReceiveState::Closed, ReceiveAction::Fail(ReceiveError::EmptyPrompt));
    }
    match timestamp_text(now) {
        Some(date) => {
            let template = response_template(prompt.as_str(), date.as_str());
            (ReceiveState::AwaitingResponse { prompt, origin }, ReceiveAction::OpenEditor { template })
        },
        None => (ReceiveState::Closed, ReceiveAction::Fail(ReceiveError::ClockOutOfRange)),
    }
}

/// Decides what follows on `event` in `state` at instant `now`.
pub fn receive_step(state: ReceiveState, event: ReceiveEvent, now: i64) -> (r: (
    ReceiveState,
    ReceiveAction,
))
    ensures
        (r.0@, r.1@) == next_step(state@, event@, now as int),
{
    match state {
        ReceiveState::AwaitingGenerated => match event {
            ReceiveEvent::Generated(raw) => accept_prompt(raw.as_str(), PromptOrigin::Generated, now),
            ReceiveEvent::GenerationFailed => (
                ReceiveState::AwaitingTyped { degraded: true },
                ReceiveAction::AskPrompt { degraded: true },
            ),
            _ => (ReceiveState::Closed, ReceiveAction::Fail(ReceiveError::OutOfTurn)),
        },
        ReceiveState::AwaitingTyped { degraded } => match event {
            ReceiveEvent::Typed(raw) => {
                let origin = if degraded {
                    PromptOrigin::Fallback
                } else {
                    PromptOrigin::Manual
                };
                accept_prompt(raw.as_str(), origin, now)
            },
            _ => (ReceiveState::Closed, ReceiveAction::Fail(ReceiveError::OutOfTurn)),
        },
        ReceiveState::AwaitingResponse { prompt, origin } => match event {
            ReceiveEvent::Edited(text) => {
                let response = clean_edited_text(text.as_str());
                if response.as_str().is_empty() {
                    (ReceiveState::Closed, ReceiveAction::Fail(ReceiveError::EmptyResponse))
                } else {
                    (ReceiveState::Closed, ReceiveAction::Commit { prompt, response, origin })
                }
            },
            _ => (ReceiveState::Closed, ReceiveAction::Fail(ReceiveError::OutOfTurn)),
        },
        ReceiveState::Closed => (ReceiveState::Closed, ReceiveAction::Fail(ReceiveError::OutOfTurn)),
    }
}

} // verus!
