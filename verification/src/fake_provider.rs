//! Scripts that stand in for a model, and the limits that they keep.

use crate::io_failure::{IoFailure, IoFailureView};
use crate::model;
use crate::model::{no_extensions, ExtensionsView, ModelStreamEvent, StreamEventView};
use crate::text;
use crate::text::{concat2, concat3, decimal};
use vstd::prelude::*;

verus! {

/// The longest script, in bytes.
pub const MAX_SCRIPT_BYTES: u64 = 8388608;

/// The most turns of a script.
pub const MAX_SCRIPT_TURNS: usize = 128;

/// The most events of one turn.
pub const MAX_EVENTS_PER_TURN: usize = 4096;

/// The most events of a script.
pub const MAX_SCRIPT_EVENTS: usize = 16384;

/// Why a script cannot be used.
#[derive(Clone, Debug, PartialEq, Eq)]
pub enum FakeProviderError {
    Read { path: String, source: IoFailure },
    /// The script is not of the right form.
    Decode { path: String, message: String },
    Empty { path: String },
    Limit { path: String, message: String },
}

/// The mathematical value of a [`FakeProviderError`].
pub enum ProviderErrorView {
    Read { path: Seq<char>, source: IoFailureView },
    Decode { path: Seq<char>, message: Seq<char> },
    Empty { path: Seq<char> },
    Limit { path: Seq<char>, message: Seq<char> },
}

impl View for FakeProviderError {
    type V = ProviderErrorView;

    open spec fn view(&self) -> ProviderErrorView {
        match *self {
            FakeProviderError::Read { path, source } => ProviderErrorView::Read {
                path: path@,
                source: source@,
            },
            FakeProviderError::Decode { path, message } => ProviderErrorView::Decode {
                path: path@,
                message: message@,
            },
            FakeProviderError::Empty { path } => ProviderErrorView::Empty { path: path@ },
            FakeProviderError::Limit { path, message } => ProviderErrorView::Limit {
                path: path@,
                message: message@,
            },
        }
    }
}

impl ProviderErrorView {
    pub open spec fn message(self) -> Seq<char> {
        match self {
            ProviderErrorView::Read { path, source } => "failed to read fake-provider script '"@
                + path + "': "@ + source.message,
            ProviderErrorView::Decode { path, message } => {
                "failed to decode fake-provider script '"@ + path + "': "@ + message
            },
            ProviderErrorView::Empty { path } => "fake-provider script '"@ + path
                + "' must contain at least one turn"@,
            ProviderErrorView::Limit { path, message } => "fake-provider script '"@ + path
                + "' is too large: "@ + message,
        }
    }
}

impl FakeProviderError {
    /// The error in words.
    pub fn message(&self) -> (message: String)
        ensures
            message@ == self@.message(),
    {
        match self {
            FakeProviderError::Read { path, source } => {
                let beginning = concat3(
                    "failed to read fake-provider script '",
                    path.as_str(),
                    "': ",
                );
                concat2(beginning.as_str(), source.message.as_str())
            },
            FakeProviderError::Decode { path, message } => {
                let beginning = concat3(
                    "failed to decode fake-provider script '",
                    path.as_str(),
                    "': ",
                );
                concat2(beginning.as_str(), message.as_str())
            },
            FakeProviderError::Empty { path } => concat3(
                "fake-provider script '",
                path.as_str(),
                "' must contain at least one turn",
            ),
            FakeProviderError::Limit { path, message } => {
                let beginning = concat3("fake-provider script '", path.as_str(), "' is too large: ");
                concat2(beginning.as_str(), message.as_str())
            },
        }
    }

    /// Whether another failure is behind the error.
    pub fn has_source(&self) -> (result: bool)
        ensures
            result == (self@ is Read || self@ is Decode),
    {
        matches!(self, FakeProviderError::Read { .. } | FakeProviderError::Decode { .. })
    }
}

/// The values of a sequence of events.
pub open spec fn event_views(events: Seq<ModelStreamEvent>) -> Seq<StreamEventView> {
    events.map_values(|event: ModelStreamEvent| event@)
}

/// The turn of a model without a script: it says what it was asked.
pub fn unscripted_turn(prompt: &str) -> (events: Vec<ModelStreamEvent>)
    ensures
        event_views(events@) == seq![
            StreamEventView::TextDelta {
                delta: "Fake provider response for: "@ + prompt@,
                extensions: ExtensionsView::empty(),
            },
            StreamEventView::Completed {
                finish_reason: Some("stop"@),
                extensions: ExtensionsView::empty(),
            },
        ],
{
    let mut events: Vec<ModelStreamEvent> = Vec::new();
    events.push(
        ModelStreamEvent::TextDelta {
            delta: concat2("Fake provider response for: ", prompt),
            extensions: no_extensions(),
        },
    );
    events.push(
        ModelStreamEvent::Completed {
            finish_reason: Some("stop".to_owned()),
            extensions: no_extensions(),
        },
    );
    assert(event_views(events@) =~= seq![
        StreamEventView::TextDelta {
            delta: "Fake provider response for: "@ + prompt@,
            extensions: ExtensionsView::empty(),
        },
        StreamEventView::Completed { finish_reason: Some("stop"@), extensions: ExtensionsView::empty() },
    ]);
    events
}

/// Fails where a script is too long. `length` is how much of it was read, which
/// is one byte more than the limit where there is more.
pub fn check_script_length(path: &str, length: u64) -> (result: Result<(), FakeProviderError>)
    ensures
        length <= MAX_SCRIPT_BYTES ==> result == Ok::<(), FakeProviderError>(()),
        length > MAX_SCRIPT_BYTES ==> (result matches Err(error) && error@ == (
        ProviderErrorView::Limit { path: path@, message: "script exceeds 8388608 bytes"@ })),
{
    if length > MAX_SCRIPT_BYTES {
        return Err(
            FakeProviderError::Limit {
                path: path.to_owned(),
                message: "script exceeds 8388608 bytes".to_owned(),
            },
        );
    }
    Ok(())
}

/// The lengths of the turns of a script.
pub open spec fn turn_lengths(turns: Seq<Vec<ModelStreamEvent>>) -> Seq<nat> {
    turns.map_values(|turn: Vec<ModelStreamEvent>| turn@.len())
}

/// The events of the first `count` turns.
pub open spec fn events_up_to(lengths: Seq<nat>, count: int) -> nat
    decreases count,
{
    if count <= 0 {
        0
    } else {
        events_up_to(lengths, count - 1) + lengths[count - 1]
    }
}

/// Why the turns from `at` on break a limit, where they do.
pub open spec fn turn_limit(lengths: Seq<nat>, at: int) -> Option<Seq<char>>
    decreases lengths.len() - at,
{
    if at < 0 || at >= lengths.len() {
        None
    } else if lengths[at] > MAX_EVENTS_PER_TURN {
        Some(
            "turn "@ + text::decimal_text((at + 1) as nat) + " exceeds 4096 model events"@,
        )
    } else if events_up_to(lengths, at + 1) > MAX_SCRIPT_EVENTS {
        Some("script exceeds 16384 total model events"@)
    } else {
        turn_limit(lengths, at + 1)
    }
}

/// Why a script cannot be used, where it cannot.
pub open spec fn script_error(path: Seq<char>, lengths: Seq<nat>) -> Option<ProviderErrorView> {
    if lengths.len() == 0 {
        Some(ProviderErrorView::Empty { path })
    } else if lengths.len() > MAX_SCRIPT_TURNS {
        Some(ProviderErrorView::Limit { path, message: "script exceeds 128 turns"@ })
    } else {
        match turn_limit(lengths, 0) {
            Some(message) => Some(ProviderErrorView::Limit { path, message }),
            None => None,
        }
    }
}

/// Fails where a script cannot be used.
pub fn validate(path: &str, turns: &Vec<Vec<ModelStreamEvent>>) -> (result: Result<
    (),
    FakeProviderError,
>)
    ensures
        match result {
            Ok(()) => script_error(path@, turn_lengths(turns@)) is None,
            Err(error) => script_error(path@, turn_lengths(turns@)) == Some(error@),
        },
{
    let ghost lengths = turn_lengths(turns@);
    assert(lengths.len() == turns@.len());
    let count: usize = turns.len();
    if count == 0 {
        return Err(FakeProviderError::Empty { path: path.to_owned() });
    }
    if count > MAX_SCRIPT_TURNS {
        return Err(
            FakeProviderError::Limit {
                path: path.to_owned(),
                message: "script exceeds 128 turns".to_owned(),
            },
        );
    }
    let mut total: usize = 0;
    let mut index: usize = 0;
    while index < count
        invariant
            index <= count <= MAX_SCRIPT_TURNS,
            count == turns@.len(),
            lengths == turn_lengths(turns@),
            lengths.len() == turns@.len(),
            count > 0,
            total == events_up_to(lengths, index as int),
            total <= MAX_SCRIPT_EVENTS,
            turn_limit(lengths, 0) == turn_limit(lengths, index as int),
        decreases count - index,
    {
        assert(lengths[index as int] == turns@[index as int]@.len());
        let events: usize = turns[index].len();
        if events > MAX_EVENTS_PER_TURN {
            let number = decimal((index + 1) as u128);
            return Err(
                FakeProviderError::Limit {
                    path: path.to_owned(),
                    message: concat3("turn ", number.as_str(), " exceeds 4096 model events"),
                },
            );
        }
        total = total + events;
        index = index + 1;
        if total > MAX_SCRIPT_EVENTS {
            return Err(
                FakeProviderError::Limit {
                    path: path.to_owned(),
                    message: "script exceeds 16384 total model events".to_owned(),
                },
            );
        }
    }
    Ok(())
}

proof fn lemma_turns_keep_the_limits(lengths: Seq<nat>, at: int)
    requires
        0 <= at <= lengths.len(),
        turn_limit(lengths, at) is None,
        events_up_to(lengths, at) <= MAX_SCRIPT_EVENTS,
    ensures
        forall|i: int| at <= i < lengths.len() ==> (#[trigger] lengths[i]) <= MAX_EVENTS_PER_TURN,
        events_up_to(lengths, lengths.len() as int) <= MAX_SCRIPT_EVENTS,
    decreases lengths.len() - at,
{
    if at < lengths.len() {
        lemma_turns_keep_the_limits(lengths, at + 1);
    }
}

/// A script that is used has some turns, but no more than it may, and no turn
/// nor the whole of it has more events than it may.
pub proof fn law_accepted_scripts_keep_the_limits(path: Seq<char>, lengths: Seq<nat>)
    requires
        script_error(path, lengths) is None,
    ensures
        1 <= lengths.len() <= MAX_SCRIPT_TURNS,
        forall|i: int| 0 <= i < lengths.len() ==> (#[trigger] lengths[i]) <= MAX_EVENTS_PER_TURN,
        events_up_to(lengths, lengths.len() as int) <= MAX_SCRIPT_EVENTS,
{
    lemma_turns_keep_the_limits(lengths, 0);
}

} // verus!
