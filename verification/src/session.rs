//! What to do with a frame that arrives on a connection. The caller owns the
//! connections: it reads a frame, asks here, and carries out the answer.

use vstd::prelude::*;
use crate::candle::{Tick, TickView};
use crate::provider::{parse_candle, tick_of_provider_message};

verus! {

/// A frame read from the provider's stream.
#[derive(Debug, PartialEq, Eq)]
pub enum ProviderFrame {
    /// A text message.
    Text(String),
    /// A ping with its payload.
    Ping(Vec<u8>),
    /// Any other frame that was read without error.
    Other,
    /// Reading failed.
    Failed,
}

/// What to do after a frame of the provider.
#[derive(Debug, PartialEq, Eq)]
pub enum ProviderStep {
    /// Hand the tick to the engine, then read on.
    Ingest(Tick),
    /// The text describes no tick: drop it and read on.
    Discard,
    /// Answer with a pong of the same payload, then read on.
    Pong(Vec<u8>),
    /// Read on.
    Ignore,
    /// Stop reading.
    Stop,
}

/// The mathematical content of a [`ProviderStep`].
pub enum ProviderStepView {
    Ingest(TickView),
    Discard,
    Pong(Seq<u8>),
    Ignore,
    Stop,
}

impl View for ProviderStep {
    type V = ProviderStepView;

    open spec fn view(&self) -> ProviderStepView {
        match self {
            ProviderStep::Ingest(tick) => ProviderStepView::Ingest(tick@),
            ProviderStep::Discard => ProviderStepView::Discard,
            ProviderStep::Pong(payload) => ProviderStepView::Pong(payload@),
            ProviderStep::Ignore => ProviderStepView::Ignore,
            ProviderStep::Stop => ProviderStepView::Stop,
        }
    }
}

/// A frame read from a subscriber's connection.
#[derive(Clone, Copy, Debug, PartialEq, Eq, Structural)]
pub enum ClientFrame {
    /// A text message.
    Text,
    /// The subscriber closes the connection.
    Close,
    /// Any other frame that was read without error.
    Other,
    /// Reading failed.
    Failed,
}

/// What to do after a frame of a subscriber. Either way the subscriber is
/// unregistered and its connection is given up: subscribers only listen.
#[derive(Clone, Copy, Debug, PartialEq, Eq, Structural)]
pub enum ClientStep {
    /// Tell the subscriber that messages are not accepted, then leave.
    Reject,
    /// Leave without a word.
    Leave,
}

/// What a subscriber is told when it sends a message.
pub fn rejection_notice() -> (notice: &'static str)
    ensures
        notice@ == "You can't send messages to this server"@,
{
    "You can't send messages to this server"
}

/// What to do after a frame of the named provider.
pub open spec fn provider_step_of(provider: Seq<char>, frame: ProviderFrame) -> ProviderStepView {
    match frame {
        ProviderFrame::Text(text) => match tick_of_provider_message(text@, provider) {
            Some(tick) => ProviderStepView::Ingest(tick),
            None => ProviderStepView::Discard,
        },
        ProviderFrame::Ping(payload) => ProviderStepView::Pong(payload@),
        ProviderFrame::Other => ProviderStepView::Ignore,
        ProviderFrame::Failed => ProviderStepView::Stop,
    }
}

/// Decides what to do after a frame of the named provider: a text is read
/// into a tick and dropped where it describes none, a ping is answered,
/// a failure ends the reading, anything else is passed over.
pub fn provider_step(provider: &str, frame: ProviderFrame) -> (step: ProviderStep)
    ensures
        step@ == provider_step_of(provider@, frame),
{
    match frame {
        ProviderFrame::Text(text) => match parse_candle(text.as_str(), provider) {
            Some(tick) => ProviderStep::Ingest(tick),
            None => ProviderStep::Discard,
        },
        ProviderFrame::Ping(payload) => ProviderStep::Pong(payload),
        ProviderFrame::Other => ProviderStep::Ignore,
        ProviderFrame::Failed => ProviderStep::Stop,
    }
}

/// What to do after a frame of a subscriber.
pub open spec fn client_step_of(frame: ClientFrame) -> ClientStep {
    match frame {
        ClientFrame::Close => ClientStep::Leave,
        ClientFrame::Failed => ClientStep::Leave,
        ClientFrame::Text => ClientStep::Reject,
        ClientFrame::Other => ClientStep::Reject,
    }
}

/// Decides what to do after a frame of a subscriber: whatever it sends is
/// rejected with a notice, and after any frame the connection is given up.
pub fn client_step(frame: ClientFrame) -> (step: ClientStep)
    ensures
        step == client_step_of(frame),
{
    match frame {
        ClientFrame::Close => ClientStep::Leave,
        ClientFrame::Failed => ClientStep::Leave,
        ClientFrame::Text => ClientStep::Reject,
        ClientFrame::Other => ClientStep::Reject,
    }
}

} // verus!
