//! The spectrum stream that the server sends to a client.

use vstd::prelude::*;

verus! {

/// The answer to a client that sent a configuration.
pub const UPDATED: &'static str = "Config updated successfully!";

/// What happened on the stream to a client.
#[derive(Clone, Copy, Debug, PartialEq, Eq, Structural)]
pub enum FeedEvent {
    /// A spectrum came.
    Frame,
    /// Spectra were skipped, as the client is slow.
    Lagged,
    /// No more spectra will come.
    Closed,
    /// A spectrum was sent.
    Sent,
    /// The client is gone.
    SendFailed,
}

/// What to do next on the stream to a client.
#[derive(Clone, Copy, Debug, PartialEq, Eq, Structural)]
pub enum FeedStep {
    /// Wait for the next spectrum.
    Receive,
    /// Send the spectrum that came.
    Send,
    /// End the stream.
    Stop,
}

/// What to do after an event.
pub fn feed_step(event: FeedEvent) -> (r: FeedStep)
    ensures
        r == FeedStep::Send <==> event == FeedEvent::Frame,
        r == FeedStep::Receive <==> event == FeedEvent::Lagged || event == FeedEvent::Sent,
        r == FeedStep::Stop <==> event == FeedEvent::Closed || event == FeedEvent::SendFailed,
{
    match event {
        FeedEvent::Frame => FeedStep::Send,
        FeedEvent::Lagged | FeedEvent::Sent => FeedStep::Receive,
        FeedEvent::Closed | FeedEvent::SendFailed => FeedStep::Stop,
    }
}

} // verus!
