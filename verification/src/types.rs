//! Message types whose content is tagged by its kind only.
use vstd::prelude::*;

verus! {

/// The services that take part in the bot.
#[derive(Copy, Clone, Debug, PartialEq, Eq, Structural)]
pub enum Services {
    Irc,
    Command,
    Broadcaster,
}

/// A broadcast message whose content is only tagged with its kind.
#[derive(Clone, Debug)]
pub struct BroadcastMessage {
    timestamp: u64,
    sender: Services,
    raw_message: MessageContent,
    to: Option<Services>,
}

/// The kinds of content a broadcast message may carry.
#[derive(Copy, Clone, Debug, PartialEq, Eq, Structural)]
pub enum MessageContent {
    String,
    ServerMessage,
}

} // verus!
