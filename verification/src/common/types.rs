use vstd::prelude::*;

verus! {

/// The services that take part in the bot.
#[derive(Copy, Clone, Debug, PartialEq, Eq, Structural)]
pub enum Services {
    Irc,
    Command,
    Broadcaster,
}

/// A chat line as the command service reads it.
#[derive(Clone, Debug)]
pub struct PrivateMessage {
    /// The server's time stamp of the line, as text.
    pub server_timestamp: String,
    /// Login name of the chatter who wrote the line.
    pub login: String,
    /// What the chatter wrote.
    pub message_text: String,
}

/// A message received from the chat server.
#[derive(Clone, Debug)]
pub enum IrcMessage {
    /// A line written in the channel.
    Privmsg(PrivateMessage),
    /// Any other server message (joins, pings, notices, ...).
    Other,
}

/// A service and the channel on which it listens. The channel is known by the
/// number that the application gave its sending end.
#[derive(Copy, Clone, Debug, PartialEq, Eq, Structural)]
pub struct ServiceSender {
    pub service: Services,
    pub sender: u64,
}

/// What a broadcast message carries.
#[derive(Clone, Debug)]
pub enum MessageContent {
    /// A line of text to say in the chat.
    String(String),
    /// A message that came from the chat server.
    ServerMessage(IrcMessage),
    /// A service asking to receive broadcasts.
    AddService(ServiceSender),
}

/// A message sent through the broadcaster.
#[derive(Clone, Debug)]
pub struct BroadcastMessage {
    /// Milliseconds since the Unix epoch when the message was made.
    pub timestamp: u64,
    pub sender: Services,
    pub raw_message: MessageContent,
    pub to: Option<Services>,
}

/// Marker for the chat connection service.
pub struct Irc;

/// Marker for the command service.
pub struct Command;

/// Marker for the broadcaster service.
pub struct Broadcaster;

} // verus!
