//! The chat connection service: what it logs, forwards and says.
use vstd::prelude::*;
use twitch_irc::login::StaticLoginCredentials;
use crate::common::helpers::{current_timestamp, is_clock_timestamp};
use crate::common::types::{BroadcastMessage, IrcMessage, MessageContent, ServiceSender, Services};
use crate::text::{decimal, decimal_string};

verus! {

/// The login name and token the chat client logs in with.
#[derive(Clone, Debug)]
pub struct LoginCredentials {
    pub login: String,
    /// OAuth token without the `oauth:` prefix; `None` for anonymous login.
    pub token: Option<String>,
}

/// Calls `StaticLoginCredentials::anonymous`, whose source makes the login
/// `justinfan12345` with no token, and hands out its two fields.
#[verifier::external_body]
fn anonymous_credentials() -> (c: LoginCredentials)
    ensures
        c.login@ == "justinfan12345"@,
        c.token is None,
{
    let anonymous = StaticLoginCredentials::anonymous();
    LoginCredentials { login: anonymous.credentials.login, token: anonymous.credentials.token }
}

/// The credentials to log in with: the given user and token when both are
/// set, else Twitch's anonymous login (the one `ClientConfig::default` uses).
pub fn get_auth_credentials(username: Option<String>, token: Option<String>) -> (c: LoginCredentials)
    ensures
        match (username, token) {
            (Some(u), Some(t)) => c.login == u && c.token == Some(t),
            _ => c.login@ == "justinfan12345"@ && c.token is None,
        },
{
    match (username, token) {
        (Some(u), Some(t)) => LoginCredentials { login: u, token: Some(t) },
        _ => anonymous_credentials(),
    }
}

/// The name of the chat log file: `<timestamp>_<channel>_irc.log`.
pub open spec fn log_file_name_text(timestamp: u64, channel: Seq<char>) -> Seq<char> {
    decimal(timestamp as nat) + "_"@ + channel + "_irc.log"@
}

/// The line a chat message adds to the log: time stamp, login and text,
/// separated by spaces and ended by a space and a newline.
pub open spec fn log_line_text(timestamp: Seq<char>, login: Seq<char>, text: Seq<char>) -> Seq<char> {
    timestamp + " "@ + login + " "@ + text + " \n"@
}

/// The log line holds the whole time stamp, login and text, whatever their
/// lengths: the time stamp first, then a space, the login, a space, the text,
/// and a space and a newline, and nothing else.
pub proof fn lemma_log_line_keeps_every_field(timestamp: Seq<char>, login: Seq<char>, text: Seq<char>)
    ensures
        log_line_text(timestamp, login, text) == timestamp + " "@ + login + " "@ + text + " \n"@,
        log_line_text(timestamp, login, text).len() == timestamp.len() + login.len() + text.len() + 4,
        log_line_text(timestamp, login, text).subrange(0, timestamp.len() as int) == timestamp,
        log_line_text(timestamp, login, text)[timestamp.len() as int] == ' ',
        log_line_text(timestamp, login, text).subrange(
            (timestamp.len() + 1) as int,
            (timestamp.len() + 1 + login.len()) as int,
        ) == login,
        log_line_text(timestamp, login, text)[(timestamp.len() + 1 + login.len()) as int] == ' ',
        log_line_text(timestamp, login, text).subrange(
            (timestamp.len() + login.len() + 2) as int,
            (timestamp.len() + login.len() + 2 + text.len()) as int,
        ) == text,
{
    reveal_strlit(" ");
    reveal_strlit(" \n");
    let line = log_line_text(timestamp, login, text);
    let a = timestamp.len() as int;
    let b = a + 1 + login.len();
    assert(line.subrange(0, a) =~= timestamp);
    assert(line.subrange(a + 1, b) =~= login);
    assert(line.subrange(b + 1, b + 1 + text.len()) =~= text);
}

/// The log file name holds the whole time stamp in decimal and the whole
/// channel name, whatever their lengths: the time stamp, an underscore, the
/// channel and `_irc.log`.
pub proof fn lemma_log_file_name_keeps_channel(timestamp: u64, channel: Seq<char>)
    ensures
        log_file_name_text(timestamp, channel) == decimal(timestamp as nat) + "_"@ + channel
            + "_irc.log"@,
        log_file_name_text(timestamp, channel).len() == decimal(timestamp as nat).len()
            + channel.len() + 9,
        log_file_name_text(timestamp, channel).subrange(0, decimal(timestamp as nat).len() as int)
            == decimal(timestamp as nat),
        log_file_name_text(timestamp, channel).subrange(
            (decimal(timestamp as nat).len() + 1) as int,
            (decimal(timestamp as nat).len() + 1 + channel.len()) as int,
        ) == channel,
{
    reveal_strlit("_");
    reveal_strlit("_irc.log");
    let name = log_file_name_text(timestamp, channel);
    let d = decimal(timestamp as nat);
    assert(name.subrange(0, d.len() as int) =~= d);
    assert(name.subrange((d.len() + 1) as int, (d.len() + 1 + channel.len()) as int) =~= channel);
}

/// The name of the file the chat of `channel` is logged to, for a connection
/// made at `timestamp`.
pub fn log_file_name(timestamp: u64, channel: &str) -> (name: String)
    ensures
        name@ == log_file_name_text(timestamp, channel@),
{
    let mut name = decimal_string(timestamp as u128);
    name.append("_");
    name.append(channel);
    name.append("_irc.log");
    name
}

/// The log line for a message from the chat server: chat lines are logged,
/// other server messages are not.
pub fn log_line(message: &IrcMessage) -> (line: Option<String>)
    ensures
        match message {
            IrcMessage::Privmsg(p) => line matches Some(l) && l@ == log_line_text(
                p.server_timestamp@,
                p.login@,
                p.message_text@,
            ),
            IrcMessage::Other => line is None,
        },
{
    match message {
        IrcMessage::Privmsg(p) => {
            let mut line = String::from_str(p.server_timestamp.as_str());
            line.append(" ");
            line.append(p.login.as_str());
            line.append(" ");
            line.append(p.message_text.as_str());
            line.append(" \n");
            Some(line)
        },
        IrcMessage::Other => None,
    }
}

/// Wraps a message from the chat server for the broadcaster.
pub fn build_broadcast_message(message: IrcMessage, to: Option<Services>) -> (m: BroadcastMessage)
    ensures
        is_clock_timestamp(m.timestamp),
        m.sender == Services::Irc,
        m.raw_message == MessageContent::ServerMessage(message),
        m.to == to,
{
    BroadcastMessage {
        timestamp: current_timestamp(),
        sender: Services::Irc,
        raw_message: MessageContent::ServerMessage(message),
        to: to,
    }
}

/// The message with which the chat connection registers the channel `sender`
/// with the broadcaster.
pub fn add_service(sender: u64) -> (m: BroadcastMessage)
    ensures
        is_clock_timestamp(m.timestamp),
        m.sender == Services::Irc,
        m.raw_message == MessageContent::AddService(ServiceSender { service: Services::Irc, sender }),
        m.to == Some(Services::Broadcaster),
{
    BroadcastMessage {
        timestamp: current_timestamp(),
        sender: Services::Irc,
        raw_message: MessageContent::AddService(ServiceSender { service: Services::Irc, sender }),
        to: Some(Services::Broadcaster),
    }
}

/// What the chat connection says for a message from the broadcaster: the
/// text of a text message; nothing for any other message.
pub fn chat_text(data: BroadcastMessage) -> (text: Option<String>)
    ensures
        match data.raw_message {
            MessageContent::String(s) => text == Some(s),
            _ => text is None,
        },
{
    match data.raw_message {
        MessageContent::String(s) => Some(s),
        _ => None,
    }
}

} // verus!
