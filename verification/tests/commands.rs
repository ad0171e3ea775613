use twitch_bot::common::types::{
    BroadcastMessage, IrcMessage, MessageContent, PrivateMessage, ServiceSender, Services,
};
use twitch_bot::services::commands::{add_service, command_name, first, first_reply, handle_message};
use twitch_bot::state::{BotState, CommandsState};

fn empty_state() -> CommandsState {
    CommandsState { first_list: Vec::new() }
}

fn chat_line(login: &str, text: &str) -> BroadcastMessage {
    BroadcastMessage {
        timestamp: 0,
        sender: Services::Irc,
        raw_message: MessageContent::ServerMessage(IrcMessage::Privmsg(PrivateMessage {
            server_timestamp: "2021-01-01 00:00:00 UTC".to_string(),
            login: login.to_string(),
            message_text: text.to_string(),
        })),
        to: None,
    }
}

fn reply_text(m: &BroadcastMessage) -> String {
    match &m.raw_message {
        MessageContent::String(s) => s.clone(),
        _ => panic!("not a text message"),
    }
}

#[test]
fn command_name_of_bang_line() {
    assert_eq!(command_name("!first please"), Some("!first".to_string()));
    assert_eq!(command_name("!first"), Some("!first".to_string()));
    assert_eq!(command_name("!"), Some("!".to_string()));
    assert_eq!(command_name("!\tfirst"), Some("!".to_string()));
}

#[test]
fn command_name_of_plain_line() {
    assert_eq!(command_name("hello !first"), None);
    assert_eq!(command_name(" !first"), None);
}

#[test]
fn first_visitor_is_greeted_early() {
    let mut state = empty_state();
    let r = first_reply(&mut state, "alice".to_string());
    assert_eq!(r, Some("Valeu por chegar aqui cedo @alice".to_string()));
    assert_eq!(state.first_list, vec!["alice".to_string()]);
}

#[test]
fn later_visitors_get_their_number() {
    let mut state = empty_state();
    first_reply(&mut state, "alice".to_string());
    let r = first_reply(&mut state, "bob".to_string());
    assert_eq!(r, Some("Foi por pouco @bob, mas você foi o nº 2 a chegar PogChamp".to_string()));
    let r = first_reply(&mut state, "carol".to_string());
    assert_eq!(r, Some("Foi por pouco @carol, mas você foi o nº 3 a chegar PogChamp".to_string()));
    assert_eq!(state.first_list, vec!["alice".to_string(), "bob".to_string(), "carol".to_string()]);
}

#[test]
fn tenth_visitor_gets_two_digits() {
    let mut state = CommandsState { first_list: (1..10).map(|i| format!("user{}", i)).collect() };
    let r = first_reply(&mut state, "late".to_string());
    assert_eq!(r, Some("Foi por pouco @late, mas você foi o nº 10 a chegar PogChamp".to_string()));
}

#[test]
fn repeated_visitor_is_ignored() {
    let mut state = empty_state();
    first_reply(&mut state, "alice".to_string());
    first_reply(&mut state, "bob".to_string());
    assert_eq!(first_reply(&mut state, "alice".to_string()), None);
    assert_eq!(first_reply(&mut state, "bob".to_string()), None);
    assert_eq!(state.first_list, vec!["alice".to_string(), "bob".to_string()]);
}

#[test]
fn first_answers_to_the_chat() {
    let mut state = empty_state();
    let m = first(&mut state, "alice".to_string()).expect("an answer");
    assert_eq!(m.sender, Services::Command);
    assert_eq!(m.to, Some(Services::Irc));
    assert_eq!(reply_text(&m), "Valeu por chegar aqui cedo @alice");
    assert_eq!(m.timestamp % 1000, 0);
    assert!(m.timestamp > 0);
    assert!(first(&mut state, "alice".to_string()).is_none());
}

#[test]
fn handle_message_answers_first_command() {
    let mut state = empty_state();
    let m = handle_message(&mut state, &chat_line("alice", "!first")).expect("an answer");
    assert_eq!(reply_text(&m), "Valeu por chegar aqui cedo @alice");
    let m = handle_message(&mut state, &chat_line("bob", "!first now")).expect("an answer");
    assert_eq!(reply_text(&m), "Foi por pouco @bob, mas você foi o nº 2 a chegar PogChamp");
    assert!(handle_message(&mut state, &chat_line("bob", "!first")).is_none());
    assert_eq!(state.first_list, vec!["alice".to_string(), "bob".to_string()]);
}

#[test]
fn handle_message_ignores_other_lines() {
    let mut state = empty_state();
    assert!(handle_message(&mut state, &chat_line("alice", "!firstly")).is_none());
    assert!(handle_message(&mut state, &chat_line("alice", "!help")).is_none());
    assert!(handle_message(&mut state, &chat_line("alice", "hi !first")).is_none());
    assert!(state.first_list.is_empty());
}

#[test]
fn handle_message_ignores_other_messages() {
    let mut state = empty_state();
    let other = BroadcastMessage {
        timestamp: 0,
        sender: Services::Irc,
        raw_message: MessageContent::ServerMessage(IrcMessage::Other),
        to: None,
    };
    assert!(handle_message(&mut state, &other).is_none());
    let text = BroadcastMessage {
        timestamp: 0,
        sender: Services::Command,
        raw_message: MessageContent::String("!first".to_string()),
        to: Some(Services::Irc),
    };
    assert!(handle_message(&mut state, &text).is_none());
    assert!(state.first_list.is_empty());
}

#[test]
fn command_service_registers_itself() {
    let m = add_service(7);
    assert!(m.timestamp > 0);
    assert_eq!(m.timestamp % 1000, 0);
    assert_eq!(m.sender, Services::Command);
    assert_eq!(m.to, Some(Services::Broadcaster));
    assert!(matches!(m.raw_message,
        MessageContent::AddService(ServiceSender { service: Services::Command, sender: 7 })));
}

#[test]
fn add_visitor_appends_even_repeats() {
    let mut state = BotState { commands: empty_state() };
    state.add_visitor("alice".to_string());
    state.add_visitor("alice".to_string());
    assert_eq!(state.commands.first_list, vec!["alice".to_string(), "alice".to_string()]);
}

#[test]
fn run_of_messages_numbers_answers_by_place() {
    let mut state = empty_state();
    let lines = [
        ("alice", "hello"),
        ("alice", "!first"),
        ("bob", "!help"),
        ("alice", "!first"),
        ("bob", "!first"),
        ("carol", "  !first"),
        ("carol", "!first again"),
    ];
    let answers: Vec<String> = lines
        .iter()
        .filter_map(|(login, text)| handle_message(&mut state, &chat_line(login, text)))
        .map(|m| reply_text(&m))
        .collect();
    assert_eq!(answers, vec![
        "Valeu por chegar aqui cedo @alice".to_string(),
        "Foi por pouco @bob, mas você foi o nº 2 a chegar PogChamp".to_string(),
        "Foi por pouco @carol, mas você foi o nº 3 a chegar PogChamp".to_string(),
    ]);
    assert_eq!(state.first_list, vec!["alice".to_string(), "bob".to_string(), "carol".to_string()]);
}
