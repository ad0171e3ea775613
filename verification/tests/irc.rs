use twitch_bot::common::types::{BroadcastMessage, IrcMessage, MessageContent, PrivateMessage, ServiceSender, Services};
use twitch_bot::services::twitch::irc::{
    add_service, build_broadcast_message, chat_text, get_auth_credentials, log_file_name, log_line,
};

fn privmsg() -> IrcMessage {
    IrcMessage::Privmsg(PrivateMessage {
        server_timestamp: "2021-03-04 05:06:07 UTC".to_string(),
        login: "alice".to_string(),
        message_text: "hi there".to_string(),
    })
}

#[test]
fn log_file_name_has_time_and_channel() {
    assert_eq!(log_file_name(1614834367000, "somechannel"), "1614834367000_somechannel_irc.log");
    assert_eq!(log_file_name(0, ""), "0__irc.log");
}

#[test]
fn chat_line_is_logged() {
    assert_eq!(log_line(&privmsg()), Some("2021-03-04 05:06:07 UTC alice hi there \n".to_string()));
}

#[test]
fn other_server_message_is_not_logged() {
    assert_eq!(log_line(&IrcMessage::Other), None);
}

#[test]
fn server_message_is_wrapped_for_the_broadcaster() {
    let m = build_broadcast_message(privmsg(), None);
    assert_eq!(m.sender, Services::Irc);
    assert_eq!(m.to, None);
    assert_eq!(m.timestamp % 1000, 0);
    match m.raw_message {
        MessageContent::ServerMessage(IrcMessage::Privmsg(p)) => {
            assert_eq!(p.login, "alice");
            assert_eq!(p.message_text, "hi there");
        }
        _ => panic!("wrong content"),
    }
    let m = build_broadcast_message(IrcMessage::Other, Some(Services::Command));
    assert_eq!(m.to, Some(Services::Command));
}

#[test]
fn chat_connection_registers_itself() {
    let m = add_service(3);
    assert!(m.timestamp > 0);
    assert_eq!(m.timestamp % 1000, 0);
    assert_eq!(m.sender, Services::Irc);
    assert_eq!(m.to, Some(Services::Broadcaster));
    assert!(matches!(m.raw_message,
        MessageContent::AddService(ServiceSender { service: Services::Irc, sender: 3 })));
}

#[test]
fn only_text_is_said() {
    let text = BroadcastMessage {
        timestamp: 0,
        sender: Services::Command,
        raw_message: MessageContent::String("Valeu".to_string()),
        to: Some(Services::Irc),
    };
    assert_eq!(chat_text(text), Some("Valeu".to_string()));
    let other = build_broadcast_message(IrcMessage::Other, None);
    assert_eq!(chat_text(other), None);
}

#[test]
fn credentials_when_both_are_given() {
    let c = get_auth_credentials(Some("botname".to_string()), Some("secret".to_string()));
    assert_eq!(c.login, "botname");
    assert_eq!(c.token, Some("secret".to_string()));
}

#[test]
fn anonymous_when_either_is_missing() {
    for (u, t) in [(Some("botname"), None), (None, Some("secret")), (None, None)] {
        let c = get_auth_credentials(u.map(|s| s.to_string()), t.map(|s| s.to_string()));
        assert_eq!(c.login, "justinfan12345");
        assert_eq!(c.token, None);
    }
}
