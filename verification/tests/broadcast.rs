use twitch_bot::broadcast::BroadcastHub;
use twitch_bot::common::types::{BroadcastMessage, IrcMessage, MessageContent, ServiceSender, Services};

fn register(service: Services, sender: u64) -> BroadcastMessage {
    BroadcastMessage {
        timestamp: 0,
        sender: service,
        raw_message: MessageContent::AddService(ServiceSender { service, sender }),
        to: Some(Services::Broadcaster),
    }
}

fn text_from(sender: Services) -> BroadcastMessage {
    BroadcastMessage {
        timestamp: 0,
        sender,
        raw_message: MessageContent::String("hello".to_string()),
        to: None,
    }
}

#[test]
fn new_hub_is_empty() {
    let hub = BroadcastHub::new();
    assert_eq!(hub.passed_on(), 0);
}

#[test]
fn registration_is_not_forwarded_nor_recorded() {
    let mut hub = BroadcastHub::new();
    assert!(hub.receive(register(Services::Irc, 1)).is_empty());
    assert!(hub.receive(register(Services::Command, 2)).is_empty());
    assert_eq!(hub.passed_on(), 0);
}

#[test]
fn message_goes_to_every_other_service() {
    let mut hub = BroadcastHub::new();
    hub.receive(register(Services::Irc, 1));
    hub.receive(register(Services::Command, 2));
    assert_eq!(hub.receive(text_from(Services::Irc)), vec![2]);
    assert_eq!(hub.receive(text_from(Services::Command)), vec![1]);
    assert_eq!(hub.receive(text_from(Services::Broadcaster)), vec![1, 2]);
    assert_eq!(hub.passed_on(), 3);
}

#[test]
fn message_never_returns_to_its_sender() {
    let mut hub = BroadcastHub::new();
    hub.receive(register(Services::Irc, 1));
    hub.receive(register(Services::Irc, 3));
    let chat = BroadcastMessage {
        timestamp: 0,
        sender: Services::Irc,
        raw_message: MessageContent::ServerMessage(IrcMessage::Other),
        to: None,
    };
    assert!(hub.receive(chat).is_empty());
    assert_eq!(hub.passed_on(), 1);
}

#[test]
fn later_registration_keeps_earlier_order() {
    let mut hub = BroadcastHub::new();
    hub.receive(register(Services::Command, 5));
    hub.receive(register(Services::Broadcaster, 4));
    hub.receive(register(Services::Command, 9));
    hub.receive(register(Services::Irc, 1));
    assert_eq!(hub.receive(text_from(Services::Irc)), vec![5, 4, 9]);
}

#[test]
fn no_service_no_target() {
    let mut hub = BroadcastHub::new();
    assert!(hub.receive(text_from(Services::Irc)).is_empty());
    assert_eq!(hub.passed_on(), 1);
}

#[test]
fn destination_field_plays_no_part_in_routing() {
    let mut hub = BroadcastHub::new();
    hub.receive(register(Services::Irc, 1));
    hub.receive(register(Services::Command, 2));
    let mut to_irc = text_from(Services::Broadcaster);
    to_irc.to = Some(Services::Irc);
    let mut to_nobody = text_from(Services::Broadcaster);
    to_nobody.to = None;
    assert_eq!(hub.receive(to_irc), vec![1, 2]);
    assert_eq!(hub.receive(to_nobody), vec![1, 2]);
}

#[test]
fn late_registration_gets_no_earlier_message() {
    let mut hub = BroadcastHub::new();
    hub.receive(register(Services::Irc, 1));
    assert!(hub.receive(text_from(Services::Irc)).is_empty());
    hub.receive(register(Services::Command, 2));
    assert_eq!(hub.receive(text_from(Services::Irc)), vec![2]);
    assert_eq!(hub.passed_on(), 2);
}
