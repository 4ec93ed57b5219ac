use ffmonitor::{
    get_first_token, BroadcastEvent, BroadcastScope, ChatEvent, ChatKind, EmailEvent, Event,
    NameRequestEvent, PlayerEvent,
};

fn s(t: &str) -> String {
    t.to_string()
}

#[test]
fn player_line_parses() {
    let e = PlayerEvent::parse("player 10 -20 Captain Courage").unwrap();
    assert_eq!(e, PlayerEvent { x_coord: 10, y_coord: -20, name: s("Captain Courage") });
}

#[test]
fn player_line_keeps_extra_spaces_in_name() {
    let e = PlayerEvent::parse("player 0 7  Two  Spaces").unwrap();
    assert_eq!(e.name, " Two  Spaces");
    assert_eq!(e.y_coord, 7);
}

#[test]
fn player_line_rejects_bad_numbers() {
    assert!(PlayerEvent::parse("player x 1 Bob").is_none());
    assert!(PlayerEvent::parse("player 1 +2 Bob").is_none());
    assert!(PlayerEvent::parse("player 1 2").is_none());
    assert!(PlayerEvent::parse("player 1 2 ").is_none());
    assert!(PlayerEvent::parse("player 2147483648 0 Bob").is_none());
    assert!(PlayerEvent::parse("player - 0 Bob").is_none());
}

#[test]
fn player_line_accepts_i32_extremes() {
    let e = PlayerEvent::parse("player -2147483648 2147483647 Edge").unwrap();
    assert_eq!(e.x_coord, i32::MIN);
    assert_eq!(e.y_coord, i32::MAX);
}

#[test]
fn chat_without_recipient() {
    let e = ChatEvent::parse("chat [FreeChat] Captain Courage: Hello world!").unwrap();
    assert_eq!(
        e,
        ChatEvent {
            kind: ChatKind::FreeChat,
            from: s("Captain Courage"),
            to: None,
            message: s("Hello world!"),
        }
    );
}

#[test]
fn chat_with_recipient() {
    let e = ChatEvent::parse("chat [BuddyChat] Captain Courage (to Corporal Cautious): Hello friend!")
        .unwrap();
    assert_eq!(e.kind, ChatKind::BuddyChat);
    assert_eq!(e.from, "Captain Courage");
    assert_eq!(e.to, Some(s("Corporal Cautious")));
    assert_eq!(e.message, "Hello friend!");
}

#[test]
fn chat_message_may_hold_colons_and_be_empty() {
    let e = ChatEvent::parse("chat [GroupChat] Ann: a: b").unwrap();
    assert_eq!(e.from, "Ann");
    assert_eq!(e.message, "a: b");
    let e = ChatEvent::parse("chat [GroupChat] Ann: ").unwrap();
    assert_eq!(e.message, "");
}

#[test]
fn chat_kind_is_case_insensitive() {
    let e = ChatEvent::parse("chat [TRADECHAT] Ann: hi").unwrap();
    assert_eq!(e.kind, ChatKind::TradeChat);
    assert_eq!(ChatKind::from_name("buddyMenuChat"), ChatKind::BuddyMenuChat);
    assert_eq!(ChatKind::from_name("GroupMenuChat"), ChatKind::GroupMenuChat);
    assert_eq!(ChatKind::from_name("menuchat"), ChatKind::MenuChat);
}

#[test]
fn chat_unknown_kind_is_kept() {
    let e = ChatEvent::parse("chat [ShoutChat] Ann: hi").unwrap();
    assert_eq!(e.kind, ChatKind::Unknown(s("ShoutChat")));
    assert_eq!(e.kind.display_text(), "ShoutChat*");
    assert_eq!(ChatKind::FreeChat.display_text(), "FreeChat");
}

#[test]
fn chat_kind_from_lowered_form() {
    assert_eq!(ChatKind::from_lowered("groupchat", "GROUPCHAT"), ChatKind::GroupChat);
    assert_eq!(ChatKind::from_lowered("x", "X"), ChatKind::Unknown(s("X")));
}

#[test]
fn chat_malformed_lines() {
    assert!(ChatEvent::parse("chat FreeChat Ann: hi").is_none());
    assert!(ChatEvent::parse("chat [] Ann: hi").is_none());
    assert!(ChatEvent::parse("chat [FreeChat] Ann hi").is_none());
    assert!(ChatEvent::parse("chat [FreeChat] : hi").is_none());
}

#[test]
fn broadcast_line_parses() {
    let e = BroadcastEvent::parse("bcast 0 1 5 Captain Courage: Brace for impact!").unwrap();
    assert_eq!(
        e,
        BroadcastEvent {
            scope: BroadcastScope::Local,
            announcement_type: 1,
            duration_secs: 5,
            from: s("Captain Courage"),
            message: s("Brace for impact!"),
        }
    );
    let e = BroadcastEvent::parse("bcast 3 2 60 Server: Restart").unwrap();
    assert_eq!(e.scope, BroadcastScope::Global);
}

#[test]
fn broadcast_scope_four_is_rejected() {
    assert!(BroadcastEvent::parse("bcast 4 1 5 Captain: Hi").is_none());
    assert!(BroadcastEvent::parse("bcast 1 -1 5 Captain: Hi").is_none());
}

#[test]
fn broadcast_scope_codes() {
    assert_eq!(BroadcastScope::from_code(0), Some(BroadcastScope::Local));
    assert_eq!(BroadcastScope::from_code(1), Some(BroadcastScope::Channel));
    assert_eq!(BroadcastScope::from_code(2), Some(BroadcastScope::Shard));
    assert_eq!(BroadcastScope::from_code(3), Some(BroadcastScope::Global));
    assert_eq!(BroadcastScope::from_code(4), None);
}

#[test]
fn name_request_parses() {
    let e = NameRequestEvent::parse("namereq 18446744073709551615 New Name").unwrap();
    assert_eq!(e, NameRequestEvent { player_uid: u64::MAX, requested_name: s("New Name") });
    assert!(NameRequestEvent::parse("namereq 18446744073709551616 Big").is_none());
    assert!(NameRequestEvent::parse("namereq 12").is_none());
}

#[test]
fn email_header_parses() {
    let body = vec![s("Line one"), s(""), s("-Captain")];
    let e = EmailEvent::parse(
        "email [Email] Captain Courage (to Corporal Cautious): <Secret mission>",
        body.clone(),
    )
    .unwrap();
    assert_eq!(
        e,
        EmailEvent {
            from: s("Captain Courage"),
            to: s("Corporal Cautious"),
            subject: Some(s("Secret mission")),
            body,
        }
    );
}

#[test]
fn email_without_subject() {
    let e = EmailEvent::parse("email [Email] A (to B): <No subject.>", vec![]).unwrap();
    assert_eq!(e.subject, None);
    assert!(EmailEvent::parse("email [Email] A (to B): No subject.", vec![]).is_none());
}

#[test]
fn first_token_of_lines() {
    assert_eq!(get_first_token("  player 1 2 x"), Some("player"));
    assert_eq!(get_first_token("chat\t[x]"), Some("chat"));
    assert_eq!(get_first_token(" \t "), None);
    assert_eq!(get_first_token(""), None);
}

#[test]
fn event_wraps_each_kind() {
    let e = Event::Player(PlayerEvent { x_coord: 1, y_coord: 2, name: s("n") });
    assert!(matches!(e, Event::Player(_)));
}
