use ffmonitor::{
    parse_frame, strip_newline, BroadcastEvent, BroadcastScope, ChatEvent, ChatKind, DeliveryMode,
    EmailEvent, Event, LineFramer, LinkAction, LinkEvent, MonitorNotification, MonitorUpdate,
    PlayerEvent, Routing, Session,
};

fn lines(ls: &[&str]) -> Vec<String> {
    ls.iter().map(|l| l.to_string()).collect()
}

fn feed(framer: &mut LineFramer, ls: &[&str]) -> Vec<MonitorUpdate> {
    let mut out = Vec::new();
    for l in ls {
        if let Some(u) = framer.push_line(l.to_string()) {
            out.push(u);
        }
    }
    out
}

#[test]
fn round_trip_frame() {
    let mut framer = LineFramer::new();
    let updates = feed(
        &mut framer,
        &["begin", "player 10 -20 Captain Courage", "chat [FreeChat] Captain Courage: Hello world!", "end"],
    );
    assert_eq!(updates.len(), 1);
    assert_eq!(updates[0].get_player_count(), 1);
    let events = updates[0].clone().get_events();
    assert_eq!(
        events,
        vec![
            Event::Player(PlayerEvent { x_coord: 10, y_coord: -20, name: "Captain Courage".to_string() }),
            Event::Chat(ChatEvent {
                kind: ChatKind::FreeChat,
                from: "Captain Courage".to_string(),
                to: None,
                message: "Hello world!".to_string(),
            }),
        ]
    );
}

#[test]
fn invalid_lines_are_skipped() {
    let u = parse_frame(&lines(&[
        "player 1 2 A",
        "bogus line",
        "",
        "player one 2 B",
        "namereq 5 Newname",
        "chat no brackets",
        "player 3 4 C",
    ]));
    let events = u.get_events();
    assert_eq!(events.len(), 3);
    assert!(matches!(&events[0], Event::Player(p) if p.name == "A"));
    assert!(matches!(&events[1], Event::NameRequest(n) if n.player_uid == 5));
    assert!(matches!(&events[2], Event::Player(p) if p.name == "C"));
}

#[test]
fn player_count_of_updates() {
    assert_eq!(parse_frame(&Vec::new()).get_player_count(), 0);
    let u = parse_frame(&lines(&["player 1 2 A", "chat [FreeChat] A: x", "player 3 4 B"]));
    assert_eq!(u.get_player_count(), 2);
    assert_eq!(MonitorUpdate::from_events(Vec::new()).get_player_count(), 0);
}

#[test]
fn email_block_is_collected() {
    let u = parse_frame(&lines(&[
        "email [Email] Captain Courage (to Corporal Cautious): <Secret mission>",
        "\tWe need to infiltrate the fusion lair.",
        "\t",
        "\t\tindented",
        "endemail",
        "player 1 1 After",
    ]));
    let events = u.get_events();
    assert_eq!(events.len(), 2);
    assert_eq!(
        events[0],
        Event::Email(EmailEvent {
            from: "Captain Courage".to_string(),
            to: "Corporal Cautious".to_string(),
            subject: Some("Secret mission".to_string()),
            body: vec![
                "We need to infiltrate the fusion lair.".to_string(),
                "".to_string(),
                "\tindented".to_string(),
            ],
        })
    );
}

#[test]
fn email_without_endemail_is_dropped() {
    let u = parse_frame(&lines(&[
        "player 1 1 Before",
        "email [Email] A (to B): <S>",
        "\tbody",
        "player 2 2 After",
    ]));
    let events = u.get_events();
    assert_eq!(events.len(), 2);
    assert!(matches!(&events[0], Event::Player(p) if p.name == "Before"));
    assert!(matches!(&events[1], Event::Player(p) if p.name == "After"));

    let u = parse_frame(&lines(&["player 1 1 Before", "email [Email] A (to B): <S>", "\tbody"]));
    assert_eq!(u.get_events().len(), 1);
}

#[test]
fn bad_scope_spares_neighbours() {
    let u = parse_frame(&lines(&[
        "bcast 2 1 5 A: first",
        "bcast 4 1 5 A: bad",
        "bcast 1 0 0 B: last",
    ]));
    let events = u.get_events();
    assert_eq!(events.len(), 2);
    assert_eq!(
        events[0],
        Event::Broadcast(BroadcastEvent {
            scope: BroadcastScope::Shard,
            announcement_type: 1,
            duration_secs: 5,
            from: "A".to_string(),
            message: "first".to_string(),
        })
    );
    assert!(matches!(&events[1], Event::Broadcast(b) if b.scope == BroadcastScope::Channel));
}

#[test]
fn begin_discards_torn_frame() {
    let mut framer = LineFramer::new();
    let updates = feed(&mut framer, &["player 9 9 Torn", "begin", "player 1 1 Kept", "end", "end"]);
    assert_eq!(updates.len(), 2);
    let first = updates[0].clone().get_events();
    assert_eq!(first.len(), 1);
    assert!(matches!(&first[0], Event::Player(p) if p.name == "Kept"));
    assert_eq!(updates[1].clone().get_events().len(), 0);
}

#[test]
fn newline_is_stripped() {
    assert_eq!(strip_newline("begin\n"), "begin");
    assert_eq!(strip_newline("end"), "end");
    assert_eq!(strip_newline(""), "");
}

#[test]
fn disconnect_mid_stream() {
    let mut session = Session::new();
    assert!(!session.is_connected());
    let a = session.step(LinkEvent::ConnectSucceeded);
    assert!(session.is_connected());
    assert!(matches!(a.as_slice(), [LinkAction::Notify(MonitorNotification::Connected)]));
    assert!(session.step(LinkEvent::LineRead("begin".to_string())).is_empty());
    assert!(session.step(LinkEvent::LineRead("player 1 2 A".to_string())).is_empty());
    let a = session.step(LinkEvent::StreamEnded);
    assert!(!session.is_connected());
    assert_eq!(a.len(), 2);
    assert!(matches!(a[0], LinkAction::Notify(MonitorNotification::Disconnected)));
    assert!(matches!(a[1], LinkAction::Backoff));
    let r = Routing::route(&MonitorNotification::Disconnected, DeliveryMode::Buffered);
    assert_eq!(r.set_connected, Some(false));
    assert!(session.step(LinkEvent::StreamEnded).is_empty());
}

#[test]
fn reconnect_starts_clean_frame() {
    let mut session = Session::new();
    let a = session.step(LinkEvent::ConnectFailed);
    assert!(matches!(a.as_slice(), [LinkAction::Backoff]));
    session.step(LinkEvent::ConnectSucceeded);
    session.step(LinkEvent::LineRead("begin".to_string()));
    session.step(LinkEvent::LineRead("player 1 2 Lost".to_string()));
    session.step(LinkEvent::StreamEnded);
    session.step(LinkEvent::ConnectSucceeded);
    let a = session.step(LinkEvent::LineRead("end".to_string()));
    assert_eq!(a.len(), 1);
    match &a[0] {
        LinkAction::Notify(MonitorNotification::Updated(u)) => assert_eq!(u.get_player_count(), 0),
        _ => panic!("expected an update"),
    }
}

#[test]
fn routing_by_mode() {
    let u = MonitorNotification::Updated(MonitorUpdate::from_events(Vec::new()));
    let r = Routing::route(&u, DeliveryMode::Buffered);
    assert!(r.store_snapshot && r.enqueue && !r.forward && r.set_connected.is_none());
    let r = Routing::route(&u, DeliveryMode::Callback);
    assert!(r.store_snapshot && !r.enqueue && r.forward);
    let r = Routing::route(&MonitorNotification::Connected, DeliveryMode::Callback);
    assert_eq!(r.set_connected, Some(true));
    assert!(r.forward && !r.store_snapshot);
}
