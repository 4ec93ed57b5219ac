use vstd::prelude::*;

verus! {

/// A player's position snapshot.
#[derive(Debug, Clone, PartialEq, Eq)]
pub struct PlayerEvent {
    pub x_coord: i32,
    pub y_coord: i32,
    pub name: String,
}

/// The kind of a chat line; an unrecognised wire value is kept verbatim.
#[derive(Debug, Clone, PartialEq, Eq)]
#[non_exhaustive]
pub enum ChatKind {
    FreeChat,
    MenuChat,
    BuddyChat,
    BuddyMenuChat,
    GroupChat,
    GroupMenuChat,
    TradeChat,
    Unknown(String),
}

#[derive(Debug, Clone, PartialEq, Eq)]
pub struct ChatEvent {
    pub kind: ChatKind,
    pub from: String,
    pub to: Option<String>,
    pub message: String,
}

/// Reach of a broadcast, carried on the wire as a code in `0..=3`.
#[derive(Debug, Clone, Copy, PartialEq, Eq)]
pub enum BroadcastScope {
    Local,
    Channel,
    Shard,
    Global,
}

#[derive(Debug, Clone, PartialEq, Eq)]
pub struct BroadcastEvent {
    pub scope: BroadcastScope,
    pub announcement_type: usize,
    pub duration_secs: usize,
    pub from: String,
    pub message: String,
}

#[derive(Debug, Clone, PartialEq, Eq)]
pub struct EmailEvent {
    pub from: String,
    pub to: String,
    pub subject: Option<String>,
    pub body: Vec<String>,
}

#[derive(Debug, Clone, PartialEq, Eq)]
pub struct NameRequestEvent {
    pub player_uid: u64,
    pub requested_name: String,
}

#[derive(Debug, Clone, PartialEq, Eq)]
#[non_exhaustive]
pub enum Event {
    Player(PlayerEvent),
    Chat(ChatEvent),
    Broadcast(BroadcastEvent),
    Email(EmailEvent),
    NameRequest(NameRequestEvent),
}

/// Mathematical value of a [`ChatKind`].
pub ghost enum KindModel {
    FreeChat,
    MenuChat,
    BuddyChat,
    BuddyMenuChat,
    GroupChat,
    GroupMenuChat,
    TradeChat,
    Unknown(Seq<char>),
}

/// Mathematical value of an [`Event`]: text as character sequences,
/// numbers as integers.
pub ghost enum EventModel {
    Player { x: int, y: int, name: Seq<char> },
    Chat { kind: KindModel, from: Seq<char>, to: Option<Seq<char>>, message: Seq<char> },
    Broadcast {
        scope: BroadcastScope,
        announcement_type: nat,
        duration_secs: nat,
        from: Seq<char>,
        message: Seq<char>,
    },
    Email { from: Seq<char>, to: Seq<char>, subject: Option<Seq<char>>, body: Seq<Seq<char>> },
    NameRequest { player_uid: nat, requested_name: Seq<char> },
}

pub open spec fn opt_text(o: Option<String>) -> Option<Seq<char>> {
    match o {
        Some(t) => Some(t@),
        None => None,
    }
}

impl View for ChatKind {
    type V = KindModel;

    open spec fn view(&self) -> KindModel {
        match self {
            ChatKind::FreeChat => KindModel::FreeChat,
            ChatKind::MenuChat => KindModel::MenuChat,
            ChatKind::BuddyChat => KindModel::BuddyChat,
            ChatKind::BuddyMenuChat => KindModel::BuddyMenuChat,
            ChatKind::GroupChat => KindModel::GroupChat,
            ChatKind::GroupMenuChat => KindModel::GroupMenuChat,
            ChatKind::TradeChat => KindModel::TradeChat,
            ChatKind::Unknown(raw) => KindModel::Unknown(raw@),
        }
    }
}

impl View for PlayerEvent {
    type V = EventModel;

    open spec fn view(&self) -> EventModel {
        EventModel::Player { x: self.x_coord as int, y: self.y_coord as int, name: self.name@ }
    }
}

impl View for ChatEvent {
    type V = EventModel;

    open spec fn view(&self) -> EventModel {
        EventModel::Chat {
            kind: self.kind@,
            from: self.from@,
            to: opt_text(self.to),
            message: self.message@,
        }
    }
}

impl View for BroadcastEvent {
    type V = EventModel;

    open spec fn view(&self) -> EventModel {
        EventModel::Broadcast {
            scope: self.scope,
            announcement_type: self.announcement_type as nat,
            duration_secs: self.duration_secs as nat,
            from: self.from@,
            message: self.message@,
        }
    }
}

impl View for EmailEvent {
    type V = EventModel;

    open spec fn view(&self) -> EventModel {
        EventModel::Email {
            from: self.from@,
            to: self.to@,
            subject: opt_text(self.subject),
            body: self.body.deep_view(),
        }
    }
}

impl View for NameRequestEvent {
    type V = EventModel;

    open spec fn view(&self) -> EventModel {
        EventModel::NameRequest {
            player_uid: self.player_uid as nat,
            requested_name: self.requested_name@,
        }
    }
}

impl View for Event {
    type V = EventModel;

    open spec fn view(&self) -> EventModel {
        match self {
            Event::Player(e) => e@,
            Event::Chat(e) => e@,
            Event::Broadcast(e) => e@,
            Event::Email(e) => e@,
            Event::NameRequest(e) => e@,
        }
    }
}

/// The models of a sequence of events.
pub open spec fn models(events: Seq<Event>) -> Seq<EventModel> {
    events.map_values(|e: Event| e@)
}

/// Number of player position events in a sequence of events.
pub open spec fn player_count(events: Seq<Event>) -> nat
    decreases events.len(),
{
    if events.len() == 0 {
        0
    } else {
        player_count(events.drop_last()) + if events.last()@ is Player {
            1nat
        } else {
            0nat
        }
    }
}

/// Everything that one frame of the feed carried, in wire order.
#[derive(Debug, Clone)]
pub struct MonitorUpdate {
    events: Vec<Event>,
}

impl View for MonitorUpdate {
    type V = Seq<Event>;

    closed spec fn view(&self) -> Seq<Event> {
        self.events@
    }
}

impl MonitorUpdate {
    /// An update holding exactly the given events.
    pub fn from_events(events: Vec<Event>) -> (r: MonitorUpdate)
        ensures
            r@ == events@,
    {
        MonitorUpdate { events }
    }

    /// Decompose the update into its events.
    pub fn get_events(self) -> (r: Vec<Event>)
        ensures
            r@ == self@,
    {
        self.events
    }

    /// Number of player position events in the update.
    pub fn get_player_count(&self) -> (r: usize)
        ensures
            r == player_count(self@),
    {
        let mut count: usize = 0;
        let mut i: usize = 0;
        while i < self.events.len()
            invariant
                i <= self.events@.len(),
                count == player_count(self.events@.take(i as int)),
                count <= i,
            decreases self.events@.len() - i,
        {
            assert(self.events@.take(i as int + 1).drop_last() =~= self.events@.take(i as int));
            if let Event::Player(_) = &self.events[i] {
                count = count + 1;
            }
            i = i + 1;
        }
        assert(self.events@.take(i as int) =~= self.events@);
        count
    }
}

/// What the connection worker reports to a consumer.
#[derive(Debug, Clone)]
pub enum MonitorNotification {
    Connected,
    Updated(MonitorUpdate),
    Disconnected,
}

} // verus!
