//! The decisions of the connection worker, and where each notification goes.
use vstd::prelude::*;

use crate::event::{EventModel, MonitorNotification, models};
use crate::frame::{frame_events, LineFramer};

verus! {

/// What the outside world reported to the worker.
pub enum LinkEvent {
    /// A connection attempt succeeded.
    ConnectSucceeded,
    /// A connection attempt failed or timed out.
    ConnectFailed,
    /// A line arrived, its terminator removed.
    LineRead(String),
    /// A read returned no bytes or failed.
    StreamEnded,
}

/// What the worker is to do next, in order.
pub enum LinkAction {
    Notify(MonitorNotification),
    /// Wait for the fixed back-off, then attempt to connect again.
    Backoff,
}

pub open spec fn is_notice_connected(a: LinkAction) -> bool {
    match a {
        LinkAction::Notify(MonitorNotification::Connected) => true,
        _ => false,
    }
}

pub open spec fn is_notice_disconnected(a: LinkAction) -> bool {
    match a {
        LinkAction::Notify(MonitorNotification::Disconnected) => true,
        _ => false,
    }
}

pub open spec fn is_notice_update(a: LinkAction, events: Seq<EventModel>) -> bool {
    match a {
        LinkAction::Notify(MonitorNotification::Updated(u)) => models(u@) == events,
        _ => false,
    }
}

/// The state of one connection worker: whether a connection is up, and the
/// lines of the frame in progress.
pub struct Session {
    connected: bool,
    framer: LineFramer,
}

impl Session {
    pub closed spec fn link_up(&self) -> bool {
        self.connected
    }

    pub closed spec fn pending(&self) -> Seq<Seq<char>> {
        self.framer@
    }

    pub fn new() -> (r: Session)
        ensures
            !r.link_up(),
            r.pending() == Seq::<Seq<char>>::empty(),
    {
        Session { connected: false, framer: LineFramer::new() }
    }

    pub fn is_connected(&self) -> (r: bool)
        ensures
            r == self.link_up(),
    {
        self.connected
    }

    /// Takes one event and returns the actions it calls for. A connection
    /// that comes up starts with no frame in progress; one that goes down
    /// is announced once and followed by the back-off. An event that cannot
    /// occur in the current state changes nothing.
    pub fn step(&mut self, event: LinkEvent) -> (r: Vec<LinkAction>)
        ensures
            match event {
                LinkEvent::ConnectSucceeded => if !old(self).link_up() {
                    &&& final(self).link_up()
                    &&& final(self).pending() == Seq::<Seq<char>>::empty()
                    &&& r@.len() == 1
                    &&& is_notice_connected(r@[0])
                } else {
                    *final(self) == *old(self) && r@.len() == 0
                },
                LinkEvent::ConnectFailed => if !old(self).link_up() {
                    *final(self) == *old(self) && r@.len() == 1 && r@[0] is Backoff
                } else {
                    *final(self) == *old(self) && r@.len() == 0
                },
                LinkEvent::LineRead(line) => if old(self).link_up() {
                    &&& final(self).link_up()
                    &&& line@ == "begin"@ ==> final(self).pending() == Seq::<Seq<char>>::empty()
                        && r@.len() == 0
                    &&& line@ == "end"@ ==> final(self).pending() == Seq::<Seq<char>>::empty()
                        && r@.len() == 1 && is_notice_update(r@[0], frame_events(old(self).pending()))
                    &&& line@ != "begin"@ && line@ != "end"@ ==> final(self).pending() == old(
                        self,
                    ).pending().push(line@) && r@.len() == 0
                } else {
                    *final(self) == *old(self) && r@.len() == 0
                },
                LinkEvent::StreamEnded => if old(self).link_up() {
                    &&& !final(self).link_up()
                    &&& r@.len() == 2
                    &&& is_notice_disconnected(r@[0])
                    &&& r@[1] is Backoff
                } else {
                    *final(self) == *old(self) && r@.len() == 0
                },
            },
    {
        let mut actions: Vec<LinkAction> = Vec::new();
        match event {
            LinkEvent::ConnectSucceeded => {
                if !self.connected {
                    self.connected = true;
                    self.framer = LineFramer::new();
                    actions.push(LinkAction::Notify(MonitorNotification::Connected));
                }
            },
            LinkEvent::ConnectFailed => {
                if !self.connected {
                    actions.push(LinkAction::Backoff);
                }
            },
            LinkEvent::LineRead(line) => {
                if self.connected {
                    match self.framer.push_line(line) {
                        Some(update) => {
                            actions.push(LinkAction::Notify(MonitorNotification::Updated(update)));
                        },
                        None => {},
                    }
                }
            },
            LinkEvent::StreamEnded => {
                if self.connected {
                    self.connected = false;
                    actions.push(LinkAction::Notify(MonitorNotification::Disconnected));
                    actions.push(LinkAction::Backoff);
                }
            },
        }
        actions
    }
}

/// How a monitor hands out its updates, fixed when it is made.
#[derive(Debug, Clone, Copy, PartialEq, Eq)]
pub enum DeliveryMode {
    /// Updates are queued for `poll`.
    Buffered,
    /// Every notification is passed to the consumer's callback.
    Callback,
}

/// Where one notification goes.
pub struct Routing {
    /// The new value of the shared connected flag, if it changes.
    pub set_connected: Option<bool>,
    /// Whether the update becomes the shared last-update snapshot.
    pub store_snapshot: bool,
    /// Whether the update joins the queue that `poll` drains.
    pub enqueue: bool,
    /// Whether the notification is passed to the callback.
    pub forward: bool,
}

impl Routing {
    /// Routes a notification under a delivery mode.
    pub fn route(n: &MonitorNotification, mode: DeliveryMode) -> (r: Routing)
        ensures
            r.set_connected == match n {
                MonitorNotification::Connected => Some(true),
                MonitorNotification::Disconnected => Some(false),
                MonitorNotification::Updated(_) => None::<bool>,
            },
            r.store_snapshot == n is Updated,
            r.enqueue == (n is Updated && mode == DeliveryMode::Buffered),
            r.forward == (mode == DeliveryMode::Callback),
    {
        let buffered = match mode {
            DeliveryMode::Buffered => true,
            DeliveryMode::Callback => false,
        };
        match n {
            MonitorNotification::Connected => Routing {
                set_connected: Some(true),
                store_snapshot: false,
                enqueue: false,
                forward: !buffered,
            },
            MonitorNotification::Updated(_) => Routing {
                set_connected: None,
                store_snapshot: true,
                enqueue: buffered,
                forward: !buffered,
            },
            MonitorNotification::Disconnected => Routing {
                set_connected: Some(false),
                store_snapshot: false,
                enqueue: false,
                forward: !buffered,
            },
        }
    }
}

} // verus!
