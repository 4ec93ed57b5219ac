//! Client-side core of a line-oriented game monitor feed: the event model,
//! the framed-line parser, the connection state machine and the routing of
//! notifications to the two delivery modes.
pub mod event;
pub mod text;
pub mod parse;
pub mod frame;
pub mod session;
pub mod laws;

pub use event::{
    BroadcastEvent, BroadcastScope, ChatEvent, ChatKind, EmailEvent, Event, MonitorNotification,
    MonitorUpdate, NameRequestEvent, PlayerEvent,
};
pub use frame::{get_first_token, parse_frame, strip_newline, LineFramer};
pub use session::{DeliveryMode, LinkAction, LinkEvent, Routing, Session};
