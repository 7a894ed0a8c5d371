//! Gateway events published to dashboard subscribers.

use vstd::prelude::*;
use crate::text::owned;

verus! {

/// An event published on the gateway's event bus.
#[derive(Debug, Clone)]
pub struct GatewayEvent {
    pub event_type: String,
    pub session_id: Option<String>,
    pub message: String,
    /// Seconds since the Unix epoch.
    pub timestamp: u64,
}

impl GatewayEvent {
    /// An event of the given type and message, stamped now, with no session.
    pub fn new(event_type: &str, message: &str) -> (r: Self)
        ensures
            r.event_type@ == event_type@,
            r.session_id is None,
            r.message@ == message@,
    {
        Self {
            event_type: owned(event_type),
            session_id: None,
            message: owned(message),
            timestamp: crate::clock::now_secs(),
        }
    }

    /// The same event, tagged with a session.
    pub fn with_session(self, session_id: &str) -> (r: Self)
        ensures
            r.event_type == self.event_type,
            r.session_id matches Some(s) && s@ == session_id@,
            r.message == self.message,
            r.timestamp == self.timestamp,
    {
        let mut e = self;
        e.session_id = Some(owned(session_id));
        e
    }
}

} // verus!
