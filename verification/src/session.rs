//! The per-connection session protocol: one mount table and one engine
//! handle per connection, each inbound directive reconciled and applied
//! before the next is read.

use vstd::prelude::*;

use crate::codec::{encode_batch, json_of_batch};
use crate::graph::{EntryV, NodeRepr};
use crate::reconcile::{reconcile_batch, reconcile_trace};
use crate::table::MountTable;

verus! {

/// One inbound event of a connection, after the transport and the parser
/// have done their work.  A text message that failed to parse, or that
/// carried no graph, arrives as a directive without roots.
pub enum SessionEvent {
    /// A text message arrived; `graph` holds its roots if it carried any,
    /// and `raw` holds the text to echo back to the peer.
    Directive { graph: Option<Vec<NodeRepr>>, raw: String },
    /// A non-text frame arrived.
    NonText,
    /// The peer closed the connection, or its transport failed.
    Closed,
}

/// What the caller must do after one step of the protocol.
pub enum SessionAction {
    /// Submit `payload` to the engine, holding the engine's exclusive lock
    /// only for the duration of the call, then send `echo` to the peer.
    ApplyAndEcho { payload: String, echo: String },
    /// Send `echo` to the peer; nothing reached the engine.
    Echo { echo: String },
    /// Answer a non-text frame with the fixed rejection text.
    Reject { reply: String },
    /// Release the engine handle and the mount table: the session is over.
    Shutdown,
}

/// One connection's state: its own mount table, never shared with any
/// other session, and whether the connection is still open.
pub struct Session {
    pub table: MountTable,
    connected: bool,
}

impl View for Session {
    type V = Map<i32, EntryV>;

    closed spec fn view(&self) -> Map<i32, EntryV> {
        self.table@
    }
}

impl Session {
    /// Whether the connection is still open.
    pub closed spec fn is_connected(&self) -> bool {
        self.connected
    }

    /// Whether the connection is still open, for callers that must decide
    /// whether another event may be fed in.
    pub fn connected(&self) -> (open: bool)
        ensures
            open == self.is_connected(),
    {
        self.connected
    }

    /// A fresh session: nothing mounted yet, connection open.
    pub fn new() -> (s: Session)
        ensures
            s@ == Map::<i32, EntryV>::empty(),
            s.is_connected(),
    {
        Session { table: MountTable::new(), connected: true }
    }

    /// Drive the protocol by one inbound event.  A directive with a graph
    /// is reconciled against this session's table and serialised for the
    /// engine, and the message is echoed; a directive without a graph is
    /// only echoed; a non-text frame is rejected; a close ends the
    /// session.  Only a directive with a graph changes the table.
    pub fn step(&mut self, event: SessionEvent) -> (action: SessionAction)
        requires
            old(self).is_connected(),
        ensures
            match event {
                SessionEvent::Directive { graph: Some(g), raw } => {
                    &&& final(self)@ == reconcile_trace(g@, old(self)@).table
                    &&& final(self).is_connected()
                    &&& action matches SessionAction::ApplyAndEcho { payload, echo }
                        && payload@ == json_of_batch(reconcile_batch(g@, old(self)@)) && echo@
                        == raw@
                },
                SessionEvent::Directive { graph: None, raw } => {
                    &&& final(self)@ == old(self)@
                    &&& final(self).is_connected()
                    &&& action matches SessionAction::Echo { echo } && echo@ == raw@
                },
                SessionEvent::NonText => {
                    &&& final(self)@ == old(self)@
                    &&& final(self).is_connected()
                    &&& action matches SessionAction::Reject { reply } && reply@ == "No thanks"@
                },
                SessionEvent::Closed => {
                    &&& final(self)@ == old(self)@
                    &&& !final(self).is_connected()
                    &&& action is Shutdown
                },
            },
    {
        match event {
            SessionEvent::Directive { graph, raw } => match graph {
                Some(g) => {
                    let batch = self.table.reconcile(&g);
                    let payload = encode_batch(&batch);
                    SessionAction::ApplyAndEcho { payload, echo: raw }
                },
                None => SessionAction::Echo { echo: raw },
            },
            SessionEvent::NonText => SessionAction::Reject { reply: "No thanks".to_owned() },
            SessionEvent::Closed => {
                self.connected = false;
                SessionAction::Shutdown
            },
        }
    }
}

} // verus!
