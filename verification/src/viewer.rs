//! The life of a viewer connection: forwarding updates, heartbeats, and
//! dropping a viewer that stopped answering.
use vstd::prelude::*;
use crate::session::{InstanceId, InstanceInfo, InstanceState, SessionToken};

verus! {

/// Something that happened on an open viewer connection.
#[derive(Debug, Clone, Copy, PartialEq, Eq, Structural)]
pub enum ViewerEvent {
    /// The server is shutting down.
    Shutdown,
    /// An update was forwarded to the viewer; `sent` tells whether it went
    /// through.
    Forwarded { sent: bool },
    /// The update channel closed without an update.
    NothingReceived,
    /// A heartbeat was due and was sent with the current sequence number;
    /// `sent` tells whether it went through, `secs_since_heartbeat` how
    /// long ago the last heartbeat went through.
    HeartbeatDue { sent: bool, secs_since_heartbeat: u64 },
}

/// What to do after an event.
#[derive(Debug, Clone, Copy, PartialEq, Eq, Structural)]
pub enum ViewerAction {
    /// Stop serving the connection.
    Exit,
    /// The viewer stopped answering for too long: remove it from its
    /// session and stop serving the connection.
    Remove,
    /// Keep serving; record `state` as the viewer's state, and restart the
    /// heartbeat clock if `heartbeat_through`.
    Continue { state: InstanceState, heartbeat_through: bool },
}

/// The bookkeeping of a viewer connection: the sequence number of the next
/// heartbeat and whether the last send went through.
#[derive(Debug, Clone, Copy, PartialEq, Eq, Structural)]
pub struct ViewerConnection {
    pub seq: u64,
    pub success: bool,
}

/// The state a connection is in, after the last send.
pub open spec fn state_of(success: bool) -> InstanceState {
    if success {
        InstanceState::Online
    } else {
        InstanceState::Offline
    }
}

/// How a connection moves on an event: a failed heartbeat more than
/// `keepalive` seconds after the last one that went through removes the
/// viewer; otherwise the outcome of the last send decides its state.
pub open spec fn viewer_transition(
    conn: ViewerConnection,
    event: ViewerEvent,
    keepalive: u64,
) -> (ViewerConnection, ViewerAction) {
    match event {
        ViewerEvent::Shutdown => (conn, ViewerAction::Exit),
        ViewerEvent::Forwarded { sent } => (
            ViewerConnection { success: sent, ..conn },
            ViewerAction::Continue { state: state_of(sent), heartbeat_through: false },
        ),
        ViewerEvent::NothingReceived => (
            conn,
            ViewerAction::Continue { state: state_of(conn.success), heartbeat_through: false },
        ),
        ViewerEvent::HeartbeatDue { sent, secs_since_heartbeat } => if !sent
            && secs_since_heartbeat > keepalive {
            (conn, ViewerAction::Remove)
        } else {
            (
                ViewerConnection { seq: (conn.seq + 1) as u64, success: sent },
                ViewerAction::Continue { state: state_of(sent), heartbeat_through: sent },
            )
        },
    }
}

impl ViewerConnection {
    /// A fresh connection: heartbeat number zero, nothing failed yet.
    pub fn new() -> (c: ViewerConnection)
        ensures
            c.seq == 0,
            c.success,
    {
        ViewerConnection { seq: 0, success: true }
    }

    /// Apply an event (see `viewer_transition`); `keepalive` is the number
    /// of seconds a viewer may go without a heartbeat getting through.
    pub fn on_event(&mut self, event: ViewerEvent, keepalive: u64) -> (action: ViewerAction)
        requires
            event is HeartbeatDue ==> old(self).seq < u64::MAX,
        ensures
            (*final(self), action) == viewer_transition(*old(self), event, keepalive),
    {
        match event {
            ViewerEvent::Shutdown => ViewerAction::Exit,
            ViewerEvent::Forwarded { sent } => {
                self.success = sent;
                ViewerAction::Continue { state: Self::state_for(sent), heartbeat_through: false }
            },
            ViewerEvent::NothingReceived => ViewerAction::Continue {
                state: Self::state_for(self.success),
                heartbeat_through: false,
            },
            ViewerEvent::HeartbeatDue { sent, secs_since_heartbeat } => {
                if !sent && secs_since_heartbeat > keepalive {
                    ViewerAction::Remove
                } else {
                    self.seq = self.seq + 1;
                    self.success = sent;
                    ViewerAction::Continue { state: Self::state_for(sent), heartbeat_through: sent }
                }
            },
        }
    }

    fn state_for(success: bool) -> (s: InstanceState)
        ensures
            s == state_of(success),
    {
        if success {
            InstanceState::Online
        } else {
            InstanceState::Offline
        }
    }
}

impl InstanceInfo {
    /// Whether updates are delivered to the instance: only while it is
    /// online.
    pub fn is_online(&self) -> (online: bool)
        ensures
            online <==> self.state == InstanceState::Online.spec_code(),
    {
        self.state == InstanceState::Online.code()
    }
}

/// The numbering of the analysis results forwarded to a viewer: each
/// result carries the number of results delivered before it, so a result
/// that did not go through is followed by one with the same number.
#[derive(Debug, Clone, Copy, PartialEq, Eq, Structural)]
pub struct ResultNumbering {
    pub delivered: u64,
}

impl ResultNumbering {
    /// Nothing delivered yet.
    pub fn new() -> (n: ResultNumbering)
        ensures
            n.delivered == 0,
    {
        ResultNumbering { delivered: 0 }
    }

    /// The number to stamp on the next result.
    pub fn next_number(&self) -> (seq: u64)
        ensures
            seq == self.delivered,
    {
        self.delivered
    }

    /// Record whether the stamped result went through.
    pub fn on_sent(&mut self, sent: bool)
        requires
            sent ==> old(self).delivered < u64::MAX,
        ensures
            final(self).delivered == if sent { old(self).delivered + 1 } else { old(self).delivered as int },
    {
        if sent {
            self.delivered = self.delivered + 1;
        }
    }
}

/// The first update of a viewer stream: the session and id the viewer was
/// given.
#[derive(Debug, Clone)]
pub struct Assignment {
    pub session_token: Option<SessionToken>,
    pub instance_id: Option<InstanceId>,
}

/// A heartbeat update, with its sequence number.
#[derive(Debug, Clone, Copy, PartialEq, Eq, Structural)]
pub struct Heartbeat {
    pub seq: u64,
}

/// The assignment a viewer stream opens with.
pub fn assignment(token: SessionToken, id: InstanceId) -> (a: Assignment)
    ensures
        a.session_token == Some(token),
        a.instance_id == Some(id),
{
    Assignment { session_token: Some(token), instance_id: Some(id) }
}

impl ViewerConnection {
    /// The heartbeat due next: it carries the connection's sequence number.
    pub fn heartbeat(&self) -> (h: Heartbeat)
        ensures
            h.seq == self.seq,
    {
        Heartbeat { seq: self.seq }
    }
}

/// A viewer is only ever removed after a failed heartbeat, never while its
/// heartbeats get through or within `keepalive` seconds of the last one
/// that did.
pub proof fn lemma_removal_needs_silence(conn: ViewerConnection, event: ViewerEvent, keepalive: u64)
    requires
        viewer_transition(conn, event, keepalive).1 == ViewerAction::Remove,
    ensures
        event matches ViewerEvent::HeartbeatDue { sent, secs_since_heartbeat }
            && !sent && secs_since_heartbeat > keepalive,
{
}

/// Each heartbeat that is due and does not remove the viewer advances the
/// heartbeat sequence number by one; nothing else changes it.
pub proof fn lemma_heartbeat_sequence(conn: ViewerConnection, event: ViewerEvent, keepalive: u64)
    requires
        conn.seq < u64::MAX,
    ensures
        viewer_transition(conn, event, keepalive).1 is Continue && event is HeartbeatDue
            ==> viewer_transition(conn, event, keepalive).0.seq == conn.seq + 1,
        !(event is HeartbeatDue) ==> viewer_transition(conn, event, keepalive).0.seq == conn.seq,
{
}

/// The numbers a run of results is stamped with, numbering from `delivered`
/// deliveries: one per send, and `outcomes` tells which sends went through.
pub open spec fn result_stamps(delivered: nat, outcomes: Seq<bool>) -> Seq<nat>
    decreases outcomes.len(),
{
    if outcomes.len() == 0 {
        Seq::empty()
    } else {
        seq![delivered] + result_stamps(
            if outcomes[0] { delivered + 1 } else { delivered },
            outcomes.drop_first(),
        )
    }
}

/// The stamps of the results that went through, in order.
pub open spec fn delivered_stamps(stamps: Seq<nat>, outcomes: Seq<bool>) -> Seq<nat>
    decreases outcomes.len(),
{
    if outcomes.len() == 0 || stamps.len() == 0 {
        Seq::empty()
    } else {
        (if outcomes[0] { seq![stamps[0]] } else { Seq::empty() }) + delivered_stamps(
            stamps.drop_first(),
            outcomes.drop_first(),
        )
    }
}

proof fn lemma_delivered_from(delivered: nat, outcomes: Seq<bool>)
    ensures
        delivered_stamps(result_stamps(delivered, outcomes), outcomes) =~= Seq::new(
            delivered_stamps(result_stamps(delivered, outcomes), outcomes).len(),
            |k: int| (delivered + k) as nat,
        ),
    decreases outcomes.len(),
{
    if outcomes.len() > 0 {
        let next = if outcomes[0] { delivered + 1 } else { delivered };
        lemma_delivered_from(next, outcomes.drop_first());
        let stamps = result_stamps(delivered, outcomes);
        assert(stamps.drop_first() =~= result_stamps(next, outcomes.drop_first()));
    }
}

/// The results forwarded to a viewer that went through carry the numbers
/// 0, 1, 2, ... in order, whatever sends failed in between: numbering from
/// a fresh `ResultNumbering`, stamping each result with `next_number` and
/// recording its outcome with `on_sent` gives the stamps `result_stamps(0,
/// outcomes)`.
pub proof fn lemma_results_numbered_in_order(outcomes: Seq<bool>)
    ensures
        delivered_stamps(result_stamps(0, outcomes), outcomes) =~= Seq::new(
            delivered_stamps(result_stamps(0, outcomes), outcomes).len(),
            |k: int| k as nat,
        ),
{
    lemma_delivered_from(0, outcomes);
}

/// The heartbeat numbers of a run of events on a connection: the sequence
/// number each due heartbeat is sent with, up to the event that ends the
/// connection.
pub open spec fn heartbeat_numbers(conn: ViewerConnection, events: Seq<ViewerEvent>, keepalive: u64) -> Seq<int>
    decreases events.len(),
{
    if events.len() == 0 {
        Seq::empty()
    } else {
        let (next, action) = viewer_transition(conn, events[0], keepalive);
        if !(action is Continue) {
            Seq::empty()
        } else {
            (if events[0] is HeartbeatDue { seq![conn.seq as int] } else { Seq::empty() }) + heartbeat_numbers(
                next,
                events.drop_first(),
                keepalive,
            )
        }
    }
}

/// Whether the run of events takes the sequence number no further than
/// `u64::MAX`.
pub open spec fn heartbeats_in_range(conn: ViewerConnection, events: Seq<ViewerEvent>) -> bool {
    conn.seq + events.len() <= u64::MAX
}

proof fn lemma_heartbeats_from(conn: ViewerConnection, events: Seq<ViewerEvent>, keepalive: u64)
    requires
        heartbeats_in_range(conn, events),
    ensures
        heartbeat_numbers(conn, events, keepalive) =~= Seq::new(
            heartbeat_numbers(conn, events, keepalive).len(),
            |k: int| conn.seq + k,
        ),
    decreases events.len(),
{
    if events.len() > 0 {
        let (next, action) = viewer_transition(conn, events[0], keepalive);
        if action is Continue {
            lemma_heartbeat_sequence(conn, events[0], keepalive);
            lemma_heartbeats_from(next, events.drop_first(), keepalive);
        }
    }
}

/// The heartbeats of a new connection carry the numbers 0, 1, 2, ... in
/// order, one per heartbeat that was due, until the connection ends.
pub proof fn lemma_heartbeats_numbered_in_order(events: Seq<ViewerEvent>, keepalive: u64)
    requires
        events.len() <= u64::MAX,
    ensures
        heartbeat_numbers(ViewerConnection { seq: 0, success: true }, events, keepalive) =~= Seq::new(
            heartbeat_numbers(ViewerConnection { seq: 0, success: true }, events, keepalive).len(),
            |k: int| k,
        ),
{
    lemma_heartbeats_from(ViewerConnection { seq: 0, success: true }, events, keepalive);
}

/// The state a viewer is recorded in follows the outcome of the latest
/// send, whatever went before: a forwarded update or a heartbeat that went
/// through makes it online, one that did not makes it offline (unless the
/// failed heartbeat removes the viewer); an update that went through never
/// removes or stops the connection.
pub proof fn lemma_state_follows_last_send(conn: ViewerConnection, sent: bool, secs: u64, keepalive: u64)
    ensures
        viewer_transition(conn, (ViewerEvent::Forwarded { sent }), keepalive).1 == (ViewerAction::Continue {
            state: if sent { InstanceState::Online } else { InstanceState::Offline },
            heartbeat_through: false,
        }),
        viewer_transition(conn, (ViewerEvent::Forwarded { sent }), keepalive).0.success == sent,
        sent ==> viewer_transition(conn, (ViewerEvent::HeartbeatDue { sent, secs_since_heartbeat: secs }), keepalive).1
            == (ViewerAction::Continue { state: InstanceState::Online, heartbeat_through: true }),
        !sent && secs <= keepalive ==> viewer_transition(
            conn,
            (ViewerEvent::HeartbeatDue { sent, secs_since_heartbeat: secs }),
            keepalive,
        ).1 == (ViewerAction::Continue { state: InstanceState::Offline, heartbeat_through: false }),
        viewer_transition(conn, ViewerEvent::NothingReceived, keepalive).1 == (ViewerAction::Continue {
            state: if conn.success { InstanceState::Online } else { InstanceState::Offline },
            heartbeat_through: false,
        }),
{
}

} // verus!
