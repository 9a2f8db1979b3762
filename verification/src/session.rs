//! The supervisor of one connection.
//!
//! A [`DTPSession`] watches over one member's connection: it keeps the time of
//! the last sign of life, turns what the member says into requests to the hub,
//! and decides when the connection is to be torn down. It performs nothing
//! itself. Each event it is told of yields a list of [`Action`]s for whoever
//! holds the transport and the link to the hub, to be carried out in order.
//!
//! Time is a count of nanoseconds on a clock that never runs backwards.

use vstd::prelude::*;
use crate::packets::{
    Connect, ConnectNotification, Disconnect, DisconnectNotification, Play, Poll, Ready2, Skip,
    C2S, C2SView,
};

verus! {

/// The time between two heartbeat ticks.
pub const HEARTBEAT_INTERVAL: u64 = 5_000_000_000;

/// How long a connection may stay silent before it counts as dead.
pub const SESSION_TIMEOUT: u64 = 10_000_000_000;

/// Where a supervisor stands in its life.
#[derive(Clone, Copy, Debug, PartialEq, Eq, Structural)]
pub enum Phase {
    /// Created; the hub has not yet acknowledged the registration.
    Starting,
    /// Registered and serving traffic.
    Active,
    /// Told to stop; the hub has not yet been told of the departure.
    Stopping,
    /// Terminated.
    Stopped,
}

impl Phase {
    /// The place of a phase in the order in which a supervisor passes
    /// through them.
    pub open spec fn rank(self) -> nat {
        match self {
            Phase::Starting => 0,
            Phase::Active => 1,
            Phase::Stopping => 2,
            Phase::Stopped => 3,
        }
    }
}

/// Why a side closes the connection.
#[derive(Clone, Debug, PartialEq, Eq)]
pub struct CloseReason {
    pub code: u16,
    pub description: Option<String>,
}

/// The view of a [`CloseReason`].
pub struct CloseReasonView {
    pub code: u16,
    pub description: Option<Seq<char>>,
}

impl View for CloseReason {
    type V = CloseReasonView;

    open spec fn view(&self) -> CloseReasonView {
        CloseReasonView {
            code: self.code,
            description: text_view(self.description),
        }
    }
}

/// The view of an optional close reason.
pub open spec fn reason_view(reason: Option<CloseReason>) -> Option<CloseReasonView> {
    match reason {
        Some(r) => Some(r@),
        None => None,
    }
}

/// The view of an optional text.
pub open spec fn text_view(text: Option<String>) -> Option<Seq<char>> {
    match text {
        Some(t) => Some(t@),
        None => None,
    }
}

/// What the transport hands to the supervisor.
#[derive(Clone, Debug, PartialEq, Eq)]
pub enum Incoming {
    /// A text frame that decoded to a member's message.
    Text(C2S),
    /// A text frame that did not decode.
    Malformed,
    /// A liveness probe from the peer, with its payload.
    Ping(Vec<u8>),
    /// The peer's answer to a liveness probe.
    Pong,
    /// The peer closes the connection.
    Close(Option<CloseReason>),
    /// Any other frame.
    Other,
    /// The transport reports a protocol error.
    Broken,
}

/// The view of an [`Incoming`].
pub enum IncomingView {
    Text(C2SView),
    Malformed,
    Ping(Seq<u8>),
    Pong,
    Close(Option<CloseReasonView>),
    Other,
    Broken,
}

impl View for Incoming {
    type V = IncomingView;

    open spec fn view(&self) -> IncomingView {
        match self {
            Incoming::Text(m) => IncomingView::Text(m@),
            Incoming::Malformed => IncomingView::Malformed,
            Incoming::Ping(payload) => IncomingView::Ping(payload@),
            Incoming::Pong => IncomingView::Pong,
            Incoming::Close(reason) => IncomingView::Close(reason_view(*reason)),
            Incoming::Other => IncomingView::Other,
            Incoming::Broken => IncomingView::Broken,
        }
    }
}

/// What a supervisor asks to have done.
#[derive(Clone, Debug, PartialEq, Eq)]
pub enum Action {
    /// Send this departure to the hub.
    Disconnect(Disconnect),
    /// Send this submission to the hub.
    Play(Play),
    /// Send this skip request to the hub.
    Skip(Skip),
    /// Send this ready report to the hub.
    Ready2(Ready2),
    /// Ask the hub to check the barrier.
    Poll(Poll),
    /// Send a liveness probe to the peer.
    Ping,
    /// Answer the peer's liveness probe with its payload.
    Pong(Vec<u8>),
    /// Send this encoded event to the peer.
    Text(String),
    /// Close the connection towards the peer.
    Close(Option<CloseReason>),
    /// Tear the connection down.
    Stop,
}

/// The view of an [`Action`].
pub enum ActionView {
    Disconnect { id: Seq<char>, notif: Seq<char> },
    Play { link: Seq<char> },
    Skip,
    Ready2 { id: Seq<char> },
    Poll,
    Ping,
    Pong(Seq<u8>),
    Text(Seq<char>),
    Close(Option<CloseReasonView>),
    Stop,
}

impl View for Action {
    type V = ActionView;

    open spec fn view(&self) -> ActionView {
        match self {
            Action::Disconnect(d) => ActionView::Disconnect { id: d.id@, notif: d.notif.id@ },
            Action::Play(p) => ActionView::Play { link: p.link@ },
            Action::Skip(_) => ActionView::Skip,
            Action::Ready2(r) => ActionView::Ready2 { id: r.id@ },
            Action::Poll(_) => ActionView::Poll,
            Action::Ping => ActionView::Ping,
            Action::Pong(payload) => ActionView::Pong(payload@),
            Action::Text(s) => ActionView::Text(s@),
            Action::Close(reason) => ActionView::Close(reason_view(*reason)),
            Action::Stop => ActionView::Stop,
        }
    }
}

/// The views of a list of actions, in order.
pub open spec fn action_views(actions: Seq<Action>) -> Seq<ActionView> {
    actions.map_values(|a: Action| a@)
}

/// The state of a supervisor.
pub struct SessionView {
    pub id: Seq<char>,
    pub hb: u64,
    pub playing: bool,
    pub phase: Phase,
}

/// What an event does to a supervisor: the state it leaves, and the actions
/// it asks for.
pub struct Reaction {
    pub next: SessionView,
    pub actions: Seq<ActionView>,
}

/// An event in the life of a supervisor.
pub enum Event {
    /// The hub acknowledged the registration, or could not be reached.
    Registered { reached: bool },
    /// The heartbeat timer fired at `now`.
    Tick { now: u64 },
    /// The transport delivered `item` at `now`.
    Frame { item: IncomingView, now: u64 },
    /// A broadcast of the hub arrived, encoded for the wire if that worked.
    Relay { encoded: Option<Seq<char>> },
    /// The connection is going down.
    Stopping,
}

impl SessionView {
    /// The time that has passed at `now` since the last sign of life.
    pub open spec fn silence(self, now: u64) -> int {
        if now >= self.hb {
            now - self.hb
        } else {
            0
        }
    }

    /// The peer has been silent for longer than the timeout.
    pub open spec fn timed_out(self, now: u64) -> bool {
        self.silence(now) > SESSION_TIMEOUT
    }

    /// The departure of this supervisor's member.
    pub open spec fn departure(self) -> ActionView {
        ActionView::Disconnect { id: self.id, notif: self.id }
    }

    /// The supervisor in another phase.
    pub open spec fn in_phase(self, phase: Phase) -> Self {
        SessionView { phase, ..self }
    }

    /// The supervisor stays as it is and asks for nothing.
    pub open spec fn idle(self) -> Reaction {
        Reaction { next: self, actions: Seq::empty() }
    }

    /// The supervisor stays as it is and asks for `actions`.
    pub open spec fn asks(self, actions: Seq<ActionView>) -> Reaction {
        Reaction { next: self, actions }
    }

    /// The supervisor gives up the connection: it goes to `Stopping` and asks
    /// for `actions`, the last of which is the stop.
    pub open spec fn gives_up(self, actions: Seq<ActionView>) -> Reaction {
        Reaction { next: self.in_phase(Phase::Stopping), actions: actions.push(ActionView::Stop) }
    }

    /// The answer to the registration. A supervisor that waits for it becomes
    /// active if the hub was reached; if not, it is stopped at once and asks
    /// for the teardown. Any other supervisor ignores it.
    pub open spec fn on_registered(self, reached: bool) -> Reaction {
        if self.phase != Phase::Starting {
            self.idle()
        } else if reached {
            self.in_phase(Phase::Active).idle()
        } else {
            Reaction { next: self.in_phase(Phase::Stopped), actions: seq![ActionView::Stop] }
        }
    }

    /// A heartbeat tick at `now`. An active supervisor whose peer has timed
    /// out reports the departure and gives up. Otherwise it probes the peer,
    /// and checks the barrier unless its member is playing. A supervisor that
    /// is not active ignores the tick.
    pub open spec fn on_tick(self, now: u64) -> Reaction {
        if self.phase != Phase::Active {
            self.idle()
        } else if self.timed_out(now) {
            self.gives_up(seq![self.departure()])
        } else if self.playing {
            self.asks(seq![ActionView::Ping])
        } else {
            self.asks(seq![ActionView::Ping, ActionView::Poll])
        }
    }

    /// What a member's message does to an active supervisor.
    pub open spec fn on_message(self, msg: C2SView) -> Reaction {
        match msg {
            C2SView::Play { yt_link } => self.asks(seq![ActionView::Play { link: yt_link }]),
            C2SView::Skip => self.asks(seq![ActionView::Skip]),
            C2SView::Ready1 => SessionView { playing: false, ..self }.idle(),
            C2SView::Ready2 => self.asks(seq![ActionView::Ready2 { id: self.id }]),
            C2SView::Playing => SessionView { playing: true, ..self }.idle(),
        }
    }

    /// A frame from the transport at `now`. A supervisor that is not active
    /// ignores it.
    pub open spec fn on_frame(self, item: IncomingView, now: u64) -> Reaction {
        if self.phase != Phase::Active {
            self.idle()
        } else {
            match item {
                IncomingView::Text(msg) => self.on_message(msg),
                IncomingView::Malformed => self.gives_up(seq![]),
                IncomingView::Ping(payload) => SessionView { hb: now, ..self }.asks(
                    seq![ActionView::Pong(payload)],
                ),
                IncomingView::Pong => SessionView { hb: now, ..self }.idle(),
                IncomingView::Close(reason) => self.gives_up(seq![ActionView::Close(reason)]),
                IncomingView::Other => self.idle(),
                IncomingView::Broken => self.gives_up(seq![]),
            }
        }
    }

    /// A broadcast of the hub. An active supervisor forwards the encoded
    /// event, and gives up if there is none. A supervisor that is not active
    /// ignores it.
    pub open spec fn on_relay(self, encoded: Option<Seq<char>>) -> Reaction {
        if self.phase != Phase::Active {
            self.idle()
        } else {
            match encoded {
                Some(text) => self.asks(seq![ActionView::Text(text)]),
                None => self.gives_up(seq![]),
            }
        }
    }

    /// The connection goes down. A supervisor that is not yet stopped
    /// reports the departure and is stopped; a stopped one does nothing.
    pub open spec fn on_stopping(self) -> Reaction {
        if self.phase == Phase::Stopped {
            self.idle()
        } else {
            Reaction { next: self.in_phase(Phase::Stopped), actions: seq![self.departure()] }
        }
    }

    /// What `event` does to the supervisor.
    pub open spec fn react(self, event: Event) -> Reaction {
        match event {
            Event::Registered { reached } => self.on_registered(reached),
            Event::Tick { now } => self.on_tick(now),
            Event::Frame { item, now } => self.on_frame(item, now),
            Event::Relay { encoded } => self.on_relay(encoded),
            Event::Stopping => self.on_stopping(),
        }
    }
}

/// What has to be set going when a supervisor starts.
#[derive(Debug)]
pub struct Startup<R> {
    /// The period of the heartbeat timer to start.
    pub heartbeat: u64,
    /// The registration to send to the hub; its answer goes to
    /// [`DTPSession::registered`].
    pub connect: Connect<R>,
}

/// The supervisor of one member's connection.
#[derive(Debug)]
pub struct DTPSession {
    /// The member's id.
    pub id: String,
    /// The time of the last sign of life from the peer.
    pub hb: u64,
    /// Whether the member has been told to start and has not yet opened a
    /// new round; while it is set the supervisor does not check the barrier.
    pub playing: bool,
    /// Where the supervisor stands in its life.
    pub phase: Phase,
}

impl View for DTPSession {
    type V = SessionView;

    open spec fn view(&self) -> SessionView {
        SessionView { id: self.id@, hb: self.hb, playing: self.playing, phase: self.phase }
    }
}

impl DTPSession {
    /// A supervisor for the member `id`, created at `now`: not yet
    /// registered, not playing, and with `now` as the last sign of life.
    pub fn new(id: String, now: u64) -> (out: Self)
        ensures
            out@ == (SessionView { id: id@, hb: now, playing: false, phase: Phase::Starting }),
    {
        DTPSession { id, hb: now, playing: false, phase: Phase::Starting }
    }

    /// The departure of this supervisor's member, as a request to the hub.
    fn departure(&self) -> (out: Action)
        ensures
            out@ == self@.departure(),
    {
        Action::Disconnect(
            Disconnect {
                id: self.id.clone(),
                notif: DisconnectNotification { id: self.id.clone() },
            },
        )
    }

    /// What a supervisor that has not yet registered does first: it has a
    /// heartbeat timer started that fires every [`HEARTBEAT_INTERVAL`], and
    /// registers with the hub under its id, with `addr` as the capability
    /// through which broadcasts come back. Any other supervisor has nothing
    /// to start. The supervisor itself does not change: it waits for
    /// [`DTPSession::registered`].
    pub fn started<R>(&self, addr: R) -> (out: Option<Startup<R>>)
        ensures
            out is Some <==> self.phase == Phase::Starting,
            out matches Some(s) ==> {
                &&& s.heartbeat == HEARTBEAT_INTERVAL
                &&& s.connect.id@ == self.id@
                &&& s.connect.notif.id@ == self.id@
                &&& s.connect.addr == addr
            },
    {
        if self.phase == Phase::Starting {
            Some(
                Startup {
                    heartbeat: HEARTBEAT_INTERVAL,
                    connect: Connect {
                        addr,
                        id: self.id.clone(),
                        notif: ConnectNotification { id: self.id.clone() },
                    },
                },
            )
        } else {
            None
        }
    }

    /// Takes the answer to the registration: `reached` tells whether the hub
    /// acknowledged it.
    pub fn registered(&mut self, reached: bool) -> (out: Vec<Action>)
        ensures
            final(self)@ == old(self)@.on_registered(reached).next,
            action_views(out@) == old(self)@.on_registered(reached).actions,
    {
        let mut out: Vec<Action> = Vec::new();
        if self.phase == Phase::Starting {
            if reached {
                self.phase = Phase::Active;
            } else {
                self.phase = Phase::Stopped;
                out.push(Action::Stop);
            }
        }
        assert(action_views(out@) =~= old(self)@.on_registered(reached).actions);
        out
    }

    /// Takes a heartbeat tick at `now`.
    pub fn hb(&mut self, now: u64) -> (out: Vec<Action>)
        ensures
            final(self)@ == old(self)@.on_tick(now).next,
            action_views(out@) == old(self)@.on_tick(now).actions,
    {
        let mut out: Vec<Action> = Vec::new();
        if self.phase == Phase::Active {
            if now >= self.hb && now - self.hb > SESSION_TIMEOUT {
                out.push(self.departure());
                out.push(Action::Stop);
                self.phase = Phase::Stopping;
            } else {
                out.push(Action::Ping);
                if !self.playing {
                    out.push(Action::Poll(Poll));
                }
            }
        }
        assert(action_views(out@) =~= old(self)@.on_tick(now).actions);
        out
    }

    /// Takes what the transport delivered at `now`.
    pub fn handle(&mut self, item: Incoming, now: u64) -> (out: Vec<Action>)
        ensures
            final(self)@ == old(self)@.on_frame(item@, now).next,
            action_views(out@) == old(self)@.on_frame(item@, now).actions,
    {
        let mut out: Vec<Action> = Vec::new();
        if self.phase == Phase::Active {
            match item {
                Incoming::Text(msg) => match msg {
                    C2S::Play { yt_link } => {
                        out.push(Action::Play(Play { link: yt_link }));
                    },
                    C2S::Skip => {
                        out.push(Action::Skip(Skip));
                    },
                    C2S::Ready1 => {
                        self.playing = false;
                    },
                    C2S::Ready2 => {
                        out.push(Action::Ready2(Ready2 { id: self.id.clone() }));
                    },
                    C2S::Playing => {
                        self.playing = true;
                    },
                },
                Incoming::Malformed => {
                    out.push(Action::Stop);
                    self.phase = Phase::Stopping;
                },
                Incoming::Ping(payload) => {
                    self.hb = now;
                    out.push(Action::Pong(payload));
                },
                Incoming::Pong => {
                    self.hb = now;
                },
                Incoming::Close(reason) => {
                    out.push(Action::Close(reason));
                    out.push(Action::Stop);
                    self.phase = Phase::Stopping;
                },
                Incoming::Other => {},
                Incoming::Broken => {
                    out.push(Action::Stop);
                    self.phase = Phase::Stopping;
                },
            }
        }
        assert(action_views(out@) =~= old(self)@.on_frame(item@, now).actions);
        out
    }

    /// Takes a broadcast of the hub: `encoded` is the event as it goes over
    /// the wire, or `None` if it could not be encoded.
    pub fn relay(&mut self, encoded: Option<String>) -> (out: Vec<Action>)
        ensures
            final(self)@ == old(self)@.on_relay(text_view(encoded)).next,
            action_views(out@) == old(self)@.on_relay(text_view(encoded)).actions,
    {
        let ghost wire = text_view(encoded);
        let mut out: Vec<Action> = Vec::new();
        if self.phase == Phase::Active {
            match encoded {
                Some(text) => {
                    out.push(Action::Text(text));
                },
                None => {
                    out.push(Action::Stop);
                    self.phase = Phase::Stopping;
                },
            }
        }
        assert(action_views(out@) =~= old(self)@.on_relay(wire).actions);
        out
    }

    /// Takes the connection down.
    pub fn stopping(&mut self) -> (out: Vec<Action>)
        ensures
            final(self)@ == old(self)@.on_stopping().next,
            action_views(out@) == old(self)@.on_stopping().actions,
    {
        let mut out: Vec<Action> = Vec::new();
        if self.phase != Phase::Stopped {
            out.push(self.departure());
            self.phase = Phase::Stopped;
        }
        assert(action_views(out@) =~= old(self)@.on_stopping().actions);
        out
    }
}

/// No event changes the id of a supervisor, and none takes it back to an
/// earlier phase.
pub proof fn lemma_life_goes_forward(s: SessionView, event: Event)
    ensures
        s.react(event).next.id == s.id,
        s.react(event).next.phase.rank() >= s.phase.rank(),
{
}

/// A stopped supervisor stays as it is and asks for nothing, whatever
/// happens.
pub proof fn lemma_stopped_is_final(s: SessionView, event: Event)
    requires
        s.phase == Phase::Stopped,
    ensures
        s.react(event) == s.idle(),
{
}

/// A supervisor asks for the teardown exactly when an event other than the
/// teardown itself ends its service: it was starting or active before, and
/// is stopping or stopped after. The stop is then the last thing it asks
/// for.
pub proof fn lemma_stop_ends_service(s: SessionView, event: Event)
    ensures
        s.react(event).actions.contains(ActionView::Stop) <==> {
            &&& !(event is Stopping)
            &&& s.phase.rank() <= 1
            &&& s.react(event).next.phase.rank() >= 2
        },
        s.react(event).actions.contains(ActionView::Stop) ==> s.react(event).actions.last()
            == ActionView::Stop,
{
    let r = s.react(event);
    if r.actions.len() > 0 {
        assert(r.actions[r.actions.len() - 1] == r.actions.last());
    }
    if r.actions.contains(ActionView::Stop) {
        let i = choose|i: int| 0 <= i < r.actions.len() && r.actions[i] == ActionView::Stop;
    }
}

/// A supervisor that has registered does not come to its end without
/// reporting the departure: the event that stops an active or stopping
/// supervisor asks for exactly that.
pub proof fn lemma_end_reports_departure(s: SessionView, event: Event)
    requires
        s.phase == Phase::Active || s.phase == Phase::Stopping,
        s.react(event).next.phase == Phase::Stopped,
    ensures
        s.react(event).actions == seq![s.departure()],
{
}

/// An active supervisor gives its peer up at a tick, and reports the
/// departure, exactly when the tick comes more than [`SESSION_TIMEOUT`] after
/// the last sign of life.
pub proof fn lemma_timeout_is_exact(s: SessionView, now: u64)
    requires
        s.phase == Phase::Active,
    ensures
        s.on_tick(now).next.phase == Phase::Stopping <==> now > s.hb + SESSION_TIMEOUT,
        s.on_tick(now).actions.contains(s.departure()) <==> now > s.hb + SESSION_TIMEOUT,
{
    let r = s.on_tick(now);
    if now > s.hb + SESSION_TIMEOUT {
        assert(r.actions[0] == s.departure());
    } else {
        if r.actions.contains(s.departure()) {
            let i = choose|i: int| 0 <= i < r.actions.len() && r.actions[i] == s.departure();
        }
    }
}

} // verus!
