//! The per-connection session state machine. A session authenticates over two
//! handshake lines, then relays chunks until the stream ends. Each call to
//! [`step`] consumes one event and returns the next state together with the
//! actions the embedding program must perform: send a notice, run the
//! credential check, register or deregister the session, fan a payload out, or
//! close the connection. A rejected password closes the connection.

use vstd::prelude::*;
use vstd::string::StringExecFns;
use crate::credentials::AuthOutcome;
use crate::text::{is_blank, is_blank_seq, lossy_decode, trim, trim_spec, utf8_lossy};

verus! {

/// Where a session stands in its lifecycle.
pub enum SessionState {
    /// Connection accepted; nothing read yet.
    Connecting,
    /// Waiting for the username line.
    AwaitingUsername,
    /// Waiting for the password line.
    AwaitingPassword { username: String },
    /// Waiting for the credential store's verdict on the handshake pair.
    AwaitingVerdict { username: String },
    /// Authenticated and registered; chunks are relayed.
    Active { username: String },
    /// Terminal; nothing more is read or sent.
    Closed,
}

/// The ghost image of a session state.
pub enum StateView {
    Connecting,
    AwaitingUsername,
    AwaitingPassword(Seq<char>),
    AwaitingVerdict(Seq<char>),
    Active(Seq<char>),
    Closed,
}

impl View for SessionState {
    type V = StateView;

    open spec fn view(&self) -> StateView {
        match self {
            SessionState::Connecting => StateView::Connecting,
            SessionState::AwaitingUsername => StateView::AwaitingUsername,
            SessionState::AwaitingPassword { username } => StateView::AwaitingPassword(username@),
            SessionState::AwaitingVerdict { username } => StateView::AwaitingVerdict(username@),
            SessionState::Active { username } => StateView::Active(username@),
            SessionState::Closed => StateView::Closed,
        }
    }
}

/// One thing that happened on the connection, handed to [`step`].
pub enum SessionEvent {
    /// The connection was accepted.
    Opened,
    /// A full line arrived while authenticating.
    Line(String),
    /// The credential store's verdict arrived.
    Verdict(AuthOutcome),
    /// A chunk of bytes arrived while active.
    Chunk(Vec<u8>),
    /// The read side reached end-of-stream.
    Eof,
    /// Reading failed.
    ReadError,
}

/// The ghost image of a session event.
pub enum EventView {
    Opened,
    Line(Seq<char>),
    Verdict(AuthOutcome),
    Chunk(Seq<u8>),
    Eof,
    ReadError,
}

impl View for SessionEvent {
    type V = EventView;

    open spec fn view(&self) -> EventView {
        match self {
            SessionEvent::Opened => EventView::Opened,
            SessionEvent::Line(l) => EventView::Line(l@),
            SessionEvent::Verdict(o) => EventView::Verdict(*o),
            SessionEvent::Chunk(b) => EventView::Chunk(b@),
            SessionEvent::Eof => EventView::Eof,
            SessionEvent::ReadError => EventView::ReadError,
        }
    }
}

/// The next state and the actions one step asks of the embedding program.
pub struct Step {
    /// The state the session is in after the event.
    pub next: SessionState,
    /// A notice line to send to this client.
    pub reply: Option<String>,
    /// A `(username, password)` pair to hand to the credential store; its
    /// verdict comes back as the next event.
    pub verify: Option<(String, String)>,
    /// A username to register in the connection registry for this connection.
    pub register: Option<String>,
    /// A `(sender, payload)` pair to fan out through the registry.
    pub broadcast: Option<(String, String)>,
    /// A username whose registry entry is to be removed.
    pub deregister: Option<String>,
    /// Whether the connection is to be closed.
    pub close: bool,
}

/// The ghost image of a step.
pub struct StepView {
    pub next: StateView,
    pub reply: Option<Seq<char>>,
    pub verify: Option<(Seq<char>, Seq<char>)>,
    pub register: Option<Seq<char>>,
    pub broadcast: Option<(Seq<char>, Seq<char>)>,
    pub deregister: Option<Seq<char>>,
    pub close: bool,
}

impl View for Step {
    type V = StepView;

    open spec fn view(&self) -> StepView {
        StepView {
            next: self.next@,
            reply: match self.reply {
                Option::Some(ref s) => Some(s@),
                Option::None => None,
            },
            verify: match self.verify {
                Option::Some((ref u, ref p)) => Some((u@, p@)),
                Option::None => None,
            },
            register: match self.register {
                Option::Some(ref u) => Some(u@),
                Option::None => None,
            },
            broadcast: match self.broadcast {
                Option::Some((ref u, ref m)) => Some((u@, m@)),
                Option::None => None,
            },
            deregister: match self.deregister {
                Option::Some(ref u) => Some(u@),
                Option::None => None,
            },
            close: self.close,
        }
    }
}

/// A transition that only moves to `next` and asks for nothing.
pub open spec fn quiet_step(next: StateView) -> StepView {
    StepView {
        next,
        reply: None,
        verify: None,
        register: None,
        broadcast: None,
        deregister: None,
        close: false,
    }
}

/// The notice line owed to a client for each authentication verdict.
pub open spec fn notice_seq(o: AuthOutcome) -> Seq<char> {
    match o {
        AuthOutcome::NewUser => "New user registered successfully!\n"@,
        AuthOutcome::ReturningUser => "Login successful!\n"@,
        AuthOutcome::Rejected => "Incorrect password.\n"@,
    }
}

/// The whole state machine: what one event does to a session in each state.
///
/// Handshake lines are trimmed of surrounding whitespace. An accepted
/// handshake sends the confirming notice and registers the session; a
/// rejected one sends `"Incorrect password.\n"` and closes. An active
/// session broadcasts every chunk that does not decode to whitespace alone,
/// and deregisters exactly when it leaves `Active` for `Closed`. End of
/// stream, a read failure or an event the state does not expect abandon the
/// session silently. `Closed` is terminal: nothing further happens.
pub open spec fn step_spec(s: StateView, e: EventView) -> StepView {
    match (s, e) {
        (StateView::Connecting, EventView::Opened) => quiet_step(StateView::AwaitingUsername),
        (StateView::AwaitingUsername, EventView::Line(l)) => quiet_step(
            StateView::AwaitingPassword(trim_spec(l)),
        ),
        (StateView::AwaitingPassword(u), EventView::Line(l)) => StepView {
            verify: Some((u, trim_spec(l))),
            ..quiet_step(StateView::AwaitingVerdict(u))
        },
        (StateView::AwaitingVerdict(u), EventView::Verdict(o)) => match o {
            AuthOutcome::Rejected => StepView {
                reply: Some(notice_seq(o)),
                close: true,
                ..quiet_step(StateView::Closed)
            },
            _ => StepView {
                reply: Some(notice_seq(o)),
                register: Some(u),
                ..quiet_step(StateView::Active(u))
            },
        },
        (StateView::Active(u), EventView::Chunk(b)) => if is_blank_seq(lossy_decode(b)) {
            quiet_step(StateView::Active(u))
        } else {
            StepView { broadcast: Some((u, lossy_decode(b))), ..quiet_step(StateView::Active(u)) }
        },
        (StateView::Active(u), EventView::Eof) => StepView {
            deregister: Some(u),
            close: true,
            ..quiet_step(StateView::Closed)
        },
        (StateView::Active(u), EventView::ReadError) => StepView {
            deregister: Some(u),
            close: true,
            ..quiet_step(StateView::Closed)
        },
        (StateView::Active(u), _) => StepView {
            deregister: Some(u),
            close: true,
            ..quiet_step(StateView::Closed)
        },
        (StateView::Closed, _) => quiet_step(StateView::Closed),
        _ => StepView { close: true, ..quiet_step(StateView::Closed) },
    }
}

/// The fresh state of a just-accepted connection.
pub fn new_session() -> (s: SessionState)
    ensures
        s@ == StateView::Connecting,
{
    SessionState::Connecting
}

/// The notice line owed for a verdict, exactly as it goes over the wire.
pub fn notice_line(o: AuthOutcome) -> (r: String)
    ensures
        r@ == notice_seq(o),
{
    match o {
        AuthOutcome::NewUser => "New user registered successfully!\n".to_owned(),
        AuthOutcome::ReturningUser => "Login successful!\n".to_owned(),
        AuthOutcome::Rejected => "Incorrect password.\n".to_owned(),
    }
}

/// Drives the session state machine one event forward.
pub fn step(state: SessionState, event: SessionEvent) -> (r: Step)
    ensures
        r@ == step_spec(state@, event@),
{
    match (state, event) {
        (SessionState::Connecting, SessionEvent::Opened) => Step {
            next: SessionState::AwaitingUsername,
            reply: None,
            verify: None,
            register: None,
            broadcast: None,
            deregister: None,
            close: false,
        },
        (SessionState::AwaitingUsername, SessionEvent::Line(l)) => Step {
            next: SessionState::AwaitingPassword { username: trim(l.as_str()) },
            reply: None,
            verify: None,
            register: None,
            broadcast: None,
            deregister: None,
            close: false,
        },
        (SessionState::AwaitingPassword { username }, SessionEvent::Line(l)) => {
            let password = trim(l.as_str());
            Step {
                next: SessionState::AwaitingVerdict { username: username.clone() },
                reply: None,
                verify: Some((username, password)),
                register: None,
                broadcast: None,
                deregister: None,
                close: false,
            }
        },
        (SessionState::AwaitingVerdict { username }, SessionEvent::Verdict(o)) => {
            match o {
                AuthOutcome::Rejected => Step {
                    next: SessionState::Closed,
                    reply: Some(notice_line(o)),
                    verify: None,
                    register: None,
                    broadcast: None,
                    deregister: None,
                    close: true,
                },
                _ => Step {
                    next: SessionState::Active { username: username.clone() },
                    reply: Some(notice_line(o)),
                    verify: None,
                    register: Some(username),
                    broadcast: None,
                    deregister: None,
                    close: false,
                },
            }
        },
        (SessionState::Active { username }, SessionEvent::Chunk(b)) => {
            let payload = utf8_lossy(b.as_slice());
            if is_blank(payload.as_str()) {
                Step {
                    next: SessionState::Active { username },
                    reply: None,
                    verify: None,
                    register: None,
                    broadcast: None,
                    deregister: None,
                    close: false,
                }
            } else {
                Step {
                    next: SessionState::Active { username: username.clone() },
                    reply: None,
                    verify: None,
                    register: None,
                    broadcast: Some((username, payload)),
                    deregister: None,
                    close: false,
                }
            }
        },
        (SessionState::Active { username }, SessionEvent::Eof) => Step {
            next: SessionState::Closed,
            reply: None,
            verify: None,
            register: None,
            broadcast: None,
            deregister: Some(username),
            close: true,
        },
        (SessionState::Active { username }, SessionEvent::ReadError) => Step {
            next: SessionState::Closed,
            reply: None,
            verify: None,
            register: None,
            broadcast: None,
            deregister: Some(username),
            close: true,
        },
        (SessionState::Active { username }, _) => Step {
            next: SessionState::Closed,
            reply: None,
            verify: None,
            register: None,
            broadcast: None,
            deregister: Some(username),
            close: true,
        },
        (SessionState::Closed, _) => Step {
            next: SessionState::Closed,
            reply: None,
            verify: None,
            register: None,
            broadcast: None,
            deregister: None,
            close: false,
        },
        _ => Step {
            next: SessionState::Closed,
            reply: None,
            verify: None,
            register: None,
            broadcast: None,
            deregister: None,
            close: true,
        },
    }
}

} // verus!
