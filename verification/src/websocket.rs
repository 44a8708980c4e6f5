//! The connection manager: the state of the connection, and every decision
//! that is taken on it.
//!
//! The manager does no input or output itself. Its caller performs the
//! handshake attempts, sleeps between them, reads frames and writes them,
//! and tells the manager what happened; the manager answers with what is to
//! be done next.

use vstd::prelude::*;
use crate::broadcast::Broadcaster;
use crate::broadcast::BroadcasterView;
use crate::broadcast::SubscriberHandle;
use crate::broadcast::SUBSCRIBER_CAPACITY;
use crate::codec::decoded;
use crate::codec::wire_form;
use crate::codec::MalformedMessage;
use crate::handshake::fresh_key;
use crate::handshake::handshake_uri;
use crate::handshake::host_header;
use crate::handshake::is_websocket_key;
use crate::handshake::url_authority;
use crate::handshake::HandshakeRequest;
use crate::handshake::RetryPolicy;
pub use crate::message::ChatMessage;
use crate::sending::SendError;
use crate::sending::SendGate;

verus! {

/// Where a connection stands.
#[derive(Clone, Copy, Debug, PartialEq, Eq, Structural)]
pub enum ConnectionState {
    Disconnected,
    Connecting,
    Connected,
}

/// Why one handshake attempt failed, as the transport reports it.
#[derive(Debug, PartialEq, Eq)]
pub enum AttemptFailure {
    /// The server could not be reached.
    ConnectFailed(String),
    /// The server answered and refused the upgrade.
    UpgradeRejected(String),
}

/// How one handshake attempt ended.
#[derive(Debug, PartialEq, Eq)]
pub enum HandshakeOutcome {
    Established,
    Failed(AttemptFailure),
}

/// Why a connect did not lead to a connection.
#[derive(Debug, PartialEq, Eq)]
pub enum HandshakeFailure {
    /// The manager is connecting or connected already: disconnect first.
    NotDisconnected,
    /// The server's address with the token is no absolute URL.
    MalformedUrl,
    /// Every attempt failed; this is what the last one failed with.
    Exhausted(AttemptFailure),
}

/// What is to be done after a handshake attempt has ended.
#[derive(Debug, PartialEq, Eq)]
pub enum HandshakeStep {
    /// The connection stands: install the write half and start reading.
    Connected,
    /// Wait for so many seconds, then attempt this request.
    Retry { delay_secs: u64, request: HandshakeRequest },
    /// The connect has failed for good.
    Failed(HandshakeFailure),
    /// No connect is under way: there is nothing to do.
    NotConnecting,
}

/// What is to be done after a handshake attempt, without the request.
pub ghost enum Verdict {
    Connected,
    Retry,
    Failed(HandshakeFailure),
    NotConnecting,
}

impl HandshakeStep {
    /// The step without its request.
    pub open spec fn verdict(self) -> Verdict {
        match self {
            HandshakeStep::Connected => Verdict::Connected,
            HandshakeStep::Retry { .. } => Verdict::Retry,
            HandshakeStep::Failed(failure) => Verdict::Failed(failure),
            HandshakeStep::NotConnecting => Verdict::NotConnecting,
        }
    }
}

/// What the read half has come up with.
#[derive(Debug, PartialEq, Eq)]
pub enum ReadEvent {
    /// A text frame.
    Text(String),
    /// A frame of any other kind.
    Other,
    /// The read failed; the text says how.
    Failed(String),
    /// The stream has ended.
    Ended,
}

/// What the receive loop does after an event.
#[derive(Debug, Clone, Copy, PartialEq, Eq, Structural)]
pub enum LoopStep {
    /// The frame held a chat message, which went to the subscribers. The
    /// loop goes on.
    Delivered,
    /// The frame held text that is no chat message; it was dropped. The
    /// loop goes on.
    Malformed(MalformedMessage),
    /// The frame held no text. The loop goes on.
    Skipped,
    /// The loop ends and gives up the read half.
    Stop,
}

impl LoopStep {
    /// Whether the loop reads another frame.
    pub open spec fn goes_on(self) -> bool {
        self != LoopStep::Stop
    }

    /// Whether the loop reads another frame.
    pub fn keeps_reading(self) -> (reading: bool)
        ensures
            reading == self.goes_on(),
    {
        match self {
            LoopStep::Stop => false,
            _ => true,
        }
    }
}

enum Phase {
    Disconnected,
    Connecting { attempts: u32, uri: String, host: String },
    Connected(SendGate),
}

/// The phase of a connection as contracts see it.
pub ghost enum PhaseView {
    Disconnected,
    /// A connect is under way: `attempts` handshake attempts have been
    /// started, the last of them still running, all with this address and
    /// this `Host` header.
    Connecting { attempts: nat, uri: Seq<char>, host: Seq<char> },
    /// The connection stands and the write half is installed.
    Connected,
}

/// The state of a connection manager as contracts see it.
pub ghost struct ClientView {
    pub url: Seq<char>,
    pub token: Seq<char>,
    pub policy: RetryPolicy,
    pub phase: PhaseView,
    pub fanout: BroadcasterView,
}

impl ClientView {
    /// A manager that has just been made: disconnected and without
    /// subscribers.
    pub open spec fn initial(url: Seq<char>, token: Seq<char>, policy: RetryPolicy) -> ClientView {
        ClientView {
            url,
            token,
            policy,
            phase: PhaseView::Disconnected,
            fanout: BroadcasterView::fresh(SUBSCRIBER_CAPACITY as nat),
        }
    }

    /// The state of the connection.
    pub open spec fn state(self) -> ConnectionState {
        match self.phase {
            PhaseView::Disconnected => ConnectionState::Disconnected,
            PhaseView::Connecting { .. } => ConnectionState::Connecting,
            PhaseView::Connected => ConnectionState::Connected,
        }
    }

    /// Whether the write half is installed.
    pub open spec fn has_writer(self) -> bool {
        self.phase is Connected
    }

    /// How many handshake attempts the connect under way has started.
    pub open spec fn attempts(self) -> nat {
        match self.phase {
            PhaseView::Connecting { attempts, .. } => attempts,
            _ => 0,
        }
    }

    /// The address that a connect sends its upgrade requests to.
    pub open spec fn uri(self) -> Seq<char> {
        handshake_uri(self.url, self.token)
    }

    /// Why a connect cannot start, if it cannot.
    pub open spec fn refusal(self) -> Option<HandshakeFailure> {
        if !(self.phase is Disconnected) {
            Some(HandshakeFailure::NotDisconnected)
        } else if url_authority(self.uri()) is None {
            Some(HandshakeFailure::MalformedUrl)
        } else {
            None
        }
    }

    /// After a connect has started: the first attempt is under way.
    pub open spec fn connecting(self) -> ClientView {
        ClientView {
            phase: PhaseView::Connecting {
                attempts: 1,
                uri: self.uri(),
                host: host_header(url_authority(self.uri()).unwrap()),
            },
            ..self
        }
    }

    /// What is to be done after a handshake attempt has ended.
    pub open spec fn verdict(self, outcome: HandshakeOutcome) -> Verdict {
        match self.phase {
            PhaseView::Connecting { attempts, .. } => match outcome {
                HandshakeOutcome::Established => Verdict::Connected,
                HandshakeOutcome::Failed(cause) => if attempts < self.policy.max_attempts {
                    Verdict::Retry
                } else {
                    Verdict::Failed(HandshakeFailure::Exhausted(cause))
                },
            },
            _ => Verdict::NotConnecting,
        }
    }

    /// After a handshake attempt has ended.
    pub open spec fn after_handshake(self, outcome: HandshakeOutcome) -> ClientView {
        match self.phase {
            PhaseView::Connecting { attempts, uri, host } => match outcome {
                HandshakeOutcome::Established => ClientView { phase: PhaseView::Connected, ..self },
                HandshakeOutcome::Failed(_) => if attempts < self.policy.max_attempts {
                    ClientView {
                        phase: PhaseView::Connecting { attempts: attempts + 1, uri, host },
                        ..self
                    }
                } else {
                    ClientView { phase: PhaseView::Disconnected, ..self }
                },
            },
            _ => self,
        }
    }

    /// After a run of handshake attempts that have all failed, one after the
    /// other, each with its cause.
    pub open spec fn after_failures(self, causes: Seq<AttemptFailure>) -> ClientView
        decreases causes.len(),
    {
        if causes.len() == 0 {
            self
        } else {
            self.after_failures(causes.drop_last()).after_handshake(
                HandshakeOutcome::Failed(causes.last()),
            )
        }
    }

    /// Whether a message can be sent.
    pub open spec fn can_send(self) -> bool {
        self.state() == ConnectionState::Connected
    }

    /// After a disconnect.
    pub open spec fn disconnected(self) -> ClientView {
        ClientView { phase: PhaseView::Disconnected, ..self }
    }

    /// What the receive loop does after an event. A loop whose connection
    /// is no longer there stops, whatever the event.
    pub open spec fn read_step(self, event: ReadEvent) -> LoopStep {
        if !(self.phase is Connected) {
            LoopStep::Stop
        } else {
            match event {
                ReadEvent::Text(text) => match decoded(text@) {
                    Ok(_) => LoopStep::Delivered,
                    Err(error) => LoopStep::Malformed(error),
                },
                ReadEvent::Other => LoopStep::Skipped,
                ReadEvent::Failed(_) => LoopStep::Stop,
                ReadEvent::Ended => LoopStep::Stop,
            }
        }
    }

    /// After the receive loop has dealt with an event.
    pub open spec fn after_read(self, event: ReadEvent) -> ClientView {
        if !(self.phase is Connected) {
            self
        } else {
            match event {
                ReadEvent::Text(text) => match decoded(text@) {
                    Ok(message) => ClientView { fanout: self.fanout.published(message), ..self },
                    Err(_) => self,
                },
                ReadEvent::Other => self,
                ReadEvent::Failed(_) => ClientView { phase: PhaseView::Disconnected, ..self },
                ReadEvent::Ended => ClientView { phase: PhaseView::Disconnected, ..self },
            }
        }
    }
}

/// The connection manager.
pub struct WebSocketClient {
    url: String,
    token: String,
    policy: RetryPolicy,
    phase: Phase,
    broadcaster: Broadcaster,
}

impl View for WebSocketClient {
    type V = ClientView;

    closed spec fn view(&self) -> ClientView {
        ClientView {
            url: self.url@,
            token: self.token@,
            policy: self.policy,
            phase: match self.phase {
                Phase::Disconnected => PhaseView::Disconnected,
                Phase::Connecting { attempts, uri, host } => PhaseView::Connecting {
                    attempts: attempts as nat,
                    uri: uri@,
                    host: host@,
                },
                Phase::Connected(_) => PhaseView::Connected,
            },
            fanout: self.broadcaster@,
        }
    }
}

impl WebSocketClient {
    /// A manager for one server and one token: disconnected, without
    /// subscribers, and with the standard way of retrying.
    pub fn new(url: String, token: String) -> (client: WebSocketClient)
        ensures
            client@ == ClientView::initial(url@, token@, RetryPolicy::standard()),
    {
        WebSocketClient::with_policy(url, token, RetryPolicy::standard())
    }

    /// A manager for one server and one token that retries as it is told.
    pub fn with_policy(url: String, token: String, policy: RetryPolicy) -> (client:
        WebSocketClient)
        ensures
            client@ == ClientView::initial(url@, token@, policy),
    {
        WebSocketClient {
            url,
            token,
            policy,
            phase: Phase::Disconnected,
            broadcaster: Broadcaster::new(),
        }
    }

    /// Starts a connect and hands out the request of the first attempt. A
    /// manager that is not disconnected refuses at once, and so does one
    /// whose address is no URL; neither changes anything.
    pub fn connect(&mut self) -> (started: Result<HandshakeRequest, HandshakeFailure>)
        ensures
            match started {
                Ok(request) => {
                    &&& old(self)@.refusal() is None
                    &&& final(self)@ == old(self)@.connecting()
                    &&& final(self)@.phase == (PhaseView::Connecting {
                        attempts: 1,
                        uri: request@.uri,
                        host: request@.host,
                    })
                    &&& is_websocket_key(request@.key)
                },
                Err(failure) => {
                    &&& old(self)@.refusal() == Some(failure)
                    &&& final(self)@ == old(self)@
                },
            },
    {
        match &self.phase {
            Phase::Disconnected => {},
            _ => {
                return Err(HandshakeFailure::NotDisconnected);
            },
        }
        match HandshakeRequest::build(self.url.as_str(), self.token.as_str(), fresh_key()) {
            None => Err(HandshakeFailure::MalformedUrl),
            Some(request) => {
                self.phase = Phase::Connecting {
                    attempts: 1,
                    uri: request.uri.clone(),
                    host: request.host.clone(),
                };
                Ok(request)
            },
        }
    }

    /// Takes in how a handshake attempt ended and says what is to be done.
    /// A success makes the connection stand. A failure leads to another
    /// attempt, with a key of its own, after the policy's delay, as long as
    /// fewer attempts than the policy allows have been made; the failure of
    /// the last one ends the connect, and the manager is disconnected again.
    pub fn on_handshake(&mut self, outcome: HandshakeOutcome) -> (step: HandshakeStep)
        ensures
            step.verdict() == old(self)@.verdict(outcome),
            final(self)@ == old(self)@.after_handshake(outcome),
            step matches HandshakeStep::Retry { delay_secs, request } ==> {
                &&& delay_secs == old(self)@.policy.delay_secs
                &&& old(self)@.phase matches PhaseView::Connecting { uri, host, .. }
                &&& request@.uri == uri
                &&& request@.host == host
                &&& is_websocket_key(request@.key)
            },
    {
        let mut phase = Phase::Disconnected;
        std::mem::swap(&mut phase, &mut self.phase);
        match phase {
            Phase::Connecting { attempts, uri, host } => match outcome {
                HandshakeOutcome::Established => {
                    self.phase = Phase::Connected(SendGate::new());
                    HandshakeStep::Connected
                },
                HandshakeOutcome::Failed(cause) => {
                    if attempts < self.policy.max_attempts {
                        let request = HandshakeRequest {
                            uri: uri.clone(),
                            host: host.clone(),
                            key: fresh_key(),
                        };
                        self.phase = Phase::Connecting { attempts: attempts + 1, uri, host };
                        HandshakeStep::Retry { delay_secs: self.policy.delay_secs, request }
                    } else {
                        HandshakeStep::Failed(HandshakeFailure::Exhausted(cause))
                    }
                },
            },
            other => {
                self.phase = other;
                HandshakeStep::NotConnecting
            },
        }
    }

    /// Ends the connection, from whatever state: the write half is given
    /// up and the manager is disconnected. The subscribers stay.
    pub fn disconnect(&mut self)
        ensures
            final(self)@ == old(self)@.disconnected(),
    {
        self.phase = Phase::Disconnected;
    }

    /// The text of the frame to write for a message, or `NotConnected` where
    /// no connection stands; then nothing is to be written.
    pub fn send_message(&self, message: ChatMessage) -> (frame: Result<String, SendError>)
        ensures
            match frame {
                Ok(text) => self@.can_send() && text@ == wire_form(message@),
                Err(error) => !self@.can_send() && error == SendError::NotConnected,
            },
    {
        match &self.phase {
            Phase::Connected(keeper) => Ok(keeper.frame(&message)),
            _ => Err(SendError::NotConnected),
        }
    }

    /// The keeper of the write half, which is there exactly while the
    /// connection stands.
    pub fn send_gate(&self) -> (keeper: Option<&SendGate>)
        ensures
            keeper is Some <==> self@.has_writer(),
    {
        match &self.phase {
            Phase::Connected(keeper) => Some(keeper),
            _ => None,
        }
    }

    /// Whether the connection stands.
    pub fn is_connected(&self) -> (connected: bool)
        ensures
            connected == (self@.state() == ConnectionState::Connected),
    {
        match &self.phase {
            Phase::Connected(_) => true,
            _ => false,
        }
    }

    /// The state of the connection.
    pub fn state(&self) -> (state: ConnectionState)
        ensures
            state == self@.state(),
    {
        match &self.phase {
            Phase::Disconnected => ConnectionState::Disconnected,
            Phase::Connecting { .. } => ConnectionState::Connecting,
            Phase::Connected(_) => ConnectionState::Connected,
        }
    }

    /// Whether another subscriber can register.
    pub fn can_subscribe(&self) -> (possible: bool)
        ensures
            possible == (self@.fanout.issued < u64::MAX),
    {
        self.broadcaster.can_subscribe()
    }

    /// Registers a new subscriber, which will get every message that is
    /// received from now on.
    pub fn get_message_receiver(&mut self) -> (handle: SubscriberHandle)
        requires
            old(self)@.fanout.issued < u64::MAX,
        ensures
            handle@ == old(self)@.fanout.issued,
            final(self)@ == (ClientView { fanout: old(self)@.fanout.subscribed(), ..old(self)@ }),
            final(self)@.fanout.valid(),
    {
        self.broadcaster.subscribe()
    }

    /// The broadcaster, for subscribers to take their messages from.
    pub fn subscribers(&mut self) -> (broadcaster: &mut Broadcaster)
        ensures
            broadcaster@ == old(self)@.fanout,
            final(self)@ == (ClientView { fanout: final(broadcaster)@, ..old(self)@ }),
    {
        &mut self.broadcaster
    }

    /// Deals with what the read half has come up with. A text frame that
    /// holds a chat message goes to the subscribers; one that does not is
    /// dropped, and the loop goes on. A failed read or the end of the stream
    /// ends the connection and the loop with it.
    pub fn on_read(&mut self, event: ReadEvent) -> (step: LoopStep)
        ensures
            step == old(self)@.read_step(event),
            final(self)@ == old(self)@.after_read(event),
    {
        match &self.phase {
            Phase::Connected(_) => {},
            _ => {
                return LoopStep::Stop;
            },
        }
        match event {
            ReadEvent::Text(text) => match ChatMessage::decode(text.as_str()) {
                Ok(message) => {
                    self.broadcaster.publish(message);
                    LoopStep::Delivered
                },
                Err(error) => LoopStep::Malformed(error),
            },
            ReadEvent::Other => LoopStep::Skipped,
            ReadEvent::Failed(_) => {
                self.phase = Phase::Disconnected;
                LoopStep::Stop
            },
            ReadEvent::Ended => {
                self.phase = Phase::Disconnected;
                LoopStep::Stop
            },
        }
    }
}

/// The write half is installed exactly while the connection stands: never in
/// a manager that is disconnected, and in one that is connecting not before
/// a handshake has succeeded. Only then can a message be sent.
pub proof fn law_writer_exactly_while_connected(client: ClientView)
    ensures
        client.has_writer() <==> client.state() == ConnectionState::Connected,
        client.can_send() <==> client.has_writer(),
        client.state() == ConnectionState::Disconnected ==> !client.has_writer(),
{
}

/// Nothing can be sent through a manager that is disconnected: not through
/// a new one, and not after a disconnect, whatever went before.
pub proof fn law_disconnected_cannot_send(client: ClientView)
    ensures
        client.phase is Disconnected ==> !client.can_send(),
        !client.disconnected().can_send(),
{
}

/// Nothing can be sent while a connect has not succeeded: not before the
/// first attempt has ended, and not after any run of failed attempts.
pub proof fn law_cannot_send_before_success(client: ClientView, causes: Seq<AttemptFailure>)
    requires
        client.refusal() is None,
    ensures
        !client.connecting().after_failures(causes).can_send(),
    decreases causes.len(),
{
    if causes.len() > 0 {
        law_cannot_send_before_success(client, causes.drop_last());
    }
}

/// A connect ends with the failure of its last attempt and not before: for
/// a run of failures as long as the policy allows attempts, every failure
/// but the last leads to another attempt, the last leaves the manager
/// disconnected with its cause, and whatever is reported after that leads to
/// no further attempt.
pub proof fn law_failures_end_connect(
    client: ClientView,
    causes: Seq<AttemptFailure>,
    later: HandshakeOutcome,
)
    requires
        client.refusal() is None,
        causes.len() == client.policy.limit(),
    ensures
        forall|n: int|
            0 <= n < causes.len() - 1 ==> {
                &&& (#[trigger] client.connecting().after_failures(causes.take(n))).attempts() == n
                    + 1
                &&& client.connecting().after_failures(causes.take(n)).verdict(
                    HandshakeOutcome::Failed(causes[n]),
                ) == Verdict::Retry
            },
        client.connecting().after_failures(causes.drop_last()).attempts() == causes.len(),
        client.connecting().after_failures(causes.drop_last()).verdict(
            HandshakeOutcome::Failed(causes.last()),
        ) == Verdict::Failed(HandshakeFailure::Exhausted(causes.last())),
        client.connecting().after_failures(causes).state() == ConnectionState::Disconnected,
        client.connecting().after_failures(causes).verdict(later) == Verdict::NotConnecting,
        client.connecting().after_failures(causes).after_handshake(later)
            == client.connecting().after_failures(causes),
{
    assert forall|n: int| 0 <= n < causes.len() - 1 implies {
        &&& (#[trigger] client.connecting().after_failures(causes.take(n))).attempts() == n + 1
        &&& client.connecting().after_failures(causes.take(n)).verdict(
            HandshakeOutcome::Failed(causes[n]),
        ) == Verdict::Retry
    } by {
        lemma_failures_count(client, causes.take(n));
    }
    lemma_failures_count(client, causes.drop_last());
    lemma_failures_count(client, causes);
}

/// With the standard policy the third failed handshake attempt in a row
/// ends a connect: the first two failures lead to another attempt one second
/// later, the third leaves the manager disconnected with its cause, and
/// whatever is reported after that leads to no fourth attempt.
pub proof fn law_three_failures_end_connect(
    client: ClientView,
    first: AttemptFailure,
    second: AttemptFailure,
    third: AttemptFailure,
    later: HandshakeOutcome,
)
    requires
        client.refusal() is None,
        client.policy == RetryPolicy::standard(),
    ensures
        ({
            let one = client.connecting();
            let two = one.after_handshake(HandshakeOutcome::Failed(first));
            let three = two.after_handshake(HandshakeOutcome::Failed(second));
            let end = three.after_handshake(HandshakeOutcome::Failed(third));
            &&& one.attempts() == 1
            &&& one.verdict(HandshakeOutcome::Failed(first)) == Verdict::Retry
            &&& two.attempts() == 2
            &&& two.verdict(HandshakeOutcome::Failed(second)) == Verdict::Retry
            &&& three.attempts() == 3
            &&& three.verdict(HandshakeOutcome::Failed(third)) == Verdict::Failed(
                HandshakeFailure::Exhausted(third),
            )
            &&& end.state() == ConnectionState::Disconnected
            &&& end.verdict(later) == Verdict::NotConnecting
            &&& end.after_handshake(later) == end
        }),
{
}

/// However many failures are reported, a connect never has more attempts
/// started than its policy allows, and it is over once as many have failed.
pub proof fn law_attempts_are_bounded(client: ClientView, causes: Seq<AttemptFailure>)
    requires
        client.refusal() is None,
    ensures
        client.connecting().after_failures(causes).attempts() <= client.policy.limit(),
        causes.len() >= client.policy.limit() ==> client.connecting().after_failures(
            causes,
        ).state() == ConnectionState::Disconnected,
{
    lemma_failures_count(client, causes);
}

/// What a run of failures leaves of a connect: as long as there were fewer
/// than the policy allows attempts, one more attempt than failures; from
/// then on nothing.
proof fn lemma_failures_count(client: ClientView, causes: Seq<AttemptFailure>)
    requires
        client.refusal() is None,
    ensures
        causes.len() < client.policy.limit() ==> client.connecting().after_failures(
            causes,
        ).phase is Connecting && client.connecting().after_failures(causes).attempts()
            == causes.len() + 1,
        causes.len() >= client.policy.limit() ==> client.connecting().after_failures(causes).phase
            is Disconnected,
        client.connecting().after_failures(causes).policy == client.policy,
    decreases causes.len(),
{
    if causes.len() > 0 {
        lemma_failures_count(client, causes.drop_last());
    }
}

/// A second disconnect changes nothing: the manager is disconnected after
/// the first and stays as it is.
pub proof fn law_disconnect_twice(client: ClientView)
    ensures
        client.disconnected().state() == ConnectionState::Disconnected,
        client.disconnected().disconnected() == client.disconnected(),
{
}

/// A text frame that is no chat message does not end the receive loop and
/// changes nothing; a chat message that comes after it is delivered to the
/// subscribers.
pub proof fn law_malformed_frame_is_skipped(client: ClientView, first: String, second: String)
    requires
        client.phase is Connected,
        decoded(first@) is Err,
        decoded(second@) is Ok,
    ensures
        client.read_step(ReadEvent::Text(first)).goes_on(),
        client.after_read(ReadEvent::Text(first)) == client,
        client.after_read(ReadEvent::Text(first)).read_step(ReadEvent::Text(second))
            == LoopStep::Delivered,
        client.after_read(ReadEvent::Text(first)).after_read(ReadEvent::Text(second)).fanout
            == client.fanout.published(decoded(second@).unwrap()),
{
}

} // verus!
