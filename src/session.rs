use vstd::prelude::*;
use vstd::utf8::encode_utf8;
use crate::codec::lemma_utf8_len;
use crate::decimal::{decimal, decimal_string, lemma_decimal_bytes, parse_decimal, read_decimal};
use crate::error::AmpsError;
use crate::field::{FieldID, MAX_FIELD_LEN};
use crate::message::{
    frame_of, lemma_frame_round_trip, parse_frame, view_wf, Message, MessageBuilder, MessageView,
    MAX_PAYLOAD_LEN,
};
use crate::registry::{flag_id, has_id, ids_of, SubscriptionRegistry, SubscriptionView};

verus! {

broadcast use vstd::utf8::encode_utf8_decode_utf8;

/// How many delivered payloads may wait to be taken. A delivery that finds
/// the inbox full is refused with `InboxFull` and nothing is lost: the caller
/// keeps the frame and hands it in again once deliveries have been taken.
pub const INBOX_CAPACITY: usize = 1024;

/// Where a session stands.
#[derive(Copy, Clone, Debug, PartialEq, Eq, Structural)]
pub enum SessionState {
    Disconnected,
    Connecting,
    LoggedOn,
    Failed,
}

/// The step of the handshake that a connecting session waits on.
#[derive(Copy, Clone, Debug, PartialEq, Eq, Structural)]
pub enum ConnectPhase {
    /// The transport is being opened.
    Opening,
    /// The logon was sent and its acknowledgment is awaited.
    AwaitingAck,
    /// A failed attempt's transport is being closed.
    Closing,
    /// A failed attempt is followed by a pause before the next one.
    BackingOff,
}

/// How often the handshake is tried, and how long to wait between tries: the
/// wait after the `k`-th failed attempt is `base_backoff_ms * 2^(k-1)`,
/// saturated at `u64::MAX`.
#[derive(Copy, Clone, Debug, PartialEq, Eq, Structural)]
pub struct RetryPolicy {
    pub max_attempts: u32,
    pub base_backoff_ms: u64,
}

/// What the transport reports back to a connecting session.
#[derive(Debug)]
pub enum ConnectEvent {
    TransportOpened,
    TransportFailed,
    LogonAcked,
    LogonRejected(String),
    TimedOut,
    BackoffElapsed,
    TransportClosed,
}

/// What the session asks of the transport next.
#[derive(Debug)]
pub enum ConnectAction {
    /// Open the transport to the session's URI.
    OpenTransport,
    /// Write this logon frame and await its acknowledgment.
    SendLogon(Vec<u8>),
    /// Close the transport, then report `TransportClosed`.
    CloseTransport,
    /// Wait this many milliseconds, then report `BackoffElapsed`.
    Wait(u64),
    /// The session is logged on.
    Done,
    /// The handshake is over and failed; the transport of a failed attempt
    /// was closed before this is asked.
    Fail(AmpsError),
    /// The event does not apply to the current state and was ignored.
    Ignored,
}

/// An out-of-band report from the delivery path.
#[derive(Copy, Clone, Debug, PartialEq, Eq, Structural)]
pub enum Diagnostic {
    /// A delivery named a subscription id that is not registered; it was dropped.
    OrphanDelivery(u64),
    /// The handler of this subscription exceeded its time budget.
    HandlerTimeout(u64),
}

/// A payload delivered to a subscription, owned by whoever takes it.
#[derive(Debug)]
pub struct Delivery {
    pub subscription: u64,
    pub payload: Vec<u8>,
}

/// Everything a session holds, as the contracts see it.
pub struct ClientView {
    pub name: Seq<char>,
    pub uri: Seq<char>,
    pub state: SessionState,
    pub phase: ConnectPhase,
    pub attempts: u32,
    pub pending: Option<AmpsError>,
    pub policy: RetryPolicy,
    pub counter: u64,
    pub next_sub_id: u64,
    pub subscriptions: Seq<SubscriptionView>,
    pub inbox: Seq<(u64, Seq<u8>)>,
    pub diagnostics: Seq<Diagnostic>,
}

/// The wait after the `k`-th failed attempt.
pub open spec fn backoff_ms(base: nat, k: nat) -> nat
    decreases k,
{
    if k <= 1 {
        base
    } else if backoff_ms(base, (k - 1) as nat) > u64::MAX / 2 {
        u64::MAX as nat
    } else {
        2 * backoff_ms(base, (k - 1) as nat)
    }
}

/// The logon message of a client named `name`.
pub open spec fn logon_view(name: Seq<char>) -> MessageView {
    MessageView {
        fields: Map::empty().insert(FieldID::AMPS_Command, "logon"@).insert(
            FieldID::AMPS_ClientName,
            name,
        ).insert(FieldID::AMPS_MessageType, "json"@),
        payload: Seq::empty(),
    }
}

/// A message as sent with outbound count `c`: the count fills the
/// CorrelationId field unless the message already has one.
pub open spec fn stamped(m: MessageView, c: u64) -> MessageView {
    if m.fields.contains_key(FieldID::AMPS_CorrelationId) {
        m
    } else {
        MessageView {
            fields: m.fields.insert(FieldID::AMPS_CorrelationId, decimal(c as nat)),
            payload: m.payload,
        }
    }
}

/// The publish message for `topic` and `payload`, before it is stamped.
pub open spec fn publish_view(topic: Seq<char>, payload: Seq<u8>) -> MessageView {
    MessageView {
        fields: Map::empty().insert(FieldID::AMPS_Command, "publish"@).insert(
            FieldID::AMPS_Topic,
            topic,
        ).insert(FieldID::AMPS_MessageType, "json"@),
        payload,
    }
}

/// The subscribe message for `topic` under subscription `id`, before it is stamped.
pub open spec fn subscribe_view(topic: Seq<char>, id: u64) -> MessageView {
    MessageView {
        fields: Map::empty().insert(FieldID::AMPS_Command, "subscribe"@).insert(
            FieldID::AMPS_Topic,
            topic,
        ).insert(FieldID::AMPS_SubscriptionId, decimal(id as nat)).insert(
            FieldID::AMPS_MessageType,
            "json"@,
        ),
        payload: Seq::empty(),
    }
}

/// A failed attempt: its transport is to be closed before anything else, and
/// the failure is kept until that is done.
pub open spec fn fail_attempt(v: ClientView, err: AmpsError, w: ClientView, a: ConnectAction) -> bool {
    w == (ClientView { phase: ConnectPhase::Closing, pending: Some(err), ..v }) && a is CloseTransport
}

/// A failure that another attempt may cure; a refused logon is not one.
pub open spec fn retryable(err: AmpsError) -> bool {
    !(err is LogonRejected)
}

/// The handshake once a failed attempt's transport is closed: another attempt
/// after a pause while the failure is retryable and the policy allows one,
/// else the session fails with that failure.
pub open spec fn after_close(v: ClientView, err: AmpsError, w: ClientView, a: ConnectAction) -> bool {
    if retryable(err) && v.attempts < v.policy.max_attempts {
        &&& w == (ClientView {
            attempts: (v.attempts + 1) as u32,
            phase: ConnectPhase::BackingOff,
            pending: None,
            ..v
        })
        &&& a == ConnectAction::Wait(backoff_ms(v.policy.base_backoff_ms as nat, v.attempts as nat) as u64)
    } else {
        &&& w == (ClientView { state: SessionState::Failed, pending: None, ..v })
        &&& a == ConnectAction::Fail(err)
    }
}

pub open spec fn ignored(v: ClientView, w: ClientView, a: ConnectAction) -> bool {
    w == v && a is Ignored
}

/// One step of the handshake: from view `v` and event `ev` to view `w` and action `a`.
pub open spec fn connect_step(v: ClientView, ev: ConnectEvent, w: ClientView, a: ConnectAction) -> bool {
    if v.state == SessionState::Connecting {
        match ev {
            ConnectEvent::TransportOpened => if v.phase == ConnectPhase::Opening {
                &&& w == (ClientView { phase: ConnectPhase::AwaitingAck, ..v })
                &&& a matches ConnectAction::SendLogon(f) && f@ == frame_of(logon_view(v.name))
            } else {
                ignored(v, w, a)
            },
            ConnectEvent::TransportFailed => if v.phase == ConnectPhase::Opening || v.phase
                == ConnectPhase::AwaitingAck {
                fail_attempt(v, AmpsError::TransportError, w, a)
            } else {
                ignored(v, w, a)
            },
            ConnectEvent::TimedOut => if v.phase == ConnectPhase::AwaitingAck {
                fail_attempt(v, AmpsError::ConnectTimeout, w, a)
            } else {
                ignored(v, w, a)
            },
            ConnectEvent::LogonAcked => if v.phase == ConnectPhase::AwaitingAck {
                w == (ClientView { state: SessionState::LoggedOn, ..v }) && a is Done
            } else {
                ignored(v, w, a)
            },
            ConnectEvent::LogonRejected(reason) => if v.phase == ConnectPhase::AwaitingAck {
                fail_attempt(v, AmpsError::LogonRejected(reason), w, a)
            } else {
                ignored(v, w, a)
            },
            ConnectEvent::BackoffElapsed => if v.phase == ConnectPhase::BackingOff {
                w == (ClientView { phase: ConnectPhase::Opening, ..v }) && a is OpenTransport
            } else {
                ignored(v, w, a)
            },
            ConnectEvent::TransportClosed => if v.phase == ConnectPhase::Closing && v.pending is Some {
                after_close(v, v.pending->Some_0, w, a)
            } else {
                ignored(v, w, a)
            },
        }
    } else if v.state == SessionState::LoggedOn && ev is TransportFailed {
        w == (ClientView { state: SessionState::Failed, ..v }) && a is CloseTransport
    } else {
        ignored(v, w, a)
    }
}

/// The subscription id that a delivered message is tagged with, if it has a
/// well-formed one.
pub open spec fn tagged_id(m: MessageView) -> Option<u64> {
    if m.fields.contains_key(FieldID::AMPS_SubscriptionId) {
        parse_decimal(encode_utf8(m.fields[FieldID::AMPS_SubscriptionId]))
    } else {
        None
    }
}

/// Handling one inbound frame: a message for a registered subscription joins
/// the inbox, one for an unknown id is reported as an orphan and dropped. A
/// message for a registered subscription that finds the inbox full is refused
/// with `InboxFull`, and the session is left as it was.
pub open spec fn deliver_spec(v: ClientView, b: Seq<u8>) -> Result<ClientView, AmpsError> {
    match parse_frame(b) {
        Err(e) => Err(e),
        Ok(m) => match tagged_id(m) {
            None => Err(AmpsError::MalformedFrame),
            Some(id) => if has_id(v.subscriptions, id) {
                if v.inbox.len() < INBOX_CAPACITY {
                    Ok(ClientView { inbox: v.inbox.push((id, m.payload)), ..v })
                } else {
                    Err(AmpsError::InboxFull)
                }
            } else {
                Ok(ClientView { diagnostics: v.diagnostics.push(Diagnostic::OrphanDelivery(id)), ..v })
            },
        },
    }
}

/// What `unsubscribe(id)` leaves of view `v`: `w`.
pub open spec fn unsubscribe_post(v: ClientView, id: u64, w: ClientView) -> bool {
    &&& !has_id(w.subscriptions, id)
    &&& has_id(v.subscriptions, id) ==> exists|i: int|
        0 <= i < v.subscriptions.len() && v.subscriptions[i].id == id && w == (ClientView {
            subscriptions: v.subscriptions.remove(i),
            ..v
        })
    &&& !has_id(v.subscriptions, id) ==> w == v
}

/// What `close` leaves of view `v`.
pub open spec fn close_spec(v: ClientView) -> ClientView {
    ClientView {
        state: SessionState::Disconnected,
        phase: ConnectPhase::Opening,
        attempts: 0,
        pending: None,
        subscriptions: Seq::empty(),
        ..v
    }
}

/// The frame that `publish` hands out reads back with exactly the payload
/// bytes that were published.
pub proof fn lemma_published_payload(topic: Seq<char>, data: Seq<char>, c: u64)
    requires
        encode_utf8(topic).len() <= MAX_FIELD_LEN,
        encode_utf8(data).len() <= MAX_PAYLOAD_LEN,
    ensures
        parse_frame(frame_of(stamped(publish_view(topic, encode_utf8(data)), c))) matches Ok(m)
            && m == stamped(publish_view(topic, encode_utf8(data)), c) && m.payload == encode_utf8(
            data,
        ),
{
    reveal_strlit("publish");
    reveal_strlit("json");
    lemma_utf8_len("publish"@);
    lemma_utf8_len("json"@);
    lemma_decimal_bytes(c);
    let m = stamped(publish_view(topic, encode_utf8(data)), c);
    assert forall|f: FieldID| #[trigger] m.fields.contains_key(f) implies crate::field::is_known(f)
        && encode_utf8(m.fields[f]).len() <= MAX_FIELD_LEN by {}
    assert(view_wf(m));
    lemma_frame_round_trip(m);
}

/// The Status value of a reply, empty when it has none.
pub open spec fn status_of(m: MessageView) -> Seq<char> {
    if m.fields.contains_key(FieldID::AMPS_Status) {
        m.fields[FieldID::AMPS_Status]
    } else {
        Seq::empty()
    }
}

/// The Reason value of a reply, empty when it has none.
pub open spec fn reason_of(m: MessageView) -> Seq<char> {
    if m.fields.contains_key(FieldID::AMPS_Reason) {
        m.fields[FieldID::AMPS_Reason]
    } else {
        Seq::empty()
    }
}

/// Once a subscription id is removed, a delivery tagged with it reaches no
/// handler: the inbox stays as it was, and exactly one orphan delivery is
/// reported.
pub proof fn lemma_unsubscribed_delivery_is_orphan(v: ClientView, id: u64, w: ClientView, b: Seq<u8>)
    requires
        unsubscribe_post(v, id, w),
        parse_frame(b) matches Ok(m) && tagged_id(m) == Some(id),
    ensures
        deliver_spec(w, b) matches Ok(after) && after.inbox == w.inbox
            && after.diagnostics == w.diagnostics.push(Diagnostic::OrphanDelivery(id))
            && after == (ClientView { diagnostics: w.diagnostics.push(Diagnostic::OrphanDelivery(id)), ..w }),
{
}

/// Closing twice: the second close changes nothing and releases no
/// subscription, and no subscription is left after either.
pub proof fn lemma_close_idempotent(v: ClientView)
    ensures
        close_spec(close_spec(v)) == close_spec(v),
        close_spec(v).subscriptions.len() == 0,
        ids_of(close_spec(v).subscriptions) == Seq::<u64>::empty(),
        close_spec(v).state == SessionState::Disconnected,
{
    assert(ids_of(close_spec(v).subscriptions) =~= Seq::<u64>::empty());
}

/// One logical connection to a server: its identity, handshake state,
/// outbound counter, subscriptions, and what the delivery path produced.
pub struct AmpsClient {
    name: String,
    uri: String,
    state: SessionState,
    phase: ConnectPhase,
    attempts: u32,
    pending: Option<AmpsError>,
    policy: RetryPolicy,
    counter: u64,
    next_sub_id: u64,
    registry: SubscriptionRegistry,
    inbox: Vec<Delivery>,
    diagnostics: Vec<Diagnostic>,
}

impl View for AmpsClient {
    type V = ClientView;

    closed spec fn view(&self) -> ClientView {
        ClientView {
            name: self.name@,
            uri: self.uri@,
            state: self.state,
            phase: self.phase,
            attempts: self.attempts,
            pending: self.pending,
            policy: self.policy,
            counter: self.counter,
            next_sub_id: self.next_sub_id,
            subscriptions: self.registry@,
            inbox: self.inbox@.map_values(|d: Delivery| (d.subscription, d.payload@)),
            diagnostics: self.diagnostics@,
        }
    }
}

/// Every registered id was handed out before, so a new one is fresh.
pub open spec fn ids_below(s: Seq<SubscriptionView>, bound: u64) -> bool {
    forall|i: int| 0 <= i < s.len() ==> #[trigger] s[i].id < bound
}

impl AmpsClient {
    pub closed spec fn wf(&self) -> bool {
        &&& self.registry.wf()
        &&& ids_below(self.registry@, self.next_sub_id)
        &&& self.state == SessionState::Connecting ==> encode_utf8(self.name@).len() <= MAX_FIELD_LEN
        &&& self.state == SessionState::Connecting && self.phase == ConnectPhase::Closing
            ==> self.pending is Some
    }

    /// A disconnected session for `name` at `uri`, trying the handshake up to
    /// three times, a tenth of a second apart at first.
    pub fn new(name: &str, uri: &str) -> (r: AmpsClient)
        ensures
            r.wf(),
            r@ == (ClientView {
                name: name@,
                uri: uri@,
                state: SessionState::Disconnected,
                phase: ConnectPhase::Opening,
                attempts: 0,
                pending: None,
                policy: RetryPolicy { max_attempts: 3, base_backoff_ms: 100 },
                counter: 0,
                next_sub_id: 0,
                subscriptions: Seq::empty(),
                inbox: Seq::empty(),
                diagnostics: Seq::empty(),
            }),
    {
        Self::with_retry_policy(name, uri, RetryPolicy { max_attempts: 3, base_backoff_ms: 100 })
    }

    /// A disconnected session for `name` at `uri`, with the given retry policy.
    pub fn with_retry_policy(name: &str, uri: &str, policy: RetryPolicy) -> (r: AmpsClient)
        ensures
            r.wf(),
            r@ == (ClientView {
                name: name@,
                uri: uri@,
                state: SessionState::Disconnected,
                phase: ConnectPhase::Opening,
                attempts: 0,
                pending: None,
                policy,
                counter: 0,
                next_sub_id: 0,
                subscriptions: Seq::empty(),
                inbox: Seq::empty(),
                diagnostics: Seq::empty(),
            }),
    {
        let r = AmpsClient {
            name: name.to_owned(),
            uri: uri.to_owned(),
            state: SessionState::Disconnected,
            phase: ConnectPhase::Opening,
            attempts: 0,
            pending: None,
            policy,
            counter: 0,
            next_sub_id: 0,
            registry: SubscriptionRegistry::new(),
            inbox: Vec::new(),
            diagnostics: Vec::new(),
        };
        assert(r@.inbox =~= Seq::<(u64, Seq<u8>)>::empty());
        r
    }

    /// Starts the handshake of a disconnected session: the transport is to be
    /// opened next. A session that is logged on stays so. A session that is
    /// connecting or has failed is left alone: a failed session is closed
    /// before it connects again. A name too long to send fails the session.
    pub fn connect(&mut self) -> (r: ConnectAction)
        requires
            old(self).wf(),
        ensures
            final(self).wf(),
            old(self)@.state == SessionState::LoggedOn ==> final(self)@ == old(self)@ && r is Done,
            old(self)@.state == SessionState::Connecting || old(self)@.state == SessionState::Failed
                ==> final(self)@ == old(self)@ && r is Ignored,
            old(self)@.state == SessionState::Disconnected && encode_utf8(old(self)@.name).len()
                > MAX_FIELD_LEN ==> final(self)@ == (ClientView {
                state: SessionState::Failed,
                ..old(self)@
            }) && r == ConnectAction::Fail(AmpsError::FieldTooLong),
            old(self)@.state == SessionState::Disconnected && encode_utf8(old(self)@.name).len()
                <= MAX_FIELD_LEN ==> final(self)@ == (ClientView {
                state: SessionState::Connecting,
                phase: ConnectPhase::Opening,
                attempts: 1,
                pending: None,
                ..old(self)@
            }) && r is OpenTransport,
    {
        match self.state {
            SessionState::Disconnected => {},
            SessionState::LoggedOn => return ConnectAction::Done,
            _ => return ConnectAction::Ignored,
        }
        if self.name.as_str().as_bytes().len() > MAX_FIELD_LEN {
            self.state = SessionState::Failed;
            return ConnectAction::Fail(AmpsError::FieldTooLong);
        }
        self.state = SessionState::Connecting;
        self.phase = ConnectPhase::Opening;
        self.attempts = 1;
        self.pending = None;
        ConnectAction::OpenTransport
    }

    /// Takes the session's handshake one step on an event of the transport.
    pub fn on_connect_event(&mut self, ev: ConnectEvent) -> (r: ConnectAction)
        requires
            old(self).wf(),
        ensures
            final(self).wf(),
            connect_step(old(self)@, ev, final(self)@, r),
    {
        match self.state {
            SessionState::Connecting => {},
            SessionState::LoggedOn => {
                if let ConnectEvent::TransportFailed = ev {
                    self.state = SessionState::Failed;
                    return ConnectAction::CloseTransport;
                }
                return ConnectAction::Ignored;
            },
            _ => return ConnectAction::Ignored,
        }
        match ev {
            ConnectEvent::TransportOpened => {
                if self.phase == ConnectPhase::Opening {
                    self.phase = ConnectPhase::AwaitingAck;
                    ConnectAction::SendLogon(logon_frame(&self.name))
                } else {
                    ConnectAction::Ignored
                }
            },
            ConnectEvent::TransportFailed => {
                if self.phase == ConnectPhase::Opening || self.phase == ConnectPhase::AwaitingAck {
                    self.fail_attempt(AmpsError::TransportError)
                } else {
                    ConnectAction::Ignored
                }
            },
            ConnectEvent::TimedOut => {
                if self.phase == ConnectPhase::AwaitingAck {
                    self.fail_attempt(AmpsError::ConnectTimeout)
                } else {
                    ConnectAction::Ignored
                }
            },
            ConnectEvent::LogonAcked => {
                if self.phase == ConnectPhase::AwaitingAck {
                    self.state = SessionState::LoggedOn;
                    ConnectAction::Done
                } else {
                    ConnectAction::Ignored
                }
            },
            ConnectEvent::LogonRejected(reason) => {
                if self.phase == ConnectPhase::AwaitingAck {
                    self.fail_attempt(AmpsError::LogonRejected(reason))
                } else {
                    ConnectAction::Ignored
                }
            },
            ConnectEvent::BackoffElapsed => {
                if self.phase == ConnectPhase::BackingOff {
                    self.phase = ConnectPhase::Opening;
                    ConnectAction::OpenTransport
                } else {
                    ConnectAction::Ignored
                }
            },
            ConnectEvent::TransportClosed => {
                if self.phase == ConnectPhase::Closing {
                    self.after_close()
                } else {
                    ConnectAction::Ignored
                }
            },
        }
    }

    fn fail_attempt(&mut self, err: AmpsError) -> (r: ConnectAction)
        requires
            old(self).wf(),
            old(self).state == SessionState::Connecting,
        ensures
            final(self).wf(),
            fail_attempt(old(self)@, err, final(self)@, r),
    {
        self.phase = ConnectPhase::Closing;
        self.pending = Some(err);
        ConnectAction::CloseTransport
    }

    fn after_close(&mut self) -> (r: ConnectAction)
        requires
            old(self).wf(),
            old(self).state == SessionState::Connecting,
            old(self).phase == ConnectPhase::Closing,
        ensures
            final(self).wf(),
            after_close(old(self)@, old(self)@.pending->Some_0, final(self)@, r),
    {
        let retry = match &self.pending {
            Some(AmpsError::LogonRejected(_)) => false,
            _ => true,
        };
        if retry && self.attempts < self.policy.max_attempts {
            let d = backoff(self.policy.base_backoff_ms, self.attempts);
            self.attempts = self.attempts + 1;
            self.phase = ConnectPhase::BackingOff;
            self.pending = None;
            ConnectAction::Wait(d)
        } else {
            self.state = SessionState::Failed;
            match self.pending.take() {
                Some(err) => ConnectAction::Fail(err),
                None => ConnectAction::Ignored,
            }
        }
    }

    /// Hands `msg` to the transport: the outbound count goes up by one and
    /// fills the CorrelationId field unless the message has one. The result
    /// is the frame to write. Fails with `NotConnected` unless logged on, and
    /// with `MissingCommand` for a message without a Command field.
    pub fn send(&mut self, msg: Message) -> (r: Result<Vec<u8>, AmpsError>)
        requires
            old(self).wf(),
            msg.wf(),
            old(self)@.state == SessionState::LoggedOn ==> old(self)@.counter < u64::MAX,
        ensures
            final(self).wf(),
            r is Err ==> final(self)@ == old(self)@,
            old(self)@.state != SessionState::LoggedOn ==> r == Err::<Vec<u8>, AmpsError>(
                AmpsError::NotConnected,
            ),
            old(self)@.state == SessionState::LoggedOn && !msg@.fields.contains_key(
                FieldID::AMPS_Command,
            ) ==> r == Err::<Vec<u8>, AmpsError>(AmpsError::MissingCommand),
            old(self)@.state == SessionState::LoggedOn && msg@.fields.contains_key(
                FieldID::AMPS_Command,
            ) ==> (r matches Ok(f) && f@ == frame_of(
                stamped(msg@, (old(self)@.counter + 1) as u64),
            ) && final(self)@ == (ClientView { counter: (old(self)@.counter + 1) as u64, ..old(self)@ })),
    {
        if self.state != SessionState::LoggedOn {
            return Err(AmpsError::NotConnected);
        }
        if !msg.has_field(FieldID::AMPS_Command) {
            return Err(AmpsError::MissingCommand);
        }
        self.counter = self.counter + 1;
        let mut m = msg;
        if !m.has_field(FieldID::AMPS_CorrelationId) {
            let c = decimal_string(self.counter);
            proof {
                lemma_decimal_bytes(self.counter);
            }
            m.put(FieldID::AMPS_CorrelationId, c);
        }
        Ok(m.to_frame())
    }

    /// Publishes `data` on `topic`: builds the publish message, which fails
    /// for a topic or payload over its bound, then sends it, which fails
    /// unless the session is logged on.
    pub fn publish(&mut self, topic: &str, data: &str) -> (r: Result<Vec<u8>, AmpsError>)
        requires
            old(self).wf(),
            old(self)@.state == SessionState::LoggedOn ==> old(self)@.counter < u64::MAX,
        ensures
            final(self).wf(),
            encode_utf8(topic@).len() > MAX_FIELD_LEN ==> r == Err::<Vec<u8>, AmpsError>(
                AmpsError::FieldTooLong,
            ),
            encode_utf8(data@).len() > MAX_PAYLOAD_LEN ==> r == Err::<Vec<u8>, AmpsError>(
                AmpsError::FieldTooLong,
            ),
            encode_utf8(topic@).len() <= MAX_FIELD_LEN && encode_utf8(data@).len() <= MAX_PAYLOAD_LEN
                && old(self)@.state != SessionState::LoggedOn ==> r == Err::<Vec<u8>, AmpsError>(
                AmpsError::NotConnected,
            ),
            r is Err ==> final(self)@ == old(self)@,
            r is Ok <==> old(self)@.state == SessionState::LoggedOn && encode_utf8(topic@).len()
                <= MAX_FIELD_LEN && encode_utf8(data@).len() <= MAX_PAYLOAD_LEN,
            r matches Ok(f) ==> f@ == frame_of(
                stamped(publish_view(topic@, encode_utf8(data@)), (old(self)@.counter + 1) as u64),
            ) && final(self)@ == (ClientView { counter: (old(self)@.counter + 1) as u64, ..old(self)@ }),
    {
        let mut b = MessageBuilder::new();
        proof {
            reveal_strlit("publish");
            reveal_strlit("json");
            lemma_utf8_len("publish"@);
            lemma_utf8_len("json"@);
        }
        let _ = b.set_field(FieldID::AMPS_Command, "publish");
        if let Err(e) = b.set_field(FieldID::AMPS_Topic, topic) {
            return Err(e);
        }
        let _ = b.set_field(FieldID::AMPS_MessageType, "json");
        if let Err(e) = b.set_payload(data.as_bytes()) {
            return Err(e);
        }
        match b.finalize() {
            Ok(m) => self.send(m),
            Err(e) => Err(e),
        }
    }

    /// Subscribes to `topic` under a fresh id: the subscription is registered
    /// first, then the subscribe message is sent. The result is the id and the
    /// frame to write.
    pub fn subscribe(&mut self, topic: &str) -> (r: Result<(u64, Vec<u8>), AmpsError>)
        requires
            old(self).wf(),
            old(self)@.state == SessionState::LoggedOn ==> old(self)@.counter < u64::MAX
                && old(self)@.next_sub_id < u64::MAX,
        ensures
            final(self).wf(),
            encode_utf8(topic@).len() > MAX_FIELD_LEN ==> r == Err::<(u64, Vec<u8>), AmpsError>(
                AmpsError::FieldTooLong,
            ),
            encode_utf8(topic@).len() <= MAX_FIELD_LEN && old(self)@.state != SessionState::LoggedOn
                ==> r == Err::<(u64, Vec<u8>), AmpsError>(AmpsError::NotConnected),
            r is Err ==> final(self)@ == old(self)@,
            r is Ok <==> old(self)@.state == SessionState::LoggedOn && encode_utf8(topic@).len()
                <= MAX_FIELD_LEN,
            r matches Ok((id, f)) ==> id == old(self)@.next_sub_id && !has_id(
                old(self)@.subscriptions,
                id,
            ) && f@ == frame_of(
                stamped(subscribe_view(topic@, id), (old(self)@.counter + 1) as u64),
            ) && final(self)@ == (ClientView {
                counter: (old(self)@.counter + 1) as u64,
                next_sub_id: (id + 1) as u64,
                subscriptions: old(self)@.subscriptions.push(
                    SubscriptionView { id, topic: topic@, flagged: false },
                ),
                ..old(self)@
            }),
    {
        if topic.as_bytes().len() > MAX_FIELD_LEN {
            return Err(AmpsError::FieldTooLong);
        }
        if self.state != SessionState::LoggedOn {
            return Err(AmpsError::NotConnected);
        }
        let id = self.next_sub_id;
        let tag = decimal_string(id);
        let mut b = MessageBuilder::new();
        proof {
            reveal_strlit("subscribe");
            reveal_strlit("json");
            lemma_utf8_len("subscribe"@);
            lemma_utf8_len("json"@);
            lemma_decimal_bytes(id);
        }
        let _ = b.set_field(FieldID::AMPS_Command, "subscribe");
        let _ = b.set_field(FieldID::AMPS_Topic, topic);
        let _ = b.set_field(FieldID::AMPS_SubscriptionId, tag.as_str());
        let _ = b.set_field(FieldID::AMPS_MessageType, "json");
        let m = match b.finalize() {
            Ok(m) => m,
            Err(e) => return Err(e),
        };
        self.registry.register(id, topic);
        self.next_sub_id = id + 1;
        match self.send(m) {
            Ok(f) => Ok((id, f)),
            Err(e) => Err(e),
        }
    }

    /// Removes the subscription `id`; true when it was registered. Removing it
    /// again changes nothing.
    pub fn unsubscribe(&mut self, id: u64) -> (r: bool)
        requires
            old(self).wf(),
        ensures
            final(self).wf(),
            r == has_id(old(self)@.subscriptions, id),
            unsubscribe_post(old(self)@, id, final(self)@),
    {
        self.registry.unsubscribe(id)
    }

    /// Handles one inbound frame: decodes it, reads the subscription id it is
    /// tagged with, and queues its payload for that subscription, or reports
    /// an orphan delivery when no such subscription is registered.
    pub fn deliver(&mut self, frame: &[u8]) -> (r: Result<(), AmpsError>)
        requires
            old(self).wf(),
        ensures
            final(self).wf(),
            match deliver_spec(old(self)@, frame@) {
                Ok(w) => r is Ok && final(self)@ == w,
                Err(e) => r == Err::<(), AmpsError>(e) && final(self)@ == old(self)@,
            },
    {
        let m = match Message::from_frame(frame) {
            Ok(m) => m,
            Err(e) => return Err(e),
        };
        let id = match m.get_field(FieldID::AMPS_SubscriptionId) {
            Some(s) => match read_decimal(s.as_str().as_bytes()) {
                Some(id) => id,
                None => return Err(AmpsError::MalformedFrame),
            },
            None => return Err(AmpsError::MalformedFrame),
        };
        match self.registry.find(id) {
            Some(_) => {
                if self.inbox.len() >= INBOX_CAPACITY {
                    return Err(AmpsError::InboxFull);
                }
                let payload = m.into_payload();
                self.inbox.push(Delivery { subscription: id, payload });
                assert(self@.inbox =~= old(self)@.inbox.push((id, payload@)));
            },
            None => {
                self.diagnostics.push(Diagnostic::OrphanDelivery(id));
            },
        }
        Ok(())
    }

    /// Takes the oldest delivery, if any.
    pub fn take_delivery(&mut self) -> (r: Option<Delivery>)
        requires
            old(self).wf(),
        ensures
            final(self).wf(),
            old(self)@.inbox.len() == 0 ==> r is None && final(self)@ == old(self)@,
            old(self)@.inbox.len() > 0 ==> (r matches Some(d) && (d.subscription, d.payload@)
                == old(self)@.inbox[0] && final(self)@ == (ClientView {
                inbox: old(self)@.inbox.drop_first(),
                ..old(self)@
            })),
    {
        if self.inbox.len() == 0 {
            return None;
        }
        let d = self.inbox.remove(0);
        assert(self@.inbox =~= old(self)@.inbox.drop_first());
        Some(d)
    }

    /// Takes every diagnostic reported so far, oldest first.
    pub fn take_diagnostics(&mut self) -> (r: Vec<Diagnostic>)
        requires
            old(self).wf(),
        ensures
            final(self).wf(),
            r@ == old(self)@.diagnostics,
            final(self)@ == (ClientView { diagnostics: Seq::empty(), ..old(self)@ }),
    {
        let mut out: Vec<Diagnostic> = Vec::new();
        out.append(&mut self.diagnostics);
        assert(out@ =~= old(self)@.diagnostics);
        out
    }

    /// Flags the subscription `id` whose handler exceeded its time budget, and
    /// reports it; true when the subscription is registered.
    pub fn report_handler_timeout(&mut self, id: u64) -> (r: bool)
        requires
            old(self).wf(),
        ensures
            final(self).wf(),
            r == has_id(old(self)@.subscriptions, id),
            !r ==> final(self)@ == old(self)@,
            r ==> final(self)@ == (ClientView {
                subscriptions: flag_id(old(self)@.subscriptions, id),
                diagnostics: old(self)@.diagnostics.push(Diagnostic::HandlerTimeout(id)),
                ..old(self)@
            }),
    {
        let found = self.registry.flag(id);
        if found {
            self.diagnostics.push(Diagnostic::HandlerTimeout(id));
        } else {
            assert(self.registry@ =~= old(self)@.subscriptions);
        }
        found
    }

    /// Ends the session: it becomes disconnected and every subscription is
    /// released. The result holds the ids that were active, in the order they
    /// were made. Closing a closed session changes nothing.
    pub fn close(&mut self) -> (r: Vec<u64>)
        requires
            old(self).wf(),
        ensures
            final(self).wf(),
            final(self)@ == close_spec(old(self)@),
            r@ == ids_of(old(self)@.subscriptions),
    {
        let ids = self.registry.close_all();
        self.state = SessionState::Disconnected;
        self.phase = ConnectPhase::Opening;
        self.attempts = 0;
        self.pending = None;
        ids
    }

    pub fn state(&self) -> (r: SessionState)
        ensures
            r == self@.state,
    {
        self.state
    }

    pub fn name(&self) -> (r: &str)
        ensures
            r@ == self@.name,
    {
        self.name.as_str()
    }

    pub fn uri(&self) -> (r: &str)
        ensures
            r@ == self@.uri,
    {
        self.uri.as_str()
    }

    /// How many messages were sent.
    pub fn sent_count(&self) -> (r: u64)
        ensures
            r == self@.counter,
    {
        self.counter
    }

    /// The id that the next subscription will get.
    pub fn next_subscription_id(&self) -> (r: u64)
        ensures
            r == self@.next_sub_id,
    {
        self.next_sub_id
    }

    /// How many subscriptions are active.
    pub fn subscription_count(&self) -> (r: usize)
        requires
            self.wf(),
        ensures
            r == self@.subscriptions.len(),
    {
        self.registry.len()
    }
}

/// The wait after the `k`-th failed attempt, from `base`.
fn backoff(base: u64, k: u32) -> (r: u64)
    ensures
        r == backoff_ms(base as nat, k as nat),
{
    let mut d = base;
    let mut i: u32 = 1;
    while i < k
        invariant
            1 <= i,
            i <= k || i == 1,
            d == backoff_ms(base as nat, i as nat),
        decreases k - i,
    {
        if d > u64::MAX / 2 {
            d = u64::MAX;
        } else {
            d = 2 * d;
        }
        i = i + 1;
    }
    d
}

/// The logon frame of a client named `name`.
fn logon_frame(name: &String) -> (r: Vec<u8>)
    requires
        encode_utf8(name@).len() <= MAX_FIELD_LEN,
    ensures
        r@ == frame_of(logon_view(name@)),
{
    let mut b = MessageBuilder::new();
    proof {
        reveal_strlit("logon");
        reveal_strlit("json");
        lemma_utf8_len("logon"@);
        lemma_utf8_len("json"@);
    }
    let _ = b.set_field(FieldID::AMPS_Command, "logon");
    let _ = b.set_field(FieldID::AMPS_ClientName, name.as_str());
    let _ = b.set_field(FieldID::AMPS_MessageType, "json");
    match b.finalize() {
        Ok(m) => m.to_frame(),
        Err(_) => Vec::new(),
    }
}

/// Whether two strings hold the same characters.
fn same_text(a: &str, b: &str) -> (r: bool)
    ensures
        r == (a@ == b@),
{
    let x = a.as_bytes();
    let y = b.as_bytes();
    if x.len() != y.len() {
        return false;
    }
    let mut i: usize = 0;
    while i < x.len()
        invariant
            x@ == encode_utf8(a@),
            y@ == encode_utf8(b@),
            x@.len() == y@.len(),
            i <= x@.len(),
            forall|j: int| 0 <= j < i ==> x@[j] == y@[j],
        decreases x@.len() - i,
    {
        if x[i] != y[i] {
            return false;
        }
        i += 1;
    }
    assert(x@ =~= y@);
    proof {
        vstd::utf8::encode_utf8_decode_utf8(a@);
        vstd::utf8::encode_utf8_decode_utf8(b@);
    }
    true
}

/// The handshake event that the server's reply to a logon stands for: a reply
/// whose Status is "success" acknowledges the logon, any other reply rejects
/// it with its Reason, and a frame that cannot be read is a transport failure.
pub fn logon_reply_event(frame: &[u8]) -> (r: ConnectEvent)
    ensures
        match parse_frame(frame@) {
            Err(_) => r is TransportFailed,
            Ok(m) => if status_of(m) == "success"@ {
                r is LogonAcked
            } else {
                r matches ConnectEvent::LogonRejected(reason) && reason@ == reason_of(m)
            },
        },
{
    let m = match Message::from_frame(frame) {
        Ok(m) => m,
        Err(_) => return ConnectEvent::TransportFailed,
    };
    let status = match m.get_field(FieldID::AMPS_Status) {
        Some(s) => s,
        None => String::new(),
    };
    if same_text(status.as_str(), "success") {
        return ConnectEvent::LogonAcked;
    }
    let reason = match m.get_field(FieldID::AMPS_Reason) {
        Some(s) => s,
        None => String::new(),
    };
    ConnectEvent::LogonRejected(reason)
}

/// The payload of a frame, exactly as many bytes as the frame declares.
pub fn get_payload(frame: &[u8]) -> (r: Result<Vec<u8>, AmpsError>)
    ensures
        match parse_frame(frame@) {
            Ok(m) => r matches Ok(p) && p@ == m.payload,
            Err(e) => r == Err::<Vec<u8>, AmpsError>(e),
        },
{
    match Message::from_frame(frame) {
        Ok(m) => Ok(m.into_payload()),
        Err(e) => Err(e),
    }
}

} // verus!
