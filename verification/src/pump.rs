//! The hub side: poll, translate, deliver, and only then acknowledge.

use vstd::prelude::*;
use vstd::utf8::encode_utf8;
use crate::adapters::{DeliverError, Outcome};
use crate::config::{Profile, ProfileView, Source, SourceView};
use crate::text::decimal;
use crate::text::decimal_string;
use crate::translate::{prepare_value, prepare_value_spec, Delivery, DeliveryView, RenderErrorView};

verus! {

/// How a profile is doing, for `/healthz` and for the self-report events.
/// One fact, modelled once, so the endpoint, the log and the event cannot
/// disagree about it.
#[derive(Debug, Clone, Copy, PartialEq, Eq, Structural)]
pub enum Health {
    Starting,
    Working,
    /// Deliveries are failing; messages are waiting on the hub.
    Failing,
    /// The hub is refusing our credentials.
    Denied,
    /// The hub cannot be reached.
    HubDown,
}

impl Health {
    /// The variant's name, as a log line writes it.
    pub open spec fn name_spec(self) -> Seq<char> {
        match self {
            Health::Starting => "Starting"@,
            Health::Working => "Working"@,
            Health::Failing => "Failing"@,
            Health::Denied => "Denied"@,
            Health::HubDown => "HubDown"@,
        }
    }

    /// The variant's name, as a log line writes it.
    pub fn name(&self) -> (r: &'static str)
        ensures
            r@ == self.name_spec(),
    {
        match self {
            Health::Starting => "Starting",
            Health::Working => "Working",
            Health::Failing => "Failing",
            Health::Denied => "Denied",
            Health::HubDown => "HubDown",
        }
    }

    /// A state in which the profile is not doing its job.
    pub open spec fn is_bad(self) -> bool {
        self == Health::Failing || self == Health::Denied || self == Health::HubDown
    }
}

/// A message the hub handed over. `payload` is the text of the JSON
/// document the message carries.
#[derive(Debug, Clone, PartialEq, Eq)]
pub struct HubMessage {
    pub id: String,
    pub payload: String,
    pub attempt: u32,
}

/// What one poll of the hub answered.
#[derive(Debug, Clone, PartialEq, Eq)]
pub enum Poll {
    Message(Box<HubMessage>),
    /// The long poll closed with nothing waiting.
    Empty,
    /// The topic does not exist yet — nothing has ever published there.
    UnknownTopic,
    /// The message is on the hub but is not JSON, so no template can read
    /// it. Kept distinct from a delivery failure: retrying will not help.
    NotJson { id: String },
}

#[derive(Debug)]
pub enum HubError {
    Denied,
    Unreachable { detail: String },
    Status { status: u16 },
}

pub const DENIED_TEXT: &'static str = "the hub refused our credentials. What now: the token was probably rotated without restarting this service — mint an app token on kyu's Apps page, put it in the environment (the homelab vault composes it from latch) and restart.";

pub const UNREACHABLE_REMEDY: &'static str = "check that kyu is running and reachable from this container; messages are not lost while it is away, they wait on the hub.";

pub const HUB_STATUS_REMEDY: &'static str = "check kyu's own logs — this is the hub objecting, not the network.";

/// What an operator reads about a hub error.
pub open spec fn hub_error_message(e: HubError) -> Seq<char> {
    match e {
        HubError::Denied => DENIED_TEXT@,
        HubError::Unreachable { detail } => "the hub could not be reached: "@ + detail@ + ". What now: "@
            + UNREACHABLE_REMEDY@,
        HubError::Status { status } => "the hub answered "@ + decimal(status as nat) + ". What now: "@
            + HUB_STATUS_REMEDY@,
    }
}

impl HubError {
    pub fn to_string(&self) -> (r: String)
        ensures
            r@ == hub_error_message(*self),
    {
        match self {
            HubError::Denied => String::from_str(DENIED_TEXT),
            HubError::Unreachable { detail } => {
                let mut m = String::from_str("the hub could not be reached: ");
                m.append(detail.as_str());
                m.append(". What now: ");
                m.append(UNREACHABLE_REMEDY);
                m
            },
            HubError::Status { status } => {
                let mut m = String::from_str("the hub answered ");
                m.append(decimal_string(*status as u64).as_str());
                m.append(". What now: ");
                m.append(HUB_STATUS_REMEDY);
                m
            },
        }
    }
}

/// What the hub's answer to a request for the next message means by its
/// status alone: `None` for 200, whose envelope has to be read; an empty
/// poll for 204; a topic nothing has published to yet for 404; refused
/// credentials for 401 and 403; any other status is the hub objecting.
pub open spec fn poll_status_spec(status: u16) -> Option<Result<Poll, HubError>> {
    if status == 200 {
        None
    } else if status == 204 {
        Some(Ok(Poll::Empty))
    } else if status == 404 {
        Some(Ok(Poll::UnknownTopic))
    } else if status == 401 || status == 403 {
        Some(Err(HubError::Denied))
    } else {
        Some(Err(HubError::Status { status }))
    }
}

pub fn poll_status(status: u16) -> (r: Option<Result<Poll, HubError>>)
    ensures
        r == poll_status_spec(status),
{
    if status == 200 {
        None
    } else if status == 204 {
        Some(Ok(Poll::Empty))
    } else if status == 404 {
        Some(Ok(Poll::UnknownTopic))
    } else if status == 401 || status == 403 {
        Some(Err(HubError::Denied))
    } else {
        Some(Err(HubError::Status { status }))
    }
}

/// What a pump remembers between turns.
#[derive(Debug, Clone, Copy, PartialEq, Eq)]
pub struct PumpState {
    /// Set after the topic turned out not to exist: the next successful
    /// poll asks for the retained history, so a message published before
    /// this subscription existed is not lost.
    pub replay_next: bool,
    pub health: Health,
    pub policy_pushed: bool,
}

pub open spec fn initial_state() -> PumpState {
    PumpState { replay_next: false, health: Health::Starting, policy_pushed: false }
}

impl Default for PumpState {
    fn default() -> (r: Self)
        ensures
            r == initial_state(),
    {
        PumpState { replay_next: false, health: Health::Starting, policy_pushed: false }
    }
}

/// What one turn of the pump did. Returned rather than logged, so the
/// caller decides what to record.
#[derive(Debug, PartialEq, Eq)]
pub enum Step {
    /// Delivered; `ack_failed` says the hub would not take the
    /// acknowledgement even on the second try, so the message will come
    /// back as a duplicate.
    Delivered { id: String, attempts: u32, ack_failed: bool },
    /// Delivery failed; the message was handed back and the hub will offer
    /// it again.
    HandedBack { id: String, attempts: u32, reason: String },
    /// The message can never work as it stands; dead-lettered so it is
    /// visible instead of looping.
    DeadLettered { id: String, reason: String },
    Idle,
    TopicMissing,
    /// The hub refused our credentials.
    Denied { detail: String },
    HubDown { detail: String },
}

/// Where a turn stands between two outside calls.
pub enum Turn {
    /// Nothing asked yet.
    Start,
    /// The hub was asked for the next message.
    AwaitPoll,
    /// The subscription policy is being written; the poll's answer waits.
    Policy { poll: Result<Poll, HubError> },
    /// A message that can never work is being dead-lettered.
    DeadLettering { id: String, reason: String },
    /// A translated message is being delivered, retries included.
    Delivering { id: String },
    /// A delivered message is being acknowledged; `second` on the retry.
    Acking { id: String, attempts: u32, second: bool },
    /// A message whose delivery failed is being handed back.
    HandingBack { id: String, attempts: u32, reason: String },
}

/// What the caller is asked to do next, on the profile's topic and
/// subscription.
pub enum Action {
    Poll { from_beginning: bool },
    SetPolicy { lease_ms: u64, max_attempts: u32 },
    Nack { id: String, dead: bool },
    Deliver { delivery: Delivery },
    Ack { id: String },
    /// The turn is over.
    Finish { step: Step },
}

/// What the caller reports back.
pub enum Event {
    /// A new turn begins.
    Begin,
    Polled { poll: Result<Poll, HubError> },
    PolicySet { ok: bool },
    /// The nack was sent; its answer does not matter.
    Nacked,
    Delivered { outcome: Outcome },
    Acked { ok: bool },
}

/// The events each point of a turn waits for.
pub open spec fn expects(turn: Turn, event: Event) -> bool {
    match (turn, event) {
        (Turn::Start, Event::Begin) => true,
        (Turn::AwaitPoll, Event::Polled { .. }) => true,
        (Turn::Policy { .. }, Event::PolicySet { .. }) => true,
        (Turn::DeadLettering { .. }, Event::Nacked) => true,
        (Turn::Delivering { .. }, Event::Delivered { .. }) => true,
        (Turn::Acking { .. }, Event::Acked { .. }) => true,
        (Turn::HandingBack { .. }, Event::Nacked) => true,
        _ => false,
    }
}

pub const NOT_JSON_REASON: &'static str = "the message on the hub is not JSON, so no template can read it";

/// A poll that reached a subscription: the moment its policy may be
/// written.
pub open spec fn poll_reached_subscription(poll: Result<Poll, HubError>) -> bool {
    poll matches Ok(p) && !(p is UnknownTopic)
}

/// The turn ends with `step`.
pub open spec fn finishes(t: Turn, a: Action, step: spec_fn(Step) -> bool) -> bool {
    &&& t is Start
    &&& (a matches Action::Finish { step: s } && step(s))
}

/// What a turn does with the hub's answer once the policy question is
/// settled.
pub open spec fn settle_spec(p: ProfileView, s: PumpState, poll: Result<Poll, HubError>, s2: PumpState, t: Turn, a: Action) -> bool {
    match poll {
        Err(HubError::Denied) => s2 == (PumpState { health: Health::Denied, ..s }) && finishes(
            t,
            a,
            |st: Step| st matches Step::Denied { detail } && detail@ == DENIED_TEXT@,
        ),
        Err(e) => s2 == (PumpState { health: Health::HubDown, ..s }) && finishes(
            t,
            a,
            |st: Step| st matches Step::HubDown { detail } && detail@ == hub_error_message(e),
        ),
        Ok(Poll::UnknownTopic) => s2 == (PumpState { replay_next: true, ..s }) && finishes(
            t,
            a,
            |st: Step| st is TopicMissing,
        ),
        Ok(Poll::Empty) => s2 == (PumpState {
            replay_next: false,
            health: if s.health == Health::Starting || s.health == Health::HubDown || s.health
                == Health::Denied {
                Health::Working
            } else {
                s.health
            },
            ..s
        }) && finishes(t, a, |st: Step| st is Idle),
        Ok(Poll::NotJson { id }) => s2 == (PumpState { replay_next: false, ..s }) && (t matches Turn::DeadLettering {
            id: i,
            reason,
        } && i@ == id@ && reason@ == NOT_JSON_REASON@) && (a matches Action::Nack { id: j, dead } && j@ == id@
            && dead),
        Ok(Poll::Message(m)) => match prepare_value_spec(p, encode_utf8(m.payload@)) {
            Err(e) => s2 == (PumpState { replay_next: false, health: Health::Failing, ..s }) && (t matches Turn::DeadLettering {
                id: i,
                reason,
            } && i@ == m.id@ && reason@ == e.message()) && (a matches Action::Nack { id: j, dead } && j@
                == m.id@ && dead),
            Ok(d) => s2 == (PumpState { replay_next: false, ..s }) && (t matches Turn::Delivering {
                id: i,
            } && i@ == m.id@) && (a matches Action::Deliver { delivery } && delivery@ == d),
        },
    }
}

/// One step of a turn: from where the turn stands and what the caller
/// reports, the new state, where the turn stands next, and what to do.
pub open spec fn advance_spec(p: ProfileView, s: PumpState, turn: Turn, event: Event, s2: PumpState, t: Turn, a: Action) -> bool {
    match (turn, event) {
        (Turn::Start, Event::Begin) => match p.source {
            SourceView::Kyu { .. } => s2 == s && t is AwaitPoll && (a matches Action::Poll {
                from_beginning,
            } && from_beginning == s.replay_next),
            SourceView::Http { .. } => s2 == s && finishes(t, a, |st: Step| st is Idle),
        },
        (Turn::AwaitPoll, Event::Polled { poll }) => if !s.policy_pushed && poll_reached_subscription(
            poll,
        ) {
            s2 == s && t == (Turn::Policy { poll }) && a == (Action::SetPolicy {
                lease_ms: p.lease_ms,
                max_attempts: p.max_attempts,
            })
        } else {
            settle_spec(p, s, poll, s2, t, a)
        },
        (Turn::Policy { poll }, Event::PolicySet { ok }) => settle_spec(
            p,
            PumpState { policy_pushed: s.policy_pushed || ok, ..s },
            poll,
            s2,
            t,
            a,
        ),
        (Turn::DeadLettering { id, reason }, Event::Nacked) => s2 == s && finishes(
            t,
            a,
            |st: Step| st matches Step::DeadLettered { id: i, reason: r } && i@ == id@ && r@ == reason@,
        ),
        (Turn::Delivering { id }, Event::Delivered { outcome }) => match outcome.result {
            Ok(()) => s2 == s && (t matches Turn::Acking { id: i, attempts, second } && i@ == id@
                && attempts == outcome.attempts && !second) && (a matches Action::Ack { id: j } && j@
                == id@),
            Err(e) => s2 == s && (t matches Turn::HandingBack { id: i, attempts, reason } && i@ == id@
                && attempts == outcome.attempts && reason@ == e@.message()) && (a matches Action::Nack {
                id: j,
                dead,
            } && j@ == id@ && !dead),
        },
        (Turn::Acking { id, attempts, second }, Event::Acked { ok }) => if ok || second {
            s2 == (PumpState { health: Health::Working, ..s }) && finishes(
                t,
                a,
                |st: Step| st matches Step::Delivered { id: i, attempts: n, ack_failed } && i@ == id@ && n
                    == attempts && ack_failed == !ok,
            )
        } else {
            s2 == s && (t matches Turn::Acking { id: i, attempts: n, second: sec } && i@ == id@ && n
                == attempts && sec) && (a matches Action::Ack { id: j } && j@ == id@)
        },
        (Turn::HandingBack { id, attempts, reason }, Event::Nacked) => s2 == (PumpState {
            health: Health::Failing,
            ..s
        }) && finishes(
            t,
            a,
            |st: Step| st matches Step::HandedBack { id: i, attempts: n, reason: r } && i@ == id@ && n
                == attempts && r@ == reason@,
        ),
        _ => false,
    }
}

fn finish(step: Step) -> (r: (Turn, Action))
    ensures
        r.0 is Start,
        r.1 == (Action::Finish { step }),
{
    (Turn::Start, Action::Finish { step })
}

fn settle(profile: &Profile, state: &mut PumpState, poll: Result<Poll, HubError>) -> (r: (Turn, Action))
    ensures
        settle_spec(profile@, *old(state), poll, *final(state), r.0, r.1),
{
    match poll {
        Err(HubError::Denied) => {
            state.health = Health::Denied;
            finish(Step::Denied { detail: String::from_str(DENIED_TEXT) })
        },
        Err(e) => {
            state.health = Health::HubDown;
            let detail = e.to_string();
            finish(Step::HubDown { detail })
        },
        Ok(Poll::UnknownTopic) => {
            // Nothing has ever published here. Ask for the history on the
            // next poll so the first message is not missed.
            state.replay_next = true;
            finish(Step::TopicMissing)
        },
        Ok(Poll::Empty) => {
            state.replay_next = false;
            if state.health == Health::Starting || state.health == Health::HubDown || state.health
                == Health::Denied {
                state.health = Health::Working;
            }
            finish(Step::Idle)
        },
        Ok(Poll::NotJson { id }) => {
            state.replay_next = false;
            let nack = Action::Nack { id: id.clone(), dead: true };
            (Turn::DeadLettering { id, reason: String::from_str(NOT_JSON_REASON) }, nack)
        },
        Ok(Poll::Message(m)) => {
            state.replay_next = false;
            match prepare_value(profile, m.payload.as_str().as_bytes()) {
                Err(e) => {
                    // Rendering is pure: it will fail identically next
                    // time. Dead-letter it so it is visible instead of
                    // cycling until its attempts run out.
                    state.health = Health::Failing;
                    let nack = Action::Nack { id: m.id.clone(), dead: true };
                    (Turn::DeadLettering { id: m.id.clone(), reason: e.to_string() }, nack)
                },
                Ok(delivery) => (Turn::Delivering { id: m.id.clone() }, Action::Deliver { delivery }),
            }
        },
    }
}

/// One step of a pump turn: poll, translate, deliver, and only then
/// acknowledge; a failed delivery is handed back at once, a message that
/// can never work is dead-lettered.
pub fn advance(profile: &Profile, state: &mut PumpState, turn: Turn, event: Event) -> (r: (Turn, Action))
    requires
        expects(turn, event),
    ensures
        advance_spec(profile@, *old(state), turn, event, *final(state), r.0, r.1),
{
    match (turn, event) {
        (Turn::Start, Event::Begin) => {
            match &profile.source {
                Source::Kyu { .. } => (Turn::AwaitPoll, Action::Poll { from_beginning: state.replay_next }),
                Source::Http { .. } => finish(Step::Idle),
            }
        },
        (Turn::AwaitPoll, Event::Polled { poll }) => {
            // The policy is written after a successful poll, never before:
            // a subscription starts existing when it first polls.
            let reached = match &poll {
                Ok(Poll::UnknownTopic) => false,
                Ok(_) => true,
                Err(_) => false,
            };
            if !state.policy_pushed && reached {
                (
                    Turn::Policy { poll },
                    Action::SetPolicy { lease_ms: profile.lease_ms, max_attempts: profile.max_attempts },
                )
            } else {
                settle(profile, state, poll)
            }
        },
        (Turn::Policy { poll }, Event::PolicySet { ok }) => {
            if ok {
                state.policy_pushed = true;
            }
            settle(profile, state, poll)
        },
        (Turn::DeadLettering { id, reason }, Event::Nacked) => finish(Step::DeadLettered { id, reason }),
        (Turn::Delivering { id }, Event::Delivered { outcome }) => {
            match outcome.result {
                Ok(()) => {
                    let ack = Action::Ack { id: id.clone() };
                    (Turn::Acking { id, attempts: outcome.attempts, second: false }, ack)
                },
                Err(e) => {
                    // Hand it back at once rather than sitting on the claim.
                    let nack = Action::Nack { id: id.clone(), dead: false };
                    (Turn::HandingBack { id, attempts: outcome.attempts, reason: e.to_string() }, nack)
                },
            }
        },
        (Turn::Acking { id, attempts, second }, Event::Acked { ok }) => {
            if ok || second {
                state.health = Health::Working;
                finish(Step::Delivered { id, attempts, ack_failed: !ok })
            } else {
                // One retry of the ack, then let the lease do its work.
                let ack = Action::Ack { id: id.clone() };
                (Turn::Acking { id, attempts, second: true }, ack)
            }
        },
        (Turn::HandingBack { id, attempts, reason }, Event::Nacked) => {
            state.health = Health::Failing;
            finish(Step::HandedBack { id, attempts, reason })
        },
        _ => {
            assert(false);
            finish(Step::Idle)
        },
    }
}

// ── laws of a turn ─────────────────────────────────────────────────────

/// A message is acknowledged only after it was delivered: an ack is asked
/// for only when a delivery has just succeeded, or to repeat an ack the
/// hub refused.
pub proof fn lemma_ack_only_after_delivery(p: ProfileView, s: PumpState, turn: Turn, event: Event, s2: PumpState, t: Turn, a: Action)
    requires
        advance_spec(p, s, turn, event, s2, t, a),
        a is Ack,
    ensures
        ({
            ||| turn is Delivering && (event matches Event::Delivered { outcome } && outcome.result is Ok)
            ||| (turn matches Turn::Acking { second, .. } && !second) && (event matches Event::Acked { ok } && !ok)
        }),
{
}

/// A refused delivery is handed back at once, never acknowledged and
/// never dead-lettered; the turn then ends with the profile failing.
pub proof fn lemma_refused_delivery_is_handed_back(p: ProfileView, s: PumpState, id: String, outcome: Outcome, s2: PumpState, t: Turn, a: Action)
    requires
        advance_spec(p, s, Turn::Delivering { id }, Event::Delivered { outcome }, s2, t, a),
        outcome.result is Err,
    ensures
        a matches Action::Nack { id: j, dead } && j@ == id@ && !dead,
        t is HandingBack,
{
}

/// A message that can never work — one that is not JSON, or does not
/// render — is dead-lettered, not handed back to loop.
pub proof fn lemma_unworkable_message_is_dead_lettered(p: ProfileView, s: PumpState, m: HubMessage, s2: PumpState, t: Turn, a: Action)
    requires
        s.policy_pushed,
        advance_spec(p, s, Turn::AwaitPoll, Event::Polled { poll: Ok(Poll::Message(Box::new(m))) }, s2, t, a),
        prepare_value_spec(p, encode_utf8(m.payload@)) is Err,
    ensures
        a matches Action::Nack { id: j, dead } && j@ == m.id@ && dead,
        s2.health == Health::Failing,
{
}

/// A poll that finds the topic missing makes the next poll ask for the
/// retained history; the next turn's poll does exactly that.
pub proof fn lemma_missing_topic_replays_history(p: ProfileView, s: PumpState, s2: PumpState, t: Turn, a: Action, s3: PumpState, t3: Turn, a3: Action)
    requires
        advance_spec(p, s, Turn::AwaitPoll, Event::Polled { poll: Ok(Poll::UnknownTopic) }, s2, t, a),
        advance_spec(p, s2, Turn::Start, Event::Begin, s3, t3, a3),
        p.source is Kyu,
    ensures
        s2.replay_next,
        a3 matches Action::Poll { from_beginning } && from_beginning,
{
}

/// Any other answer of the hub clears the replay, so history is asked for
/// once.
pub proof fn lemma_replay_is_asked_once(p: ProfileView, s: PumpState, poll: Poll, s2: PumpState, t: Turn, a: Action)
    requires
        s.policy_pushed,
        advance_spec(p, s, Turn::AwaitPoll, Event::Polled { poll: Ok(poll) }, s2, t, a),
        !(poll is UnknownTopic),
    ensures
        !s2.replay_next,
{
}

/// The subscription policy is a write, not a heartbeat: it is asked for
/// only while it has not been pushed, and once pushed it stays pushed.
pub proof fn lemma_policy_pushed_once(p: ProfileView, s: PumpState, turn: Turn, event: Event, s2: PumpState, t: Turn, a: Action)
    requires
        advance_spec(p, s, turn, event, s2, t, a),
    ensures
        a is SetPolicy ==> !s.policy_pushed,
        s.policy_pushed ==> s2.policy_pushed,
{
}

/// A refused token is its own state, not a hub outage; an unreachable hub
/// is the other one.
pub proof fn lemma_denied_is_not_hub_down(p: ProfileView, s: PumpState, e: HubError, s2: PumpState, t: Turn, a: Action)
    requires
        advance_spec(p, s, Turn::AwaitPoll, Event::Polled { poll: Err(e) }, s2, t, a),
    ensures
        e is Denied ==> s2.health == Health::Denied,
        !(e is Denied) ==> s2.health == Health::HubDown,
        s2.replay_next == s.replay_next,
{
}

/// A failing profile is back to working only once a delivery has been
/// acknowledged: no other step of a turn — an empty poll, a poll that
/// writes the policy, a new message, a hub that is away — turns `Failing`
/// into `Working`.
pub proof fn lemma_only_an_acknowledged_delivery_ends_a_failure(p: ProfileView, s: PumpState, turn: Turn, event: Event, s2: PumpState, t: Turn, a: Action)
    requires
        advance_spec(p, s, turn, event, s2, t, a),
        s.health == Health::Failing,
        s2.health == Health::Working,
    ensures
        turn is Acking,
        event is Acked,
{
}

/// An empty poll brings back a profile that was starting, denied or cut
/// off from the hub, and leaves a working or a failing profile as it was.
pub proof fn lemma_an_empty_poll(p: ProfileView, s: PumpState, s2: PumpState, t: Turn, a: Action)
    requires
        advance_spec(p, s, Turn::AwaitPoll, Event::Polled { poll: Ok(Poll::Empty) }, s2, t, a),
        s.policy_pushed,
    ensures
        s.health == Health::Failing ==> s2.health == Health::Failing,
        s.health == Health::Working ==> s2.health == Health::Working,
        (s.health == Health::Starting || s.health == Health::Denied || s.health == Health::HubDown) ==> s2.health == Health::Working,
        t is Start,
{
}

// ── after a turn ───────────────────────────────────────────────────────

/// How long to wait after an idle poll before asking again.
pub const IDLE_PAUSE_MS: u64 = 1_000;

/// How long to wait after the hub refused us or could not be reached.
pub const HUB_DOWN_PAUSE_MS: u64 = 5_000;

/// What the loop around the pump does with a finished turn: whether the
/// message counts as delivered or failed, what its log line says, and how
/// long to pause before the next turn.
pub struct Followup {
    pub record: Option<bool>,
    pub outcome: Option<&'static str>,
    pub attempts: u32,
    pub pause_ms: u64,
}

pub open spec fn followup_spec(step: Step) -> (Option<bool>, Option<Seq<char>>, u32, u64) {
    match step {
        Step::Delivered { attempts, .. } => (Some(true), Some("delivered"@), attempts, 0),
        Step::HandedBack { attempts, .. } => (Some(false), Some("handed-back"@), attempts, 0),
        Step::DeadLettered { .. } => (Some(false), Some("dead-lettered"@), 1, 0),
        Step::Idle => (None, None, 0, IDLE_PAUSE_MS),
        Step::TopicMissing => (None, None, 0, IDLE_PAUSE_MS),
        Step::Denied { .. } => (None, None, 0, HUB_DOWN_PAUSE_MS),
        Step::HubDown { .. } => (None, None, 0, HUB_DOWN_PAUSE_MS),
    }
}

/// What to do once a turn has finished with `step`.
pub fn followup(step: &Step) -> (r: Followup)
    ensures
        (r.record, match r.outcome {
            Some(o) => Some(o@),
            None => None,
        }, r.attempts, r.pause_ms) == followup_spec(*step),
{
    match step {
        Step::Delivered { attempts, .. } => Followup {
            record: Some(true),
            outcome: Some("delivered"),
            attempts: *attempts,
            pause_ms: 0,
        },
        Step::HandedBack { attempts, .. } => Followup {
            record: Some(false),
            outcome: Some("handed-back"),
            attempts: *attempts,
            pause_ms: 0,
        },
        Step::DeadLettered { .. } => Followup {
            record: Some(false),
            outcome: Some("dead-lettered"),
            attempts: 1,
            pause_ms: 0,
        },
        Step::Idle | Step::TopicMissing => Followup {
            record: None,
            outcome: None,
            attempts: 0,
            pause_ms: IDLE_PAUSE_MS,
        },
        Step::Denied { .. } | Step::HubDown { .. } => Followup {
            record: None,
            outcome: None,
            attempts: 0,
            pause_ms: HUB_DOWN_PAUSE_MS,
        },
    }
}

/// What a state change is logged with.
pub open spec fn transition_detail_spec(h: Health) -> Seq<char> {
    match h {
        Health::Denied => "the hub refused our credentials"@,
        Health::HubDown => "the hub could not be reached"@,
        Health::Failing => "deliveries are failing; messages wait on the hub"@,
        Health::Working => "back to normal"@,
        Health::Starting => "starting"@,
    }
}

pub fn transition_detail(h: Health) -> (r: &'static str)
    ensures
        r@ == transition_detail_spec(h),
{
    match h {
        Health::Denied => "the hub refused our credentials",
        Health::HubDown => "the hub could not be reached",
        Health::Failing => "deliveries are failing; messages wait on the hub",
        Health::Working => "back to normal",
        Health::Starting => "starting",
    }
}

} // verus!
