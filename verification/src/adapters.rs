//! The decisions around the outside world: what a refused delivery means,
//! whether it is worth trying again, how long to wait first, and where a
//! delivery is sent. The sending itself is I/O and lives with the binary.

use vstd::prelude::*;
use crate::config::{pause_ms, pauses_total};
use crate::secret::Secret;
use crate::text::{decimal, decimal_string};
use crate::translate::{Delivery, Target};

verus! {

/// Why a delivery did not land.
#[derive(Debug)]
pub enum DeliverError {
    Timeout { timeout_ms: u64 },
    Status { status: u16, advice: String },
    Transport { detail: String },
}

pub const TIMEOUT_REMEDY: &'static str = "check whether the receiver is up and reachable from this container; if it is simply slow, raise timeout_ms for this profile — but keep the retry budget inside the kyu lease.";

pub const TRANSPORT_REMEDY: &'static str = "check the address in the profile and whether this container can reach it — a name that does not resolve and a port nothing listens on look the same from here.";

pub const CREDENTIALS_ADVICE: &'static str = "the receiver rejected our credentials — check the header this profile sends, and whether the token behind it was rotated without restarting this service.";

pub const NOT_FOUND_ADVICE: &'static str = "the receiver does not know this address — check the URL, or, for a Home Assistant webhook, that the automation with that webhook id still exists.";

pub const TOO_LARGE_ADVICE: &'static str = "the receiver considers the message too large — shorten the template, or raise the receiver's limit.";

pub const CLIENT_ERROR_ADVICE: &'static str = "the receiver considers the message wrong, and it will keep doing so — look at the rendered body with `http-switchboard test` before retrying.";

pub const SERVER_ERROR_ADVICE: &'static str = "the receiver is having trouble; this is retried automatically, and if it persists the message stays on the hub rather than disappearing.";

/// What to do about a refusal with `status`.
pub open spec fn advice_spec(status: u16) -> Seq<char> {
    if status == 401 || status == 403 {
        CREDENTIALS_ADVICE@
    } else if status == 404 {
        NOT_FOUND_ADVICE@
    } else if status == 413 {
        TOO_LARGE_ADVICE@
    } else if 400 <= status <= 499 {
        CLIENT_ERROR_ADVICE@
    } else {
        SERVER_ERROR_ADVICE@
    }
}

/// What to do about a refusal with `status`.
pub fn advice_for(status: u16) -> (r: String)
    ensures
        r@ == advice_spec(status),
{
    if status == 401 || status == 403 {
        String::from_str(CREDENTIALS_ADVICE)
    } else if status == 404 {
        String::from_str(NOT_FOUND_ADVICE)
    } else if status == 413 {
        String::from_str(TOO_LARGE_ADVICE)
    } else if 400 <= status && status <= 499 {
        String::from_str(CLIENT_ERROR_ADVICE)
    } else {
        String::from_str(SERVER_ERROR_ADVICE)
    }
}

/// Whether a status is a success.
pub open spec fn accepted(status: u16) -> bool {
    200 <= status < 300
}

/// Every 2xx status is a delivery, and nothing else is.
pub proof fn lemma_every_2xx_is_a_delivery(status: u16)
    ensures
        accepted(status) <==> 200 <= status <= 299,
{
}

/// What an answer with `status` means for a delivery: a 2xx is delivered,
/// anything else is a refusal with the advice for that status.
pub fn status_outcome(status: u16) -> (r: Result<(), DeliverError>)
    ensures
        accepted(status) <==> r is Ok,
        200 <= status < 300 <==> r is Ok,
        r matches Err(e) ==> (e matches DeliverError::Status { status: s, advice } && s == status
            && advice@ == advice_spec(status)),
{
    if 200 <= status && status < 300 {
        Ok(())
    } else {
        Err(DeliverError::Status { status, advice: advice_for(status) })
    }
}

pub enum DeliverErrorView {
    Timeout { timeout_ms: u64 },
    Status { status: u16, advice: Seq<char> },
    Transport { detail: Seq<char> },
}

impl View for DeliverError {
    type V = DeliverErrorView;

    open spec fn view(&self) -> DeliverErrorView {
        match self {
            DeliverError::Timeout { timeout_ms } => DeliverErrorView::Timeout { timeout_ms: *timeout_ms },
            DeliverError::Status { status, advice } => DeliverErrorView::Status { status: *status, advice: advice@ },
            DeliverError::Transport { detail } => DeliverErrorView::Transport { detail: detail@ },
        }
    }
}

impl DeliverErrorView {
    /// Whether trying again could plausibly help: a timeout, a transport
    /// failure, a 5xx or a 429.
    pub open spec fn retryable(self) -> bool {
        match self {
            DeliverErrorView::Timeout { .. } => true,
            DeliverErrorView::Transport { .. } => true,
            DeliverErrorView::Status { status, .. } => status >= 500 || status == 429,
        }
    }

    /// What went wrong, before the remedy.
    pub open spec fn problem(self) -> Seq<char> {
        match self {
            DeliverErrorView::Timeout { timeout_ms } => "the destination did not answer within "@
                + decimal(timeout_ms as nat) + " ms. "@,
            DeliverErrorView::Status { status, .. } => "the destination refused the message with status "@
                + decimal(status as nat) + ". "@,
            DeliverErrorView::Transport { detail } => "the destination could not be reached: "@
                + detail + ". "@,
        }
    }

    pub open spec fn remedy(self) -> Seq<char> {
        match self {
            DeliverErrorView::Timeout { .. } => TIMEOUT_REMEDY@,
            DeliverErrorView::Status { advice, .. } => advice,
            DeliverErrorView::Transport { .. } => TRANSPORT_REMEDY@,
        }
    }

    pub open spec fn message(self) -> Seq<char> {
        self.problem() + "What now: "@ + self.remedy()
    }
}

impl DeliverError {
    /// Whether trying again could plausibly help. A 400 will be a 400
    /// again; a 503 or a timeout may not be.
    pub fn is_retryable(&self) -> (r: bool)
        ensures
            r == self@.retryable(),
    {
        match self {
            DeliverError::Timeout { .. } => true,
            DeliverError::Transport { .. } => true,
            DeliverError::Status { status, .. } => *status >= 500 || *status == 429,
        }
    }

    /// The message an operator reads.
    pub fn to_string(&self) -> (r: String)
        ensures
            r@ == self@.message(),
    {
        match self {
            DeliverError::Timeout { timeout_ms } => {
                let mut m = String::from_str("the destination did not answer within ");
                m.append(decimal_string(*timeout_ms).as_str());
                m.append(" ms. ");
                m.append("What now: ");
                m.append(TIMEOUT_REMEDY);
                m
            },
            DeliverError::Status { status, advice } => {
                let mut m = String::from_str("the destination refused the message with status ");
                m.append(decimal_string(*status as u64).as_str());
                m.append(". ");
                m.append("What now: ");
                m.append(advice.as_str());
                m
            },
            DeliverError::Transport { detail } => {
                let mut m = String::from_str("the destination could not be reached: ");
                m.append(detail.as_str());
                m.append(". ");
                m.append("What now: ");
                m.append(TRANSPORT_REMEDY);
                m
            },
        }
    }
}

/// What happened to one message, for the caller that has to decide
/// whether to acknowledge it or what to answer the sender.
#[derive(Debug)]
pub struct Outcome {
    pub attempts: u32,
    pub result: Result<(), DeliverError>,
}

// ── retrying inside the same claim ─────────────────────────────────────

/// After attempt `attempts` failed: `None` to give up (the retries are
/// spent, or trying again cannot help), or the pause before the next
/// attempt — 1 s, 2 s, 4 s …, the same series the configuration's budget
/// check accounts for.
pub open spec fn after_failure_spec(attempts: nat, retries: nat, retryable: bool) -> Option<nat> {
    if attempts > retries || !retryable {
        None
    } else {
        Some(pause_ms((attempts - 1) as nat))
    }
}

/// Two to the power `k`.
pub open spec fn pow2_nat(k: nat) -> nat
    decreases k,
{
    if k == 0 {
        1
    } else {
        2 * pow2_nat((k - 1) as nat)
    }
}

proof fn lemma_pause_is_pow(k: nat)
    ensures
        pause_ms(k) == 1000 * pow2_nat(k),
    decreases k,
{
    if k > 0 {
        lemma_pause_is_pow((k - 1) as nat);
    }
}

/// What to do after a failed attempt: give up, or pause for the returned
/// number of milliseconds and try again.
pub fn after_failure(attempts: u32, retries: u32, retryable: bool) -> (r: Option<u64>)
    requires
        attempts >= 1,
        attempts <= retries && retryable ==> attempts <= 55,
    ensures
        match r {
            Some(ms) => after_failure_spec(attempts as nat, retries as nat, retryable) == Some(ms as nat),
            None => after_failure_spec(attempts as nat, retries as nat, retryable) is None,
        },
{
    if attempts > retries || !retryable {
        return None;
    }
    let mut pause: u64 = 1_000;
    let mut k: u32 = 0;
    while k + 1 < attempts
        invariant
            1 <= attempts <= 55,
            k < attempts,
            pause == pause_ms(k as nat),
        decreases attempts - k,
    {
        proof {
            lemma_pause_is_pow(k as nat);
            lemma_pause_is_pow((k + 1) as nat);
            lemma_pause_fits(k as nat);
            assert(pause == 1000 * pow2_nat(k as nat));
            assert(2 * pause <= u64::MAX);
        }
        pause = pause * 2;
        k = k + 1;
    }
    Some(pause)
}

proof fn lemma_pause_fits(k: nat)
    requires
        k <= 53,
    ensures
        2 * (1000 * pow2_nat(k)) <= u64::MAX,
{
    reveal_with_fuel(pow2_nat, 54);
    assert(pow2_nat(53) == 0x20_0000_0000_0000);
    lemma_pow2_mono_any(k, 53);
    assert(pow2_nat(k) <= 0x20_0000_0000_0000);
    assert(2 * (1000 * pow2_nat(k)) <= 2 * (1000 * 0x20_0000_0000_0000)) by (nonlinear_arith)
        requires pow2_nat(k) <= 0x20_0000_0000_0000;
}

proof fn lemma_pow2_mono_any(a: nat, b: nat)
    requires
        a <= b,
    ensures
        pow2_nat(a) <= pow2_nat(b),
    decreases b - a,
{
    if a < b {
        lemma_pow2_mono_any(a, (b - 1) as nat);
    }
}

/// The pauses a delivery takes over its first `n` attempts when every one
/// of them fails in a way worth retrying.
pub open spec fn pauses_taken(n: nat, retries: nat) -> nat
    decreases n,
{
    if n == 0 {
        0
    } else {
        pauses_taken((n - 1) as nat, retries) + match after_failure_spec(n, retries, true) {
            Some(ms) => ms,
            None => 0,
        }
    }
}

/// How many attempts a delivery makes, from attempt `n` on, when attempt
/// `m` is answered `answers[m - 1]`: it stops at the first success, or at
/// the first failure after which `after_failure` gives up.
pub open spec fn attempts_from(answers: Seq<Result<(), DeliverErrorView>>, retries: nat, n: nat) -> nat
    decreases answers.len() + 1 - n,
{
    if n == 0 || n > answers.len() {
        n
    } else {
        match answers[n - 1] {
            Ok(()) => n,
            Err(e) => if after_failure_spec(n, retries, e.retryable()) is None {
                n
            } else {
                attempts_from(answers, retries, n + 1)
            },
        }
    }
}

proof fn lemma_attempts_from(answers: Seq<Result<(), DeliverErrorView>>, retries: nat, n: nat)
    requires
        1 <= n <= retries + 1,
        answers.len() >= retries + 1,
    ensures
        n <= attempts_from(answers, retries, n) <= retries + 1,
        forall|m: nat|
            n <= m < attempts_from(answers, retries, n) ==> ((#[trigger] answers[m - 1]) matches Err(e)
                && e.retryable() && after_failure_spec(m, retries, true) == Some(pause_ms((m - 1) as nat))),
        ({
            let k = attempts_from(answers, retries, n);
            match answers[k - 1] {
                Ok(()) => true,
                Err(e) => k == retries + 1 || !e.retryable(),
            }
        }),
    decreases retries + 1 - n,
{
    match answers[n - 1] {
        Ok(()) => {},
        Err(e) => {
            if after_failure_spec(n, retries, e.retryable()) is Some {
                lemma_attempts_from(answers, retries, n + 1);
            }
        },
    }
}

/// A delivery whose attempts are answered `answers` in turn, retried as
/// `after_failure` decides: it makes between one and `retries + 1`
/// attempts; every attempt before the last failed in a way worth
/// retrying, and after attempt `m` it paused `pause_ms(m - 1)` — 1 s,
/// 2 s, 4 s … — in that order; the last attempt succeeded, or failed in a
/// way not worth retrying, or was attempt `retries + 1`.
pub proof fn lemma_a_delivery_run(answers: Seq<Result<(), DeliverErrorView>>, retries: nat)
    requires
        answers.len() >= retries + 1,
    ensures
        1 <= attempts_from(answers, retries, 1) <= retries + 1,
        forall|m: nat|
            1 <= m < attempts_from(answers, retries, 1) ==> ((#[trigger] answers[m - 1]) matches Err(e)
                && e.retryable() && after_failure_spec(m, retries, true) == Some(pause_ms((m - 1) as nat))),
        ({
            let k = attempts_from(answers, retries, 1);
            match answers[k - 1] {
                Ok(()) => true,
                Err(e) => k == retries + 1 || !e.retryable(),
            }
        }),
{
    lemma_attempts_from(answers, retries, 1);
}

/// A delivery that keeps failing in a way worth retrying is attempted
/// exactly `retries + 1` times, and the pauses between those attempts add
/// up to the pause part of the configuration's retry budget: the loop and
/// the budget check cannot drift apart.
pub proof fn lemma_retry_pauses_match_budget(retries: nat)
    ensures
        forall|n: nat| 1 <= n <= retries ==> #[trigger] after_failure_spec(n, retries, true) is Some,
        after_failure_spec(retries + 1, retries, true) is None,
        pauses_taken(retries, retries) == pauses_total(retries),
{
    lemma_pauses_taken(retries, retries);
}

proof fn lemma_pauses_taken(n: nat, retries: nat)
    requires
        n <= retries,
    ensures
        pauses_taken(n, retries) == pauses_total(n),
    decreases n,
{
    if n > 0 {
        lemma_pauses_taken((n - 1) as nat, retries);
    }
}

// ── where a delivery goes ──────────────────────────────────────────────

/// The address, method and bearer token of one delivery: a URL target as
/// rendered with no token of the hub's; a topic is published with a POST
/// to `<base>/t/<topic>` under the hub's token.
pub open spec fn request_spec(kyu_base_url: Option<Seq<char>>, kyu_token: Option<Seq<char>>, target: crate::translate::TargetView) -> (Seq<char>, Seq<char>, Option<Seq<char>>) {
    match target {
        crate::translate::TargetView::Url { url, method } => (url, method, None),
        crate::translate::TargetView::KyuTopic { topic } => (
            match kyu_base_url {
                Some(b) => b,
                None => Seq::empty(),
            } + "/t/"@ + topic,
            "POST"@,
            kyu_token,
        ),
    }
}

/// The address, method and bearer token for sending `delivery`.
pub fn request_for(kyu_base_url: &Option<String>, kyu_token: &Option<Secret>, delivery: &Delivery) -> (r: (String, String, Option<Secret>))
    ensures
        (r.0@, r.1@, match r.2 { Some(s) => Some(s@), None => None }) == request_spec(
            match *kyu_base_url { Some(b) => Some(b@), None => None },
            match *kyu_token { Some(t) => Some(t@), None => None },
            delivery.target@,
        ),
{
    match &delivery.target {
        Target::Url { url, method } => (url.clone(), method.clone(), None),
        Target::KyuTopic { topic } => {
            let mut url = match kyu_base_url {
                Some(b) => b.clone(),
                None => String::new(),
            };
            url.append("/t/");
            url.append(topic.as_str());
            let token = match kyu_token {
                Some(t) => Some(Secret::new(t.expose())),
                None => None,
            };
            (url, String::from_str("POST"), token)
        },
    }
}

} // verus!
