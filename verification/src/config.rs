//! Profile configuration: the whole model of the service.
//!
//! Loading is pure: the caller supplies the file's text and a lookup for
//! environment variables, so every validation rule is checked with no
//! ambient I/O. Nothing here starts half-working — a config that does not
//! hold up is refused, and every error says what to do about it.

use vstd::prelude::*;
use vstd::utf8::encode_utf8;
pub use crate::config_error::{ConfigError, ConfigErrorView};
use crate::config_raw::{
    decode_config, opt_view, pairs_view, read_config, EndpointView, RawConfig, RawConfigView,
    RawEndpoint, RawKyu, RawKyuView, RawProfile, RawProfileView, raw_profiles_view,
};
use crate::secret::Secret;
use crate::text::{chars_of, same_text, starts_with, string_of, sub_chars};
use crate::toml_doc::{parse_toml, toml_document, TomlValue};

verus! {

/// kyu reserves this prefix for its own events and answers 403 to a
/// publish.
pub const RESERVED_TOPIC_PREFIX: &'static str = "kyu.";

/// Safety margin between the retry budget and the kyu lease: the delivery
/// must finish, and the ack must land, before the lease expires.
pub const LEASE_MARGIN_MS: u64 = 5_000;

pub const DEFAULT_TIMEOUT_MS: u64 = 10_000;

pub const DEFAULT_RETRIES: u32 = 2;

/// kyu's own default lease (30 s) does not fit the shipped defaults, so a
/// profile asks for a lease that does.
pub const DEFAULT_LEASE_MS: u64 = 60_000;

pub const DEFAULT_MAX_ATTEMPTS: u32 = 5;

/// First pause between attempts; each following pause doubles.
pub const BACKOFF_BASE_MS: u64 = 1_000;

// ── the validated model ────────────────────────────────────────────────

#[derive(Clone)]
pub struct Config {
    pub kyu: Option<Kyu>,
    pub reporting: Option<Reporting>,
    pub profiles: Vec<Profile>,
}

#[derive(Clone)]
pub struct Kyu {
    pub base_url: String,
    pub token: Option<Secret>,
}

#[derive(Clone)]
pub struct Reporting {
    pub topic: String,
}

#[derive(Clone)]
pub struct Profile {
    pub name: String,
    /// The kyu subscription this profile consumes under. Its own key,
    /// never an accident of the profile name: renaming a profile would
    /// otherwise create a fresh subscription and abandon everything still
    /// unacked.
    pub subscription: String,
    pub source: Source,
    pub sink: Sink,
    pub content_type: String,
    pub body: String,
    pub headers: Vec<(String, Secret)>,
    pub timeout_ms: u64,
    pub retries: u32,
    pub lease_ms: u64,
    pub max_attempts: u32,
    pub inbound_token: Option<Secret>,
}

#[derive(Debug, Clone, PartialEq, Eq)]
pub enum Source {
    Http { path: String },
    Kyu { topic: String },
}

#[derive(Debug, Clone, PartialEq, Eq)]
pub enum Sink {
    Url { url: String, method: String },
    Kyu { topic: String },
}

pub enum SourceView {
    Http { path: Seq<char> },
    Kyu { topic: Seq<char> },
}

pub enum SinkView {
    Url { url: Seq<char>, method: Seq<char> },
    Kyu { topic: Seq<char> },
}

pub struct ProfileView {
    pub name: Seq<char>,
    pub subscription: Seq<char>,
    pub source: SourceView,
    pub sink: SinkView,
    pub content_type: Seq<char>,
    pub body: Seq<char>,
    pub headers: Seq<(Seq<char>, Seq<char>)>,
    pub timeout_ms: u64,
    pub retries: u32,
    pub lease_ms: u64,
    pub max_attempts: u32,
    pub inbound_token: Option<Seq<char>>,
}

pub struct KyuView {
    pub base_url: Seq<char>,
    pub token: Option<Seq<char>>,
}

pub struct ConfigView {
    pub kyu: Option<KyuView>,
    pub reporting: Option<Seq<char>>,
    pub profiles: Seq<ProfileView>,
}

impl View for Source {
    type V = SourceView;

    open spec fn view(&self) -> SourceView {
        match self {
            Source::Http { path } => SourceView::Http { path: path@ },
            Source::Kyu { topic } => SourceView::Kyu { topic: topic@ },
        }
    }
}

impl View for Sink {
    type V = SinkView;

    open spec fn view(&self) -> SinkView {
        match self {
            Sink::Url { url, method } => SinkView::Url { url: url@, method: method@ },
            Sink::Kyu { topic } => SinkView::Kyu { topic: topic@ },
        }
    }
}

pub open spec fn secret_pairs_view(v: Seq<(String, Secret)>) -> Seq<(Seq<char>, Seq<char>)> {
    v.map_values(|p: (String, Secret)| (p.0@, p.1@))
}

pub open spec fn opt_secret_view(o: Option<Secret>) -> Option<Seq<char>> {
    match o {
        Some(s) => Some(s@),
        None => None,
    }
}

impl View for Profile {
    type V = ProfileView;

    open spec fn view(&self) -> ProfileView {
        ProfileView {
            name: self.name@,
            subscription: self.subscription@,
            source: self.source@,
            sink: self.sink@,
            content_type: self.content_type@,
            body: self.body@,
            headers: secret_pairs_view(self.headers@),
            timeout_ms: self.timeout_ms,
            retries: self.retries,
            lease_ms: self.lease_ms,
            max_attempts: self.max_attempts,
            inbound_token: opt_secret_view(self.inbound_token),
        }
    }
}

impl View for Kyu {
    type V = KyuView;

    open spec fn view(&self) -> KyuView {
        KyuView { base_url: self.base_url@, token: opt_secret_view(self.token) }
    }
}

pub open spec fn profiles_view(v: Seq<Profile>) -> Seq<ProfileView> {
    v.map_values(|p: Profile| p@)
}

impl View for Config {
    type V = ConfigView;

    open spec fn view(&self) -> ConfigView {
        ConfigView {
            kyu: match self.kyu {
                Some(k) => Some(k@),
                None => None,
            },
            reporting: match self.reporting {
                Some(r) => Some(r.topic@),
                None => None,
            },
            profiles: profiles_view(self.profiles@),
        }
    }
}

// ── the retry budget ───────────────────────────────────────────────────

/// The pause before attempt `k + 2`: one second, doubling each time.
pub open spec fn pause_ms(k: nat) -> nat
    decreases k,
{
    if k == 0 {
        BACKOFF_BASE_MS as nat
    } else {
        2 * pause_ms((k - 1) as nat)
    }
}

/// All pauses of a delivery that is retried `retries` times.
pub open spec fn pauses_total(retries: nat) -> nat
    decreases retries,
{
    if retries == 0 {
        0
    } else {
        pauses_total((retries - 1) as nat) + pause_ms((retries - 1) as nat)
    }
}

/// Wall-clock a delivery may consume, worst case: every attempt burning
/// its full timeout, plus the pauses between them.
pub open spec fn retry_budget(timeout_ms: nat, retries: nat) -> nat {
    timeout_ms * (retries + 1) + pauses_total(retries)
}

pub proof fn lemma_pauses_monotone(a: nat, b: nat)
    requires
        a <= b,
    ensures
        pauses_total(a) <= pauses_total(b),
    decreases b - a,
{
    if a < b {
        lemma_pauses_monotone(a, (b - 1) as nat);
    }
}

/// The budget when it fits in a `u64`, `None` when it does not.
pub fn checked_retry_budget(timeout_ms: u64, retries: u32) -> (r: Option<u64>)
    ensures
        match r {
            Some(b) => b == retry_budget(timeout_ms as nat, retries as nat),
            None => retry_budget(timeout_ms as nat, retries as nat) > u64::MAX,
        },
{
    let attempts = match timeout_ms.checked_mul(retries as u64 + 1) {
        Some(a) => a,
        None => {
            assert(pauses_total(retries as nat) >= 0);
            return None;
        },
    };
    let mut pauses: u64 = 0;
    let mut pause: u64 = BACKOFF_BASE_MS;
    let mut i: u32 = 0;
    while i < retries
        invariant
            i <= retries,
            pauses == pauses_total(i as nat),
            i < retries ==> pause == pause_ms(i as nat),
            attempts == timeout_ms * (retries as nat + 1),
        decreases retries - i,
    {
        pauses = match pauses.checked_add(pause) {
            Some(p) => p,
            None => {
                proof {
                    lemma_pauses_monotone((i + 1) as nat, retries as nat);
                }
                return None;
            },
        };
        i = i + 1;
        if i < retries {
            pause = match pause.checked_mul(2) {
                Some(p) => p,
                None => {
                    proof {
                        lemma_pauses_monotone((i + 1) as nat, retries as nat);
                    }
                    return None;
                },
            };
        }
    }
    attempts.checked_add(pauses)
}

impl Config {
    /// How a loaded configuration describes itself: its number of
    /// profiles.
    pub fn to_string(&self) -> (r: String)
        ensures
            r@ == crate::text::decimal(self.profiles@.len()) + " profile(s)"@,
    {
        let mut m = crate::text::decimal_string(self.profiles.len() as u64);
        m.append(" profile(s)");
        m
    }
}

impl Profile {
    /// Wall-clock a delivery may consume before the ack must be in, worst
    /// case: every attempt burning its full timeout, plus the pauses
    /// between them.
    pub fn retry_budget_ms(&self) -> (r: u64)
        requires
            retry_budget(self.timeout_ms as nat, self.retries as nat) <= u64::MAX,
        ensures
            r == retry_budget(self.timeout_ms as nat, self.retries as nat),
    {
        match checked_retry_budget(self.timeout_ms, self.retries) {
            Some(b) => b,
            None => 0,
        }
    }
}

// ── the rules ──────────────────────────────────────────────────────────

/// Where the values behind `${VAR}` come from: a table of variables,
/// filled by the caller (from the process environment, or from a test's
/// own pairs), so every rule is checked without touching the process
/// environment. A later pair overrides an earlier one of the same name.
pub struct EnvLookup {
    vars: Vec<(String, String)>,
}

/// The value of `key` among `vars`: the last pair of that name.
pub open spec fn lookup_in(vars: Seq<(Seq<char>, Seq<char>)>, key: Seq<char>) -> Option<Seq<char>>
    decreases vars.len(),
{
    if vars.len() == 0 {
        None
    } else if vars.last().0 == key {
        Some(vars.last().1)
    } else {
        lookup_in(vars.drop_last(), key)
    }
}

impl View for EnvLookup {
    type V = Seq<(Seq<char>, Seq<char>)>;

    closed spec fn view(&self) -> Seq<(Seq<char>, Seq<char>)> {
        pairs_view(self.vars@)
    }
}

impl EnvLookup {
    /// The table of `vars`.
    pub fn new(vars: Vec<(String, String)>) -> (r: Self)
        ensures
            r@ == pairs_view(vars@),
    {
        EnvLookup { vars }
    }

    /// The value of `key`, if the table has it.
    pub fn get(&self, key: &str) -> (r: Option<String>)
        ensures
            match r {
                Some(v) => lookup_in(self@, key@) == Some(v@),
                None => lookup_in(self@, key@) is None,
            },
    {
        let ghost all = self@;
        let mut i: usize = self.vars.len();
        assert(all.take(i as int) =~= all);
        while i > 0
            invariant
                all == pairs_view(self.vars@),
                i <= self.vars@.len(),
                lookup_in(all, key@) == lookup_in(all.take(i as int), key@),
            decreases i,
        {
            let j = i - 1;
            assert(all.take(i as int).drop_last() =~= all.take(j as int));
            assert(all.take(i as int).last() == (self.vars@[j as int].0@, self.vars@[j as int].1@));
            if same_text(self.vars[j].0.as_str(), key) {
                return Some(self.vars[j].1.clone());
            }
            i = j;
        }
        None
    }
}

pub type Env = spec_fn(Seq<char>) -> Option<Seq<char>>;

pub open spec fn is_name_char(c: char) -> bool {
    ('a' <= c && c <= 'z') || ('0' <= c && c <= '9') || c == '.' || c == '_' || c == '-'
}

/// A name kyu accepts: lower-case letters, digits, dot, dash or
/// underscore, one to 64 of them.
pub open spec fn valid_name(s: Seq<char>) -> bool {
    0 < s.len() <= 64 && forall|i: int| 0 <= i < s.len() ==> is_name_char(#[trigger] s[i])
}

/// `${VAR}` names the variable `VAR`; anything else is a literal.
pub open spec fn env_reference(v: Seq<char>) -> Option<Seq<char>> {
    if "${"@.is_prefix_of(v) && v.len() >= 3 && v.last() == '}' {
        Some(v.subrange(2, v.len() - 1))
    } else {
        None
    }
}

/// An absolute http(s) address, longer than eight bytes.
pub open spec fn is_http_url(v: Seq<char>) -> bool {
    ("http://"@.is_prefix_of(v) || "https://"@.is_prefix_of(v)) && encode_utf8(v).len() > 8
}

/// `s` without its trailing slashes.
pub open spec fn trim_trailing_slashes(s: Seq<char>) -> Seq<char>
    decreases s.len(),
{
    if s.len() > 0 && s.last() == '/' {
        trim_trailing_slashes(s.drop_last())
    } else {
        s
    }
}

/// The paths the service answers itself.
pub open spec fn reserved_path(p: Seq<char>) -> bool {
    p == "/healthz"@ || p == "/metrics"@
}

pub open spec fn check_name_spec(file: Seq<char>, profile: Seq<char>, field: Seq<char>, value: Seq<char>) -> Option<ConfigErrorView> {
    if valid_name(value) {
        None
    } else {
        Some(ConfigErrorView::BadName { file, profile, field, value })
    }
}

pub open spec fn check_topic_spec(file: Seq<char>, profile: Seq<char>, topic: Seq<char>) -> Option<ConfigErrorView> {
    match check_name_spec(file, profile, "topic"@, topic) {
        Some(e) => Some(e),
        None => if RESERVED_TOPIC_PREFIX@.is_prefix_of(topic) {
            Some(ConfigErrorView::ReservedTopic { file, profile, topic, prefix: RESERVED_TOPIC_PREFIX@ })
        } else {
            None
        },
    }
}

pub open spec fn check_path_spec(file: Seq<char>, profile: Seq<char>, path: Seq<char>) -> Option<ConfigErrorView> {
    if !(path.len() > 0 && path[0] == '/') {
        Some(ConfigErrorView::BadPath { file, profile, path })
    } else if reserved_path(path) {
        Some(ConfigErrorView::ReservedPath { file, profile, path })
    } else {
        None
    }
}

pub open spec fn from_problem() -> Seq<char> {
    "'from' must name exactly one of http_path or kyu_topic"@
}

pub open spec fn to_problem() -> Seq<char> {
    "'to' must name exactly one of url or kyu_topic"@
}

pub open spec fn source_spec(file: Seq<char>, name: Seq<char>, from: EndpointView) -> Result<SourceView, ConfigErrorView> {
    match (from.http_path, from.kyu_topic, from.url) {
        (Some(path), None, None) => match check_path_spec(file, name, path) {
            Some(e) => Err(e),
            None => Ok(SourceView::Http { path }),
        },
        (None, Some(topic), None) => match check_topic_spec(file, name, topic) {
            Some(e) => Err(e),
            None => Ok(SourceView::Kyu { topic }),
        },
        _ => Err(ConfigErrorView::Shape { file, profile: name, problem: from_problem() }),
    }
}

pub open spec fn sink_spec(file: Seq<char>, name: Seq<char>, to: EndpointView, method: Option<Seq<char>>) -> Result<SinkView, ConfigErrorView> {
    match (to.url, to.kyu_topic, to.http_path) {
        (Some(url), None, None) => if !is_http_url(url) {
            Err(ConfigErrorView::BadSinkUrl { file, profile: name, url })
        } else {
            Ok(SinkView::Url { url, method: match method { Some(m) => m, None => "POST"@ } })
        },
        (None, Some(topic), None) => match check_topic_spec(file, name, topic) {
            Some(e) => Err(e),
            None => if method is Some {
                Err(ConfigErrorView::MethodOnKyuSink { file, profile: name })
            } else {
                Ok(SinkView::Kyu { topic })
            },
        },
        _ => Err(ConfigErrorView::Shape { file, profile: name, problem: to_problem() }),
    }
}

/// A value, with a `${VAR}` reference replaced by the variable's value.
pub open spec fn resolve_spec(file: Seq<char>, location: Seq<char>, value: Seq<char>, env: Env) -> Result<Seq<char>, ConfigErrorView> {
    match env_reference(value) {
        None => Ok(value),
        Some(var) => match env(var) {
            Some(v) => Ok(v),
            None => Err(ConfigErrorView::MissingEnv { file, location, var }),
        },
    }
}

/// Every header value resolved, the first missing variable deciding the
/// error.
pub open spec fn resolve_headers_spec(file: Seq<char>, location: Seq<char>, hs: Seq<(Seq<char>, Seq<char>)>, env: Env) -> Result<Seq<(Seq<char>, Seq<char>)>, ConfigErrorView>
    decreases hs.len(),
{
    if hs.len() == 0 {
        Ok(Seq::empty())
    } else {
        match resolve_headers_spec(file, location, hs.drop_last(), env) {
            Err(e) => Err(e),
            Ok(done) => match resolve_spec(file, location, hs.last().1, env) {
                Err(e) => Err(e),
                Ok(v) => Ok(done.push((hs.last().0, v))),
            },
        }
    }
}

pub open spec fn profile_location(name: Seq<char>) -> Seq<char> {
    ", profile '"@ + name + "'"@
}

pub open spec fn or_default_u64(o: Option<int>, d: u64) -> u64 {
    match o {
        Some(v) => v as u64,
        None => d,
    }
}

pub open spec fn or_default_u32(o: Option<int>, d: u32) -> u32 {
    match o {
        Some(v) => v as u32,
        None => d,
    }
}

/// What the lease check reports as needed: the budget plus the margin,
/// saturated at `u64::MAX`.
pub open spec fn needed_ms(p: ProfileView) -> int {
    let n = retry_budget(p.timeout_ms as nat, p.retries as nat) + LEASE_MARGIN_MS;
    if n <= u64::MAX { n } else { u64::MAX as int }
}

/// The last checks of a profile, once its endpoints are known.
pub open spec fn finish_profile_spec(file: Seq<char>, rp: RawProfileView, source: SourceView, sink: SinkView, kyu_present: bool, reporting: Option<Seq<char>>, env: Env) -> Result<ProfileView, ConfigErrorView> {
    let name = rp.name;
    let touches_kyu = source is Kyu || sink is Kyu;
    if touches_kyu && !kyu_present {
        Err(ConfigErrorView::MissingKyuSection { file, profile: name })
    } else if source is Kyu && reporting is Some && source->Kyu_topic == reporting->0 {
        Err(ConfigErrorView::SelfReportLoop { file, profile: name, topic: source->Kyu_topic })
    } else if rp.content_type is None {
        Err(ConfigErrorView::MissingContentType { file, profile: name })
    } else if rp.inbound_token is Some && source is Kyu {
        Err(ConfigErrorView::InboundTokenOnKyuSource { file, profile: name })
    } else {
        let token = match rp.inbound_token {
            Some(t) => match resolve_spec(file, profile_location(name), t, env) {
                Ok(v) => Ok(Some(v)),
                Err(e) => Err(e),
            },
            None => Ok(None),
        };
        match token {
            Err(e) => Err(e),
            Ok(inbound_token) => match resolve_headers_spec(file, profile_location(name), rp.headers, env) {
                Err(e) => Err(e),
                Ok(headers) => {
                    let p = ProfileView {
                        name,
                        subscription: match rp.subscription { Some(s) => s, None => name },
                        source,
                        sink,
                        content_type: rp.content_type->0,
                        body: rp.body,
                        headers,
                        timeout_ms: or_default_u64(rp.timeout_ms, DEFAULT_TIMEOUT_MS),
                        retries: or_default_u32(rp.retries, DEFAULT_RETRIES),
                        lease_ms: or_default_u64(rp.lease_ms, DEFAULT_LEASE_MS),
                        max_attempts: or_default_u32(rp.max_attempts, DEFAULT_MAX_ATTEMPTS),
                        inbound_token,
                    };
                    if source is Kyu && needed_ms(p) > p.lease_ms {
                        Err(ConfigErrorView::LeaseBudget { file, profile: name, needed_ms: needed_ms(p) as u64, lease_ms: p.lease_ms })
                    } else {
                        Ok(p)
                    }
                },
            },
        }
    }
}

/// One profile checked against every rule, in the order the rules are
/// applied; the first one that fails decides the error.
pub open spec fn profile_spec(file: Seq<char>, rp: RawProfileView, kyu_present: bool, reporting: Option<Seq<char>>, env: Env) -> Result<ProfileView, ConfigErrorView> {
    let name = rp.name;
    let subscription = match rp.subscription { Some(s) => s, None => name };
    match check_name_spec(file, name, "name"@, name) {
        Some(e) => Err(e),
        None => match check_name_spec(file, name, "subscription"@, subscription) {
            Some(e) => Err(e),
            None => match source_spec(file, name, rp.from) {
                Err(e) => Err(e),
                Ok(source) => match sink_spec(file, name, rp.to, rp.method) {
                    Err(e) => Err(e),
                    Ok(sink) => finish_profile_spec(file, rp, source, sink, kyu_present, reporting, env),
                },
            },
        },
    }
}

/// Two profiles behind one inbound path that expect different tokens.
pub open spec fn doors_disagree(a: ProfileView, b: ProfileView) -> bool {
    a.source is Http && b.source is Http && a.source->Http_path == b.source->Http_path
        && a.inbound_token != b.inbound_token
}

/// The first earlier profile, from `from` on, whose door `p` contradicts.
pub open spec fn door_conflict(ps: Seq<ProfileView>, p: ProfileView, from: int) -> Option<int>
    decreases ps.len() - from,
{
    if from < 0 || from >= ps.len() {
        None
    } else if doors_disagree(ps[from], p) {
        Some(from)
    } else {
        door_conflict(ps, p, from + 1)
    }
}

pub proof fn lemma_door_conflict(ps: Seq<ProfileView>, p: ProfileView, from: int)
    ensures
        door_conflict(ps, p, from) matches Some(j) ==> 0 <= j < ps.len() && doors_disagree(ps[j], p),
    decreases ps.len() - from,
{
    if 0 <= from < ps.len() && !doors_disagree(ps[from], p) {
        lemma_door_conflict(ps, p, from + 1);
    }
}

/// All profiles, in order; a name used twice is refused at its second use,
/// and so is a profile whose path another profile guards with a different
/// token: one path is one door.
pub open spec fn profiles_spec(file: Seq<char>, raws: Seq<RawProfileView>, kyu_present: bool, reporting: Option<Seq<char>>, env: Env) -> Result<Seq<ProfileView>, ConfigErrorView>
    decreases raws.len(),
{
    if raws.len() == 0 {
        Ok(Seq::empty())
    } else {
        match profiles_spec(file, raws.drop_last(), kyu_present, reporting, env) {
            Err(e) => Err(e),
            Ok(ps) => match profile_spec(file, raws.last(), kyu_present, reporting, env) {
                Err(e) => Err(e),
                Ok(p) => if exists|i: int| 0 <= i < ps.len() && #[trigger] ps[i].name == p.name {
                    Err(ConfigErrorView::DuplicateProfile { file, name: p.name })
                } else {
                    match door_conflict(ps, p, 0) {
                        Some(j) => Err(ConfigErrorView::PathTokenMismatch {
                            file,
                            path: p.source->Http_path,
                            first: ps[j].name,
                            second: p.name,
                        }),
                        None => Ok(ps.push(p)),
                    }
                },
            },
        }
    }
}

pub open spec fn kyu_spec(file: Seq<char>, k: Option<RawKyuView>, env: Env) -> Result<Option<KyuView>, ConfigErrorView> {
    match k {
        None => Ok(None),
        Some(k) => if !is_http_url(k.base_url) {
            Err(ConfigErrorView::BadKyuUrl { file, value: k.base_url })
        } else {
            match k.token {
                None => Ok(Some(KyuView { base_url: trim_trailing_slashes(k.base_url), token: None })),
                Some(t) => match resolve_spec(file, Seq::empty(), t, env) {
                    Err(e) => Err(e),
                    Ok(v) => Ok(Some(KyuView { base_url: trim_trailing_slashes(k.base_url), token: Some(v) })),
                },
            }
        },
    }
}

/// The file as written, checked against every rule.
pub open spec fn validate_spec(file: Seq<char>, raw: RawConfigView, env: Env) -> Result<ConfigView, ConfigErrorView> {
    if raw.profiles.len() == 0 {
        Err(ConfigErrorView::NoProfiles { file })
    } else {
        match kyu_spec(file, raw.kyu, env) {
            Err(e) => Err(e),
            Ok(kyu) => match profiles_spec(file, raw.profiles, kyu is Some, raw.reporting, env) {
                Err(e) => Err(e),
                Ok(profiles) => Ok(ConfigView { kyu, reporting: raw.reporting, profiles }),
            },
        }
    }
}

/// What loading `text` gives: the TOML as the `toml` crate reads it, the
/// keys as the schema allows them, then the rules.
pub open spec fn load_spec(file: Seq<char>, text: Seq<char>, env: Env) -> Result<ConfigView, ConfigErrorView> {
    match toml_document(text) {
        Err(e) => Err(ConfigErrorView::Parse { file, detail: e@ }),
        Ok(t) => document_spec(file, t@, env),
    }
}

/// What a parsed TOML document gives: the keys as the schema allows them,
/// then the rules.
pub open spec fn document_spec(file: Seq<char>, t: Seq<(String, TomlValue)>, env: Env) -> Result<ConfigView, ConfigErrorView> {
    match decode_config(t) {
        Err(d) => Err(ConfigErrorView::Parse { file, detail: d }),
        Ok(raw) => validate_spec(file, raw, env),
    }
}

// ── what a loaded configuration guarantees ─────────────────────────────

/// A topic this service may read or write: a name kyu accepts, outside
/// the space kyu reserves for itself.
pub open spec fn usable_topic(t: Seq<char>) -> bool {
    valid_name(t) && !RESERVED_TOPIC_PREFIX@.is_prefix_of(t)
}

/// One profile as the rules leave it.
pub open spec fn profile_keeps_rules(p: ProfileView, kyu_present: bool, reporting: Option<Seq<char>>) -> bool {
    &&& valid_name(p.name)
    &&& valid_name(p.subscription)
    &&& match p.source {
        SourceView::Http { path } => path.len() > 0 && path[0] == '/' && !reserved_path(path),
        SourceView::Kyu { topic } => {
            &&& usable_topic(topic)
            &&& kyu_present
            &&& reporting != Some(topic)
            &&& p.inbound_token is None
            &&& needed_ms(p) <= p.lease_ms
        },
    }
    &&& match p.sink {
        SinkView::Url { url, .. } => is_http_url(url),
        SinkView::Kyu { topic } => usable_topic(topic) && kyu_present,
    }
}

/// What every profile list that passed the rules satisfies.
pub open spec fn profiles_keep_rules(ps: Seq<ProfileView>, kyu_present: bool, reporting: Option<Seq<char>>) -> bool {
    &&& forall|i: int| 0 <= i < ps.len() ==> profile_keeps_rules(#[trigger] ps[i], kyu_present, reporting)
    &&& forall|i: int, j: int| 0 <= i < j < ps.len() ==> #[trigger] ps[i].name != #[trigger] ps[j].name
    &&& forall|i: int, j: int| 0 <= i < ps.len() && 0 <= j < ps.len() ==> !doors_disagree(#[trigger] ps[i], #[trigger] ps[j])
}

/// What every configuration that loads satisfies.
pub open spec fn config_keeps_rules(c: ConfigView) -> bool {
    &&& c.profiles.len() > 0
    &&& profiles_keep_rules(c.profiles, c.kyu is Some, c.reporting)
}

/// `v` names a variable: it is `${`, the variable's name, then `}`.
pub open spec fn names_variable(v: Seq<char>) -> bool {
    v.len() >= 3 && v[0] == '$' && v[1] == '{' && v[v.len() - 1] == '}'
}

/// What a configured value becomes once loaded: the value of the variable
/// it names, or the value itself when it names none.
pub open spec fn loaded_value(v: Seq<char>, env: Env) -> Seq<char> {
    if names_variable(v) {
        env(v.subrange(2, v.len() - 1))->Some_0
    } else {
        v
    }
}

proof fn lemma_reference_syntax(v: Seq<char>)
    ensures
        env_reference(v) is Some <==> names_variable(v),
        names_variable(v) ==> env_reference(v) == Some(v.subrange(2, v.len() - 1)),
{
    reveal_strlit("${");
    if names_variable(v) {
        assert(v.subrange(0, 2) =~= "${"@);
    }
    if "${"@.is_prefix_of(v) {
        assert(v[0] == "${"@[0] && v[1] == "${"@[1]);
    }
}

proof fn lemma_resolved_value(file: Seq<char>, location: Seq<char>, v: Seq<char>, env: Env)
    requires
        resolve_spec(file, location, v, env) is Ok,
    ensures
        resolve_spec(file, location, v, env)->Ok_0 == loaded_value(v, env),
        names_variable(v) ==> env(v.subrange(2, v.len() - 1)) is Some,
{
    lemma_reference_syntax(v);
}

proof fn lemma_resolved_headers(file: Seq<char>, location: Seq<char>, hs: Seq<(Seq<char>, Seq<char>)>, env: Env)
    requires
        resolve_headers_spec(file, location, hs, env) is Ok,
    ensures
        resolve_headers_spec(file, location, hs, env)->Ok_0.len() == hs.len(),
        forall|i: int| 0 <= i < hs.len() ==> (#[trigger] resolve_headers_spec(file, location, hs, env)->Ok_0[i]).0 == hs[i].0
            && resolve_headers_spec(file, location, hs, env)->Ok_0[i].1 == loaded_value(hs[i].1, env),
    decreases hs.len(),
{
    if hs.len() > 0 {
        lemma_resolved_headers(file, location, hs.drop_last(), env);
        lemma_resolved_value(file, location, hs.last().1, env);
        let done = resolve_headers_spec(file, location, hs.drop_last(), env)->Ok_0;
        let all = resolve_headers_spec(file, location, hs, env)->Ok_0;
        assert forall|i: int| 0 <= i < hs.len() implies (#[trigger] all[i]).0 == hs[i].0 && all[i].1 == loaded_value(hs[i].1, env) by {
            if i < hs.len() - 1 {
                assert(all[i] == done[i]);
                assert(hs.drop_last()[i] == hs[i]);
            }
        }
    }
}

/// The headers and the inbound token of a loaded profile are the ones the
/// file configures, in its order, with every `${VAR}` replaced by the
/// variable's value from the environment (which then is set) and every
/// other value kept as written.
pub proof fn lemma_configured_values_are_resolved(file: Seq<char>, rp: RawProfileView, kyu_present: bool, reporting: Option<Seq<char>>, env: Env)
    requires
        profile_spec(file, rp, kyu_present, reporting, env) is Ok,
    ensures
        ({
            let p = profile_spec(file, rp, kyu_present, reporting, env)->Ok_0;
            &&& p.headers.len() == rp.headers.len()
            &&& forall|i: int| 0 <= i < rp.headers.len() ==> (#[trigger] p.headers[i]).0 == rp.headers[i].0
                && p.headers[i].1 == loaded_value(rp.headers[i].1, env)
                && (names_variable(rp.headers[i].1) ==> env(rp.headers[i].1.subrange(2, rp.headers[i].1.len() - 1)) is Some)
            &&& p.inbound_token == (match rp.inbound_token {
                Some(t) => Some(loaded_value(t, env)),
                None => None,
            })
        }),
{
    let location = profile_location(rp.name);
    if let Some(t) = rp.inbound_token {
        if resolve_spec(file, location, t, env) is Ok {
            lemma_resolved_value(file, location, t, env);
        }
    }
    if resolve_headers_spec(file, location, rp.headers, env) is Ok {
        lemma_resolved_headers(file, location, rp.headers, env);
        let hs = resolve_headers_spec(file, location, rp.headers, env)->Ok_0;
        assert forall|i: int| 0 <= i < rp.headers.len() implies names_variable(rp.headers[i].1) ==> env(rp.headers[i].1.subrange(2, rp.headers[i].1.len() - 1)) is Some by {
            lemma_headers_set(file, location, rp.headers, env, i);
        }
    }
}

proof fn lemma_headers_set(file: Seq<char>, location: Seq<char>, hs: Seq<(Seq<char>, Seq<char>)>, env: Env, i: int)
    requires
        resolve_headers_spec(file, location, hs, env) is Ok,
        0 <= i < hs.len(),
    ensures
        names_variable(hs[i].1) ==> env(hs[i].1.subrange(2, hs[i].1.len() - 1)) is Some,
    decreases hs.len(),
{
    if i == hs.len() - 1 {
        lemma_resolved_value(file, location, hs.last().1, env);
    } else {
        assert(hs.drop_last()[i] == hs[i]);
        lemma_headers_set(file, location, hs.drop_last(), env, i);
    }
}

/// A profile that passes the checks keeps every rule, and takes its
/// numbers from the file or from the documented defaults: the
/// subscription defaults to the name, a timeout to 10 s, retries to 2, the
/// lease to 60 s, the hub's attempts to 5, a URL destination's method to
/// POST; name, body and content type are the file's own.
pub proof fn lemma_profile_keeps_rules(file: Seq<char>, rp: RawProfileView, kyu_present: bool, reporting: Option<Seq<char>>, env: Env)
    requires
        profile_spec(file, rp, kyu_present, reporting, env) is Ok,
    ensures
        ({
            let p = profile_spec(file, rp, kyu_present, reporting, env)->Ok_0;
            &&& profile_keeps_rules(p, kyu_present, reporting)
            &&& p.name == rp.name
            &&& p.subscription == (match rp.subscription { Some(s) => s, None => rp.name })
            &&& p.timeout_ms == or_default_u64(rp.timeout_ms, DEFAULT_TIMEOUT_MS)
            &&& p.retries == or_default_u32(rp.retries, DEFAULT_RETRIES)
            &&& p.lease_ms == or_default_u64(rp.lease_ms, DEFAULT_LEASE_MS)
            &&& p.max_attempts == or_default_u32(rp.max_attempts, DEFAULT_MAX_ATTEMPTS)
            &&& p.body == rp.body
            &&& rp.content_type == Some(p.content_type)
            &&& (p.sink matches SinkView::Url { method, .. } ==> method == (match rp.method { Some(m) => m, None => "POST"@ }))
        }),
{
}

proof fn lemma_no_door_conflict(ps: Seq<ProfileView>, p: ProfileView, from: int)
    requires
        0 <= from,
        door_conflict(ps, p, from) is None,
    ensures
        forall|j: int| from <= j < ps.len() ==> !doors_disagree(#[trigger] ps[j], p),
    decreases ps.len() - from,
{
    if from < ps.len() {
        lemma_no_door_conflict(ps, p, from + 1);
    }
}

proof fn lemma_profiles_keep_rules(file: Seq<char>, raws: Seq<RawProfileView>, kyu_present: bool, reporting: Option<Seq<char>>, env: Env)
    requires
        profiles_spec(file, raws, kyu_present, reporting, env) is Ok,
    ensures
        profiles_keep_rules(profiles_spec(file, raws, kyu_present, reporting, env)->Ok_0, kyu_present, reporting),
        profiles_spec(file, raws, kyu_present, reporting, env)->Ok_0.len() == raws.len(),
    decreases raws.len(),
{
    if raws.len() > 0 {
        lemma_profiles_keep_rules(file, raws.drop_last(), kyu_present, reporting, env);
        let ps = profiles_spec(file, raws.drop_last(), kyu_present, reporting, env)->Ok_0;
        let p = profile_spec(file, raws.last(), kyu_present, reporting, env)->Ok_0;
        lemma_profile_keeps_rules(file, raws.last(), kyu_present, reporting, env);
        lemma_no_door_conflict(ps, p, 0);
        let all = ps.push(p);
        assert(all == profiles_spec(file, raws, kyu_present, reporting, env)->Ok_0);
        assert forall|i: int| 0 <= i < all.len() implies profile_keeps_rules(#[trigger] all[i], kyu_present, reporting) by {
            if i < ps.len() {
                assert(all[i] == ps[i]);
            }
        }
        assert forall|i: int, j: int| 0 <= i < j < all.len() implies #[trigger] all[i].name != #[trigger] all[j].name by {
            if j < ps.len() {
                assert(all[i] == ps[i] && all[j] == ps[j]);
            } else {
                assert(all[i] == ps[i]);
            }
        }
        assert forall|i: int, j: int| 0 <= i < all.len() && 0 <= j < all.len() implies !doors_disagree(#[trigger] all[i], #[trigger] all[j]) by {
            if i < ps.len() && j < ps.len() {
                assert(all[i] == ps[i] && all[j] == ps[j]);
            } else if i < ps.len() {
                assert(all[i] == ps[i]);
            } else if j < ps.len() {
                assert(all[j] == ps[j]);
                assert(!doors_disagree(ps[j], p));
            }
        }
    }
}

/// Every configuration that loads keeps every rule: at least one profile;
/// names and subscriptions kyu accepts, no name twice; inbound paths
/// absolute and clear of the service's own endpoints; topics outside
/// kyu's reserved space; kyu endpoints only with a `[kyu]` section; no
/// profile reading its own failure events or guarding a kyu source with a
/// token; a retry budget that fits the lease; http destinations; and one
/// token per inbound path.
pub proof fn lemma_loaded_config_keeps_rules(file: Seq<char>, text: Seq<char>, env: Env)
    requires
        load_spec(file, text, env) is Ok,
    ensures
        config_keeps_rules(load_spec(file, text, env)->Ok_0),
{
    let t = toml_document(text)->Ok_0;
    let raw = decode_config(t@)->Ok_0;
    let kyu = kyu_spec(file, raw.kyu, env)->Ok_0;
    lemma_profiles_keep_rules(file, raw.profiles, kyu is Some, raw.reporting, env);
}

// ── a refusal does not depend on the values of variables ──────────────

/// Two environments that define the same variables, whatever their values.
pub open spec fn same_variables(a: Env, b: Env) -> bool {
    forall|k: Seq<char>| (#[trigger] a(k)) is Some <==> b(k) is Some
}

/// Two results that fail alike: both fail with the same error, or neither
/// fails.
pub open spec fn fail_alike<T>(r1: Result<T, ConfigErrorView>, r2: Result<T, ConfigErrorView>) -> bool {
    &&& r1 is Err <==> r2 is Err
    &&& r1 is Err ==> r1->Err_0 == r2->Err_0
}

pub open spec fn is_door_refusal<T>(r: Result<T, ConfigErrorView>) -> bool {
    r is Err && r->Err_0 is PathTokenMismatch
}

proof fn lemma_resolve_alike(file: Seq<char>, location: Seq<char>, value: Seq<char>, a: Env, b: Env)
    requires
        same_variables(a, b),
    ensures
        fail_alike(resolve_spec(file, location, value, a), resolve_spec(file, location, value, b)),
{
    if let Some(var) = env_reference(value) {
        assert(a(var) is Some <==> b(var) is Some);
    }
}

proof fn lemma_headers_alike(file: Seq<char>, location: Seq<char>, hs: Seq<(Seq<char>, Seq<char>)>, a: Env, b: Env)
    requires
        same_variables(a, b),
    ensures
        fail_alike(resolve_headers_spec(file, location, hs, a), resolve_headers_spec(file, location, hs, b)),
    decreases hs.len(),
{
    if hs.len() > 0 {
        lemma_headers_alike(file, location, hs.drop_last(), a, b);
        lemma_resolve_alike(file, location, hs.last().1, a, b);
    }
}

proof fn lemma_profile_alike(file: Seq<char>, rp: RawProfileView, kyu_present: bool, reporting: Option<Seq<char>>, a: Env, b: Env)
    requires
        same_variables(a, b),
    ensures
        fail_alike(profile_spec(file, rp, kyu_present, reporting, a), profile_spec(file, rp, kyu_present, reporting, b)),
        profile_spec(file, rp, kyu_present, reporting, a) is Ok ==> {
            let p1 = profile_spec(file, rp, kyu_present, reporting, a)->Ok_0;
            let p2 = profile_spec(file, rp, kyu_present, reporting, b)->Ok_0;
            p1.name == p2.name && p1.source == p2.source
        },
{
    let name = rp.name;
    if let Some(t) = rp.inbound_token {
        lemma_resolve_alike(file, profile_location(name), t, a, b);
    }
    lemma_headers_alike(file, profile_location(name), rp.headers, a, b);
}

proof fn lemma_profiles_alike(file: Seq<char>, raws: Seq<RawProfileView>, kyu_present: bool, reporting: Option<Seq<char>>, a: Env, b: Env)
    requires
        same_variables(a, b),
        !is_door_refusal(profiles_spec(file, raws, kyu_present, reporting, a)),
        !is_door_refusal(profiles_spec(file, raws, kyu_present, reporting, b)),
    ensures
        fail_alike(profiles_spec(file, raws, kyu_present, reporting, a), profiles_spec(file, raws, kyu_present, reporting, b)),
        profiles_spec(file, raws, kyu_present, reporting, a) is Ok ==> {
            let ps1 = profiles_spec(file, raws, kyu_present, reporting, a)->Ok_0;
            let ps2 = profiles_spec(file, raws, kyu_present, reporting, b)->Ok_0;
            &&& ps1.len() == ps2.len()
            &&& forall|i: int| 0 <= i < ps1.len() ==> (#[trigger] ps1[i]).name == ps2[i].name && ps1[i].source == ps2[i].source
        },
    decreases raws.len(),
{
    if raws.len() > 0 {
        let prev = raws.drop_last();
        let r1 = profiles_spec(file, prev, kyu_present, reporting, a);
        let r2 = profiles_spec(file, prev, kyu_present, reporting, b);
        lemma_profiles_alike(file, prev, kyu_present, reporting, a, b);
        if r1 is Ok {
            let ps1 = r1->Ok_0;
            let ps2 = r2->Ok_0;
            lemma_profile_alike(file, raws.last(), kyu_present, reporting, a, b);
            let q1 = profile_spec(file, raws.last(), kyu_present, reporting, a);
            let q2 = profile_spec(file, raws.last(), kyu_present, reporting, b);
            if q1 is Ok {
                let p1 = q1->Ok_0;
                let p2 = q2->Ok_0;
                let d1 = exists|i: int| 0 <= i < ps1.len() && #[trigger] ps1[i].name == p1.name;
                let d2 = exists|i: int| 0 <= i < ps2.len() && #[trigger] ps2[i].name == p2.name;
                if d1 {
                    let i = choose|i: int| 0 <= i < ps1.len() && #[trigger] ps1[i].name == p1.name;
                    assert(ps2[i].name == p2.name);
                }
                if d2 {
                    let i = choose|i: int| 0 <= i < ps2.len() && #[trigger] ps2[i].name == p2.name;
                    assert(ps1[i].name == p1.name);
                }
                if !d1 {
                    let all1 = ps1.push(p1);
                    let all2 = ps2.push(p2);
                    assert forall|i: int| 0 <= i < all1.len() implies (#[trigger] all1[i]).name == all2[i].name && all1[i].source == all2[i].source by {
                        if i < ps1.len() {
                            assert(all1[i] == ps1[i] && all2[i] == ps2[i]);
                        }
                    }
                }
            }
        }
    }
}

/// A refused configuration is refused alike whatever values its variables
/// hold: under an environment that defines the same variables, loading
/// gives the very same error. So no error can carry a variable's value.
/// Refusing two profiles on one path for expecting different tokens
/// compares the tokens themselves, so that refusal is left out on both
/// sides.
pub proof fn lemma_refusal_ignores_variable_values(file: Seq<char>, text: Seq<char>, a: Env, b: Env)
    requires
        same_variables(a, b),
        load_spec(file, text, a) is Err,
        !is_door_refusal(load_spec(file, text, a)),
        !is_door_refusal(load_spec(file, text, b)),
    ensures
        load_spec(file, text, b) == load_spec(file, text, a),
{
    if let Ok(t) = toml_document(text) {
        if let Ok(raw) = decode_config(t@) {
            if raw.profiles.len() > 0 {
                let ka = kyu_spec(file, raw.kyu, a);
                if let Some(k) = raw.kyu {
                    if let Some(tok) = k.token {
                        lemma_resolve_alike(file, Seq::empty(), tok, a, b);
                    }
                }
                if ka is Ok {
                    lemma_profiles_alike(file, raw.profiles, ka->Ok_0 is Some, raw.reporting, a, b);
                }
            }
        }
    }
}

// ── executable checks ──────────────────────────────────────────────────

/// The lookup of an environment, as a function.
pub open spec fn env_of(env: &EnvLookup) -> Env {
    |k: Seq<char>| lookup_in(env@, k)
}

fn is_name_char_exec(c: char) -> (r: bool)
    ensures
        r == is_name_char(c),
{
    ('a' <= c && c <= 'z') || ('0' <= c && c <= '9') || c == '.' || c == '_' || c == '-'
}

fn valid_name_exec(value: &str) -> (r: bool)
    ensures
        r == valid_name(value@),
{
    let cs = chars_of(value);
    if cs.len() == 0 || cs.len() > 64 {
        return false;
    }
    let mut i: usize = 0;
    while i < cs.len()
        invariant
            cs@ == value@,
            i <= cs@.len(),
            forall|j: int| 0 <= j < i ==> is_name_char(#[trigger] cs@[j]),
        decreases cs.len() - i,
    {
        if !is_name_char_exec(cs[i]) {
            return false;
        }
        i = i + 1;
    }
    true
}

fn check_name(file: &str, profile: &str, field: &str, value: &str) -> (r: Result<(), ConfigError>)
    ensures
        match r {
            Ok(()) => check_name_spec(file@, profile@, field@, value@) is None,
            Err(e) => check_name_spec(file@, profile@, field@, value@) == Some(e@),
        },
{
    if valid_name_exec(value) {
        Ok(())
    } else {
        Err(
            ConfigError::BadName {
                file: file.to_owned(),
                profile: profile.to_owned(),
                field: field.to_owned(),
                value: value.to_owned(),
            },
        )
    }
}

fn check_topic(file: &str, profile: &str, topic: &str) -> (r: Result<(), ConfigError>)
    ensures
        match r {
            Ok(()) => check_topic_spec(file@, profile@, topic@) is None,
            Err(e) => check_topic_spec(file@, profile@, topic@) == Some(e@),
        },
{
    check_name(file, profile, "topic", topic)?;
    if starts_with(&chars_of(topic), &chars_of(RESERVED_TOPIC_PREFIX)) {
        return Err(
            ConfigError::ReservedTopic {
                file: file.to_owned(),
                profile: profile.to_owned(),
                topic: topic.to_owned(),
                prefix: RESERVED_TOPIC_PREFIX.to_owned(),
            },
        );
    }
    Ok(())
}

fn check_path(file: &str, profile: &str, path: &str) -> (r: Result<(), ConfigError>)
    ensures
        match r {
            Ok(()) => check_path_spec(file@, profile@, path@) is None,
            Err(e) => check_path_spec(file@, profile@, path@) == Some(e@),
        },
{
    let cs = chars_of(path);
    if !(cs.len() > 0 && cs[0] == '/') {
        return Err(
            ConfigError::BadPath {
                file: file.to_owned(),
                profile: profile.to_owned(),
                path: path.to_owned(),
            },
        );
    }
    if same_text(path, "/healthz") || same_text(path, "/metrics") {
        return Err(
            ConfigError::ReservedPath {
                file: file.to_owned(),
                profile: profile.to_owned(),
                path: path.to_owned(),
            },
        );
    }
    Ok(())
}

/// Whether `value` is an absolute http(s) address.
pub fn is_http_url_exec(value: &str) -> (r: bool)
    ensures
        r == is_http_url(value@),
{
    let cs = chars_of(value);
    (starts_with(&cs, &chars_of("http://")) || starts_with(&cs, &chars_of("https://")))
        && value.as_bytes().len() > 8
}

fn env_var_name(value: &str) -> (r: Option<String>)
    ensures
        opt_view(r) == env_reference(value@),
{
    let cs = chars_of(value);
    if starts_with(&cs, &chars_of("${")) && cs.len() >= 3 && cs[cs.len() - 1] == '}' {
        Some(string_of(&sub_chars(&cs, 2, cs.len() - 1)))
    } else {
        None
    }
}

fn trim_slashes(value: &str) -> (r: String)
    ensures
        r@ == trim_trailing_slashes(value@),
{
    let cs = chars_of(value);
    let mut n: usize = cs.len();
    assert(cs@.subrange(0, n as int) =~= cs@);
    while n > 0 && cs[n - 1] == '/'
        invariant
            cs@ == value@,
            n <= cs@.len(),
            trim_trailing_slashes(value@) == trim_trailing_slashes(cs@.subrange(0, n as int)),
        decreases n,
    {
        assert(cs@.subrange(0, n as int).drop_last() =~= cs@.subrange(0, n - 1));
        n = n - 1;
    }
    string_of(&sub_chars(&cs, 0, n))
}

fn resolve(file: &str, location: &str, value: &str, env: &EnvLookup) -> (r: Result<
    Secret,
    ConfigError,
>)
    ensures
        match r {
            Ok(s) => resolve_spec(file@, location@, value@, env_of(env)) == Ok::<_, ConfigErrorView>(s@),
            Err(e) => resolve_spec(file@, location@, value@, env_of(env)) == Err::<Seq<char>, _>(e@),
        },
{
    match env_var_name(value) {
        None => Ok(Secret::new(value)),
        Some(var) => match env.get(var.as_str()) {
            Some(v) => Ok(Secret::new(v.as_str())),
            None => Err(
                ConfigError::MissingEnv {
                    file: file.to_owned(),
                    location: location.to_owned(),
                    var,
                },
            ),
        },
    }
}

proof fn lemma_headers_error_sticks(file: Seq<char>, location: Seq<char>, hs: Seq<(Seq<char>, Seq<char>)>, env: Env, n: int)
    requires
        0 < n <= hs.len(),
        resolve_headers_spec(file, location, hs.take(n), env) is Err,
    ensures
        resolve_headers_spec(file, location, hs, env) == resolve_headers_spec(file, location, hs.take(n), env),
    decreases hs.len() - n,
{
    if n < hs.len() {
        assert(hs.take(n + 1).drop_last() =~= hs.take(n));
        lemma_headers_error_sticks(file, location, hs, env, n + 1);
    } else {
        assert(hs.take(n) =~= hs);
    }
}

fn resolve_headers(file: &str, location: &str, hs: &Vec<(String, String)>, env: &EnvLookup) -> (r: Result<Vec<(String, Secret)>, ConfigError>)
    ensures
        match r {
            Ok(v) => resolve_headers_spec(file@, location@, pairs_view(hs@), env_of(env)) == Ok::<_, ConfigErrorView>(secret_pairs_view(v@)),
            Err(e) => resolve_headers_spec(file@, location@, pairs_view(hs@), env_of(env)) == Err::<Seq<(Seq<char>, Seq<char>)>, _>(e@),
        },
{
    let ghost all = pairs_view(hs@);
    let mut out: Vec<(String, Secret)> = Vec::new();
    let mut i: usize = 0;
    assert(all.take(0) =~= Seq::<(Seq<char>, Seq<char>)>::empty());
    assert(secret_pairs_view(out@) =~= Seq::<(Seq<char>, Seq<char>)>::empty());
    while i < hs.len()
        invariant
            all == pairs_view(hs@),
            i <= hs@.len(),
            resolve_headers_spec(file@, location@, all.take(i as int), env_of(env)) == Ok::<_, ConfigErrorView>(secret_pairs_view(out@)),
        decreases hs.len() - i,
    {
        assert(all.take(i + 1).drop_last() =~= all.take(i as int));
        assert(all.take(i + 1).last() == (hs@[i as int].0@, hs@[i as int].1@));
        match resolve(file, location, hs[i].1.as_str(), env) {
            Ok(v) => {
                let ghost before = out@;
                out.push((hs[i].0.clone(), v));
                assert(out@.drop_last() =~= before);
                assert(secret_pairs_view(out@) =~= secret_pairs_view(before).push((hs@[i as int].0@, v@)));
            },
            Err(e) => {
                proof {
                    lemma_headers_error_sticks(file@, location@, all, env_of(env), (i + 1) as int);
                }
                return Err(e);
            },
        }
        i = i + 1;
    }
    assert(all.take(hs@.len() as int) =~= all);
    Ok(out)
}

fn source_of(file: &str, name: &str, from: &RawEndpoint) -> (r: Result<Source, ConfigError>)
    ensures
        match r {
            Ok(s) => source_spec(file@, name@, from@) == Ok::<_, ConfigErrorView>(s@),
            Err(e) => source_spec(file@, name@, from@) == Err::<SourceView, _>(e@),
        },
{
    match (&from.http_path, &from.kyu_topic, &from.url) {
        (Some(path), None, None) => {
            check_path(file, name, path.as_str())?;
            Ok(Source::Http { path: path.clone() })
        },
        (None, Some(topic), None) => {
            check_topic(file, name, topic.as_str())?;
            Ok(Source::Kyu { topic: topic.clone() })
        },
        _ => Err(
            ConfigError::Shape {
                file: file.to_owned(),
                profile: name.to_owned(),
                problem: String::from_str("'from' must name exactly one of http_path or kyu_topic"),
            },
        ),
    }
}

fn sink_of(file: &str, name: &str, to: &RawEndpoint, method: &Option<String>) -> (r: Result<Sink, ConfigError>)
    ensures
        match r {
            Ok(s) => sink_spec(file@, name@, to@, opt_view(*method)) == Ok::<_, ConfigErrorView>(s@),
            Err(e) => sink_spec(file@, name@, to@, opt_view(*method)) == Err::<SinkView, _>(e@),
        },
{
    match (&to.url, &to.kyu_topic, &to.http_path) {
        (Some(url), None, None) => {
            if !is_http_url_exec(url.as_str()) {
                return Err(
                    ConfigError::BadSinkUrl {
                        file: file.to_owned(),
                        profile: name.to_owned(),
                        url: url.clone(),
                    },
                );
            }
            let m = match method {
                Some(m) => m.clone(),
                None => String::from_str("POST"),
            };
            Ok(Sink::Url { url: url.clone(), method: m })
        },
        (None, Some(topic), None) => {
            check_topic(file, name, topic.as_str())?;
            if method.is_some() {
                return Err(
                    ConfigError::MethodOnKyuSink { file: file.to_owned(), profile: name.to_owned() },
                );
            }
            Ok(Sink::Kyu { topic: topic.clone() })
        },
        _ => Err(
            ConfigError::Shape {
                file: file.to_owned(),
                profile: name.to_owned(),
                problem: String::from_str("'to' must name exactly one of url or kyu_topic"),
            },
        ),
    }
}

fn profile_location_text(name: &str) -> (r: String)
    ensures
        r@ == profile_location(name@),
{
    let mut m = String::from_str(", profile '");
    m.append(name);
    m.append("'");
    m
}

fn validate_profile(
    file: &str,
    rp: &RawProfile,
    kyu_present: bool,
    reporting: &Option<String>,
    env: &EnvLookup,
) -> (r: Result<Profile, ConfigError>)
    ensures
        match r {
            Ok(p) => profile_spec(file@, rp@, kyu_present, opt_view(*reporting), env_of(env))
                == Ok::<_, ConfigErrorView>(p@),
            Err(e) => profile_spec(file@, rp@, kyu_present, opt_view(*reporting), env_of(env))
                == Err::<ProfileView, _>(e@),
        },
{
    let name = rp.name.as_str();
    check_name(file, name, "name", name)?;
    let subscription = match &rp.subscription {
        Some(s) => s.clone(),
        None => rp.name.clone(),
    };
    check_name(file, name, "subscription", subscription.as_str())?;
    let source = source_of(file, name, &rp.from)?;
    let sink = sink_of(file, name, &rp.to, &rp.method)?;

    // A kyu endpoint on either side needs somewhere to talk to.
    let source_is_kyu = match &source {
        Source::Kyu { .. } => true,
        Source::Http { .. } => false,
    };
    let sink_is_kyu = match &sink {
        Sink::Kyu { .. } => true,
        Sink::Url { .. } => false,
    };
    if (source_is_kyu || sink_is_kyu) && !kyu_present {
        return Err(ConfigError::MissingKyuSection { file: file.to_owned(), profile: name.to_owned() });
    }

    // A profile that consumes its own failure events feeds itself.
    if let (Source::Kyu { topic }, Some(r)) = (&source, reporting) {
        if same_text(topic.as_str(), r.as_str()) {
            return Err(
                ConfigError::SelfReportLoop {
                    file: file.to_owned(),
                    profile: name.to_owned(),
                    topic: topic.clone(),
                },
            );
        }
    }

    let content_type = match &rp.content_type {
        Some(c) => c.clone(),
        None => {
            return Err(
                ConfigError::MissingContentType { file: file.to_owned(), profile: name.to_owned() },
            );
        },
    };

    let location = profile_location_text(name);
    let inbound_token = match &rp.inbound_token {
        Some(t) => {
            if source_is_kyu {
                return Err(
                    ConfigError::InboundTokenOnKyuSource {
                        file: file.to_owned(),
                        profile: name.to_owned(),
                    },
                );
            }
            Some(resolve(file, location.as_str(), t.as_str(), env)?)
        },
        None => None,
    };
    let headers = resolve_headers(file, location.as_str(), &rp.headers, env)?;

    let timeout_ms = match rp.timeout_ms {
        Some(v) => v,
        None => DEFAULT_TIMEOUT_MS,
    };
    let retries = match rp.retries {
        Some(v) => v,
        None => DEFAULT_RETRIES,
    };
    let lease_ms = match rp.lease_ms {
        Some(v) => v,
        None => DEFAULT_LEASE_MS,
    };
    let max_attempts = match rp.max_attempts {
        Some(v) => v,
        None => DEFAULT_MAX_ATTEMPTS,
    };

    let profile = Profile {
        name: rp.name.clone(),
        subscription,
        source,
        sink,
        content_type,
        body: rp.body.clone(),
        headers,
        timeout_ms,
        retries,
        lease_ms,
        max_attempts,
        inbound_token,
    };

    // The retry budget must fit inside the lease, with room for the ack
    // itself. Only a kyu source holds a lease.
    if source_is_kyu {
        let needed: u64 = match checked_retry_budget(timeout_ms, retries) {
            Some(b) => if b <= u64::MAX - LEASE_MARGIN_MS {
                b + LEASE_MARGIN_MS
            } else {
                u64::MAX
            },
            None => u64::MAX,
        };
        assert(needed == needed_ms(profile@));
        if needed > lease_ms {
            return Err(
                ConfigError::LeaseBudget {
                    file: file.to_owned(),
                    profile: name.to_owned(),
                    needed_ms: needed,
                    lease_ms,
                },
            );
        }
    }
    Ok(profile)
}

proof fn lemma_profiles_error_sticks(file: Seq<char>, raws: Seq<RawProfileView>, kyu_present: bool, reporting: Option<Seq<char>>, env: Env, n: int)
    requires
        0 < n <= raws.len(),
        profiles_spec(file, raws.take(n), kyu_present, reporting, env) is Err,
    ensures
        profiles_spec(file, raws, kyu_present, reporting, env) == profiles_spec(file, raws.take(n), kyu_present, reporting, env),
    decreases raws.len() - n,
{
    if n < raws.len() {
        assert(raws.take(n + 1).drop_last() =~= raws.take(n));
        lemma_profiles_error_sticks(file, raws, kyu_present, reporting, env, n + 1);
    } else {
        assert(raws.take(n) =~= raws);
    }
}

fn validate_profiles(
    file: &str,
    raws: &Vec<RawProfile>,
    kyu_present: bool,
    reporting: &Option<String>,
    env: &EnvLookup,
) -> (r: Result<Vec<Profile>, ConfigError>)
    ensures
        match r {
            Ok(ps) => profiles_spec(file@, raw_profiles_view(raws@), kyu_present, opt_view(*reporting), env_of(env))
                == Ok::<_, ConfigErrorView>(profiles_view(ps@)),
            Err(e) => profiles_spec(file@, raw_profiles_view(raws@), kyu_present, opt_view(*reporting), env_of(env))
                == Err::<Seq<ProfileView>, _>(e@),
        },
{
    let ghost all = raw_profiles_view(raws@);
    let mut out: Vec<Profile> = Vec::new();
    let mut i: usize = 0;
    assert(all.take(0) =~= Seq::<RawProfileView>::empty());
    assert(profiles_view(out@) =~= Seq::<ProfileView>::empty());
    while i < raws.len()
        invariant
            all == raw_profiles_view(raws@),
            i <= raws@.len(),
            profiles_spec(file@, all.take(i as int), kyu_present, opt_view(*reporting), env_of(env))
                == Ok::<_, ConfigErrorView>(profiles_view(out@)),
        decreases raws.len() - i,
    {
        assert(all.take(i + 1).drop_last() =~= all.take(i as int));
        assert(all.take(i + 1).last() == raws@[i as int]@);
        let p = match validate_profile(file, &raws[i], kyu_present, reporting, env) {
            Ok(p) => p,
            Err(e) => {
                proof {
                    lemma_profiles_error_sticks(file@, all, kyu_present, opt_view(*reporting), env_of(env), (i + 1) as int);
                }
                return Err(e);
            },
        };
        let ghost seen = profiles_view(out@);
        let mut j: usize = 0;
        while j < out.len()
            invariant
                seen == profiles_view(out@),
                all == raw_profiles_view(raws@),
                i < raws@.len(),
                all.take(i + 1).drop_last() == all.take(i as int),
                all.take(i + 1).last() == raws@[i as int]@,
                profiles_spec(file@, all.take(i as int), kyu_present, opt_view(*reporting), env_of(env))
                    == Ok::<_, ConfigErrorView>(seen),
                profile_spec(file@, raws@[i as int]@, kyu_present, opt_view(*reporting), env_of(env))
                    == Ok::<_, ConfigErrorView>(p@),
                j <= out@.len(),
                forall|k: int| 0 <= k < j ==> #[trigger] seen[k].name != p@.name,
            decreases out.len() - j,
        {
            if same_text(out[j].name.as_str(), p.name.as_str()) {
                assert(seen[j as int].name == p@.name);
                proof {
                    lemma_profiles_error_sticks(file@, all, kyu_present, opt_view(*reporting), env_of(env), (i + 1) as int);
                }
                return Err(ConfigError::DuplicateProfile { file: file.to_owned(), name: p.name });
            }
            j = j + 1;
        }
        assert(!(exists|k: int| 0 <= k < seen.len() && #[trigger] seen[k].name == p@.name));
        if let Some(j) = find_door_conflict(&out, &p) {
            proof {
                lemma_door_conflict(seen, p@, 0);
                assert(profiles_spec(file@, all.take(i + 1), kyu_present, opt_view(*reporting), env_of(env))
                    == Err::<Seq<ProfileView>, _>(ConfigErrorView::PathTokenMismatch {
                        file: file@,
                        path: p@.source->Http_path,
                        first: seen[j as int].name,
                        second: p@.name,
                    }));
                lemma_profiles_error_sticks(file@, all, kyu_present, opt_view(*reporting), env_of(env), (i + 1) as int);
            }
            let path = match &p.source {
                Source::Http { path } => path.clone(),
                Source::Kyu { topic } => topic.clone(),
            };
            return Err(
                ConfigError::PathTokenMismatch {
                    file: file.to_owned(),
                    path,
                    first: out[j].name.clone(),
                    second: p.name,
                },
            );
        }
        let ghost before = out@;
        out.push(p);
        assert(out@.drop_last() =~= before);
        assert(profiles_view(out@) =~= profiles_view(before).push(p@));
        i = i + 1;
    }
    assert(all.take(raws@.len() as int) =~= all);
    Ok(out)
}

fn same_token(a: &Option<Secret>, b: &Option<Secret>) -> (r: bool)
    ensures
        r == (opt_secret_view(*a) == opt_secret_view(*b)),
{
    match (a, b) {
        (None, None) => true,
        (Some(x), Some(y)) => same_text(x.expose(), y.expose()),
        _ => false,
    }
}

fn find_door_conflict(ps: &Vec<Profile>, p: &Profile) -> (r: Option<usize>)
    ensures
        match r {
            Some(j) => door_conflict(profiles_view(ps@), p@, 0) == Some(j as int) && j < ps@.len(),
            None => door_conflict(profiles_view(ps@), p@, 0) is None,
        },
{
    let ghost v = profiles_view(ps@);
    let mut j: usize = 0;
    while j < ps.len()
        invariant
            v == profiles_view(ps@),
            j <= ps@.len(),
            door_conflict(v, p@, 0) == door_conflict(v, p@, j as int),
        decreases ps.len() - j,
    {
        assert(v[j as int] == ps@[j as int]@);
        let conflict = match (&ps[j].source, &p.source) {
            (Source::Http { path: a }, Source::Http { path: b }) => same_text(a.as_str(), b.as_str())
                && !same_token(&ps[j].inbound_token, &p.inbound_token),
            _ => false,
        };
        if conflict {
            return Some(j);
        }
        j = j + 1;
    }
    None
}

fn validate_kyu(file: &str, k: &Option<RawKyu>, env: &EnvLookup) -> (r: Result<Option<Kyu>, ConfigError>)
    ensures
        match r {
            Ok(v) => kyu_spec(file@, match *k { Some(x) => Some(x@), None => None }, env_of(env))
                == Ok::<_, ConfigErrorView>(match v { Some(x) => Some(x@), None => None }),
            Err(e) => kyu_spec(file@, match *k { Some(x) => Some(x@), None => None }, env_of(env))
                == Err::<Option<KyuView>, _>(e@),
        },
{
    match k {
        None => Ok(None),
        Some(k) => {
            if !is_http_url_exec(k.base_url.as_str()) {
                return Err(ConfigError::BadKyuUrl { file: file.to_owned(), value: k.base_url.clone() });
            }
            let token = match &k.token {
                Some(t) => {
                let nowhere = String::new();
                Some(resolve(file, nowhere.as_str(), t.as_str(), env)?)
            },
                None => None,
            };
            Ok(Some(Kyu { base_url: trim_slashes(k.base_url.as_str()), token }))
        },
    }
}

fn validate(file: &str, raw: &RawConfig, env: &EnvLookup) -> (r: Result<Config, ConfigError>)
    ensures
        match r {
            Ok(c) => validate_spec(file@, raw@, env_of(env)) == Ok::<_, ConfigErrorView>(c@),
            Err(e) => validate_spec(file@, raw@, env_of(env)) == Err::<ConfigView, _>(e@),
        },
{
    if raw.profiles.len() == 0 {
        return Err(ConfigError::NoProfiles { file: file.to_owned() });
    }
    let kyu = validate_kyu(file, &raw.kyu, env)?;
    let profiles = validate_profiles(file, &raw.profiles, kyu.is_some(), &raw.reporting, env)?;
    let reporting = match &raw.reporting {
        Some(t) => Some(Reporting { topic: t.clone() }),
        None => None,
    };
    Ok(Config { kyu, reporting, profiles })
}

/// Loads a configuration from the text of `file`, resolving `${VAR}`
/// references through `env`. The result is exactly what the rules make of
/// the TOML the `toml` crate reads from `text`.
pub fn load(file: &str, text: &str, env: &EnvLookup) -> (r: Result<Config, ConfigError>)
    ensures
        match r {
            Ok(c) => load_spec(file@, text@, env_of(env)) == Ok::<_, ConfigErrorView>(c@),
            Err(e) => load_spec(file@, text@, env_of(env)) == Err::<ConfigView, _>(e@),
        },
{
    let table = match parse_toml(text) {
        Ok(t) => t,
        Err(e) => {
            return Err(ConfigError::Parse { file: file.to_owned(), detail: e });
        },
    };
    load_document(file, &table, env)
}

/// Checks an already parsed TOML document of `file` against the schema and
/// every rule, resolving `${VAR}` references through `env`.
pub fn load_document(file: &str, table: &Vec<(String, TomlValue)>, env: &EnvLookup) -> (r: Result<Config, ConfigError>)
    ensures
        match r {
            Ok(c) => document_spec(file@, table@, env_of(env)) == Ok::<_, ConfigErrorView>(c@),
            Err(e) => document_spec(file@, table@, env_of(env)) == Err::<ConfigView, _>(e@),
        },
{
    let raw = match read_config(table) {
        Ok(r) => r,
        Err(d) => {
            return Err(ConfigError::Parse { file: file.to_owned(), detail: d });
        },
    };
    validate(file, &raw, env)
}

} // verus!
