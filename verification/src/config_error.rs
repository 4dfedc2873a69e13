//! Why a configuration was refused. Every message names the file, the
//! profile where one applies, what is wrong and what to do about it.

use vstd::prelude::*;
use crate::text::{decimal, decimal_string, is_infix};

verus! {

/// A refused configuration.
#[derive(Debug)]
pub enum ConfigError {
    Parse { file: String, detail: String },
    NoProfiles { file: String },
    DuplicateProfile { file: String, name: String },
    BadName { file: String, profile: String, field: String, value: String },
    ReservedTopic { file: String, profile: String, topic: String, prefix: String },
    BadPath { file: String, profile: String, path: String },
    ReservedPath { file: String, profile: String, path: String },
    InboundTokenOnKyuSource { file: String, profile: String },
    MethodOnKyuSink { file: String, profile: String },
    MissingContentType { file: String, profile: String },
    MissingKyuSection { file: String, profile: String },
    LeaseBudget { file: String, profile: String, needed_ms: u64, lease_ms: u64 },
    SelfReportLoop { file: String, profile: String, topic: String },
    MissingEnv { file: String, location: String, var: String },
    Shape { file: String, profile: String, problem: String },
    BadKyuUrl { file: String, value: String },
    BadSinkUrl { file: String, profile: String, url: String },
    PathTokenMismatch { file: String, path: String, first: String, second: String },
}

/// A refused configuration, as text.
pub enum ConfigErrorView {
    Parse { file: Seq<char>, detail: Seq<char> },
    NoProfiles { file: Seq<char> },
    DuplicateProfile { file: Seq<char>, name: Seq<char> },
    BadName { file: Seq<char>, profile: Seq<char>, field: Seq<char>, value: Seq<char> },
    ReservedTopic { file: Seq<char>, profile: Seq<char>, topic: Seq<char>, prefix: Seq<char> },
    BadPath { file: Seq<char>, profile: Seq<char>, path: Seq<char> },
    ReservedPath { file: Seq<char>, profile: Seq<char>, path: Seq<char> },
    InboundTokenOnKyuSource { file: Seq<char>, profile: Seq<char> },
    MethodOnKyuSink { file: Seq<char>, profile: Seq<char> },
    MissingContentType { file: Seq<char>, profile: Seq<char> },
    MissingKyuSection { file: Seq<char>, profile: Seq<char> },
    LeaseBudget { file: Seq<char>, profile: Seq<char>, needed_ms: u64, lease_ms: u64 },
    SelfReportLoop { file: Seq<char>, profile: Seq<char>, topic: Seq<char> },
    MissingEnv { file: Seq<char>, location: Seq<char>, var: Seq<char> },
    Shape { file: Seq<char>, profile: Seq<char>, problem: Seq<char> },
    BadKyuUrl { file: Seq<char>, value: Seq<char> },
    BadSinkUrl { file: Seq<char>, profile: Seq<char>, url: Seq<char> },
    PathTokenMismatch { file: Seq<char>, path: Seq<char>, first: Seq<char>, second: Seq<char> },
}

impl View for ConfigError {
    type V = ConfigErrorView;

    open spec fn view(&self) -> ConfigErrorView {
        match self {
            ConfigError::Parse { file, detail } => ConfigErrorView::Parse {
                file: file@,
                detail: detail@,
            },
            ConfigError::NoProfiles { file } => ConfigErrorView::NoProfiles { file: file@ },
            ConfigError::DuplicateProfile { file, name } => ConfigErrorView::DuplicateProfile {
                file: file@,
                name: name@,
            },
            ConfigError::BadName { file, profile, field, value } => ConfigErrorView::BadName {
                file: file@,
                profile: profile@,
                field: field@,
                value: value@,
            },
            ConfigError::ReservedTopic {
                file,
                profile,
                topic,
                prefix,
            } => ConfigErrorView::ReservedTopic {
                file: file@,
                profile: profile@,
                topic: topic@,
                prefix: prefix@,
            },
            ConfigError::BadPath { file, profile, path } => ConfigErrorView::BadPath {
                file: file@,
                profile: profile@,
                path: path@,
            },
            ConfigError::ReservedPath { file, profile, path } => ConfigErrorView::ReservedPath {
                file: file@,
                profile: profile@,
                path: path@,
            },
            ConfigError::InboundTokenOnKyuSource {
                file,
                profile,
            } => ConfigErrorView::InboundTokenOnKyuSource { file: file@, profile: profile@ },
            ConfigError::MethodOnKyuSink { file, profile } => ConfigErrorView::MethodOnKyuSink {
                file: file@,
                profile: profile@,
            },
            ConfigError::MissingContentType {
                file,
                profile,
            } => ConfigErrorView::MissingContentType { file: file@, profile: profile@ },
            ConfigError::MissingKyuSection {
                file,
                profile,
            } => ConfigErrorView::MissingKyuSection { file: file@, profile: profile@ },
            ConfigError::LeaseBudget {
                file,
                profile,
                needed_ms,
                lease_ms,
            } => ConfigErrorView::LeaseBudget {
                file: file@,
                profile: profile@,
                needed_ms: *needed_ms,
                lease_ms: *lease_ms,
            },
            ConfigError::SelfReportLoop {
                file,
                profile,
                topic,
            } => ConfigErrorView::SelfReportLoop { file: file@, profile: profile@, topic: topic@ },
            ConfigError::MissingEnv { file, location, var } => ConfigErrorView::MissingEnv {
                file: file@,
                location: location@,
                var: var@,
            },
            ConfigError::Shape { file, profile, problem } => ConfigErrorView::Shape {
                file: file@,
                profile: profile@,
                problem: problem@,
            },
            ConfigError::BadKyuUrl { file, value } => ConfigErrorView::BadKyuUrl {
                file: file@,
                value: value@,
            },
            ConfigError::BadSinkUrl { file, profile, url } => ConfigErrorView::BadSinkUrl {
                file: file@,
                profile: profile@,
                url: url@,
            },
            ConfigError::PathTokenMismatch {
                file,
                path,
                first,
                second,
            } => ConfigErrorView::PathTokenMismatch {
                file: file@,
                path: path@,
                first: first@,
                second: second@,
            },
        }
    }
}

/// `, profile '<p>': ` — how a message places itself in a profile.
pub open spec fn in_profile(p: Seq<char>) -> Seq<char> {
    ", profile '"@ + p + "': "@
}

pub open spec fn what_now() -> Seq<char> {
    "What now: "@
}

impl ConfigErrorView {
    pub open spec fn file(self) -> Seq<char> {
        match self {
            ConfigErrorView::Parse { file, .. } => file,
            ConfigErrorView::NoProfiles { file } => file,
            ConfigErrorView::DuplicateProfile { file, .. } => file,
            ConfigErrorView::BadName { file, .. } => file,
            ConfigErrorView::ReservedTopic { file, .. } => file,
            ConfigErrorView::BadPath { file, .. } => file,
            ConfigErrorView::ReservedPath { file, .. } => file,
            ConfigErrorView::InboundTokenOnKyuSource { file, .. } => file,
            ConfigErrorView::MethodOnKyuSink { file, .. } => file,
            ConfigErrorView::MissingContentType { file, .. } => file,
            ConfigErrorView::MissingKyuSection { file, .. } => file,
            ConfigErrorView::LeaseBudget { file, .. } => file,
            ConfigErrorView::SelfReportLoop { file, .. } => file,
            ConfigErrorView::MissingEnv { file, .. } => file,
            ConfigErrorView::Shape { file, .. } => file,
            ConfigErrorView::BadKyuUrl { file, .. } => file,
            ConfigErrorView::BadSinkUrl { file, .. } => file,
            ConfigErrorView::PathTokenMismatch { file, .. } => file,
        }
    }

    /// What is wrong, between the file name and the remedy.
    pub open spec fn problem(self) -> Seq<char> {
        match self {
            ConfigErrorView::Parse { detail, .. } => ": the file is not valid TOML — "@ + detail
                + ". "@,
            ConfigErrorView::NoProfiles { .. } => ": there are no profiles. "@,
            ConfigErrorView::DuplicateProfile { name, .. } => ": profile '"@ + name
                + "' appears more than once. "@,
            ConfigErrorView::BadName { profile, field, value, .. } => in_profile(profile) + field
                + " '"@ + value + "' is not a usable name. "@,
            ConfigErrorView::ReservedTopic { profile, topic, prefix, .. } => in_profile(profile)
                + "topic '"@ + topic + "' starts with '"@ + prefix + "'. "@,
            ConfigErrorView::BadPath { profile, path, .. } => in_profile(profile) + "path '"@
                + path + "' must start with a slash. "@,
            ConfigErrorView::ReservedPath { profile, path, .. } => in_profile(profile) + "path '"@
                + path + "' is reserved by the service itself. "@,
            ConfigErrorView::InboundTokenOnKyuSource { profile, .. } => in_profile(profile)
                + "inbound_token is set, but this profile's source is a kyu topic. "@,
            ConfigErrorView::MethodOnKyuSink { profile, .. } => in_profile(profile)
                + "method is set, but this profile delivers to a kyu topic. "@,
            ConfigErrorView::MissingContentType { profile, .. } => in_profile(profile)
                + "content_type is missing. "@,
            ConfigErrorView::MissingKyuSection { profile, .. } => in_profile(profile)
                + "uses a kyu topic, but there is no [kyu] section. "@,
            ConfigErrorView::LeaseBudget { profile, needed_ms, lease_ms, .. } => in_profile(
                profile,
            ) + "the retry budget is "@ + decimal(needed_ms as nat) + " ms but the kyu lease is "@
                + decimal(lease_ms as nat) + " ms. "@,
            ConfigErrorView::SelfReportLoop { profile, topic, .. } => in_profile(profile)
                + "its source is the self-report topic '"@ + topic + "'. "@,
            ConfigErrorView::MissingEnv { location, var, .. } => location
                + ": environment variable '"@ + var + "' is not set. "@,
            ConfigErrorView::Shape { profile, problem, .. } => in_profile(profile) + problem
                + ". "@,
            ConfigErrorView::BadKyuUrl { value, .. } => ": [kyu] base_url '"@ + value
                + "' is not an http(s) address. "@,
            ConfigErrorView::BadSinkUrl { profile, url, .. } => in_profile(profile)
                + "destination '"@ + url + "' is not an http(s) address. "@,
            ConfigErrorView::PathTokenMismatch { path, first, second, .. } => ": profiles '"@
                + first + "' and '"@ + second + "' share the path '"@ + path
                + "' but not its inbound_token. "@,
        }
    }

    /// What to do about it.
    pub open spec fn remedy(self) -> Seq<char> {
        match self {
            ConfigErrorView::Parse { .. } => PARSE_REMEDY@,
            ConfigErrorView::NoProfiles { .. } => NO_PROFILES_REMEDY@,
            ConfigErrorView::DuplicateProfile { .. } => DUPLICATE_REMEDY@,
            ConfigErrorView::BadName { .. } => BAD_NAME_REMEDY@,
            ConfigErrorView::ReservedTopic { .. } => RESERVED_TOPIC_REMEDY@,
            ConfigErrorView::BadPath { .. } => BAD_PATH_REMEDY@,
            ConfigErrorView::ReservedPath { path, .. } => "pick another path — "@ + path
                + RESERVED_PATH_REMEDY@,
            ConfigErrorView::InboundTokenOnKyuSource { .. } => TOKEN_ON_KYU_REMEDY@,
            ConfigErrorView::MethodOnKyuSink { .. } => METHOD_ON_KYU_REMEDY@,
            ConfigErrorView::MissingContentType { .. } => CONTENT_TYPE_REMEDY@,
            ConfigErrorView::MissingKyuSection { .. } => KYU_SECTION_REMEDY@,
            ConfigErrorView::LeaseBudget { .. } => LEASE_REMEDY@,
            ConfigErrorView::SelfReportLoop { .. } => SELF_REPORT_REMEDY@,
            ConfigErrorView::MissingEnv { .. } => MISSING_ENV_REMEDY@,
            ConfigErrorView::Shape { .. } => SHAPE_REMEDY@,
            ConfigErrorView::BadKyuUrl { .. } => BAD_KYU_URL_REMEDY@,
            ConfigErrorView::BadSinkUrl { .. } => BAD_SINK_URL_REMEDY@,
            ConfigErrorView::PathTokenMismatch { .. } => PATH_TOKEN_REMEDY@,
        }
    }

    /// The whole message: the file, what is wrong, and what to do.
    pub open spec fn message(self) -> Seq<char> {
        self.file() + self.problem() + what_now() + self.remedy()
    }
}

pub const PARSE_REMEDY: &'static str = "fix the syntax the parser points at; an unknown key means a typo, compare it with the example config in the README.";

pub const NO_PROFILES_REMEDY: &'static str = "add at least one [[profiles]] block, or stop the service — a switchboard with no profiles would accept nothing and deliver nothing.";

pub const DUPLICATE_REMEDY: &'static str = "give each profile a unique name; the name is what its log lines, metrics and kyu subscription are labelled with.";

pub const BAD_NAME_REMEDY: &'static str = "use lower-case letters, digits, dot, dash or underscore, at most 64 characters — kyu refuses anything else, and a name it refuses would fail on the first poll while the service reported itself healthy.";

pub const RESERVED_TOPIC_REMEDY: &'static str = "pick another name — kyu reserves that prefix for its own events and answers 403 to a publish, which would only surface on the first real message.";

pub const BAD_PATH_REMEDY: &'static str = "write it as an absolute path, for example \"/alertmanager\".";

pub const RESERVED_PATH_REMEDY: &'static str = " is answered by the health or metrics endpoint, and a profile claiming it would shadow monitoring.";

pub const TOKEN_ON_KYU_REMEDY: &'static str = "remove inbound_token, or change the source to an http_path — a token on a kyu source guards nothing, and leaving it there suggests a door that was never built.";

pub const METHOD_ON_KYU_REMEDY: &'static str = "remove method — publishing to the hub is always a POST to the topic.";

pub const CONTENT_TYPE_REMEDY: &'static str = "state it explicitly, e.g. content_type = \"application/json\" — a missing content type is forwarded as-is and arrives at Home Assistant as an empty payload, while every layer still reports success.";

pub const KYU_SECTION_REMEDY: &'static str = "add [kyu] with base_url (and token if the hub requires one), or change this profile to use http.";

pub const LEASE_REMEDY: &'static str = "lower timeout_ms or retries, or raise lease_ms — a delivery finishing after the lease expires is acked into a 409 while the hub has already handed the message to someone else, which is a duplicate by construction.";

pub const SELF_REPORT_REMEDY: &'static str = "use another source — a profile that consumes its own failure events feeds itself forever.";

pub const MISSING_ENV_REMEDY: &'static str = "provide it in the environment the service starts in (the homelab vault composes it from latch); the config only ever holds the reference, never the value.";

pub const SHAPE_REMEDY: &'static str = "name exactly one endpoint per side — a source is either http_path or kyu_topic, a destination is either url or kyu_topic; anything else leaves it ambiguous where a message comes from or goes to.";

pub const BAD_KYU_URL_REMEDY: &'static str = "write the hub's address including the scheme, e.g. \"http://10.10.10.9:8080\".";

pub const PATH_TOKEN_REMEDY: &'static str = "give every profile on a path the same inbound_token — a path is a single door: the token is checked once per request, so differing expectations behind it would deliver a message to some of its profiles and not to others.";

pub const BAD_SINK_URL_REMEDY: &'static str = "write the full address including the scheme, e.g. \"http://10.10.10.2:8123/api/webhook/abc\".";

fn in_profile_text(p: &String) -> (r: String)
    ensures
        r@ == in_profile(p@),
{
    let mut m = String::from_str(", profile '");
    m.append(p.as_str());
    m.append("': ");
    m
}

impl ConfigError {
    /// The text between the file name and the remedy.
    fn problem_text(&self) -> (r: String)
        ensures
            r@ == self@.problem(),
    {
        match self {
            ConfigError::Parse { detail, .. } => {
                let mut m = String::from_str(": the file is not valid TOML — ");
                m.append(detail.as_str());
                m.append(". ");
                m
            },
            ConfigError::NoProfiles { .. } => String::from_str(": there are no profiles. "),
            ConfigError::DuplicateProfile { name, .. } => {
                let mut m = String::from_str(": profile '");
                m.append(name.as_str());
                m.append("' appears more than once. ");
                m
            },
            ConfigError::BadName { profile, field, value, .. } => {
                let mut m = in_profile_text(profile);
                m.append(field.as_str());
                m.append(" '");
                m.append(value.as_str());
                m.append("' is not a usable name. ");
                m
            },
            ConfigError::ReservedTopic { profile, topic, prefix, .. } => {
                let mut m = in_profile_text(profile);
                m.append("topic '");
                m.append(topic.as_str());
                m.append("' starts with '");
                m.append(prefix.as_str());
                m.append("'. ");
                m
            },
            ConfigError::BadPath { profile, path, .. } => {
                let mut m = in_profile_text(profile);
                m.append("path '");
                m.append(path.as_str());
                m.append("' must start with a slash. ");
                m
            },
            ConfigError::ReservedPath { profile, path, .. } => {
                let mut m = in_profile_text(profile);
                m.append("path '");
                m.append(path.as_str());
                m.append("' is reserved by the service itself. ");
                m
            },
            ConfigError::InboundTokenOnKyuSource { profile, .. } => {
                let mut m = in_profile_text(profile);
                m.append("inbound_token is set, but this profile's source is a kyu topic. ");
                m
            },
            ConfigError::MethodOnKyuSink { profile, .. } => {
                let mut m = in_profile_text(profile);
                m.append("method is set, but this profile delivers to a kyu topic. ");
                m
            },
            ConfigError::MissingContentType { profile, .. } => {
                let mut m = in_profile_text(profile);
                m.append("content_type is missing. ");
                m
            },
            ConfigError::MissingKyuSection { profile, .. } => {
                let mut m = in_profile_text(profile);
                m.append("uses a kyu topic, but there is no [kyu] section. ");
                m
            },
            ConfigError::LeaseBudget { profile, needed_ms, lease_ms, .. } => {
                let mut m = in_profile_text(profile);
                m.append("the retry budget is ");
                m.append(decimal_string(*needed_ms).as_str());
                m.append(" ms but the kyu lease is ");
                m.append(decimal_string(*lease_ms).as_str());
                m.append(" ms. ");
                m
            },
            ConfigError::SelfReportLoop { profile, topic, .. } => {
                let mut m = in_profile_text(profile);
                m.append("its source is the self-report topic '");
                m.append(topic.as_str());
                m.append("'. ");
                m
            },
            ConfigError::MissingEnv { location, var, .. } => {
                let mut m = String::from_str(location.as_str());
                m.append(": environment variable '");
                m.append(var.as_str());
                m.append("' is not set. ");
                m
            },
            ConfigError::Shape { profile, problem, .. } => {
                let mut m = in_profile_text(profile);
                m.append(problem.as_str());
                m.append(". ");
                m
            },
            ConfigError::BadKyuUrl { value, .. } => {
                let mut m = String::from_str(": [kyu] base_url '");
                m.append(value.as_str());
                m.append("' is not an http(s) address. ");
                m
            },
            ConfigError::BadSinkUrl { profile, url, .. } => {
                let mut m = in_profile_text(profile);
                m.append("destination '");
                m.append(url.as_str());
                m.append("' is not an http(s) address. ");
                m
            },
            ConfigError::PathTokenMismatch { path, first, second, .. } => {
                let mut m = String::from_str(": profiles '");
                m.append(first.as_str());
                m.append("' and '");
                m.append(second.as_str());
                m.append("' share the path '");
                m.append(path.as_str());
                m.append("' but not its inbound_token. ");
                m
            },
        }
    }

    /// What to do about it.
    fn remedy_text(&self) -> (r: String)
        ensures
            r@ == self@.remedy(),
    {
        match self {
            ConfigError::Parse { .. } => String::from_str(PARSE_REMEDY),
            ConfigError::NoProfiles { .. } => String::from_str(NO_PROFILES_REMEDY),
            ConfigError::DuplicateProfile { .. } => String::from_str(DUPLICATE_REMEDY),
            ConfigError::BadName { .. } => String::from_str(BAD_NAME_REMEDY),
            ConfigError::ReservedTopic { .. } => String::from_str(RESERVED_TOPIC_REMEDY),
            ConfigError::BadPath { .. } => String::from_str(BAD_PATH_REMEDY),
            ConfigError::ReservedPath { path, .. } => {
                let mut m = String::from_str("pick another path — ");
                m.append(path.as_str());
                m.append(RESERVED_PATH_REMEDY);
                m
            },
            ConfigError::InboundTokenOnKyuSource { .. } => String::from_str(TOKEN_ON_KYU_REMEDY),
            ConfigError::MethodOnKyuSink { .. } => String::from_str(METHOD_ON_KYU_REMEDY),
            ConfigError::MissingContentType { .. } => String::from_str(CONTENT_TYPE_REMEDY),
            ConfigError::MissingKyuSection { .. } => String::from_str(KYU_SECTION_REMEDY),
            ConfigError::LeaseBudget { .. } => String::from_str(LEASE_REMEDY),
            ConfigError::SelfReportLoop { .. } => String::from_str(SELF_REPORT_REMEDY),
            ConfigError::MissingEnv { .. } => String::from_str(MISSING_ENV_REMEDY),
            ConfigError::Shape { .. } => String::from_str(SHAPE_REMEDY),
            ConfigError::BadKyuUrl { .. } => String::from_str(BAD_KYU_URL_REMEDY),
            ConfigError::BadSinkUrl { .. } => String::from_str(BAD_SINK_URL_REMEDY),
            ConfigError::PathTokenMismatch { .. } => String::from_str(PATH_TOKEN_REMEDY),
        }
    }

    /// The file this refusal is about.
    fn file_text(&self) -> (r: &String)
        ensures
            r@ == self@.file(),
    {
        match self {
            ConfigError::Parse { file, .. } => file,
            ConfigError::NoProfiles { file } => file,
            ConfigError::DuplicateProfile { file, .. } => file,
            ConfigError::BadName { file, .. } => file,
            ConfigError::ReservedTopic { file, .. } => file,
            ConfigError::BadPath { file, .. } => file,
            ConfigError::ReservedPath { file, .. } => file,
            ConfigError::InboundTokenOnKyuSource { file, .. } => file,
            ConfigError::MethodOnKyuSink { file, .. } => file,
            ConfigError::MissingContentType { file, .. } => file,
            ConfigError::MissingKyuSection { file, .. } => file,
            ConfigError::LeaseBudget { file, .. } => file,
            ConfigError::SelfReportLoop { file, .. } => file,
            ConfigError::MissingEnv { file, .. } => file,
            ConfigError::Shape { file, .. } => file,
            ConfigError::BadKyuUrl { file, .. } => file,
            ConfigError::BadSinkUrl { file, .. } => file,
            ConfigError::PathTokenMismatch { file, .. } => file,
        }
    }

    /// The message an operator reads: the file, what is wrong and what to
    /// do about it.
    pub fn to_string(&self) -> (r: String)
        ensures
            r@ == self@.message(),
    {
        let mut m = String::from_str(self.file_text().as_str());
        m.append(self.problem_text().as_str());
        m.append("What now: ");
        m.append(self.remedy_text().as_str());
        m
    }
}

/// Every refusal of a configuration names the file first and carries a
/// remedy introduced by "What now:".
pub proof fn lemma_refusal_names_file_and_remedy(e: ConfigErrorView)
    ensures
        e.file().is_prefix_of(e.message()),
        is_infix(what_now(), e.message()),
{
    let m = e.message();
    let k: int = (e.file().len() + e.problem().len()) as int;
    assert(m.subrange(0, e.file().len() as int) =~= e.file());
    assert(m.subrange(k, k + what_now().len()) =~= what_now());
}

} // verus!
