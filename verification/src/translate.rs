//! The pure translation core: give it a profile and the bytes that
//! arrived, get back a `Delivery` or an error.
//!
//! Two decisions live here, and both are mechanisms rather than habits:
//! JSON autoescape is on for profiles that deliver JSON, so every
//! interpolated value is escaped by the engine; and undefined is strict, so
//! a field that disappeared from the source's payload is an error with a
//! remedy, not an empty string.

use vstd::prelude::*;
use vstd::utf8::encode_utf8;
use crate::config::{Profile, ProfileView, Sink, SinkView, secret_pairs_view};
use crate::secret::Secret;
use crate::text::{chars_of, contains, ends_with, is_infix, starts_with, string_of, sub_chars};

verus! {

/// What a sink is asked to perform. The destination is copied from the
/// profile, never rendered wholesale, so no incoming message can choose
/// where its own translation goes.
#[derive(Clone, PartialEq, Eq)]
pub struct Delivery {
    pub target: Target,
    pub content_type: String,
    pub headers: Vec<(String, Secret)>,
    pub body: String,
}

#[derive(Debug, Clone, PartialEq, Eq)]
pub enum Target {
    Url { url: String, method: String },
    KyuTopic { topic: String },
}

pub enum TargetView {
    Url { url: Seq<char>, method: Seq<char> },
    KyuTopic { topic: Seq<char> },
}

pub struct DeliveryView {
    pub target: TargetView,
    pub content_type: Seq<char>,
    pub headers: Seq<(Seq<char>, Seq<char>)>,
    pub body: Seq<char>,
}

impl View for Target {
    type V = TargetView;

    open spec fn view(&self) -> TargetView {
        match self {
            Target::Url { url, method } => TargetView::Url { url: url@, method: method@ },
            Target::KyuTopic { topic } => TargetView::KyuTopic { topic: topic@ },
        }
    }
}

impl View for Delivery {
    type V = DeliveryView;

    open spec fn view(&self) -> DeliveryView {
        DeliveryView {
            target: self.target@,
            content_type: self.content_type@,
            headers: secret_pairs_view(self.headers@),
            body: self.body@,
        }
    }
}

#[derive(Debug)]
pub enum RenderError {
    PayloadNotJson { profile: String, detail: String },
    Render { profile: String, detail: String },
    Target { profile: String, detail: String },
    InvalidJson { profile: String, content_type: String, detail: String },
}

pub enum RenderErrorView {
    PayloadNotJson { profile: Seq<char>, detail: Seq<char> },
    Render { profile: Seq<char>, detail: Seq<char> },
    Target { profile: Seq<char>, detail: Seq<char> },
    InvalidJson { profile: Seq<char>, content_type: Seq<char>, detail: Seq<char> },
}

impl View for RenderError {
    type V = RenderErrorView;

    open spec fn view(&self) -> RenderErrorView {
        match self {
            RenderError::PayloadNotJson { profile, detail } => RenderErrorView::PayloadNotJson {
                profile: profile@,
                detail: detail@,
            },
            RenderError::Render { profile, detail } => RenderErrorView::Render {
                profile: profile@,
                detail: detail@,
            },
            RenderError::Target { profile, detail } => RenderErrorView::Target {
                profile: profile@,
                detail: detail@,
            },
            RenderError::InvalidJson { profile, content_type, detail } => RenderErrorView::InvalidJson {
                profile: profile@,
                content_type: content_type@,
                detail: detail@,
            },
        }
    }
}

pub const NOT_JSON_REMEDY: &'static str = "check what the source actually sends — a form-encoded or plain-text body has no fields for a template to read, and rendering it would silently produce empty values.";

pub const RENDER_REMEDY: &'static str = "if a field is undefined, either the source stopped sending it or its name changed; write `| default(...)` to accept that explicitly, or fix the path. An empty value is never produced on your behalf.";

pub const TARGET_REMEDY: &'static str = "only path segments may be templated; the scheme, host and port always come from the config, so no incoming message can choose where its own translation goes.";

pub const INVALID_JSON_REMEDY: &'static str = "look at the template's punctuation — a missing comma or brace; the values themselves are escaped for you, so the fault is in the fixed text around them.";

impl RenderErrorView {
    pub open spec fn profile(self) -> Seq<char> {
        match self {
            RenderErrorView::PayloadNotJson { profile, .. } => profile,
            RenderErrorView::Render { profile, .. } => profile,
            RenderErrorView::Target { profile, .. } => profile,
            RenderErrorView::InvalidJson { profile, .. } => profile,
        }
    }

    /// What is wrong, after the profile's name.
    pub open spec fn problem(self) -> Seq<char> {
        match self {
            RenderErrorView::PayloadNotJson { detail, .. } => "': the incoming message is not JSON ("@
                + detail + "). "@,
            RenderErrorView::Render { detail, .. } => "': the template could not be rendered — "@
                + detail + ". "@,
            RenderErrorView::Target { detail, .. } => "': the destination address could not be built — "@
                + detail + ". "@,
            RenderErrorView::InvalidJson { content_type, detail, .. } => "': the rendered body is not valid JSON ("@
                + detail + "), while the profile declares "@ + content_type + ". "@,
        }
    }

    pub open spec fn remedy(self) -> Seq<char> {
        match self {
            RenderErrorView::PayloadNotJson { .. } => NOT_JSON_REMEDY@,
            RenderErrorView::Render { .. } => RENDER_REMEDY@,
            RenderErrorView::Target { .. } => TARGET_REMEDY@,
            RenderErrorView::InvalidJson { .. } => INVALID_JSON_REMEDY@,
        }
    }

    /// The whole message: the profile, what is wrong, and what to do.
    pub open spec fn message(self) -> Seq<char> {
        "profile '"@ + self.profile() + self.problem() + "What now: "@ + self.remedy()
    }
}

impl RenderError {
    /// The message an operator reads.
    pub fn to_string(&self) -> (r: String)
        ensures
            r@ == self@.message(),
    {
        match self {
            RenderError::PayloadNotJson { profile, detail } => {
                let mut m = String::from_str("profile '");
                m.append(profile.as_str());
                m.append("': the incoming message is not JSON (");
                m.append(detail.as_str());
                m.append("). ");
                m.append("What now: ");
                m.append(NOT_JSON_REMEDY);
                m
            },
            RenderError::Render { profile, detail } => {
                let mut m = String::from_str("profile '");
                m.append(profile.as_str());
                m.append("': the template could not be rendered — ");
                m.append(detail.as_str());
                m.append(". ");
                m.append("What now: ");
                m.append(RENDER_REMEDY);
                m
            },
            RenderError::Target { profile, detail } => {
                let mut m = String::from_str("profile '");
                m.append(profile.as_str());
                m.append("': the destination address could not be built — ");
                m.append(detail.as_str());
                m.append(". ");
                m.append("What now: ");
                m.append(TARGET_REMEDY);
                m
            },
            RenderError::InvalidJson { profile, content_type, detail } => {
                let mut m = String::from_str("profile '");
                m.append(profile.as_str());
                m.append("': the rendered body is not valid JSON (");
                m.append(detail.as_str());
                m.append("), while the profile declares ");
                m.append(content_type.as_str());
                m.append(". ");
                m.append("What now: ");
                m.append(INVALID_JSON_REMEDY);
                m
            },
        }
    }
}

// ── the outside engines ────────────────────────────────────────────────

/// How interpolated values are escaped in a body.
pub enum Escape {
    Json,
    Nothing,
}

/// What serde_json reports when `bytes` are not one JSON document:
/// `None` when they are.
pub uninterp spec fn json_check(bytes: Seq<u8>) -> Option<String>;

/// `serde_json::from_slice::<serde_json::Value>`, kept only for its
/// verdict. The contract claims only that the verdict is a function of the
/// bytes.
#[verifier::external_body]
fn json_error(bytes: &[u8]) -> (r: Option<String>)
    ensures
        r == json_check(bytes@),
{
    serde_json::from_slice::<serde_json::Value>(bytes).err().map(|e| e.to_string())
}

/// What minijinja renders from `template` with the JSON document `payload`
/// as its context, strict about undefined values and escaping values as
/// `escape` says; on failure, the error's message followed by the messages
/// of its chain of causes.
pub uninterp spec fn template_render(template: Seq<char>, payload: Seq<u8>, escape: Escape) -> Result<String, Vec<String>>;

/// `minijinja::Environment::render_str` with strict undefined behaviour and
/// the given auto-escape; an error comes back as the messages of its chain
/// of causes. The contract claims only that the result is a function of
/// the template, the payload and the escape mode.
#[verifier::external_body]
fn render_template(template: &str, payload: &[u8], escape: Escape) -> (r: Result<String, Vec<String>>)
    ensures
        r == template_render(template@, payload@, escape),
{
    let mut env = minijinja::Environment::new();
    env.set_undefined_behavior(minijinja::UndefinedBehavior::Strict);
    let mode = match escape { Escape::Json => minijinja::AutoEscape::Json, Escape::Nothing => minijinja::AutoEscape::None };
    env.set_auto_escape_callback(move |_| mode.clone());
    let ctx: serde_json::Value = serde_json::from_slice(payload).map_err(|e| vec![e.to_string()])?;
    env.render_str(template, ctx).map_err(|e| {
        let (mut chain, mut cause) = (vec![e.to_string()], std::error::Error::source(&e));
        while let Some(c) = cause { chain.push(c.to_string()); cause = c.source(); }
        chain
    })
}

/// What minijinja renders from a path `template` with the JSON document
/// `payload` as context, strict about undefined values, every
/// interpolated value written through `percent_encode`; on failure, the
/// messages of the error's chain of causes.
pub uninterp spec fn path_render(template: Seq<char>, payload: Seq<u8>) -> Result<String, Vec<String>>;

/// `minijinja::Environment::render_str` with a formatter that writes each
/// value (a string as its text, any other value as minijinja displays it)
/// through `percent_encode`. The contract claims only that the result is a
/// function of the template and the payload.
#[verifier::external_body]
fn render_path(template: &str, payload: &[u8]) -> (r: Result<String, Vec<String>>)
    ensures
        r == path_render(template@, payload@),
{
    let mut env = minijinja::Environment::new();
    env.set_undefined_behavior(minijinja::UndefinedBehavior::Strict);
    env.set_formatter(|out, _, v| Ok(out.write_str(&percent_encode(&v.as_str().map_or_else(|| v.to_string(), str::to_string)))?));
    let ctx: serde_json::Value = serde_json::from_slice(payload).map_err(|e| vec![e.to_string()])?;
    env.render_str(template, ctx).map_err(|e| {
        let (mut chain, mut cause) = (vec![e.to_string()], std::error::Error::source(&e));
        while let Some(c) = cause { chain.push(c.to_string()); cause = c.source(); }
        chain
    })
}

/// A rendering error as one line: its messages joined by ": ".
pub open spec fn describe_spec(chain: Seq<Seq<char>>) -> Seq<char>
    decreases chain.len(),
{
    if chain.len() == 0 {
        Seq::empty()
    } else if chain.len() == 1 {
        chain[0]
    } else {
        describe_spec(chain.drop_last()) + ": "@ + chain.last()
    }
}

pub open spec fn chain_view(v: Vec<String>) -> Seq<Seq<char>> {
    v@.map_values(|s: String| s@)
}

/// Joins the messages of an error chain, outermost first.
pub fn describe(chain: &Vec<String>) -> (r: String)
    ensures
        r@ == describe_spec(chain_view(*chain)),
{
    let ghost all = chain_view(*chain);
    let mut out = String::new();
    let mut i: usize = 0;
    while i < chain.len()
        invariant
            all == chain_view(*chain),
            i <= chain@.len(),
            out@ == describe_spec(all.take(i as int)),
        decreases chain.len() - i,
    {
        assert(all.take(i + 1).drop_last() =~= all.take(i as int));
        if i > 0 {
            out.append(": ");
        }
        out.append(chain[i].as_str());
        proof {
            if i == 0 {
                assert(all.take(1).len() == 1);
            }
        }
        assert(out@ =~= describe_spec(all.take(i + 1)));
        i = i + 1;
    }
    assert(all.take(chain@.len() as int) =~= all);
    out
}

// ── the rules ──────────────────────────────────────────────────────────

/// A content type that declares JSON.
pub open spec fn is_json(content_type: Seq<char>) -> bool {
    "application/json"@.is_prefix_of(content_type) || "+json"@.is_suffix_of(content_type)
}

pub fn is_json_exec(content_type: &str) -> (r: bool)
    ensures
        r == is_json(content_type@),
{
    let cs = chars_of(content_type);
    starts_with(&cs, &chars_of("application/json")) || ends_with(&cs, &chars_of("+json"))
}

pub const QUOTED_VALUE: &'static str = "a template value is wrapped in quotes (\"{{ … }}\"), which produces doubled quotes: this profile delivers JSON, so values are already emitted as complete JSON values. What now: write {\"summary\": {{ alerts.0.annotations.summary }}} without the surrounding quotes";

/// The mistake JSON autoescape invites: an interpolation written inside
/// quotes, which the engine turns into a doubled quote.
pub open spec fn check_template_spec(body: Seq<char>, content_type: Seq<char>) -> Option<Seq<char>> {
    if is_json(content_type) && (is_infix("\"{{"@, body) || is_infix("}}\""@, body)) {
        Some(QUOTED_VALUE@)
    } else {
        None
    }
}

/// Refuses a JSON template that wraps a value in quotes; accepts every
/// template of a profile that does not deliver JSON.
pub fn check_template(body: &str, content_type: &str) -> (r: Result<(), String>)
    ensures
        match r {
            Ok(()) => check_template_spec(body@, content_type@) is None,
            Err(m) => check_template_spec(body@, content_type@) == Some(m@),
        },
{
    if !is_json_exec(content_type) {
        return Ok(());
    }
    let cs = chars_of(body);
    if contains(&cs, &chars_of("\"{{")) || contains(&cs, &chars_of("}}\"")) {
        return Err(String::from_str(QUOTED_VALUE));
    }
    Ok(())
}

/// A byte that stays as it is in a path segment.
pub open spec fn unreserved(b: u8) -> bool {
    (65 <= b <= 90) || (97 <= b <= 122) || (48 <= b <= 57) || b == 45 || b == 95 || b == 46
        || b == 126
}

/// The upper-case hexadecimal digit for `d`, below sixteen.
pub open spec fn hex_digit(d: u8) -> char {
    if d < 10 {
        (48 + d) as char
    } else {
        (55 + d) as char
    }
}

/// How one byte is written in a path segment.
pub open spec fn encode_byte(b: u8) -> Seq<char> {
    if unreserved(b) {
        seq![b as char]
    } else {
        seq!['%', hex_digit(b / 16), hex_digit(b % 16)]
    }
}

/// Every byte encoded, in order.
pub open spec fn percent_encoded(bytes: Seq<u8>) -> Seq<char>
    decreases bytes.len(),
{
    if bytes.len() == 0 {
        Seq::empty()
    } else {
        percent_encoded(bytes.drop_last()) + encode_byte(bytes.last())
    }
}

fn hex_digit_exec(d: u8) -> (r: char)
    requires
        d < 16,
    ensures
        r == hex_digit(d),
{
    if d < 10 {
        (48u8 + d) as char
    } else {
        (55u8 + d) as char
    }
}

/// Percent-encodes everything that is not unreserved. Deliberately
/// strict: a slash inside a value is encoded, so a value can never add a
/// path segment of its own.
pub fn percent_encode(value: &str) -> (r: String)
    ensures
        r@ == percent_encoded(encode_utf8(value@)),
{
    let bytes = value.as_bytes();
    let mut out: Vec<char> = Vec::new();
    let mut i: usize = 0;
    assert(bytes@.take(0) =~= Seq::<u8>::empty());
    while i < bytes.len()
        invariant
            bytes@ == encode_utf8(value@),
            i <= bytes@.len(),
            out@ == percent_encoded(bytes@.take(i as int)),
        decreases bytes.len() - i,
    {
        let b = bytes[i];
        assert(bytes@.take(i + 1).drop_last() =~= bytes@.take(i as int));
        assert(bytes@.take(i + 1).last() == b);
        let ghost before = out@;
        if (65 <= b && b <= 90) || (97 <= b && b <= 122) || (48 <= b && b <= 57) || b == 45
            || b == 95 || b == 46 || b == 126 {
            out.push(b as char);
            assert(out@ =~= before + encode_byte(b));
        } else {
            out.push('%');
            out.push(hex_digit_exec(b / 16));
            out.push(hex_digit_exec(b % 16));
            assert(out@ =~= before + encode_byte(b));
        }
        i = i + 1;
    }
    assert(bytes@.take(bytes@.len() as int) =~= bytes@);
    string_of(&out)
}

/// A character a percent-encoded value may hold: an unreserved character,
/// `%` or an upper-case hexadecimal digit.
pub open spec fn encoded_char(c: char) -> bool {
    ('A' <= c <= 'Z') || ('a' <= c <= 'z') || ('0' <= c <= '9') || c == '-' || c == '_'
        || c == '.' || c == '~' || c == '%'
}

/// A percent-encoded value holds no slash, no colon, no question mark and
/// no hash: it stays inside its own path segment.
pub proof fn lemma_encoded_value_stays_in_its_segment(bytes: Seq<u8>)
    ensures
        forall|i: int|
            0 <= i < percent_encoded(bytes).len() ==> encoded_char(
                #[trigger] percent_encoded(bytes)[i],
            ),
    decreases bytes.len(),
{
    if bytes.len() > 0 {
        lemma_encoded_value_stays_in_its_segment(bytes.drop_last());
        let b = bytes.last();
        let e = encode_byte(b);
        assert forall|i: int| 0 <= i < e.len() implies encoded_char(#[trigger] e[i]) by {
            if !unreserved(b) {
                assert(b / 16 < 16);
                assert(b % 16 < 16);
            }
        }
        let p = percent_encoded(bytes.drop_last());
        assert forall|i: int|
            0 <= i < percent_encoded(bytes).len() implies encoded_char(
                #[trigger] percent_encoded(bytes)[i],
            ) by {
            if i < p.len() {
                assert(percent_encoded(bytes)[i] == p[i]);
            } else {
                assert(percent_encoded(bytes)[i] == e[i - p.len()]);
            }
        }
    }
}

// ── the destination ────────────────────────────────────────────────────

/// The first position at or after `from` where `needle` occurs in `hay`.
pub open spec fn index_from(needle: Seq<char>, hay: Seq<char>, from: int) -> Option<int>
    decreases hay.len() - from,
{
    if from < 0 || from + needle.len() > hay.len() {
        None
    } else if hay.subrange(from, from + needle.len()) == needle {
        Some(from)
    } else if from >= hay.len() {
        None
    } else {
        index_from(needle, hay, from + 1)
    }
}

fn find(hay: &Vec<char>, needle: &Vec<char>) -> (r: Option<usize>)
    ensures
        match r {
            Some(i) => index_from(needle@, hay@, 0) == Some(i as int) && i + needle@.len()
                <= hay@.len(),
            None => index_from(needle@, hay@, 0) is None,
        },
{
    if needle.len() > hay.len() {
        return None;
    }
    let last = hay.len() - needle.len();
    let mut at: usize = 0;
    loop
        invariant
            last == hay.len() - needle.len(),
            needle.len() <= hay.len(),
            at <= last,
            index_from(needle@, hay@, 0) == index_from(needle@, hay@, at as int),
        decreases last - at,
    {
        let cand = sub_chars(hay, at, at + needle.len());
        if same_chars(&cand, needle) {
            return Some(at);
        }
        if at == last {
            assert(index_from(needle@, hay@, at + 1) is None);
            return None;
        }
        at = at + 1;
    }
}

fn same_chars(a: &Vec<char>, b: &Vec<char>) -> (r: bool)
    ensures
        r == (a@ == b@),
{
    if a.len() != b.len() {
        return false;
    }
    let mut i: usize = 0;
    while i < a.len()
        invariant
            a@.len() == b@.len(),
            i <= a@.len(),
            forall|j: int| 0 <= j < i ==> a@[j] == b@[j],
        decreases a.len() - i,
    {
        if a[i] != b[i] {
            return false;
        }
        i = i + 1;
    }
    assert(a@ =~= b@);
    true
}

/// The address a URL sink delivers to. A URL without a template is used
/// as written; otherwise the scheme, host and port are split off before
/// rendering and put back afterwards, so only the path can carry values
/// from the message.
pub open spec fn target_spec(name: Seq<char>, url: Seq<char>, payload: Seq<u8>) -> Result<Seq<char>, RenderErrorView> {
    if !is_infix("{{"@, url) {
        Ok(url)
    } else {
        match index_from("://"@, url, 0) {
            None => Err(RenderErrorView::Target { profile: name, detail: "'"@ + url + "' has no scheme"@ }),
            Some(i) => {
                let scheme = url.subrange(0, i);
                let rest = url.subrange(i + 3, url.len() as int);
                let authority = match index_from(seq!['/'], rest, 0) {
                    Some(j) => rest.subrange(0, j),
                    None => rest,
                };
                let path = match index_from(seq!['/'], rest, 0) {
                    Some(j) => rest.subrange(j, rest.len() as int),
                    None => Seq::empty(),
                };
                if is_infix("{{"@, authority) {
                    Err(RenderErrorView::Target { profile: name, detail: "the host or port is templated"@ })
                } else {
                    match path_render(path, payload) {
                        Err(e) => Err(RenderErrorView::Render { profile: name, detail: describe_spec(chain_view(e)) }),
                        Ok(r) => if is_infix(".."@, r@) || is_infix("://"@, r@) {
                            Err(RenderErrorView::Target {
                                profile: name,
                                detail: "the rendered path '"@ + r@ + "' escapes its own address"@,
                            })
                        } else {
                            Ok(scheme + "://"@ + authority + r@)
                        },
                    }
                }
            },
        }
    }
}

/// Builds the address of a URL sink for one message.
fn render_target(name: &str, url: &str, payload: &[u8]) -> (r: Result<String, RenderError>)
    ensures
        match r {
            Ok(u) => target_spec(name@, url@, payload@) == Ok::<_, RenderErrorView>(u@),
            Err(e) => target_spec(name@, url@, payload@) == Err::<Seq<char>, _>(e@),
        },
{
    let cs = chars_of(url);
    if !contains(&cs, &chars_of("{{")) {
        return Ok(url.to_owned());
    }
    let sep = chars_of("://");
    assert("://"@.len() == 3) by {
        reveal_strlit("://");
    }
    let i = match find(&cs, &sep) {
        None => {
            let mut d = String::from_str("'");
            d.append(url);
            d.append("' has no scheme");
            return Err(RenderError::Target { profile: name.to_owned(), detail: d });
        },
        Some(i) => i,
    };
    assert(sep@.len() == 3);
    let n = cs.len();
    assert(i + 3 <= n);
    let scheme = sub_chars(&cs, 0, i);
    let rest = sub_chars(&cs, i + 3, n);
    let mut slash: Vec<char> = Vec::new();
    slash.push('/');
    assert(slash@ =~= seq!['/']);
    let (authority, path) = match find(&rest, &slash) {
        Some(j) => (sub_chars(&rest, 0, j), sub_chars(&rest, j, rest.len())),
        None => (sub_chars(&rest, 0, rest.len()), Vec::new()),
    };
    assert(rest@.subrange(0, rest@.len() as int) =~= rest@);
    if contains(&authority, &chars_of("{{")) {
        return Err(
            RenderError::Target {
                profile: name.to_owned(),
                detail: String::from_str("the host or port is templated"),
            },
        );
    }
    let path_text = string_of(&path);
    let rendered = match render_path(path_text.as_str(), payload) {
        Ok(r) => r,
        Err(e) => {
            return Err(RenderError::Render { profile: name.to_owned(), detail: describe(&e) });
        },
    };
    let rs = chars_of(rendered.as_str());
    if contains(&rs, &chars_of("..")) || contains(&rs, &chars_of("://")) {
        let mut d = String::from_str("the rendered path '");
        d.append(rendered.as_str());
        d.append("' escapes its own address");
        return Err(RenderError::Target { profile: name.to_owned(), detail: d });
    }
    let mut out = string_of(&scheme);
    out.append("://");
    out.append(string_of(&authority).as_str());
    out.append(rendered.as_str());
    Ok(out)
}

// ── one message ────────────────────────────────────────────────────────

pub open spec fn escape_for(content_type: Seq<char>) -> Escape {
    if is_json(content_type) {
        Escape::Json
    } else {
        Escape::Nothing
    }
}

/// What a profile makes of one payload: the body rendered and, for a JSON
/// profile, proved to be JSON before anyone is asked to accept it; the
/// destination built from the profile; content type and headers copied.
pub open spec fn prepare_value_spec(p: ProfileView, payload: Seq<u8>) -> Result<DeliveryView, RenderErrorView> {
    match template_render(p.body, payload, escape_for(p.content_type)) {
        Err(e) => Err(RenderErrorView::Render { profile: p.name, detail: describe_spec(chain_view(e)) }),
        Ok(body) => if is_json(p.content_type) && json_check(encode_utf8(body@)) is Some {
            Err(RenderErrorView::InvalidJson {
                profile: p.name,
                content_type: p.content_type,
                detail: json_check(encode_utf8(body@))->0@,
            })
        } else {
            let target = match p.sink {
                SinkView::Url { url, method } => match target_spec(p.name, url, payload) {
                    Ok(u) => Ok(TargetView::Url { url: u, method }),
                    Err(e) => Err(e),
                },
                SinkView::Kyu { topic } => Ok(TargetView::KyuTopic { topic }),
            };
            match target {
                Err(e) => Err(e),
                Ok(t) => Ok(DeliveryView { target: t, content_type: p.content_type, headers: p.headers, body: body@ }),
            }
        },
    }
}

/// The same, for bytes that first have to be one JSON document.
pub open spec fn prepare_spec(p: ProfileView, payload: Seq<u8>) -> Result<DeliveryView, RenderErrorView> {
    match json_check(payload) {
        Some(d) => Err(RenderErrorView::PayloadNotJson { profile: p.name, detail: d@ }),
        None => prepare_value_spec(p, payload),
    }
}

fn copy_headers(hs: &Vec<(String, Secret)>) -> (r: Vec<(String, Secret)>)
    ensures
        secret_pairs_view(r@) == secret_pairs_view(hs@),
{
    let mut out: Vec<(String, Secret)> = Vec::new();
    let mut i: usize = 0;
    while i < hs.len()
        invariant
            i <= hs@.len(),
            secret_pairs_view(out@) =~= secret_pairs_view(hs@.take(i as int)),
        decreases hs.len() - i,
    {
        let ghost before = out@;
        out.push((hs[i].0.clone(), Secret::new(hs[i].1.expose())));
        assert(out@.drop_last() =~= before);
        assert(hs@.take(i + 1).drop_last() =~= hs@.take(i as int));
        assert(secret_pairs_view(out@) =~= secret_pairs_view(before).push((hs@[i as int].0@, hs@[i as int].1@)));
        assert(secret_pairs_view(hs@.take(i + 1)) =~= secret_pairs_view(hs@.take(i as int)).push((hs@[i as int].0@, hs@[i as int].1@)));
        i = i + 1;
    }
    assert(hs@.take(hs@.len() as int) =~= hs@);
    out
}

/// Translates one parsed message into one delivery. `json` is the text of
/// the JSON document the hub handed over.
pub fn prepare_value(profile: &Profile, json: &[u8]) -> (r: Result<Delivery, RenderError>)
    ensures
        match r {
            Ok(d) => prepare_value_spec(profile@, json@) == Ok::<_, RenderErrorView>(d@),
            Err(e) => prepare_value_spec(profile@, json@) == Err::<DeliveryView, _>(e@),
        },
{
    let json_profile = is_json_exec(profile.content_type.as_str());
    let escape = if json_profile { Escape::Json } else { Escape::Nothing };
    let body = match render_template(profile.body.as_str(), json, escape) {
        Ok(b) => b,
        Err(e) => {
            return Err(RenderError::Render { profile: profile.name.clone(), detail: describe(&e) });
        },
    };
    if json_profile {
        if let Some(detail) = json_error(body.as_str().as_bytes()) {
            return Err(
                RenderError::InvalidJson {
                    profile: profile.name.clone(),
                    content_type: profile.content_type.clone(),
                    detail,
                },
            );
        }
    }
    let target = match &profile.sink {
        Sink::Url { url, method } => Target::Url {
            url: render_target(profile.name.as_str(), url.as_str(), json)?,
            method: method.clone(),
        },
        Sink::Kyu { topic } => Target::KyuTopic { topic: topic.clone() },
    };
    Ok(
        Delivery {
            target,
            content_type: profile.content_type.clone(),
            headers: copy_headers(&profile.headers),
            body,
        },
    )
}

/// Translates one incoming message into one delivery.
pub fn prepare(profile: &Profile, payload: &[u8]) -> (r: Result<Delivery, RenderError>)
    ensures
        match r {
            Ok(d) => prepare_spec(profile@, payload@) == Ok::<_, RenderErrorView>(d@),
            Err(e) => prepare_spec(profile@, payload@) == Err::<DeliveryView, _>(e@),
        },
{
    if let Some(detail) = json_error(payload) {
        return Err(RenderError::PayloadNotJson { profile: profile.name.clone(), detail });
    }
    prepare_value(profile, payload)
}

// ── laws ───────────────────────────────────────────────────────────────

/// The part of a configured address a message can never change: the whole
/// address when it holds no template, else its scheme, host and port.
pub open spec fn fixed_part(url: Seq<char>) -> Seq<char> {
    if !is_infix("{{"@, url) {
        url
    } else {
        match index_from("://"@, url, 0) {
            None => url,
            Some(i) => {
                let rest = url.subrange(i + 3, url.len() as int);
                url.subrange(0, i) + "://"@ + match index_from(seq!['/'], rest, 0) {
                    Some(j) => rest.subrange(0, j),
                    None => rest,
                }
            },
        }
    }
}

/// Whatever the payload, a delivery goes where the profile says: to the
/// configured topic, or to an address that begins with the configured
/// scheme, host and port (the whole configured address when it holds no
/// template), with the configured method; content type and headers come
/// from the profile too. A delivery `prepare` makes from raw bytes is the
/// same one.
pub proof fn lemma_destination_comes_from_config(p: ProfileView, payload: Seq<u8>)
    requires
        prepare_value_spec(p, payload) is Ok,
    ensures
        prepare_spec(p, payload) is Ok ==> prepare_spec(p, payload) == prepare_value_spec(p, payload),
        ({
            let d = prepare_value_spec(p, payload)->Ok_0;
            &&& d.content_type == p.content_type
            &&& d.headers == p.headers
            &&& match p.sink {
                SinkView::Kyu { topic } => d.target == (TargetView::KyuTopic { topic }),
                SinkView::Url { url, method } => d.target is Url && d.target->Url_method == method
                    && fixed_part(url).is_prefix_of(d.target->Url_url),
            }
        }),
{
}

/// Every refusal of a message names its profile and carries a remedy
/// introduced by "What now:".
pub proof fn lemma_render_refusal_names_profile_and_remedy(e: RenderErrorView)
    ensures
        ("profile '"@ + e.profile()).is_prefix_of(e.message()),
        is_infix("What now: "@, e.message()),
{
    let m = e.message();
    let head = "profile '"@ + e.profile();
    let k: int = (head.len() + e.problem().len()) as int;
    assert(m.subrange(0, head.len() as int) =~= head);
    assert(m.subrange(k, k + "What now: "@.len()) =~= "What now: "@);
}

} // verus!
