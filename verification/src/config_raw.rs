//! The configuration file exactly as written: the keys of each section,
//! which of them are required, and what type each must have. Unknown keys
//! are refused rather than ignored, so a typo cannot silently drop a
//! setting.

use vstd::prelude::*;
use crate::text::same_text;
use crate::toml_doc::TomlValue;

verus! {

pub type Entries = Seq<(String, TomlValue)>;

/// The value stored under `key`, the first if the key occurs twice.
pub open spec fn entry(entries: Entries, key: Seq<char>) -> Option<TomlValue>
    decreases entries.len(),
{
    if entries.len() == 0 {
        None
    } else if entries[0].0@ == key {
        Some(entries[0].1)
    } else {
        entry(entries.drop_first(), key)
    }
}

/// The first key of `entries` that is not in `known`.
pub open spec fn first_unknown(entries: Entries, known: Seq<Seq<char>>) -> Option<Seq<char>>
    decreases entries.len(),
{
    if entries.len() == 0 {
        None
    } else if !known.contains(entries[0].0@) {
        Some(entries[0].0@)
    } else {
        first_unknown(entries.drop_first(), known)
    }
}

/// How a decoding problem is described: what is wrong, with which key,
/// in which section.
pub open spec fn decode_message(what: Seq<char>, key: Seq<char>, section: Seq<char>) -> Seq<char> {
    what + " `"@ + key + "` in "@ + section
}

pub open spec fn unknown_field(key: Seq<char>, section: Seq<char>) -> Seq<char> {
    decode_message("unknown field"@, key, section)
}

pub open spec fn missing_field(key: Seq<char>, section: Seq<char>) -> Seq<char> {
    decode_message("missing field"@, key, section)
}

pub open spec fn invalid_field(key: Seq<char>, section: Seq<char>) -> Seq<char> {
    decode_message("invalid type or value for field"@, key, section)
}

/// An optional string key.
pub open spec fn str_field(entries: Entries, key: Seq<char>, section: Seq<char>) -> Result<
    Option<Seq<char>>,
    Seq<char>,
> {
    match entry(entries, key) {
        None => Ok(None),
        Some(TomlValue::Str(s)) => Ok(Some(s@)),
        Some(_) => Err(invalid_field(key, section)),
    }
}

/// A required string key.
pub open spec fn req_str_field(entries: Entries, key: Seq<char>, section: Seq<char>) -> Result<
    Seq<char>,
    Seq<char>,
> {
    match str_field(entries, key, section) {
        Ok(Some(s)) => Ok(s),
        Ok(None) => Err(missing_field(key, section)),
        Err(e) => Err(e),
    }
}

/// An optional non-negative integer key that must fit `max`.
pub open spec fn int_field(entries: Entries, key: Seq<char>, section: Seq<char>, max: int) -> Result<
    Option<int>,
    Seq<char>,
> {
    match entry(entries, key) {
        None => Ok(None),
        Some(TomlValue::Int(i)) => if 0 <= i <= max {
            Ok(Some(i as int))
        } else {
            Err(invalid_field(key, section))
        },
        Some(_) => Err(invalid_field(key, section)),
    }
}

/// A table of string values, entry by entry.
pub open spec fn string_pairs(entries: Entries, section: Seq<char>) -> Result<
    Seq<(Seq<char>, Seq<char>)>,
    Seq<char>,
>
    decreases entries.len(),
{
    if entries.len() == 0 {
        Ok(Seq::empty())
    } else {
        match entries.last().1 {
            TomlValue::Str(v) => match string_pairs(entries.drop_last(), section) {
                Ok(ps) => Ok(ps.push((entries.last().0@, v@))),
                Err(e) => Err(e),
            },
            _ => match string_pairs(entries.drop_last(), section) {
                Ok(_) => Err(invalid_field(entries.last().0@, section)),
                Err(e) => Err(e),
            },
        }
    }
}

/// The `from` or `to` table of a profile.
pub struct EndpointView {
    pub http_path: Option<Seq<char>>,
    pub kyu_topic: Option<Seq<char>>,
    pub url: Option<Seq<char>>,
}

pub struct RawEndpoint {
    pub http_path: Option<String>,
    pub kyu_topic: Option<String>,
    pub url: Option<String>,
}

pub open spec fn opt_view(o: Option<String>) -> Option<Seq<char>> {
    match o {
        Some(s) => Some(s@),
        None => None,
    }
}

impl View for RawEndpoint {
    type V = EndpointView;

    open spec fn view(&self) -> EndpointView {
        EndpointView {
            http_path: opt_view(self.http_path),
            kyu_topic: opt_view(self.kyu_topic),
            url: opt_view(self.url),
        }
    }
}

pub open spec fn endpoint_keys() -> Seq<Seq<char>> {
    seq!["http_path"@, "kyu_topic"@, "url"@]
}

pub open spec fn decode_endpoint(v: TomlValue, key: Seq<char>, section: Seq<char>) -> Result<
    EndpointView,
    Seq<char>,
> {
    match v {
        TomlValue::Table(t) => match first_unknown(t@, endpoint_keys()) {
            Some(k) => Err(unknown_field(k, section)),
            None => match (
                str_field(t@, "http_path"@, section),
                str_field(t@, "kyu_topic"@, section),
                str_field(t@, "url"@, section),
            ) {
                (Err(e), _, _) => Err(e),
                (Ok(_), Err(e), _) => Err(e),
                (Ok(_), Ok(_), Err(e)) => Err(e),
                (Ok(h), Ok(k), Ok(u)) => Ok(EndpointView { http_path: h, kyu_topic: k, url: u }),
            },
        },
        _ => Err(invalid_field(key, "[[profiles]]"@)),
    }
}

/// One `[[profiles]]` block as written.
pub struct RawProfileView {
    pub name: Seq<char>,
    pub subscription: Option<Seq<char>>,
    pub from: EndpointView,
    pub to: EndpointView,
    pub content_type: Option<Seq<char>>,
    pub body: Seq<char>,
    pub headers: Seq<(Seq<char>, Seq<char>)>,
    pub method: Option<Seq<char>>,
    pub timeout_ms: Option<int>,
    pub retries: Option<int>,
    pub lease_ms: Option<int>,
    pub max_attempts: Option<int>,
    pub inbound_token: Option<Seq<char>>,
}

pub struct RawProfile {
    pub name: String,
    pub subscription: Option<String>,
    pub from: RawEndpoint,
    pub to: RawEndpoint,
    pub content_type: Option<String>,
    pub body: String,
    pub headers: Vec<(String, String)>,
    pub method: Option<String>,
    pub timeout_ms: Option<u64>,
    pub retries: Option<u32>,
    pub lease_ms: Option<u64>,
    pub max_attempts: Option<u32>,
    pub inbound_token: Option<String>,
}

pub open spec fn pairs_view(v: Seq<(String, String)>) -> Seq<(Seq<char>, Seq<char>)> {
    v.map_values(|p: (String, String)| (p.0@, p.1@))
}

pub open spec fn opt_u64_view(o: Option<u64>) -> Option<int> {
    match o {
        Some(n) => Some(n as int),
        None => None,
    }
}

pub open spec fn opt_u32_view(o: Option<u32>) -> Option<int> {
    match o {
        Some(n) => Some(n as int),
        None => None,
    }
}

impl View for RawProfile {
    type V = RawProfileView;

    open spec fn view(&self) -> RawProfileView {
        RawProfileView {
            name: self.name@,
            subscription: opt_view(self.subscription),
            from: self.from@,
            to: self.to@,
            content_type: opt_view(self.content_type),
            body: self.body@,
            headers: pairs_view(self.headers@),
            method: opt_view(self.method),
            timeout_ms: opt_u64_view(self.timeout_ms),
            retries: opt_u32_view(self.retries),
            lease_ms: opt_u64_view(self.lease_ms),
            max_attempts: opt_u32_view(self.max_attempts),
            inbound_token: opt_view(self.inbound_token),
        }
    }
}

pub open spec fn profile_keys() -> Seq<Seq<char>> {
    seq![
        "name"@,
        "subscription"@,
        "from"@,
        "to"@,
        "content_type"@,
        "body"@,
        "headers"@,
        "method"@,
        "timeout_ms"@,
        "retries"@,
        "lease_ms"@,
        "max_attempts"@,
        "inbound_token"@,
    ]
}

pub open spec fn profiles_section() -> Seq<char> {
    "[[profiles]]"@
}

pub open spec fn u64_max() -> int {
    0xffff_ffff_ffff_ffff
}

pub open spec fn u32_max() -> int {
    0xffff_ffff
}

/// The required `from`/`to` table.
pub open spec fn endpoint_field(t: Entries, key: Seq<char>) -> Result<EndpointView, Seq<char>> {
    match entry(t, key) {
        None => Err(missing_field(key, profiles_section())),
        Some(v) => decode_endpoint(v, key, "'"@ + key + "'"@),
    }
}

/// The optional `headers` table.
pub open spec fn headers_field(t: Entries) -> Result<Seq<(Seq<char>, Seq<char>)>, Seq<char>> {
    match entry(t, "headers"@) {
        None => Ok(Seq::empty()),
        Some(TomlValue::Table(h)) => string_pairs(h@, "'headers'"@),
        Some(_) => Err(invalid_field("headers"@, profiles_section())),
    }
}

pub open spec fn decode_profile(v: TomlValue) -> Result<RawProfileView, Seq<char>> {
    let s = profiles_section();
    match v {
        TomlValue::Table(tv) => {
            let t = tv@;
            match first_unknown(t, profile_keys()) {
                Some(k) => Err(unknown_field(k, s)),
                None => match req_str_field(t, "name"@, s) {
                    Err(e) => Err(e),
                    Ok(name) => match str_field(t, "subscription"@, s) {
                        Err(e) => Err(e),
                        Ok(subscription) => match endpoint_field(t, "from"@) {
                            Err(e) => Err(e),
                            Ok(from) => match endpoint_field(t, "to"@) {
                                Err(e) => Err(e),
                                Ok(to) => match str_field(t, "content_type"@, s) {
                                    Err(e) => Err(e),
                                    Ok(content_type) => match req_str_field(t, "body"@, s) {
                                        Err(e) => Err(e),
                                        Ok(body) => match headers_field(t) {
                                            Err(e) => Err(e),
                                            Ok(headers) => match str_field(t, "method"@, s) {
                                                Err(e) => Err(e),
                                                Ok(method) => decode_profile_numbers(
                                                    t,
                                                    RawProfileView {
                                                        name,
                                                        subscription,
                                                        from,
                                                        to,
                                                        content_type,
                                                        body,
                                                        headers,
                                                        method,
                                                        timeout_ms: None,
                                                        retries: None,
                                                        lease_ms: None,
                                                        max_attempts: None,
                                                        inbound_token: None,
                                                    },
                                                ),
                                            },
                                        },
                                    },
                                },
                            },
                        },
                    },
                },
            }
        },
        _ => Err(invalid_field("profiles"@, "the file"@)),
    }
}

/// The numeric keys and the inbound token, on top of what `decode_profile`
/// read before them.
pub open spec fn decode_profile_numbers(t: Entries, p: RawProfileView) -> Result<
    RawProfileView,
    Seq<char>,
> {
    let s = profiles_section();
    match int_field(t, "timeout_ms"@, s, u64_max()) {
        Err(e) => Err(e),
        Ok(timeout_ms) => match int_field(t, "retries"@, s, u32_max()) {
            Err(e) => Err(e),
            Ok(retries) => match int_field(t, "lease_ms"@, s, u64_max()) {
                Err(e) => Err(e),
                Ok(lease_ms) => match int_field(t, "max_attempts"@, s, u32_max()) {
                    Err(e) => Err(e),
                    Ok(max_attempts) => match str_field(t, "inbound_token"@, s) {
                        Err(e) => Err(e),
                        Ok(inbound_token) => Ok(
                            RawProfileView {
                                timeout_ms,
                                retries,
                                lease_ms,
                                max_attempts,
                                inbound_token,
                                ..p
                            },
                        ),
                    },
                },
            },
        },
    }
}

/// The `[kyu]` section as written.
pub struct RawKyuView {
    pub base_url: Seq<char>,
    pub token: Option<Seq<char>>,
}

pub struct RawKyu {
    pub base_url: String,
    pub token: Option<String>,
}

impl View for RawKyu {
    type V = RawKyuView;

    open spec fn view(&self) -> RawKyuView {
        RawKyuView { base_url: self.base_url@, token: opt_view(self.token) }
    }
}

/// The whole file as written.
pub struct RawConfigView {
    pub kyu: Option<RawKyuView>,
    pub reporting: Option<Seq<char>>,
    pub profiles: Seq<RawProfileView>,
}

pub struct RawConfig {
    pub kyu: Option<RawKyu>,
    pub reporting: Option<String>,
    pub profiles: Vec<RawProfile>,
}

impl View for RawConfig {
    type V = RawConfigView;

    open spec fn view(&self) -> RawConfigView {
        RawConfigView {
            kyu: match self.kyu {
                Some(k) => Some(k@),
                None => None,
            },
            reporting: opt_view(self.reporting),
            profiles: self.profiles@.map_values(|p: RawProfile| p@),
        }
    }
}

pub open spec fn kyu_keys() -> Seq<Seq<char>> {
    seq!["base_url"@, "token"@]
}

pub open spec fn decode_kyu(v: TomlValue) -> Result<RawKyuView, Seq<char>> {
    match v {
        TomlValue::Table(t) => match first_unknown(t@, kyu_keys()) {
            Some(k) => Err(unknown_field(k, "[kyu]"@)),
            None => match req_str_field(t@, "base_url"@, "[kyu]"@) {
                Err(e) => Err(e),
                Ok(base_url) => match str_field(t@, "token"@, "[kyu]"@) {
                    Err(e) => Err(e),
                    Ok(token) => Ok(RawKyuView { base_url, token }),
                },
            },
        },
        _ => Err(invalid_field("kyu"@, "the file"@)),
    }
}

pub open spec fn decode_reporting(v: TomlValue) -> Result<Seq<char>, Seq<char>> {
    match v {
        TomlValue::Table(t) => match first_unknown(t@, seq!["topic"@]) {
            Some(k) => Err(unknown_field(k, "[reporting]"@)),
            None => req_str_field(t@, "topic"@, "[reporting]"@),
        },
        _ => Err(invalid_field("reporting"@, "the file"@)),
    }
}

/// Every `[[profiles]]` block, the first failing one deciding the error.
pub open spec fn decode_profiles(items: Seq<TomlValue>) -> Result<Seq<RawProfileView>, Seq<char>>
    decreases items.len(),
{
    if items.len() == 0 {
        Ok(Seq::empty())
    } else {
        match decode_profiles(items.drop_last()) {
            Err(e) => Err(e),
            Ok(ps) => match decode_profile(items.last()) {
                Err(e) => Err(e),
                Ok(p) => Ok(ps.push(p)),
            },
        }
    }
}

pub open spec fn top_keys() -> Seq<Seq<char>> {
    seq!["kyu"@, "reporting"@, "profiles"@]
}

/// The whole file, from its top-level table.
pub open spec fn decode_config(t: Entries) -> Result<RawConfigView, Seq<char>> {
    match first_unknown(t, top_keys()) {
        Some(k) => Err(unknown_field(k, "the file"@)),
        None => {
            let kyu = match entry(t, "kyu"@) {
                None => Ok(None),
                Some(v) => match decode_kyu(v) {
                    Ok(k) => Ok(Some(k)),
                    Err(e) => Err(e),
                },
            };
            let reporting = match entry(t, "reporting"@) {
                None => Ok(None),
                Some(v) => match decode_reporting(v) {
                    Ok(r) => Ok(Some(r)),
                    Err(e) => Err(e),
                },
            };
            let profiles = match entry(t, "profiles"@) {
                None => Ok(Seq::empty()),
                Some(TomlValue::Array(a)) => decode_profiles(a@),
                Some(_) => Err(invalid_field("profiles"@, "the file"@)),
            };
            match (kyu, reporting, profiles) {
                (Err(e), _, _) => Err(e),
                (Ok(_), Err(e), _) => Err(e),
                (Ok(_), Ok(_), Err(e)) => Err(e),
                (Ok(k), Ok(r), Ok(p)) => Ok(RawConfigView { kyu: k, reporting: r, profiles: p }),
            }
        },
    }
}

// ── executable decoding ─────────────────────────────────────────────────

fn find_entry<'a>(entries: &'a Vec<(String, TomlValue)>, key: &str) -> (r: Option<&'a TomlValue>)
    ensures
        match r {
            Some(v) => entry(entries@, key@) == Some(*v),
            None => entry(entries@, key@) is None,
        },
{
    let mut i: usize = 0;
    assert(entries@.skip(0) =~= entries@);
    while i < entries.len()
        invariant
            i <= entries@.len(),
            entry(entries@, key@) == entry(entries@.skip(i as int), key@),
        decreases entries.len() - i,
    {
        assert(entries@.skip(i as int).drop_first() =~= entries@.skip(i + 1));
        if same_text(entries[i].0.as_str(), key) {
            return Some(&entries[i].1);
        }
        i = i + 1;
    }
    None
}

/// The texts of a list of keys.
pub open spec fn key_views(known: Seq<&str>) -> Seq<Seq<char>> {
    known.map_values(|k: &str| k@)
}

fn find_unknown(entries: &Vec<(String, TomlValue)>, known: &[&str]) -> (r: Option<String>)
    ensures
        opt_view(r) == first_unknown(entries@, key_views(known@)),
{
    let ghost kn = key_views(known@);
    let mut i: usize = 0;
    assert(entries@.skip(0) =~= entries@);
    while i < entries.len()
        invariant
            i <= entries@.len(),
            kn == key_views(known@),
            first_unknown(entries@, kn) == first_unknown(entries@.skip(i as int), kn),
        decreases entries.len() - i,
    {
        assert(entries@.skip(i as int).drop_first() =~= entries@.skip(i + 1));
        let key = entries[i].0.as_str();
        let mut found = false;
        let mut j: usize = 0;
        while j < known.len()
            invariant
                j <= known@.len(),
                kn == key_views(known@),
                found == (exists|m: int| 0 <= m < j && kn[m] == key@),
            decreases known.len() - j,
        {
            assert(kn[j as int] == known@[j as int]@);
            if same_text(known[j], key) {
                found = true;
            }
            j = j + 1;
        }
        proof {
            if found {
                let m = choose|m: int| 0 <= m < j && kn[m] == key@;
                assert(kn.contains(key@));
            } else {
                assert(!kn.contains(key@));
            }
        }
        if !found {
            return Some(entries[i].0.clone());
        }
        i = i + 1;
    }
    None
}

fn message(what: &str, key: &str, section: &str) -> (r: String)
    ensures
        r@ == decode_message(what@, key@, section@),
{
    let mut m = String::from_str(what);
    m.append(" `");
    m.append(key);
    m.append("` in ");
    m.append(section);
    m
}

fn get_str(entries: &Vec<(String, TomlValue)>, key: &str, section: &str) -> (r: Result<
    Option<String>,
    String,
>)
    ensures
        match r {
            Ok(o) => str_field(entries@, key@, section@) == Ok::<_, Seq<char>>(opt_view(o)),
            Err(e) => str_field(entries@, key@, section@) == Err::<Option<Seq<char>>, _>(e@),
        },
{
    match find_entry(entries, key) {
        None => Ok(None),
        Some(TomlValue::Str(s)) => Ok(Some(s.clone())),
        Some(_) => Err(message("invalid type or value for field", key, section)),
    }
}

fn get_req_str(entries: &Vec<(String, TomlValue)>, key: &str, section: &str) -> (r: Result<
    String,
    String,
>)
    ensures
        match r {
            Ok(s) => req_str_field(entries@, key@, section@) == Ok::<_, Seq<char>>(s@),
            Err(e) => req_str_field(entries@, key@, section@) == Err::<Seq<char>, _>(e@),
        },
{
    match get_str(entries, key, section) {
        Ok(Some(s)) => Ok(s),
        Ok(None) => Err(message("missing field", key, section)),
        Err(e) => Err(e),
    }
}

fn get_u64(entries: &Vec<(String, TomlValue)>, key: &str, section: &str) -> (r: Result<
    Option<u64>,
    String,
>)
    ensures
        match r {
            Ok(o) => int_field(entries@, key@, section@, u64_max()) == Ok::<_, Seq<char>>(
                opt_u64_view(o),
            ),
            Err(e) => int_field(entries@, key@, section@, u64_max()) == Err::<Option<int>, _>(
                e@,
            ),
        },
{
    match find_entry(entries, key) {
        None => Ok(None),
        Some(TomlValue::Int(i)) => {
            if *i >= 0 {
                Ok(Some(*i as u64))
            } else {
                Err(message("invalid type or value for field", key, section))
            }
        },
        Some(_) => Err(message("invalid type or value for field", key, section)),
    }
}

fn get_u32(entries: &Vec<(String, TomlValue)>, key: &str, section: &str) -> (r: Result<
    Option<u32>,
    String,
>)
    ensures
        match r {
            Ok(o) => int_field(entries@, key@, section@, u32_max()) == Ok::<_, Seq<char>>(
                opt_u32_view(o),
            ),
            Err(e) => int_field(entries@, key@, section@, u32_max()) == Err::<Option<int>, _>(
                e@,
            ),
        },
{
    match find_entry(entries, key) {
        None => Ok(None),
        Some(TomlValue::Int(i)) => {
            if *i >= 0 && *i <= 0xffff_ffff {
                Ok(Some(*i as u32))
            } else {
                Err(message("invalid type or value for field", key, section))
            }
        },
        Some(_) => Err(message("invalid type or value for field", key, section)),
    }
}

fn get_pairs(entries: &Vec<(String, TomlValue)>, section: &str) -> (r: Result<
    Vec<(String, String)>,
    String,
>)
    ensures
        match r {
            Ok(ps) => string_pairs(entries@, section@) == Ok::<_, Seq<char>>(pairs_view(ps@)),
            Err(e) => string_pairs(entries@, section@) == Err::<Seq<(Seq<char>, Seq<char>)>, _>(
                e@,
            ),
        },
{
    let mut out: Vec<(String, String)> = Vec::new();
    let mut i: usize = 0;
    assert(entries@.take(0) =~= Seq::<(String, TomlValue)>::empty());
    assert(pairs_view(out@) =~= Seq::<(Seq<char>, Seq<char>)>::empty());
    while i < entries.len()
        invariant
            i <= entries@.len(),
            string_pairs(entries@.take(i as int), section@) == Ok::<_, Seq<char>>(
                pairs_view(out@),
            ),
        decreases entries.len() - i,
    {
        assert(entries@.take(i + 1).drop_last() =~= entries@.take(i as int));
        match &entries[i].1 {
            TomlValue::Str(v) => {
                let ghost before = out@;
                out.push((entries[i].0.clone(), v.clone()));
                assert(out@.drop_last() =~= before);
                assert(pairs_view(out@) =~= pairs_view(before).push((entries@[i as int].0@, v@)));
                assert(entries@.take(i + 1).last() == entries@[i as int]);
            },
            _ => {
                let e = message("invalid type or value for field", entries[i].0.as_str(), section);
                proof {
                    lemma_pairs_error_sticks(entries@, section@, (i + 1) as int);
                }
                return Err(e);
            },
        }
        i = i + 1;
    }
    assert(entries@.take(entries@.len() as int) =~= entries@);
    Ok(out)
}

/// Once a prefix of a table fails to decode as string pairs, every longer
/// prefix fails with the same error.
proof fn lemma_pairs_error_sticks(entries: Entries, section: Seq<char>, n: int)
    requires
        0 < n <= entries.len(),
        string_pairs(entries.take(n), section) is Err,
    ensures
        string_pairs(entries, section) == string_pairs(entries.take(n), section),
    decreases entries.len() - n,
{
    if n < entries.len() {
        assert(entries.take(n + 1).drop_last() =~= entries.take(n));
        lemma_pairs_error_sticks(entries, section, n + 1);
    } else {
        assert(entries.take(n) =~= entries);
    }
}

fn read_endpoint(v: &TomlValue, key: &str, section: &str) -> (r: Result<RawEndpoint, String>)
    ensures
        match r {
            Ok(e) => decode_endpoint(*v, key@, section@) == Ok::<_, Seq<char>>(e@),
            Err(m) => decode_endpoint(*v, key@, section@) == Err::<EndpointView, _>(m@),
        },
{
    match v {
        TomlValue::Table(t) => {
            let known: [&str; 3] = ["http_path", "kyu_topic", "url"];
            assert(key_views(known@) =~= endpoint_keys());
            if let Some(k) = find_unknown(t, &known) {
                return Err(message("unknown field", k.as_str(), section));
            }
            let http_path = get_str(t, "http_path", section)?;
            let kyu_topic = get_str(t, "kyu_topic", section)?;
            let url = get_str(t, "url", section)?;
            Ok(RawEndpoint { http_path, kyu_topic, url })
        },
        _ => Err(message("invalid type or value for field", key, "[[profiles]]")),
    }
}

fn read_endpoint_field(t: &Vec<(String, TomlValue)>, key: &str) -> (r: Result<RawEndpoint, String>)
    ensures
        match r {
            Ok(e) => endpoint_field(t@, key@) == Ok::<_, Seq<char>>(e@),
            Err(m) => endpoint_field(t@, key@) == Err::<EndpointView, _>(m@),
        },
{
    match find_entry(t, key) {
        None => Err(message("missing field", key, "[[profiles]]")),
        Some(v) => {
            let mut section = String::from_str("'");
            section.append(key);
            section.append("'");
            read_endpoint(v, key, section.as_str())
        },
    }
}

fn read_headers(t: &Vec<(String, TomlValue)>) -> (r: Result<Vec<(String, String)>, String>)
    ensures
        match r {
            Ok(h) => headers_field(t@) == Ok::<_, Seq<char>>(pairs_view(h@)),
            Err(m) => headers_field(t@) == Err::<Seq<(Seq<char>, Seq<char>)>, _>(m@),
        },
{
    match find_entry(t, "headers") {
        None => {
            let out: Vec<(String, String)> = Vec::new();
            assert(pairs_view(out@) =~= Seq::<(Seq<char>, Seq<char>)>::empty());
            Ok(out)
        },
        Some(TomlValue::Table(h)) => get_pairs(h, "'headers'"),
        Some(_) => Err(message("invalid type or value for field", "headers", "[[profiles]]")),
    }
}

fn read_profile(v: &TomlValue) -> (r: Result<RawProfile, String>)
    ensures
        match r {
            Ok(p) => decode_profile(*v) == Ok::<_, Seq<char>>(p@),
            Err(m) => decode_profile(*v) == Err::<RawProfileView, _>(m@),
        },
{
    let s = "[[profiles]]";
    match v {
        TomlValue::Table(t) => {
            let known: [&str; 13] = [
                "name",
                "subscription",
                "from",
                "to",
                "content_type",
                "body",
                "headers",
                "method",
                "timeout_ms",
                "retries",
                "lease_ms",
                "max_attempts",
                "inbound_token",
            ];
            assert(key_views(known@) =~= profile_keys());
            if let Some(k) = find_unknown(t, &known) {
                return Err(message("unknown field", k.as_str(), s));
            }
            let name = get_req_str(t, "name", s)?;
            let subscription = get_str(t, "subscription", s)?;
            let from = read_endpoint_field(t, "from")?;
            let to = read_endpoint_field(t, "to")?;
            let content_type = get_str(t, "content_type", s)?;
            let body = get_req_str(t, "body", s)?;
            let headers = read_headers(t)?;
            let method = get_str(t, "method", s)?;
            let timeout_ms = get_u64(t, "timeout_ms", s)?;
            let retries = get_u32(t, "retries", s)?;
            let lease_ms = get_u64(t, "lease_ms", s)?;
            let max_attempts = get_u32(t, "max_attempts", s)?;
            let inbound_token = get_str(t, "inbound_token", s)?;
            Ok(
                RawProfile {
                    name,
                    subscription,
                    from,
                    to,
                    content_type,
                    body,
                    headers,
                    method,
                    timeout_ms,
                    retries,
                    lease_ms,
                    max_attempts,
                    inbound_token,
                },
            )
        },
        _ => Err(message("invalid type or value for field", "profiles", "the file")),
    }
}

fn read_kyu(v: &TomlValue) -> (r: Result<RawKyu, String>)
    ensures
        match r {
            Ok(k) => decode_kyu(*v) == Ok::<_, Seq<char>>(k@),
            Err(m) => decode_kyu(*v) == Err::<RawKyuView, _>(m@),
        },
{
    match v {
        TomlValue::Table(t) => {
            let known: [&str; 2] = ["base_url", "token"];
            assert(key_views(known@) =~= kyu_keys());
            if let Some(k) = find_unknown(t, &known) {
                return Err(message("unknown field", k.as_str(), "[kyu]"));
            }
            let base_url = get_req_str(t, "base_url", "[kyu]")?;
            let token = get_str(t, "token", "[kyu]")?;
            Ok(RawKyu { base_url, token })
        },
        _ => Err(message("invalid type or value for field", "kyu", "the file")),
    }
}

fn read_reporting(v: &TomlValue) -> (r: Result<String, String>)
    ensures
        match r {
            Ok(topic) => decode_reporting(*v) == Ok::<_, Seq<char>>(topic@),
            Err(m) => decode_reporting(*v) == Err::<Seq<char>, _>(m@),
        },
{
    match v {
        TomlValue::Table(t) => {
            let known: [&str; 1] = ["topic"];
            assert(key_views(known@) =~= seq!["topic"@]);
            if let Some(k) = find_unknown(t, &known) {
                return Err(message("unknown field", k.as_str(), "[reporting]"));
            }
            get_req_str(t, "topic", "[reporting]")
        },
        _ => Err(message("invalid type or value for field", "reporting", "the file")),
    }
}

pub open spec fn raw_profiles_view(v: Seq<RawProfile>) -> Seq<RawProfileView> {
    v.map_values(|p: RawProfile| p@)
}

fn read_profiles(items: &Vec<TomlValue>) -> (r: Result<Vec<RawProfile>, String>)
    ensures
        match r {
            Ok(ps) => decode_profiles(items@) == Ok::<_, Seq<char>>(raw_profiles_view(ps@)),
            Err(m) => decode_profiles(items@) == Err::<Seq<RawProfileView>, _>(m@),
        },
{
    let mut out: Vec<RawProfile> = Vec::new();
    let mut i: usize = 0;
    assert(items@.take(0) =~= Seq::<TomlValue>::empty());
    assert(raw_profiles_view(out@) =~= Seq::<RawProfileView>::empty());
    while i < items.len()
        invariant
            i <= items@.len(),
            decode_profiles(items@.take(i as int)) == Ok::<_, Seq<char>>(
                raw_profiles_view(out@),
            ),
        decreases items.len() - i,
    {
        assert(items@.take(i + 1).drop_last() =~= items@.take(i as int));
        assert(items@.take(i + 1).last() == items@[i as int]);
        match read_profile(&items[i]) {
            Ok(p) => {
                let ghost before = out@;
                out.push(p);
                assert(out@.drop_last() =~= before);
                assert(raw_profiles_view(out@) =~= raw_profiles_view(before).push(p@));
            },
            Err(m) => {
                proof {
                    lemma_profiles_error_sticks(items@, (i + 1) as int);
                }
                return Err(m);
            },
        }
        i = i + 1;
    }
    assert(items@.take(items@.len() as int) =~= items@);
    Ok(out)
}

proof fn lemma_profiles_error_sticks(items: Seq<TomlValue>, n: int)
    requires
        0 < n <= items.len(),
        decode_profiles(items.take(n)) is Err,
    ensures
        decode_profiles(items) == decode_profiles(items.take(n)),
    decreases items.len() - n,
{
    if n < items.len() {
        assert(items.take(n + 1).drop_last() =~= items.take(n));
        lemma_profiles_error_sticks(items, n + 1);
    } else {
        assert(items.take(n) =~= items);
    }
}

/// Decodes the whole file from its top-level table.
pub fn read_config(t: &Vec<(String, TomlValue)>) -> (r: Result<RawConfig, String>)
    ensures
        match r {
            Ok(c) => decode_config(t@) == Ok::<_, Seq<char>>(c@),
            Err(m) => decode_config(t@) == Err::<RawConfigView, _>(m@),
        },
{
    let known: [&str; 3] = ["kyu", "reporting", "profiles"];
    assert(key_views(known@) =~= top_keys());
    if let Some(k) = find_unknown(t, &known) {
        return Err(message("unknown field", k.as_str(), "the file"));
    }
    let kyu = match find_entry(t, "kyu") {
        None => None,
        Some(v) => Some(read_kyu(v)?),
    };
    let reporting = match find_entry(t, "reporting") {
        None => None,
        Some(v) => Some(read_reporting(v)?),
    };
    let profiles = match find_entry(t, "profiles") {
        None => {
            let out: Vec<RawProfile> = Vec::new();
            assert(raw_profiles_view(out@) =~= Seq::<RawProfileView>::empty());
            out
        },
        Some(TomlValue::Array(a)) => read_profiles(a)?,
        Some(_) => {
            return Err(message("invalid type or value for field", "profiles", "the file"));
        },
    };
    let r = RawConfig { kyu, reporting, profiles };
    assert(r@.profiles == raw_profiles_view(profiles@));
    Ok(r)
}

} // verus!
