//! The inbound side: webhooks arriving over HTTP. One route per path,
//! dispatching to every profile behind it; the door is checked before
//! anything else is done with the body; the sender is answered only after
//! delivering.

use vstd::prelude::*;
use vstd::utf8::encode_utf8;
use crate::config::{Config, ConfigView, ProfileView, SourceView, Source, config_keeps_rules, doors_disagree, opt_secret_view, profiles_view};
use crate::secret::Secret;
use crate::pump::Health;
use crate::adapters::{DeliverError, DeliverErrorView, Outcome};
use crate::translate::RenderError;
use crate::text::{chars_of, same_text, starts_with, string_of, sub_chars};

verus! {

/// A body cap: its absence is unbounded memory.
pub const MAX_BODY_BYTES: usize = 1024 * 1024;

/// How many inbound requests may be in flight at once. Past this the
/// answer is a refusal, not a queue.
pub const MAX_IN_FLIGHT: usize = 32;

pub const UNAUTHORIZED_TEXT: &'static str = "this path requires a token. What now: send it as `authorization: Bearer <token>`; the value is the one in the profile's inbound_token.\n";

pub const BUSY_TEXT: &'static str = "too many requests are in flight. What now: retry in a moment — this is a refusal, not a loss, and your message has not been delivered.\n";

pub const NOT_DELIVERED_REMEDY: &'static str = "\nWhat now: this message was NOT accepted; send it again once the cause above is addressed.\n";

/// Token comparison that does not leak the answer through its own
/// timing: every byte is looked at whatever the earlier ones were.
pub fn constant_time_eq(a: &[u8], b: &[u8]) -> (r: bool)
    ensures
        r == (a@ == b@),
{
    if a.len() != b.len() {
        return false;
    }
    let mut acc: u8 = 0;
    let mut i: usize = 0;
    while i < a.len()
        invariant
            a@.len() == b@.len(),
            i <= a@.len(),
            (acc == 0) == (forall|j: int| 0 <= j < i ==> a@[j] == b@[j]),
        decreases a.len() - i,
    {
        let x = a[i];
        let y = b[i];
        let next = acc | (x ^ y);
        assert((next == 0) == (acc == 0 && x == y)) by (bit_vector)
            requires
                next == acc | (x ^ y),
        ;
        acc = next;
        i = i + 1;
    }
    if acc == 0 {
        assert(a@ =~= b@);
    }
    acc == 0
}

/// The token a request presents: its `authorization` header without the
/// `Bearer ` prefix, or nothing.
pub open spec fn presented(authorization: Option<Seq<char>>) -> Seq<char> {
    match authorization {
        Some(h) => if "Bearer "@.is_prefix_of(h) {
            h.subrange(7, h.len() as int)
        } else {
            Seq::empty()
        },
        None => Seq::empty(),
    }
}

/// A request passes the door of a path guarded by `expected` when it
/// presents exactly that token; an unguarded path is open.
pub open spec fn door_open_spec(expected: Option<Seq<char>>, authorization: Option<Seq<char>>) -> bool {
    match expected {
        None => true,
        Some(t) => encode_utf8(presented(authorization)) == encode_utf8(t),
    }
}

/// Whether a request with this `authorization` header (if it could be
/// read as text) may pass the door guarded by `expected`.
pub fn door_open(expected: &Option<Secret>, authorization: Option<&str>) -> (r: bool)
    ensures
        r == door_open_spec(opt_secret_view(*expected), match authorization {
            Some(h) => Some(h@),
            None => None,
        }),
{
    match expected {
        None => true,
        Some(token) => {
            let given = match authorization {
                Some(h) => {
                    let cs = chars_of(h);
                    let prefix = chars_of("Bearer ");
                    if starts_with(&cs, &prefix) {
                        assert("Bearer "@.len() == 7) by {
                            reveal_strlit("Bearer ");
                        }
                        string_of(&sub_chars(&cs, 7, cs.len()))
                    } else {
                        String::new()
                    }
                },
                None => String::new(),
            };
            constant_time_eq(given.as_str().as_bytes(), token.expose().as_bytes())
        },
    }
}

/// What one inbound message does to its profile's state, and the detail
/// the change is logged with: delivered puts it back to working, failed
/// makes it failing.
pub open spec fn after_delivery_spec(delivered: bool) -> (Health, Seq<char>) {
    if delivered {
        (Health::Working, "back to normal"@)
    } else {
        (Health::Failing, "deliveries are failing"@)
    }
}

pub fn after_delivery(delivered: bool) -> (r: (Health, &'static str))
    ensures
        (r.0, r.1@) == after_delivery_spec(delivered),
{
    if delivered {
        (Health::Working, "back to normal")
    } else {
        (Health::Failing, "deliveries are failing")
    }
}

/// The answer to a sender, once every profile behind the path has had its
/// turn: 200 when all delivered; otherwise 502 listing every failure, so
/// the sender knows the message was not accepted.
pub open spec fn failures_text(fs: Seq<Seq<char>>) -> Seq<char>
    decreases fs.len(),
{
    if fs.len() == 0 {
        Seq::empty()
    } else if fs.len() == 1 {
        fs[0]
    } else {
        failures_text(fs.drop_last()) + "\n"@ + fs.last()
    }
}

pub open spec fn answer_spec(fs: Seq<Seq<char>>) -> (u16, Seq<char>) {
    if fs.len() == 0 {
        (200, "delivered\n"@)
    } else {
        (502, "not delivered.\n"@ + failures_text(fs) + NOT_DELIVERED_REMEDY@)
    }
}

/// How one failed delivery is listed in the answer: the profile by name,
/// then what the delivery error says.
pub open spec fn failure_text_spec(profile: Seq<char>, e: DeliverErrorView) -> Seq<char> {
    "profile '"@ + profile + "': "@ + e.message()
}

pub fn failure_text(profile: &str, e: &DeliverError) -> (r: String)
    ensures
        r@ == failure_text_spec(profile@, e@),
{
    let mut m = String::from_str("profile '");
    m.append(profile);
    m.append("': ");
    m.append(e.to_string().as_str());
    m
}

pub open spec fn texts_view(v: Seq<String>) -> Seq<Seq<char>> {
    v.map_values(|s: String| s@)
}

/// The status and body the sender gets.
pub fn answer(failures: &Vec<String>) -> (r: (u16, String))
    ensures
        (r.0, r.1@) == answer_spec(texts_view(failures@)),
{
    if failures.len() == 0 {
        return (200, String::from_str("delivered\n"));
    }
    let ghost fs = texts_view(failures@);
    let mut joined = String::new();
    let mut i: usize = 0;
    while i < failures.len()
        invariant
            fs == texts_view(failures@),
            i <= failures@.len(),
            joined@ == failures_text(fs.take(i as int)),
        decreases failures.len() - i,
    {
        assert(fs.take(i + 1).drop_last() =~= fs.take(i as int));
        if i > 0 {
            joined.append("\n");
        }
        joined.append(failures[i].as_str());
        proof {
            if i == 0 {
                assert(fs.take(1).len() == 1);
            }
        }
        assert(joined@ =~= failures_text(fs.take(i + 1)));
        i = i + 1;
    }
    assert(fs.take(failures@.len() as int) =~= fs);
    let mut body = String::from_str("not delivered.\n");
    body.append(joined.as_str());
    body.append(NOT_DELIVERED_REMEDY);
    (502, body)
}

/// A request that does not pass the door is answered 401 before anything
/// else is done with it.
pub fn door_refusal(expected: &Option<Secret>, authorization: Option<&str>) -> (r: Option<(u16, &'static str)>)
    ensures
        r is Some <==> !door_open_spec(opt_secret_view(*expected), match authorization {
            Some(h) => Some(h@),
            None => None,
        }),
        r matches Some(a) ==> a.0 == 401 && a.1@ == UNAUTHORIZED_TEXT@,
{
    if door_open(expected, authorization) {
        None
    } else {
        Some((401, UNAUTHORIZED_TEXT))
    }
}

/// What became of one message at one profile behind a path.
pub enum ProfileResult {
    Delivered { attempts: u32 },
    Failed { attempts: u32, reason: String },
}

/// What one profile made of a message: the rendering refused it (no
/// attempt was made, the refusal is the reason), or the delivery was tried
/// and landed or failed (the failure listed under the profile's name).
pub open spec fn profile_result_spec(profile: Seq<char>, r: Result<Outcome, RenderError>) -> (bool, u32, Seq<char>) {
    match r {
        Err(e) => (false, 0, e@.message()),
        Ok(o) => match o.result {
            Ok(()) => (true, o.attempts, Seq::empty()),
            Err(d) => (false, o.attempts, failure_text_spec(profile, d@)),
        },
    }
}

pub open spec fn result_view(r: ProfileResult) -> (bool, u32, Seq<char>) {
    match r {
        ProfileResult::Delivered { attempts } => (true, attempts, Seq::empty()),
        ProfileResult::Failed { attempts, reason } => (false, attempts, reason@),
    }
}

pub fn profile_result(profile: &str, r: &Result<Outcome, RenderError>) -> (res: ProfileResult)
    ensures
        result_view(res) == profile_result_spec(profile@, *r),
{
    match r {
        Err(e) => ProfileResult::Failed { attempts: 0, reason: e.to_string() },
        Ok(o) => match &o.result {
            Ok(()) => ProfileResult::Delivered { attempts: o.attempts },
            Err(d) => ProfileResult::Failed { attempts: o.attempts, reason: failure_text(profile, d) },
        },
    }
}

/// A profile counts as delivered exactly when its message rendered and the
/// destination accepted it. A message that did not render was never sent:
/// no attempt, and the rendering's refusal is the reason; a delivery that
/// failed keeps its attempts and names the profile.
pub proof fn lemma_only_an_accepted_delivery_counts(profile: Seq<char>, r: Result<Outcome, RenderError>)
    ensures
        profile_result_spec(profile, r).0 <==> (r is Ok && r->Ok_0.result is Ok),
        r is Err ==> profile_result_spec(profile, r).1 == 0 && profile_result_spec(profile, r).2 == r->Err_0@.message(),
        r is Ok ==> profile_result_spec(profile, r).1 == r->Ok_0.attempts,
        (r is Ok && r->Ok_0.result is Err) ==> profile_result_spec(profile, r).2 == "profile '"@ + profile + "': "@
            + r->Ok_0.result->Err_0@.message(),
{
}

/// The answer to a sender is 200 exactly when no profile behind the path
/// failed, and then says "delivered"; a single failure makes it 502.
pub proof fn lemma_one_failure_fails_the_answer(rs: Seq<ProfileResult>)
    ensures
        answer_spec(failures_of(rs)).0 == 200 <==> forall|i: int| 0 <= i < rs.len() ==> #[trigger] rs[i] is Delivered,
        answer_spec(failures_of(rs)).0 != 200 ==> answer_spec(failures_of(rs)).0 == 502,
{
    lemma_no_failures_iff_all_delivered(rs);
}

/// The reasons of the profiles that did not deliver, in order.
pub open spec fn failures_of(rs: Seq<ProfileResult>) -> Seq<Seq<char>>
    decreases rs.len(),
{
    if rs.len() == 0 {
        Seq::empty()
    } else {
        match rs.last() {
            ProfileResult::Delivered { .. } => failures_of(rs.drop_last()),
            ProfileResult::Failed { reason, .. } => failures_of(rs.drop_last()).push(reason@),
        }
    }
}

proof fn lemma_no_failures_iff_all_delivered(rs: Seq<ProfileResult>)
    ensures
        failures_of(rs).len() == 0 <==> forall|i: int| 0 <= i < rs.len() ==> #[trigger] rs[i] is Delivered,
    decreases rs.len(),
{
    if rs.len() > 0 {
        lemma_no_failures_iff_all_delivered(rs.drop_last());
        assert forall|i: int| 0 <= i < rs.len() - 1 implies #[trigger] rs.drop_last()[i] == rs[i] by {}
        if forall|i: int| 0 <= i < rs.len() ==> #[trigger] rs[i] is Delivered {
            assert(rs[rs.len() - 1] is Delivered);
            assert forall|i: int| 0 <= i < rs.drop_last().len() implies #[trigger] rs.drop_last()[i] is Delivered by {
                assert(rs[i] is Delivered);
            }
        } else {
            let j = choose|i: int| 0 <= i < rs.len() && !(#[trigger] rs[i] is Delivered);
            if j < rs.len() - 1 {
                assert(!(rs.drop_last()[j] is Delivered));
            }
        }
    }
}

/// The answer to a sender once every profile behind the path has had its
/// turn: 200 exactly when every one of them delivered; otherwise 502 with
/// the reason of each one that did not, in order.
pub fn answer_for(results: &Vec<ProfileResult>) -> (r: (u16, String))
    ensures
        (r.0, r.1@) == answer_spec(failures_of(results@)),
        r.0 == 200 <==> forall|i: int| 0 <= i < results@.len() ==> #[trigger] results@[i] is Delivered,
{
    let mut failures: Vec<String> = Vec::new();
    let mut i: usize = 0;
    while i < results.len()
        invariant
            i <= results@.len(),
            texts_view(failures@) == failures_of(results@.take(i as int)),
        decreases results.len() - i,
    {
        assert(results@.take(i + 1).drop_last() =~= results@.take(i as int));
        assert(results@.take(i + 1).last() == results@[i as int]);
        match &results[i] {
            ProfileResult::Delivered { .. } => {},
            ProfileResult::Failed { reason, .. } => {
                let ghost before = failures@;
                failures.push(reason.clone());
                assert(failures@.drop_last() =~= before);
                assert(texts_view(failures@) =~= texts_view(before).push(reason@));
            },
        }
        i = i + 1;
    }
    assert(results@.take(results@.len() as int) =~= results@);
    proof {
        lemma_no_failures_iff_all_delivered(results@);
    }
    answer(&failures)
}

// ── routes ─────────────────────────────────────────────────────────────

/// The inbound routes of a list of profiles: one per distinct path, in the
/// order the paths first appear, each with the positions of every profile
/// behind it, in configuration order.
pub open spec fn routes_spec(ps: Seq<ProfileView>) -> Seq<(Seq<char>, Seq<int>)>
    decreases ps.len(),
{
    if ps.len() == 0 {
        Seq::empty()
    } else {
        let rs = routes_spec(ps.drop_last());
        let k = ps.len() - 1;
        match ps.last().source {
            SourceView::Http { path } => match route_index(rs, path, 0) {
                Some(r) => rs.update(r, (rs[r].0, rs[r].1.push(k))),
                None => rs.push((path, seq![k])),
            },
            SourceView::Kyu { .. } => rs,
        }
    }
}

/// The route of `path`, searching from `from`.
pub open spec fn route_index(rs: Seq<(Seq<char>, Seq<int>)>, path: Seq<char>, from: int) -> Option<int>
    decreases rs.len() - from,
{
    if from < 0 || from >= rs.len() {
        None
    } else if rs[from].0 == path {
        Some(from)
    } else {
        route_index(rs, path, from + 1)
    }
}

pub proof fn lemma_route_index(rs: Seq<(Seq<char>, Seq<int>)>, path: Seq<char>, from: int)
    ensures
        route_index(rs, path, from) matches Some(r) ==> 0 <= r < rs.len() && rs[r].0 == path,
    decreases rs.len() - from,
{
    if 0 <= from < rs.len() && rs[from].0 != path {
        lemma_route_index(rs, path, from + 1);
    }
}

/// The routes split the inbound profiles by path: one route per path,
/// never empty; each profile behind a route reads from that route's path,
/// listed once and in configuration order; and every inbound profile is
/// behind some route.
pub open spec fn routes_partition(ps: Seq<ProfileView>, rs: Seq<(Seq<char>, Seq<int>)>) -> bool {
    &&& forall|a: int, b: int| 0 <= a < b < rs.len() ==> #[trigger] rs[a].0 != #[trigger] rs[b].0
    &&& forall|r: int| 0 <= r < rs.len() ==> #[trigger] rs[r].1.len() > 0
    &&& forall|r: int, i: int|
        0 <= r < rs.len() && 0 <= i < rs[r].1.len() ==> 0 <= #[trigger] rs[r].1[i] < ps.len()
            && ps[rs[r].1[i]].source == (SourceView::Http { path: rs[r].0 })
    &&& forall|r: int, i: int, j: int|
        0 <= r < rs.len() && 0 <= i < j < rs[r].1.len() ==> #[trigger] rs[r].1[i] < #[trigger] rs[r].1[j]
    &&& forall|k: int|
        0 <= k < ps.len() && (#[trigger] ps[k]).source is Http ==> exists|r: int, i: int|
            0 <= r < rs.len() && 0 <= i < rs[r].1.len() && #[trigger] rs[r].1[i] == k
}

proof fn lemma_route_index_none(rs: Seq<(Seq<char>, Seq<int>)>, path: Seq<char>, from: int)
    requires
        0 <= from,
        route_index(rs, path, from) is None,
    ensures
        forall|r: int| from <= r < rs.len() ==> #[trigger] rs[r].0 != path,
    decreases rs.len() - from,
{
    if from < rs.len() {
        lemma_route_index_none(rs, path, from + 1);
    }
}

/// The routes of any profile list partition its inbound profiles by path.
pub proof fn lemma_routes_partition(ps: Seq<ProfileView>)
    ensures
        routes_partition(ps, routes_spec(ps)),
    decreases ps.len(),
{
    if ps.len() > 0 {
        let prev = ps.drop_last();
        lemma_routes_partition(prev);
        let rs = routes_spec(prev);
        let k = ps.len() - 1;
        let out = routes_spec(ps);
        assert forall|m: int| 0 <= m < prev.len() implies #[trigger] prev[m] == ps[m] by {}
        match ps.last().source {
            SourceView::Kyu { .. } => {
                assert(out == rs);
                assert forall|m: int| 0 <= m < ps.len() && (#[trigger] ps[m]).source is Http implies exists|r: int, i: int|
                    0 <= r < out.len() && 0 <= i < out[r].1.len() && #[trigger] out[r].1[i] == m by {
                    assert(prev[m] == ps[m]);
                }
            },
            SourceView::Http { path } => {
                lemma_route_index(rs, path, 0);
                match route_index(rs, path, 0) {
                    Some(q) => {
                        assert(out == rs.update(q, (rs[q].0, rs[q].1.push(k))));
                        assert forall|r: int, i: int|
                            0 <= r < out.len() && 0 <= i < out[r].1.len() implies 0 <= #[trigger] out[r].1[i] < ps.len()
                                && ps[out[r].1[i]].source == (SourceView::Http { path: out[r].0 }) by {
                            if r == q && i == rs[q].1.len() {
                                assert(out[r].1[i] == k);
                            } else {
                                assert(out[r].1[i] == rs[r].1[i]);
                            }
                        }
                        assert forall|r: int, i: int, j: int|
                            0 <= r < out.len() && 0 <= i < j < out[r].1.len() implies #[trigger] out[r].1[i] < #[trigger] out[r].1[j] by {
                            if r == q && j == rs[q].1.len() {
                                assert(out[r].1[j] == k);
                                assert(out[r].1[i] == rs[r].1[i]);
                            } else {
                                assert(out[r].1[i] == rs[r].1[i] && out[r].1[j] == rs[r].1[j]);
                            }
                        }
                        assert forall|m: int| 0 <= m < ps.len() && (#[trigger] ps[m]).source is Http implies exists|r: int, i: int|
                            0 <= r < out.len() && 0 <= i < out[r].1.len() && #[trigger] out[r].1[i] == m by {
                            if m == k {
                                assert(out[q].1[rs[q].1.len() as int] == k);
                            } else {
                                assert(prev[m] == ps[m]);
                                let (r, i) = choose|r: int, i: int| 0 <= r < rs.len() && 0 <= i < rs[r].1.len() && #[trigger] rs[r].1[i] == m;
                                assert(out[r].1[i] == rs[r].1[i]);
                            }
                        }
                        assert forall|a: int, b: int| 0 <= a < b < out.len() implies #[trigger] out[a].0 != #[trigger] out[b].0 by {
                            assert(out[a].0 == rs[a].0 && out[b].0 == rs[b].0);
                        }
                        assert forall|r: int| 0 <= r < out.len() implies #[trigger] out[r].1.len() > 0 by {
                            assert(out[r].1.len() >= rs[r].1.len());
                        }
                    },
                    None => {
                        lemma_route_index_none(rs, path, 0);
                        assert(out == rs.push((path, seq![k])));
                        assert forall|r: int, i: int|
                            0 <= r < out.len() && 0 <= i < out[r].1.len() implies 0 <= #[trigger] out[r].1[i] < ps.len()
                                && ps[out[r].1[i]].source == (SourceView::Http { path: out[r].0 }) by {
                            if r < rs.len() {
                                assert(out[r] == rs[r]);
                            }
                        }
                        assert forall|r: int, i: int, j: int|
                            0 <= r < out.len() && 0 <= i < j < out[r].1.len() implies #[trigger] out[r].1[i] < #[trigger] out[r].1[j] by {
                            if r < rs.len() {
                                assert(out[r] == rs[r]);
                            }
                        }
                        assert forall|m: int| 0 <= m < ps.len() && (#[trigger] ps[m]).source is Http implies exists|r: int, i: int|
                            0 <= r < out.len() && 0 <= i < out[r].1.len() && #[trigger] out[r].1[i] == m by {
                            if m == k {
                                assert(out[rs.len() as int].1[0] == k);
                            } else {
                                assert(prev[m] == ps[m]);
                                let (r, i) = choose|r: int, i: int| 0 <= r < rs.len() && 0 <= i < rs[r].1.len() && #[trigger] rs[r].1[i] == m;
                                assert(out[r] == rs[r]);
                                assert(out[r].1[i] == m);
                            }
                        }
                        assert forall|a: int, b: int| 0 <= a < b < out.len() implies #[trigger] out[a].0 != #[trigger] out[b].0 by {
                            if b < rs.len() {
                                assert(out[a] == rs[a] && out[b] == rs[b]);
                            } else {
                                assert(out[a] == rs[a]);
                            }
                        }
                        assert forall|r: int| 0 <= r < out.len() implies #[trigger] out[r].1.len() > 0 by {
                            if r < rs.len() {
                                assert(out[r] == rs[r]);
                            }
                        }
                    },
                }
            },
        }
    }
}

/// One path is one door: in a configuration that loaded, every profile
/// behind a route expects the token of the route's first profile, so the
/// door checked once per request with that token is the door of every
/// profile behind the path.
pub proof fn lemma_one_path_one_door(c: ConfigView, r: int, i: int)
    requires
        config_keeps_rules(c),
        0 <= r < routes_spec(c.profiles).len(),
        0 <= i < routes_spec(c.profiles)[r].1.len(),
    ensures
        c.profiles[routes_spec(c.profiles)[r].1[i]].inbound_token
            == c.profiles[routes_spec(c.profiles)[r].1[0]].inbound_token,
{
    let rs = routes_spec(c.profiles);
    lemma_routes_partition(c.profiles);
    let a = rs[r].1[i];
    let b = rs[r].1[0];
    assert(0 <= a < c.profiles.len() && 0 <= b < c.profiles.len());
    assert(!doors_disagree(c.profiles[a], c.profiles[b]));
}

pub open spec fn routes_view(v: Seq<(String, Vec<usize>)>) -> Seq<(Seq<char>, Seq<int>)> {
    v.map_values(|r: (String, Vec<usize>)| (r.0@, r.1@.map_values(|k: usize| k as int)))
}

fn find_route(out: &Vec<(String, Vec<usize>)>, path: &str) -> (r: Option<usize>)
    ensures
        match r {
            Some(i) => route_index(routes_view(out@), path@, 0) == Some(i as int) && i < out@.len(),
            None => route_index(routes_view(out@), path@, 0) is None,
        },
{
    let ghost rv = routes_view(out@);
    let mut r: usize = 0;
    while r < out.len()
        invariant
            rv == routes_view(out@),
            r <= out@.len(),
            route_index(rv, path@, 0) == route_index(rv, path@, r as int),
        decreases out.len() - r,
    {
        assert(rv[r as int].0 == out@[r as int].0@);
        if same_text(out[r].0.as_str(), path) {
            return Some(r);
        }
        r = r + 1;
    }
    None
}

/// The inbound routes of `config`; see `routes_spec`.
pub fn routes(config: &Config) -> (r: Vec<(String, Vec<usize>)>)
    ensures
        routes_view(r@) == routes_spec(profiles_view(config.profiles@)),
{
    let ghost ps = profiles_view(config.profiles@);
    let mut out: Vec<(String, Vec<usize>)> = Vec::new();
    let mut k: usize = 0;
    assert(ps.take(0) =~= Seq::<ProfileView>::empty());
    assert(routes_view(out@) =~= Seq::<(Seq<char>, Seq<int>)>::empty());
    while k < config.profiles.len()
        invariant
            ps == profiles_view(config.profiles@),
            k <= config.profiles@.len(),
            routes_view(out@) == routes_spec(ps.take(k as int)),
        decreases config.profiles.len() - k,
    {
        assert(ps.take(k + 1).drop_last() =~= ps.take(k as int));
        assert(ps.take(k + 1).last() == config.profiles@[k as int]@);
        if let Source::Http { path } = &config.profiles[k].source {
            let ghost rv = routes_view(out@);
            proof {
                lemma_route_index(rv, path@, 0);
            }
            match find_route(&out, path.as_str()) {
                Some(r) => {
                    let mut entry = out[r].1.clone();
                    let ghost old_entry = entry@;
                    entry.push(k);
                    let name = out[r].0.clone();
                    out.set(r, (name, entry));
                    assert(entry@.map_values(|x: usize| x as int) =~= old_entry.map_values(|x: usize| x as int).push(k as int));
                    assert(routes_view(out@) =~= rv.update(r as int, (rv[r as int].0, rv[r as int].1.push(k as int))));
                },
                None => {
                    let mut entry: Vec<usize> = Vec::new();
                    entry.push(k);
                    assert(entry@.map_values(|x: usize| x as int) =~= seq![k as int]);
                    let ghost before = out@;
                    out.push((path.clone(), entry));
                    assert(out@.drop_last() =~= before);
                    assert(routes_view(out@) =~= rv.push((path@, seq![k as int])));
                },
            }
        }
        k = k + 1;
    }
    assert(ps.take(config.profiles@.len() as int) =~= ps);
    out
}

} // verus!
