//! What this service puts on its status page: a Profiles section with one
//! row per profile — its state, where it reads from, where it delivers to
//! and its counters — and the route of the button that puts every
//! profile back to `starting`.

use vstd::prelude::*;
use crate::config::{Config, ProfileView, SinkView, SourceView, Sink, Source, profiles_view};
use crate::obs::{Registry, find, lemma_find_from, Entries, ProfileStats, all_restarted};
use crate::pump::Health;
use crate::text::{chars_of, decimal, decimal_string, string_of, sub_chars};
use crate::translate::index_from;

verus! {

/// The route the Recheck button posts to.
pub const RECHECK_ROUTE: &'static str = "/profiles/recheck";

pub const SECTION_TITLE: &'static str = "Profiles";

pub const SECTION_EXPLAIN: &'static str = "One profile is one source, one translation and one destination. A profile is 'starting' until a message has gone through it, and goes back to 'working' the moment one does.";

pub const RECHECK_LABEL: &'static str = "Recheck profiles";

pub const RECHECK_BUSY_LABEL: &'static str = "Rechecking…";

/// A destination URL on a status page, without its path: the path of a
/// webhook is the credential.
pub open spec fn shorten_spec(url: Seq<char>) -> Seq<char> {
    match index_from("://"@, url, 0) {
        None => url,
        Some(i) => {
            let rest = url.subrange(i + 3, url.len() as int);
            let host = match index_from(seq!['/'], rest, 0) {
                Some(j) => rest.subrange(0, j),
                None => rest,
            };
            url.subrange(0, i) + "://"@ + host + "/…"@
        },
    }
}

fn find_chars(hay: &Vec<char>, needle: &Vec<char>) -> (r: Option<usize>)
    ensures
        match r {
            Some(i) => index_from(needle@, hay@, 0) == Some(i as int) && i + needle@.len() <= hay@.len(),
            None => index_from(needle@, hay@, 0) is None,
        },
{
    if needle.len() > hay.len() {
        return None;
    }
    let last = hay.len() - needle.len();
    let mut at: usize = 0;
    loop
        invariant
            last == hay.len() - needle.len(),
            needle.len() <= hay.len(),
            at <= last,
            index_from(needle@, hay@, 0) == index_from(needle@, hay@, at as int),
        decreases last - at,
    {
        let cand = sub_chars(hay, at, at + needle.len());
        if crate::text::starts_with(&cand, needle) && cand.len() == needle.len() {
            assert(cand@ =~= needle@);
            return Some(at);
        }
        if at == last {
            assert(index_from(needle@, hay@, at + 1) is None);
            return None;
        }
        at = at + 1;
    }
}

/// The URL without its path.
pub fn shorten(url: &str) -> (r: String)
    ensures
        r@ == shorten_spec(url@),
{
    let cs = chars_of(url);
    let sep = chars_of("://");
    assert("://"@.len() == 3) by {
        reveal_strlit("://");
    }
    match find_chars(&cs, &sep) {
        None => url.to_owned(),
        Some(i) => {
            let n = cs.len();
            assert(i + 3 <= n);
            let rest = sub_chars(&cs, i + 3, n);
            let mut slash: Vec<char> = Vec::new();
            slash.push('/');
            assert(slash@ =~= seq!['/']);
            let host = match find_chars(&rest, &slash) {
                Some(j) => sub_chars(&rest, 0, j),
                None => {
                    assert(rest@.subrange(0, rest@.len() as int) =~= rest@);
                    sub_chars(&rest, 0, rest.len())
                },
            };
            let mut out = string_of(&sub_chars(&cs, 0, i));
            out.append("://");
            out.append(string_of(&host).as_str());
            out.append("/…");
            out
        },
    }
}

/// Where a profile reads from and delivers to, in one line.
pub open spec fn shape_spec(p: ProfileView) -> Seq<char> {
    (match p.source {
        SourceView::Http { path } => "POST "@ + path,
        SourceView::Kyu { topic } => "kyu topic "@ + topic,
    }) + " → "@ + match p.sink {
        SinkView::Url { url, .. } => shorten_spec(url),
        SinkView::Kyu { topic } => "kyu topic "@ + topic,
    }
}

/// The Profiles section: each profile's name and shape, in configuration
/// order. The shape of a profile never changes while the service runs, so
/// it is read once.
pub struct Profiles {
    pub shapes: Vec<(String, String)>,
}

pub open spec fn shapes_view(v: Seq<(String, String)>) -> Seq<(Seq<char>, Seq<char>)> {
    v.map_values(|e: (String, String)| (e.0@, e.1@))
}

impl Profiles {
    pub fn new(config: &Config) -> (r: Self)
        ensures
            shapes_view(r.shapes@) == profiles_view(config.profiles@).map_values(
                |p: ProfileView| (p.name, shape_spec(p)),
            ),
    {
        let ghost ps = profiles_view(config.profiles@);
        let mut shapes: Vec<(String, String)> = Vec::new();
        let mut k: usize = 0;
        while k < config.profiles.len()
            invariant
                ps == profiles_view(config.profiles@),
                k <= config.profiles@.len(),
                shapes_view(shapes@) =~= ps.take(k as int).map_values(
                    |p: ProfileView| (p.name, shape_spec(p)),
                ),
            decreases config.profiles.len() - k,
        {
            let p = &config.profiles[k];
            assert(ps[k as int] == p@);
            let mut line = match &p.source {
                Source::Http { path } => {
                    let mut m = String::from_str("POST ");
                    m.append(path.as_str());
                    m
                },
                Source::Kyu { topic } => {
                    let mut m = String::from_str("kyu topic ");
                    m.append(topic.as_str());
                    m
                },
            };
            line.append(" → ");
            match &p.sink {
                Sink::Url { url, .. } => line.append(shorten(url.as_str()).as_str()),
                Sink::Kyu { topic } => {
                    line.append("kyu topic ");
                    line.append(topic.as_str());
                },
            }
            assert(line@ =~= shape_spec(p@));
            let ghost before = shapes@;
            shapes.push((p.name.clone(), line));
            assert(shapes@.drop_last() =~= before);
            assert(shapes_view(shapes@) =~= shapes_view(before).push((p@.name, shape_spec(p@))));
            assert(ps.take(k + 1) =~= ps.take(k as int).push(ps[k as int]));
            k = k + 1;
        }
        assert(ps.take(config.profiles@.len() as int) =~= ps);
        Profiles { shapes }
    }
}

/// How the status page names a profile's state.
pub open spec fn row_state(h: Option<Health>) -> Seq<char> {
    match h {
        None => "starting"@,
        Some(Health::Starting) => "starting"@,
        Some(Health::Working) => "working"@,
        Some(Health::Failing) => "failing"@,
        Some(Health::Denied) => "denied — the hub refused our credentials"@,
        Some(Health::HubDown) => "hub-down — the hub could not be reached"@,
    }
}

/// One row: the profile's state, its shape and its counters.
pub open spec fn row_text(shape: Seq<char>, stats: Option<ProfileStats>) -> Seq<char> {
    let (h, delivered, failed) = match stats {
        Some(s) => (s.health, s.delivered, s.failed),
        None => (None, 0u64, 0u64),
    };
    row_state(h) + " · "@ + shape + " · "@ + decimal(delivered as nat) + " delivered, "@
        + decimal(failed as nat) + " failed"@
}

pub open spec fn stats_of(es: Entries, name: Seq<char>) -> Option<ProfileStats> {
    match find(es, name) {
        Some(i) => Some(es[i].1),
        None => None,
    }
}

fn row_state_exec(h: Option<Health>) -> (r: &'static str)
    ensures
        r@ == row_state(h),
{
    match h {
        None => "starting",
        Some(Health::Starting) => "starting",
        Some(Health::Working) => "working",
        Some(Health::Failing) => "failing",
        Some(Health::Denied) => "denied — the hub refused our credentials",
        Some(Health::HubDown) => "hub-down — the hub could not be reached",
    }
}

impl Profiles {
    /// The rows of the section as `registry` remembers the profiles now:
    /// the profile's name, and its state, shape and counters.
    pub fn rows(&self, registry: &Registry) -> (r: Vec<(String, String)>)
        ensures
            r@.len() == self.shapes@.len(),
            forall|i: int|
                0 <= i < r@.len() ==> (#[trigger] r@[i]).0@ == self.shapes@[i].0@ && r@[i].1@
                    == row_text(self.shapes@[i].1@, stats_of(registry@, self.shapes@[i].0@)),
    {
        let snapshot = registry.snapshot();
        let mut out: Vec<(String, String)> = Vec::new();
        let mut k: usize = 0;
        while k < self.shapes.len()
            invariant
                k <= self.shapes@.len(),
                out@.len() == k,
                crate::obs::entries_view(snapshot@) == registry@,
                forall|i: int|
                    0 <= i < k ==> (#[trigger] out@[i]).0@ == self.shapes@[i].0@ && out@[i].1@
                        == row_text(self.shapes@[i].1@, stats_of(registry@, self.shapes@[i].0@)),
            decreases self.shapes.len() - k,
        {
            let name = &self.shapes[k].0;
            let stats = lookup(&snapshot, name.as_str());
            let (h, delivered, failed) = match stats {
                Some(s) => (s.health, s.delivered, s.failed),
                None => (None, 0u64, 0u64),
            };
            let mut text = String::from_str(row_state_exec(h));
            text.append(" · ");
            text.append(self.shapes[k].1.as_str());
            text.append(" · ");
            text.append(decimal_string(delivered).as_str());
            text.append(" delivered, ");
            text.append(decimal_string(failed).as_str());
            text.append(" failed");
            out.push((name.clone(), text));
            k = k + 1;
        }
        out
    }
}

fn lookup(snapshot: &Vec<(String, ProfileStats)>, name: &str) -> (r: Option<ProfileStats>)
    ensures
        r == stats_of(crate::obs::entries_view(snapshot@), name@),
{
    let ghost es = crate::obs::entries_view(snapshot@);
    proof {
        lemma_find_from(es, name@, 0);
    }
    let mut i: usize = 0;
    while i < snapshot.len()
        invariant
            es == crate::obs::entries_view(snapshot@),
            i <= snapshot@.len(),
            find(es, name@) == crate::obs::find_from(es, name@, i as int),
        decreases snapshot.len() - i,
    {
        assert(es[i as int] == (snapshot@[i as int].0@, snapshot@[i as int].1));
        if crate::text::same_text(snapshot[i].0.as_str(), name) {
            return Some(snapshot[i].1);
        }
        i = i + 1;
    }
    None
}

// ── the Recheck button ─────────────────────────────────────────────────

/// A profile's row ends with its own counters: the registry's delivered
/// count before " delivered, " and its failed count before " failed"; a
/// profile the registry does not know yet shows zero of each.
pub proof fn lemma_a_row_shows_the_counters(shape: Seq<char>, stats: Option<ProfileStats>)
    ensures
        ({
            let tail = match stats {
                Some(s) => " · "@ + decimal(s.delivered as nat) + " delivered, "@ + decimal(s.failed as nat) + " failed"@,
                None => " · "@ + decimal(0) + " delivered, "@ + decimal(0) + " failed"@,
            };
            tail.is_suffix_of(row_text(shape, stats))
        }),
{
    let (h, delivered, failed) = match stats {
        Some(s) => (s.health, s.delivered, s.failed),
        None => (None, 0u64, 0u64),
    };
    let head = row_state(h) + " · "@ + shape;
    let tail = " · "@ + decimal(delivered as nat) + " delivered, "@ + decimal(failed as nat) + " failed"@;
    assert(row_text(shape, stats) =~= head + tail);
    assert((head + tail).subrange(head.len() as int, (head + tail).len() as int) =~= tail);
}

/// What the operator's log line says after a recheck of `n` profiles.
pub open spec fn recheck_detail(n: nat) -> Seq<char> {
    "an operator reset the remembered health of "@ + decimal(n) + " profile(s) from the dashboard"@
}

/// What the button's route answers: how many profiles were rechecked.
pub open spec fn recheck_body(n: nat) -> Seq<char> {
    "{\"rechecked\":"@ + decimal(n) + "}"@
}

/// The Recheck button: clears every remembered failure, so a profile
/// nobody posts to stops reporting an outage that is over. Returns the
/// detail for the log line and the JSON body of the answer.
pub fn recheck(registry: &mut Registry) -> (r: (String, String))
    ensures
        final(registry)@ == all_restarted(old(registry)@),
        r.0@ == recheck_detail(old(registry)@.len()),
        r.1@ == recheck_body(old(registry)@.len()),
{
    let reset = registry.reset_health();
    let n = decimal_string(reset as u64);
    let mut detail = String::from_str("an operator reset the remembered health of ");
    detail.append(n.as_str());
    detail.append(" profile(s) from the dashboard");
    let mut body = String::from_str("{\"rechecked\":");
    body.append(n.as_str());
    body.append("}");
    (detail, body)
}

} // verus!
