//! Health, metrics and structured log lines.
//!
//! One fact, modelled once: a profile's state is the same thing `/healthz`
//! reports, the log line records and the self-report event announces.
//! Everything here answers from counters only — no payloads, no header
//! values, nothing that could carry a secret into a scrape.

use vstd::prelude::*;
use crate::pump::Health;
use crate::text::{chars_of, decimal, decimal_string, json_quote, json_string_literal, same_text};

verus! {

#[derive(Debug, Clone, Copy)]
pub struct ProfileStats {
    pub received: u64,
    pub delivered: u64,
    pub failed: u64,
    pub duration_ms_total: u64,
    pub last_success_unix: Option<u64>,
    pub health: Option<Health>,
}

/// Nothing counted yet, no health known.
pub open spec fn empty_stats() -> ProfileStats {
    ProfileStats {
        received: 0,
        delivered: 0,
        failed: 0,
        duration_ms_total: 0,
        last_success_unix: None,
        health: None,
    }
}

impl Default for ProfileStats {
    fn default() -> (r: Self)
        ensures
            r == empty_stats(),
    {
        ProfileStats {
            received: 0,
            delivered: 0,
            failed: 0,
            duration_ms_total: 0,
            last_success_unix: None,
            health: None,
        }
    }
}

pub type Entries = Seq<(Seq<char>, ProfileStats)>;

/// Byte order of UTF-8 text, which is the order of its characters: the
/// order in which profiles are listed.
pub open spec fn lex_lt(a: Seq<char>, b: Seq<char>) -> bool
    decreases a.len(),
{
    if a.len() == 0 {
        b.len() > 0
    } else if b.len() == 0 {
        false
    } else if a[0] != b[0] {
        a[0] < b[0]
    } else {
        lex_lt(a.drop_first(), b.drop_first())
    }
}

/// The first entry for `name`, searching from `from`.
pub open spec fn find_from(es: Entries, name: Seq<char>, from: int) -> Option<int>
    decreases es.len() - from,
{
    if from < 0 || from >= es.len() {
        None
    } else if es[from].0 == name {
        Some(from)
    } else {
        find_from(es, name, from + 1)
    }
}

pub open spec fn find(es: Entries, name: Seq<char>) -> Option<int> {
    find_from(es, name, 0)
}

pub proof fn lemma_find_from(es: Entries, name: Seq<char>, from: int)
    ensures
        find_from(es, name, from) matches Some(i) ==> 0 <= i < es.len() && es[i].0 == name,
    decreases es.len() - from,
{
    if 0 <= from < es.len() && es[from].0 != name {
        lemma_find_from(es, name, from + 1);
    }
}

pub proof fn lemma_insert_from(es: Entries, name: Seq<char>, from: int)
    requires
        0 <= from,
    ensures
        from <= insert_from(es, name, from) <= es.len() || (from > es.len() && insert_from(es, name, from) == es.len()),
    decreases es.len() - from,
{
    if from < es.len() && lex_lt(es[from].0, name) {
        lemma_insert_from(es, name, from + 1);
    }
}

/// Where a new name goes: before the first entry that does not sort
/// below it.
pub open spec fn insert_from(es: Entries, name: Seq<char>, from: int) -> int
    decreases es.len() - from,
{
    if from < 0 || from >= es.len() {
        es.len() as int
    } else if !lex_lt(es[from].0, name) {
        from
    } else {
        insert_from(es, name, from + 1)
    }
}

/// The entries once `name` is known, at its place in name order.
pub open spec fn registered(es: Entries, name: Seq<char>) -> Entries {
    match find(es, name) {
        Some(_) => es,
        None => es.insert(insert_from(es, name, 0), (name, empty_stats())),
    }
}

/// Where `name`'s entry is once it is registered.
pub open spec fn slot(es: Entries, name: Seq<char>) -> int {
    match find(es, name) {
        Some(i) => i,
        None => insert_from(es, name, 0),
    }
}

/// One message counted.
pub open spec fn bumped(s: ProfileStats, delivered: bool, duration_ms: u64, now: u64) -> ProfileStats {
    ProfileStats {
        received: (s.received + 1) as u64,
        duration_ms_total: (s.duration_ms_total + duration_ms) as u64,
        delivered: if delivered { (s.delivered + 1) as u64 } else { s.delivered },
        failed: if delivered { s.failed } else { (s.failed + 1) as u64 },
        last_success_unix: if delivered { Some(now) } else { s.last_success_unix },
        ..s
    }
}

pub open spec fn recorded(es: Entries, name: Seq<char>, delivered: bool, duration_ms: u64, now: u64) -> Entries {
    let r = registered(es, name);
    let i = slot(es, name);
    r.update(i, (name, bumped(r[i].1, delivered, duration_ms, now)))
}

/// The counters of `name` have room for one more message.
pub open spec fn can_record_spec(es: Entries, name: Seq<char>, duration_ms: u64) -> bool {
    match find(es, name) {
        None => true,
        Some(i) => {
            let s = es[i].1;
            s.received < u64::MAX && s.delivered < u64::MAX && s.failed < u64::MAX
                && s.duration_ms_total + duration_ms <= u64::MAX
        },
    }
}

pub open spec fn with_health(es: Entries, name: Seq<char>, health: Health) -> Entries {
    let r = registered(es, name);
    let i = slot(es, name);
    r.update(i, (name, ProfileStats { health: Some(health), ..r[i].1 }))
}

pub open spec fn health_in(es: Entries, name: Seq<char>) -> Option<Health> {
    match find(es, name) {
        Some(i) => es[i].1.health,
        None => None,
    }
}

/// Every profile's remembered health put back to `Starting`.
pub open spec fn all_restarted(es: Entries) -> Entries {
    es.map_values(|e: (Seq<char>, ProfileStats)| (e.0, ProfileStats { health: Some(Health::Starting), ..e.1 }))
}

// ── what every operation keeps ─────────────────────────────────────────

/// Names in strictly increasing order, so every profile has one entry.
pub open spec fn names_sorted(es: Entries) -> bool {
    forall|i: int, j: int| 0 <= i < j < es.len() ==> lex_lt(#[trigger] es[i].0, #[trigger] es[j].0)
}

/// Every message taken in was either delivered or failed.
pub open spec fn counts_balance(es: Entries) -> bool {
    forall|i: int| 0 <= i < es.len() ==> #[trigger] es[i].1.received == es[i].1.delivered + es[i].1.failed
}

pub open spec fn registry_keeps(es: Entries) -> bool {
    names_sorted(es) && counts_balance(es)
}

proof fn lemma_lex_irreflexive(a: Seq<char>)
    ensures
        !lex_lt(a, a),
    decreases a.len(),
{
    if a.len() > 0 {
        lemma_lex_irreflexive(a.drop_first());
    }
}

proof fn lemma_lex_transitive(a: Seq<char>, b: Seq<char>, c: Seq<char>)
    requires
        lex_lt(a, b),
        lex_lt(b, c),
    ensures
        lex_lt(a, c),
    decreases a.len(),
{
    if a.len() > 0 && b.len() > 0 && c.len() > 0 && a[0] == b[0] && b[0] == c[0] {
        lemma_lex_transitive(a.drop_first(), b.drop_first(), c.drop_first());
    }
}

proof fn lemma_lex_total(a: Seq<char>, b: Seq<char>)
    requires
        a != b,
    ensures
        lex_lt(a, b) || lex_lt(b, a),
    decreases a.len(),
{
    if a.len() > 0 && b.len() > 0 && a[0] == b[0] {
        if a.drop_first() == b.drop_first() {
            assert(a =~= seq![a[0]] + a.drop_first());
            assert(b =~= seq![b[0]] + b.drop_first());
        }
        lemma_lex_total(a.drop_first(), b.drop_first());
    } else if a.len() == 0 && b.len() == 0 {
        assert(a =~= b);
    }
}

proof fn lemma_find_none(es: Entries, name: Seq<char>, from: int)
    requires
        0 <= from,
        find_from(es, name, from) is None,
    ensures
        forall|i: int| from <= i < es.len() ==> #[trigger] es[i].0 != name,
    decreases es.len() - from,
{
    if from < es.len() {
        lemma_find_none(es, name, from + 1);
    }
}

proof fn lemma_insert_below(es: Entries, name: Seq<char>, from: int)
    requires
        0 <= from,
    ensures
        forall|i: int| from <= i < insert_from(es, name, from) && i < es.len() ==> lex_lt(#[trigger] es[i].0, name),
        insert_from(es, name, from) < es.len() ==> !lex_lt(es[insert_from(es, name, from)].0, name),
    decreases es.len() - from,
{
    if from < es.len() && lex_lt(es[from].0, name) {
        lemma_insert_below(es, name, from + 1);
    }
}

proof fn lemma_registered_keeps(es: Entries, name: Seq<char>)
    requires
        registry_keeps(es),
    ensures
        registry_keeps(registered(es, name)),
        registered(es, name).len() >= es.len(),
        0 <= slot(es, name) < registered(es, name).len(),
        registered(es, name)[slot(es, name)].0 == name,
        forall|i: int| 0 <= i < registered(es, name).len() && i != slot(es, name) ==>
            #[trigger] registered(es, name)[i].1.received == registered(es, name)[i].1.delivered
                + registered(es, name)[i].1.failed,
{
    lemma_find_from(es, name, 0);
    if find(es, name) is None {
        let k = insert_from(es, name, 0);
        lemma_insert_from(es, name, 0);
        lemma_insert_below(es, name, 0);
        lemma_find_none(es, name, 0);
        let r = es.insert(k, (name, empty_stats()));
        if k < es.len() {
            lemma_lex_total(name, es[k].0);
        }
        assert forall|i: int, j: int| 0 <= i < j < r.len() implies lex_lt(#[trigger] r[i].0, #[trigger] r[j].0) by {
            if j < k {
                assert(r[i] == es[i] && r[j] == es[j]);
            } else if j == k {
                assert(r[i] == es[i]);
            } else if i < k {
                assert(r[i] == es[i] && r[j] == es[j - 1]);
                assert(lex_lt(es[k].0, name) == false);
                if j - 1 > k {
                    lemma_lex_transitive(name, es[k].0, es[j - 1].0);
                }
                lemma_lex_transitive(es[i].0, name, es[j - 1].0);
            } else if i == k {
                assert(r[j] == es[j - 1]);
                if j - 1 > k {
                    lemma_lex_transitive(name, es[k].0, es[j - 1].0);
                }
            } else {
                assert(r[i] == es[i - 1] && r[j] == es[j - 1]);
            }
        }
        assert forall|i: int| 0 <= i < r.len() implies #[trigger] r[i].1.received == r[i].1.delivered + r[i].1.failed by {
            if i < k {
                assert(r[i] == es[i]);
            } else if i > k {
                assert(r[i] == es[i - 1]);
            }
        }
    }
}

proof fn lemma_find_some(es: Entries, name: Seq<char>, from: int, i: int)
    requires
        0 <= from <= i < es.len(),
        es[i].0 == name,
    ensures
        find_from(es, name, from) is Some,
    decreases i - from,
{
    if es[from].0 != name {
        lemma_find_some(es, name, from + 1, i);
    }
}

/// Registering a profile twice is registering it once, and it never
/// changes an entry that is already there: a known profile keeps its
/// counters and its health, and every earlier entry is still listed.
pub proof fn lemma_register_twice_is_once(es: Entries, name: Seq<char>)
    ensures
        registered(registered(es, name), name) == registered(es, name),
        find(es, name) is Some ==> registered(es, name) == es,
        forall|i: int| 0 <= i < es.len() ==> registered(es, name).contains(#[trigger] es[i]),
{
    let r = registered(es, name);
    if find(es, name) is None {
        let k = insert_from(es, name, 0);
        lemma_insert_from(es, name, 0);
        assert(r[k].0 == name);
        lemma_find_some(r, name, 0, k);
        assert forall|i: int| 0 <= i < es.len() implies r.contains(#[trigger] es[i]) by {
            if i < k {
                assert(r[i] == es[i]);
            } else {
                assert(r[i + 1] == es[i]);
            }
        }
    } else {
        assert forall|i: int| 0 <= i < es.len() implies r.contains(#[trigger] es[i]) by {
            assert(r[i] == es[i]);
        }
    }
}

/// The registry's entries stay in name order, one per profile, and every
/// message counted is counted as delivered or as failed, whatever is done
/// to them: registering a profile, counting a message (when the counters
/// have room), setting a health, or putting every profile back to
/// starting. A new registry has no entries.
pub proof fn lemma_every_operation_keeps_the_registry(es: Entries, name: Seq<char>, delivered: bool, duration_ms: u64, now: u64, health: Health)
    requires
        registry_keeps(es),
    ensures
        registry_keeps(Seq::<(Seq<char>, ProfileStats)>::empty()),
        registry_keeps(registered(es, name)),
        can_record_spec(es, name, duration_ms) ==> registry_keeps(recorded(es, name, delivered, duration_ms, now)),
        registry_keeps(with_health(es, name, health)),
        registry_keeps(all_restarted(es)),
{
    lemma_registered_keeps(es, name);
    let r = registered(es, name);
    let k = slot(es, name);
    let rec = recorded(es, name, delivered, duration_ms, now);
    assert forall|i: int, j: int| 0 <= i < j < rec.len() implies lex_lt(#[trigger] rec[i].0, #[trigger] rec[j].0) by {
        assert(rec[i].0 == r[i].0 && rec[j].0 == r[j].0);
    }
    if can_record_spec(es, name, duration_ms) {
        lemma_find_from(es, name, 0);
        assert(r[k].1.received == r[k].1.delivered + r[k].1.failed);
        if find(es, name) is None {
            lemma_insert_from(es, name, 0);
            assert(r[k].1 == empty_stats());
        } else {
            assert(r == es);
            assert(r[k].1.received < u64::MAX);
            assert(r[k].1.delivered < u64::MAX && r[k].1.failed < u64::MAX);
        }
        assert(rec[k].1 == bumped(r[k].1, delivered, duration_ms, now));
        assert forall|i: int| 0 <= i < rec.len() implies #[trigger] rec[i].1.received == rec[i].1.delivered + rec[i].1.failed by {
            if i != k {
                assert(rec[i] == r[i]);
            }
        }
    }
    let h = with_health(es, name, health);
    assert forall|i: int, j: int| 0 <= i < j < h.len() implies lex_lt(#[trigger] h[i].0, #[trigger] h[j].0) by {
        assert(h[i].0 == r[i].0 && h[j].0 == r[j].0);
    }
    assert forall|i: int| 0 <= i < h.len() implies #[trigger] h[i].1.received == h[i].1.delivered + h[i].1.failed by {
        if i != k {
            assert(h[i] == r[i]);
        }
    }
    let a = all_restarted(es);
    assert forall|i: int, j: int| 0 <= i < j < a.len() implies lex_lt(#[trigger] a[i].0, #[trigger] a[j].0) by {
        assert(a[i].0 == es[i].0 && a[j].0 == es[j].0);
    }
    assert forall|i: int| 0 <= i < a.len() implies #[trigger] a[i].1.received == a[i].1.delivered + a[i].1.failed by {
        assert(a[i].1.received == es[i].1.received);
    }
}

/// Everything the endpoints answer from.
pub struct Registry {
    profiles: Vec<(String, ProfileStats)>,
}

pub open spec fn entries_view(v: Seq<(String, ProfileStats)>) -> Entries {
    v.map_values(|e: (String, ProfileStats)| (e.0@, e.1))
}

impl View for Registry {
    type V = Entries;

    closed spec fn view(&self) -> Entries {
        entries_view(self.profiles@)
    }
}

fn lex_less(a: &[char], b: &[char]) -> (r: bool)
    ensures
        r == lex_lt(a@, b@),
{
    let mut i: usize = 0;
    assert(a@.skip(0) =~= a@);
    assert(b@.skip(0) =~= b@);
    while i < a.len() && i < b.len() && a[i] == b[i]
        invariant
            i <= a@.len(),
            i <= b@.len(),
            lex_lt(a@, b@) == lex_lt(a@.skip(i as int), b@.skip(i as int)),
        decreases a.len() - i,
    {
        assert(a@.skip(i as int).drop_first() =~= a@.skip(i + 1));
        assert(b@.skip(i as int).drop_first() =~= b@.skip(i + 1));
        i = i + 1;
    }
    if i == a.len() {
        assert(a@.skip(i as int).len() == 0);
        i < b.len()
    } else if i == b.len() {
        false
    } else {
        assert(a@.skip(i as int)[0] == a@[i as int]);
        assert(b@.skip(i as int)[0] == b@[i as int]);
        a[i] < b[i]
    }
}

impl Registry {
    /// The entries are in name order, one per profile, and every message
    /// counted was counted as delivered or as failed.
    #[verifier::type_invariant]
    spec fn well_formed(self) -> bool {
        registry_keeps(entries_view(self.profiles@))
    }

    /// Takes the entries out, leaving none behind.
    fn take_entries(&mut self) -> (r: Vec<(String, ProfileStats)>)
        ensures
            entries_view(r@) == old(self)@,
            registry_keeps(entries_view(r@)),
            final(self)@.len() == 0,
    {
        proof {
            use_type_invariant(&*self);
        }
        let mut v: Vec<(String, ProfileStats)> = Vec::new();
        std::mem::swap(&mut v, &mut self.profiles);
        v
    }

    /// Puts entries that keep the registry's order and counts back in.
    fn put_entries(&mut self, v: Vec<(String, ProfileStats)>)
        requires
            registry_keeps(entries_view(v@)),
        ensures
            final(self)@ == entries_view(v@),
    {
        self.profiles = v;
    }

    pub fn new() -> (r: Self)
        ensures
            r@ == Seq::<(Seq<char>, ProfileStats)>::empty(),
    {
        let r = Registry { profiles: Vec::new() };
        assert(r@ =~= Seq::<(Seq<char>, ProfileStats)>::empty());
        r
    }

    fn position(&self, name: &str) -> (r: Option<usize>)
        ensures
            match r {
                Some(i) => find(self@, name@) == Some(i as int) && i < self@.len(),
                None => find(self@, name@) is None,
            },
    {
        let mut i: usize = 0;
        while i < self.profiles.len()
            invariant
                i <= self@.len(),
                self@.len() == self.profiles@.len(),
                find(self@, name@) == find_from(self@, name@, i as int),
            decreases self.profiles.len() - i,
        {
            assert(self@[i as int].0 == self.profiles@[i as int].0@);
            if same_text(self.profiles[i].0.as_str(), name) {
                return Some(i);
            }
            i = i + 1;
        }
        None
    }

    fn insert_position(&self, name: &str) -> (r: usize)
        ensures
            r == insert_from(self@, name@, 0),
            r <= self@.len(),
    {
        let key = chars_of(name);
        let mut i: usize = 0;
        while i < self.profiles.len()
            invariant
                i <= self@.len(),
                self@.len() == self.profiles@.len(),
                key@ == name@,
                insert_from(self@, name@, 0) == insert_from(self@, name@, i as int),
            decreases self.profiles.len() - i,
        {
            assert(self@[i as int].0 == self.profiles@[i as int].0@);
            let here = chars_of(self.profiles[i].0.as_str());
            if !lex_less(&here, &key) {
                return i;
            }
            i = i + 1;
        }
        i
    }

    /// The slot of `name`, adding an empty entry at its place in name
    /// order when it is new.
    fn ensure(&mut self, name: &str) -> (r: usize)
        ensures
            final(self)@ == registered(old(self)@, name@),
            r == slot(old(self)@, name@),
            r < final(self)@.len(),
            final(self)@[r as int].0 == name@,
    {
        proof {
            use_type_invariant(&*self);
            lemma_find_from(self@, name@, 0);
            lemma_registered_keeps(self@, name@);
        }
        match self.position(name) {
            Some(i) => i,
            None => {
                let at = self.insert_position(name);
                let mut v = self.take_entries();
                let ghost before = v@;
                v.insert(at, (name.to_owned(), ProfileStats::default()));
                assert(entries_view(v@) =~= entries_view(before).insert(
                    at as int,
                    (name@, empty_stats()),
                ));
                self.put_entries(v);
                at
            },
        }
    }

    /// Makes a profile visible before it has done anything, so a service
    /// that is failing from the first second still lists it.
    pub fn register(&mut self, profile: &str)
        ensures
            final(self)@ == registered(old(self)@, profile@),
    {
        self.ensure(profile);
    }

    /// Whether one more message of `profile` lasting `duration_ms` can be
    /// counted without a counter overflowing.
    pub fn can_record(&self, profile: &str, duration_ms: u64) -> (r: bool)
        ensures
            r == can_record_spec(self@, profile@, duration_ms),
    {
        match self.position(profile) {
            None => true,
            Some(i) => {
                let s = &self.profiles[i].1;
                assert(self@[i as int].1 == *s);
                s.received < u64::MAX && s.delivered < u64::MAX && s.failed < u64::MAX
                    && duration_ms <= u64::MAX - s.duration_ms_total
            },
        }
    }

    /// Counts one message of `profile` that took `duration_ms`, at Unix
    /// time `now`.
    pub fn record_at(&mut self, profile: &str, delivered: bool, duration_ms: u64, now: u64)
        requires
            can_record_spec(old(self)@, profile@, duration_ms),
        ensures
            final(self)@ == recorded(old(self)@, profile@, delivered, duration_ms, now),
    {
        let ghost old_entries = self@;
        proof {
            use_type_invariant(&*self);
            lemma_every_operation_keeps_the_registry(old_entries, profile@, delivered, duration_ms, now, Health::Starting);
        }
        let i = self.ensure(profile);
        let ghost reg = self@;
        assert(reg[i as int].1 == self.profiles@[i as int].1);
        proof {
            lemma_find_from(old_entries, profile@, 0);
            lemma_insert_from(old_entries, profile@, 0);
            if find(old_entries, profile@) is None {
                assert(registered(old_entries, profile@)[slot(old_entries, profile@)] == (profile@, empty_stats()));
            }
        }
        let mut s = self.profiles[i].1;
        s.received = s.received + 1;
        s.duration_ms_total = s.duration_ms_total + duration_ms;
        if delivered {
            s.delivered = s.delivered + 1;
            s.last_success_unix = Some(now);
        } else {
            s.failed = s.failed + 1;
        }
        let name = self.profiles[i].0.clone();
        let mut v = self.take_entries();
        let ghost before = v@;
        v.set(i, (name, s));
        assert(entries_view(v@) =~= entries_view(before).update(
            i as int,
            (profile@, bumped(reg[i as int].1, delivered, duration_ms, now)),
        ));
        self.put_entries(v);
    }

    /// Counts one message of `profile` that took `duration_ms`, now.
    pub fn record(&mut self, profile: &str, delivered: bool, duration_ms: u64)
        requires
            can_record_spec(old(self)@, profile@, duration_ms),
        ensures
            exists|now: u64| final(self)@ == recorded(old(self)@, profile@, delivered, duration_ms, now),
    {
        let now = now_unix();
        self.record_at(profile, delivered, duration_ms, now);
    }

    pub fn set_health(&mut self, profile: &str, health: Health)
        ensures
            final(self)@ == with_health(old(self)@, profile@, health),
    {
        proof {
            use_type_invariant(&*self);
            lemma_every_operation_keeps_the_registry(self@, profile@, false, 0, 0, health);
        }
        let i = self.ensure(profile);
        let ghost reg = self@;
        let mut s = self.profiles[i].1;
        assert(reg[i as int].1 == s);
        s.health = Some(health);
        let name = self.profiles[i].0.clone();
        let mut v = self.take_entries();
        let ghost before = v@;
        v.set(i, (name, s));
        assert(entries_view(v@) =~= entries_view(before).update(
            i as int,
            (profile@, ProfileStats { health: Some(health), ..reg[i as int].1 }),
        ));
        self.put_entries(v);
    }

    /// The state a profile is in right now, so a caller can tell a
    /// transition from a repeat.
    pub fn health_of(&self, profile: &str) -> (r: Option<Health>)
        ensures
            r == health_in(self@, profile@),
    {
        match self.position(profile) {
            Some(i) => {
                assert(self@[i as int].1 == self.profiles@[i as int].1);
                self.profiles[i].1.health
            },
            None => None,
        }
    }

    /// Every profile with its counters, in name order, each once; every
    /// message counted is counted as delivered or as failed.
    pub fn snapshot(&self) -> (r: Vec<(String, ProfileStats)>)
        ensures
            entries_view(r@) == self@,
            registry_keeps(self@),
    {
        proof {
            use_type_invariant(self);
        }
        let mut out: Vec<(String, ProfileStats)> = Vec::new();
        let mut i: usize = 0;
        while i < self.profiles.len()
            invariant
                i <= self.profiles@.len(),
                entries_view(out@) =~= entries_view(self.profiles@.take(i as int)),
            decreases self.profiles.len() - i,
        {
            let ghost before = out@;
            out.push((self.profiles[i].0.clone(), self.profiles[i].1));
            assert(out@.drop_last() =~= before);
            assert(self.profiles@.take(i + 1).drop_last() =~= self.profiles@.take(i as int));
            assert(entries_view(out@) =~= entries_view(before).push((self.profiles@[i as int].0@, self.profiles@[i as int].1)));
            assert(entries_view(self.profiles@.take(i + 1)) =~= entries_view(self.profiles@.take(i as int)).push((self.profiles@[i as int].0@, self.profiles@[i as int].1)));
            i = i + 1;
        }
        assert(self.profiles@.take(self.profiles@.len() as int) =~= self.profiles@);
        out
    }

    /// Puts every profile back to `Starting` — the state that means
    /// "nothing has been tried since" — and says how many there are.
    pub fn reset_health(&mut self) -> (r: usize)
        ensures
            final(self)@ == all_restarted(old(self)@),
            r == old(self)@.len(),
    {
        let ghost start = self@;
        proof {
            use_type_invariant(&*self);
            lemma_every_operation_keeps_the_registry(start, Seq::empty(), false, 0, 0, Health::Starting);
        }
        let mut v = self.take_entries();
        let mut i: usize = 0;
        while i < v.len()
            invariant
                i <= v@.len(),
                entries_view(v@).len() == start.len(),
                forall|j: int| 0 <= j < i ==> #[trigger] entries_view(v@)[j] == all_restarted(start)[j],
                forall|j: int| i <= j < start.len() ==> #[trigger] entries_view(v@)[j] == start[j],
            decreases v.len() - i,
        {
            let mut s = v[i].1;
            assert(entries_view(v@)[i as int] == (v@[i as int].0@, v@[i as int].1));
            s.health = Some(Health::Starting);
            let name = v[i].0.clone();
            let ghost before = v@;
            let ghost before_view = entries_view(v@);
            v.set(i, (name, s));
            assert(entries_view(v@) =~= entries_view(before).update(
                i as int,
                (before[i as int].0@, s),
            ));
            assert(entries_view(v@) =~= before_view.update(i as int, all_restarted(start)[i as int]));
            i = i + 1;
        }
        assert(entries_view(v@) =~= all_restarted(start));
        let n = v.len();
        self.put_entries(v);
        n
    }
}

// ── the clock ──────────────────────────────────────────────────────────

/// Seconds since the Unix epoch, by `std::time::SystemTime::now`; 0 if the
/// clock is before the epoch. Nothing is claimed of the value.
#[verifier::external_body]
pub fn now_unix() -> u64 {
    std::time::SystemTime::now().duration_since(std::time::UNIX_EPOCH).map(|d| d.as_secs()).unwrap_or(0)
}

// ── /healthz ───────────────────────────────────────────────────────────

/// How `/healthz` names a profile's state.
pub open spec fn state_word(h: Option<Health>) -> Seq<char> {
    match h {
        None => "starting"@,
        Some(Health::Starting) => "starting"@,
        Some(Health::Working) => "working"@,
        Some(Health::Failing) => "failing"@,
        Some(Health::Denied) => "denied"@,
        Some(Health::HubDown) => "hub-down"@,
    }
}

fn state_word_exec(h: Option<Health>) -> (r: &'static str)
    ensures
        r@ == state_word(h),
{
    match h {
        None => "starting",
        Some(Health::Starting) => "starting",
        Some(Health::Working) => "working",
        Some(Health::Failing) => "failing",
        Some(Health::Denied) => "denied",
        Some(Health::HubDown) => "hub-down",
    }
}

/// Seconds since the last success, or `null` before the first.
pub open spec fn age_text(s: ProfileStats, now: u64) -> Seq<char> {
    match s.last_success_unix {
        Some(t) => decimal(if now >= t { (now - t) as nat } else { 0 }),
        None => "null"@,
    }
}

pub open spec fn entry_json(e: (Seq<char>, ProfileStats), now: u64) -> Seq<char> {
    "{\"name\":"@ + json_string_literal(e.0) + ",\"state\":\""@ + state_word(e.1.health)
        + "\",\"last_success_age_s\":"@ + age_text(e.1, now) + "}"@
}

/// The entries' JSON objects, separated by commas.
pub open spec fn entries_json(es: Entries, now: u64) -> Seq<char>
    decreases es.len(),
{
    if es.len() == 0 {
        Seq::empty()
    } else if es.len() == 1 {
        entry_json(es[0], now)
    } else {
        entries_json(es.drop_last(), now) + ","@ + entry_json(es.last(), now)
    }
}

/// Every profile is doing its job: none is failing, denied or cut off.
pub open spec fn all_healthy(es: Entries) -> bool {
    forall|i: int| 0 <= i < es.len() ==> !(#[trigger] es[i].1.health matches Some(h) && h.is_bad())
}

pub open spec fn healthz_body(es: Entries, now: u64) -> Seq<char> {
    "{\"status\":\""@ + (if all_healthy(es) { "ok"@ } else { "degraded"@ }) + "\",\"profiles\":["@
        + entries_json(es, now) + "]}"@
}

impl Registry {
    /// `(healthy, body)` at Unix time `now`. `healthy` means every profile
    /// is doing its job; the body lists every profile with its state and
    /// the age of its last success, and never any message content.
    pub fn healthz_at(&self, now: u64) -> (r: (bool, String))
        ensures
            r.0 == all_healthy(self@),
            r.1@ == healthz_body(self@, now),
    {
        let mut healthy = true;
        let mut list = String::new();
        let mut i: usize = 0;
        while i < self.profiles.len()
            invariant
                i <= self@.len(),
                self@.len() == self.profiles@.len(),
                healthy == all_healthy(self@.take(i as int)),
                list@ == entries_json(self@.take(i as int), now),
            decreases self.profiles.len() - i,
        {
            let ghost es = self@;
            assert(es[i as int] == (self.profiles@[i as int].0@, self.profiles@[i as int].1));
            assert(es.take(i + 1).drop_last() =~= es.take(i as int));
            assert(es.take(i + 1).last() == es[i as int]);
            let stats = self.profiles[i].1;
            match stats.health {
                Some(Health::Failing) | Some(Health::Denied) | Some(Health::HubDown) => {
                    healthy = false;
                },
                _ => {},
            }
            assert(healthy == all_healthy(es.take(i + 1))) by {
                if !all_healthy(es.take(i as int)) {
                    let k = choose|k: int| 0 <= k < i && !!(#[trigger] es.take(i as int)[k].1.health matches Some(h) && h.is_bad());
                    assert(es.take(i + 1)[k] == es.take(i as int)[k]);
                }
                if all_healthy(es.take(i + 1)) {
                    assert forall|k: int| 0 <= k < i implies !(#[trigger] es.take(i as int)[k].1.health matches Some(h) && h.is_bad()) by {
                        assert(es.take(i + 1)[k] == es.take(i as int)[k]);
                    }
                }
            }
            if i > 0 {
                list.append(",");
            }
            list.append("{\"name\":");
            list.append(json_quote(self.profiles[i].0.as_str()).as_str());
            list.append(",\"state\":\"");
            list.append(state_word_exec(stats.health));
            list.append("\",\"last_success_age_s\":");
            match stats.last_success_unix {
                Some(t) => {
                    let age = if now >= t { now - t } else { 0 };
                    list.append(decimal_string(age).as_str());
                },
                None => list.append("null"),
            }
            list.append("}");
            proof {
                if i == 0 {
                    assert(es.take(1).len() == 1);
                    assert(list@ =~= entry_json(es[0], now));
                } else {
                    assert(list@ =~= entries_json(es.take(i as int), now) + ","@ + entry_json(es[i as int], now));
                }
            }
            i = i + 1;
        }
        assert(self@.take(self@.len() as int) =~= self@);
        let mut body = String::from_str("{\"status\":\"");
        body.append(if healthy { "ok" } else { "degraded" });
        body.append("\",\"profiles\":[");
        body.append(list.as_str());
        body.append("]}");
        (healthy, body)
    }

    /// `(healthy, body)` now; see `healthz_at`.
    pub fn healthz(&self) -> (r: (bool, String))
        ensures
            r.0 == all_healthy(self@),
            exists|now: u64| r.1@ == healthz_body(self@, now),
    {
        let now = now_unix();
        self.healthz_at(now)
    }
}

// ── /metrics ───────────────────────────────────────────────────────────

/// The four counters exported per profile.
pub enum Counter {
    Received,
    Delivered,
    Failed,
    Duration,
}

pub open spec fn counter_value(s: ProfileStats, c: Counter) -> u64 {
    match c {
        Counter::Received => s.received,
        Counter::Delivered => s.delivered,
        Counter::Failed => s.failed,
        Counter::Duration => s.duration_ms_total,
    }
}

pub open spec fn counter_name(c: Counter) -> Seq<char> {
    match c {
        Counter::Received => "switchboard_messages_received_total"@,
        Counter::Delivered => "switchboard_messages_delivered_total"@,
        Counter::Failed => "switchboard_messages_failed_total"@,
        Counter::Duration => "switchboard_delivery_duration_ms_total"@,
    }
}

pub open spec fn counter_help(c: Counter) -> Seq<char> {
    match c {
        Counter::Received => "Messages taken in per profile."@,
        Counter::Delivered => "Messages the destination accepted."@,
        Counter::Failed => "Messages the destination did not accept."@,
        Counter::Duration => "Time spent delivering, per profile."@,
    }
}

/// One sample line per profile.
pub open spec fn metric_lines(es: Entries, c: Counter) -> Seq<char>
    decreases es.len(),
{
    if es.len() == 0 {
        Seq::empty()
    } else {
        metric_lines(es.drop_last(), c) + counter_name(c) + "{profile="@ + json_string_literal(es.last().0)
            + "} "@ + decimal(counter_value(es.last().1, c) as nat) + "\n"@
    }
}

/// A metric family: its help line, its type line and its samples.
pub open spec fn metric_family(es: Entries, c: Counter) -> Seq<char> {
    "# HELP "@ + counter_name(c) + " "@ + counter_help(c) + "\n"@ + "# TYPE "@ + counter_name(c)
        + " counter\n"@ + metric_lines(es, c)
}

/// Prometheus text: counters per profile plus the delivery duration.
pub open spec fn metrics_text(es: Entries) -> Seq<char> {
    metric_family(es, Counter::Received) + metric_family(es, Counter::Delivered) + metric_family(
        es,
        Counter::Failed,
    ) + metric_family(es, Counter::Duration)
}

fn counter_name_exec(c: &Counter) -> (r: &'static str)
    ensures
        r@ == counter_name(*c),
{
    match c {
        Counter::Received => "switchboard_messages_received_total",
        Counter::Delivered => "switchboard_messages_delivered_total",
        Counter::Failed => "switchboard_messages_failed_total",
        Counter::Duration => "switchboard_delivery_duration_ms_total",
    }
}

fn counter_help_exec(c: &Counter) -> (r: &'static str)
    ensures
        r@ == counter_help(*c),
{
    match c {
        Counter::Received => "Messages taken in per profile.",
        Counter::Delivered => "Messages the destination accepted.",
        Counter::Failed => "Messages the destination did not accept.",
        Counter::Duration => "Time spent delivering, per profile.",
    }
}

impl Registry {
    fn append_family(&self, out: &mut String, c: Counter)
        ensures
            final(out)@ == old(out)@ + metric_family(self@, c),
    {
        let name = counter_name_exec(&c);
        let mut fam = String::from_str("# HELP ");
        fam.append(name);
        fam.append(" ");
        fam.append(counter_help_exec(&c));
        fam.append("\n");
        fam.append("# TYPE ");
        fam.append(name);
        fam.append(" counter\n");
        let ghost head = fam@;
        let mut i: usize = 0;
        assert(self@.take(0) =~= Seq::<(Seq<char>, ProfileStats)>::empty());
        while i < self.profiles.len()
            invariant
                i <= self@.len(),
                self@.len() == self.profiles@.len(),
                name@ == counter_name(c),
                fam@ == head + metric_lines(self@.take(i as int), c),
            decreases self.profiles.len() - i,
        {
            let ghost es = self@;
            assert(es[i as int] == (self.profiles@[i as int].0@, self.profiles@[i as int].1));
            assert(es.take(i + 1).drop_last() =~= es.take(i as int));
            let s = self.profiles[i].1;
            let v = match c {
                Counter::Received => s.received,
                Counter::Delivered => s.delivered,
                Counter::Failed => s.failed,
                Counter::Duration => s.duration_ms_total,
            };
            fam.append(name);
            fam.append("{profile=");
            fam.append(json_quote(self.profiles[i].0.as_str()).as_str());
            fam.append("} ");
            fam.append(decimal_string(v).as_str());
            fam.append("\n");
            assert(fam@ =~= head + metric_lines(es.take(i + 1), c));
            i = i + 1;
        }
        assert(self@.take(self@.len() as int) =~= self@);
        out.append(fam.as_str());
    }

    /// Prometheus text format: per profile, messages taken in, delivered
    /// and failed, and the time spent delivering.
    pub fn metrics(&self) -> (r: String)
        ensures
            r@ == metrics_text(self@),
    {
        let mut out = String::new();
        self.append_family(&mut out, Counter::Received);
        self.append_family(&mut out, Counter::Delivered);
        self.append_family(&mut out, Counter::Failed);
        self.append_family(&mut out, Counter::Duration);
        out
    }
}

// ── log lines ──────────────────────────────────────────────────────────

/// One line per message: the summary a log query filters on.
pub open spec fn message_line_spec(now: u64, profile: Seq<char>, source: Seq<char>, outcome: Seq<char>, duration_ms: u64, attempts: u32) -> Seq<char> {
    "{\"ts\":"@ + decimal(now as nat) + ",\"level\":\"info\",\"profile\":"@ + json_string_literal(profile)
        + ",\"source\":\""@ + source + "\",\"outcome\":\""@ + outcome + "\",\"duration_ms\":"@
        + decimal(duration_ms as nat) + ",\"attempts\":"@ + decimal(attempts as nat) + "}"@
}

/// Something went wrong that is not a state change.
pub open spec fn warn_line_spec(now: u64, profile: Seq<char>, event: Seq<char>, detail: Seq<char>) -> Seq<char> {
    "{\"ts\":"@ + decimal(now as nat) + ",\"level\":\"warn\",\"profile\":"@ + json_string_literal(profile)
        + ",\"event\":\""@ + event + "\",\"detail\":"@ + json_string_literal(detail) + "}"@
}

/// A state change, logged once rather than on every attempt.
pub open spec fn transition_line_spec(now: u64, profile: Seq<char>, from: Health, to: Health, detail: Seq<char>) -> Seq<char> {
    "{\"ts\":"@ + decimal(now as nat) + ",\"level\":\"warn\",\"profile\":"@ + json_string_literal(profile)
        + ",\"event\":\"state_change\",\"from\":\""@ + from.name_spec() + "\",\"to\":\""@ + to.name_spec()
        + "\",\"detail\":"@ + json_string_literal(detail) + "}"@
}

/// The message line at Unix time `now`.
pub fn message_line_at(now: u64, profile: &str, source: &str, outcome: &str, duration_ms: u64, attempts: u32) -> (r: String)
    ensures
        r@ == message_line_spec(now, profile@, source@, outcome@, duration_ms, attempts),
{
    let mut m = String::from_str("{\"ts\":");
    m.append(decimal_string(now).as_str());
    m.append(",\"level\":\"info\",\"profile\":");
    m.append(json_quote(profile).as_str());
    m.append(",\"source\":\"");
    m.append(source);
    m.append("\",\"outcome\":\"");
    m.append(outcome);
    m.append("\",\"duration_ms\":");
    m.append(decimal_string(duration_ms).as_str());
    m.append(",\"attempts\":");
    m.append(decimal_string(attempts as u64).as_str());
    m.append("}");
    m
}

/// The message line, stamped now.
pub fn message_line(profile: &str, source: &str, outcome: &str, duration_ms: u64, attempts: u32) -> (r: String)
    ensures
        exists|now: u64| r@ == message_line_spec(now, profile@, source@, outcome@, duration_ms, attempts),
{
    message_line_at(now_unix(), profile, source, outcome, duration_ms, attempts)
}

/// The warning line at Unix time `now`.
pub fn warn_line_at(now: u64, profile: &str, event: &str, detail: &str) -> (r: String)
    ensures
        r@ == warn_line_spec(now, profile@, event@, detail@),
{
    let mut m = String::from_str("{\"ts\":");
    m.append(decimal_string(now).as_str());
    m.append(",\"level\":\"warn\",\"profile\":");
    m.append(json_quote(profile).as_str());
    m.append(",\"event\":\"");
    m.append(event);
    m.append("\",\"detail\":");
    m.append(json_quote(detail).as_str());
    m.append("}");
    m
}

/// The warning line, stamped now.
pub fn warn_line(profile: &str, event: &str, detail: &str) -> (r: String)
    ensures
        exists|now: u64| r@ == warn_line_spec(now, profile@, event@, detail@),
{
    warn_line_at(now_unix(), profile, event, detail)
}

/// The transition line at Unix time `now`.
pub fn transition_line_at(now: u64, profile: &str, from: Health, to: Health, detail: &str) -> (r: String)
    ensures
        r@ == transition_line_spec(now, profile@, from, to, detail@),
{
    let mut m = String::from_str("{\"ts\":");
    m.append(decimal_string(now).as_str());
    m.append(",\"level\":\"warn\",\"profile\":");
    m.append(json_quote(profile).as_str());
    m.append(",\"event\":\"state_change\",\"from\":\"");
    m.append(from.name());
    m.append("\",\"to\":\"");
    m.append(to.name());
    m.append("\",\"detail\":");
    m.append(json_quote(detail).as_str());
    m.append("}");
    m
}

/// The transition line, stamped now.
pub fn transition_line(profile: &str, from: Health, to: Health, detail: &str) -> (r: String)
    ensures
        exists|now: u64| r@ == transition_line_spec(now, profile@, from, to, detail@),
{
    transition_line_at(now_unix(), profile, from, to, detail)
}

// ── one health check per profile ───────────────────────────────────────

/// One health subsystem per profile: healthy while starting or working,
/// failing while its deliveries fail, the hub refuses it or is away.
pub struct ProfileSubsystem {
    pub name: String,
}

/// What a profile's subsystem reports: whether it is fine, and the word
/// for its state.
pub open spec fn subsystem_status(h: Option<Health>) -> (bool, Seq<char>) {
    (!(h matches Some(x) && x.is_bad()), state_word(h))
}

impl ProfileSubsystem {
    pub fn new(name: &str) -> (r: Self)
        ensures
            r.name@ == name@,
    {
        ProfileSubsystem { name: name.to_owned() }
    }

    /// The subsystem's state as `registry` remembers it.
    pub fn check(&self, registry: &Registry) -> (r: (bool, &'static str))
        ensures
            (r.0, r.1@) == subsystem_status(health_in(registry@, self.name@)),
    {
        let h = registry.health_of(self.name.as_str());
        let ok = match h {
            Some(Health::Failing) | Some(Health::Denied) | Some(Health::HubDown) => false,
            _ => true,
        };
        (ok, state_word_exec(h))
    }
}

// ── self-report events ─────────────────────────────────────────────────

/// The event a state change publishes on the self-report topic: one when
/// a profile falls over, one when it recovers, none otherwise.
pub open spec fn report_kind(from: Health, to: Health) -> Option<Seq<char>> {
    if to.is_bad() && !from.is_bad() {
        Some("profile.failing"@)
    } else if from.is_bad() && to == Health::Working {
        Some("profile.recovered"@)
    } else {
        None
    }
}

pub open spec fn report_event_spec(profile: Seq<char>, from: Health, to: Health, detail: Seq<char>) -> Option<Seq<char>> {
    match report_kind(from, to) {
        Some(kind) => Some(
            "{\"event\":\""@ + kind + "\",\"profile\":"@ + json_string_literal(profile) + ",\"detail\":"@
                + json_string_literal(detail) + "}"@,
        ),
        None => None,
    }
}

/// The self-report event for a change from `from` to `to`, if it is one
/// worth publishing. It names the profile and what happened, never a
/// message's content.
pub fn report_event(profile: &str, from: Health, to: Health, detail: &str) -> (r: Option<String>)
    ensures
        match r {
            Some(e) => report_event_spec(profile@, from, to, detail@) == Some(e@),
            None => report_event_spec(profile@, from, to, detail@) is None,
        },
{
    let to_bad = match to {
        Health::Failing | Health::Denied | Health::HubDown => true,
        _ => false,
    };
    let from_bad = match from {
        Health::Failing | Health::Denied | Health::HubDown => true,
        _ => false,
    };
    let kind = if to_bad && !from_bad {
        "profile.failing"
    } else if from_bad && to == Health::Working {
        "profile.recovered"
    } else {
        return None;
    };
    let mut e = String::from_str("{\"event\":\"");
    e.append(kind);
    e.append("\",\"profile\":");
    e.append(json_quote(profile).as_str());
    e.append(",\"detail\":");
    e.append(json_quote(detail).as_str());
    e.append("}");
    Some(e)
}

/// A state that does not change publishes nothing, so a run of failures
/// reports once; and a profile only reports failing when it was not
/// already failing, denied or cut off.
pub proof fn lemma_reports_only_on_change(from: Health, to: Health)
    ensures
        report_kind(to, to) is None,
        report_kind(from, to) == Some("profile.failing"@) ==> to.is_bad() && !from.is_bad(),
        report_kind(from, to) == Some("profile.recovered"@) ==> from.is_bad() && to == Health::Working,
{
    assert("profile.failing"@ != "profile.recovered"@) by {
        reveal_strlit("profile.failing");
        reveal_strlit("profile.recovered");
        assert("profile.failing"@[8] != "profile.recovered"@[8]);
    }
}

} // verus!
