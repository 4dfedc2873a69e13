//! The command line's own logic: the usage text, the `test` dry-run's
//! arguments, which profile it names, and what it prints instead of
//! sending.

use vstd::prelude::*;
use crate::config::{profiles_view, Config, ProfileView};
use crate::text::{chars_of, same_text};
use crate::translate::{Delivery, DeliveryView, RenderError, Target, TargetView};

verus! {

pub const USAGE: &'static str = "http-switchboard [--config <config.toml>] [--listen host:port] [--state-dir <dir>]\nhttp-switchboard --check [--config <config.toml>]\nhttp-switchboard --healthcheck [http://127.0.0.1:8080/healthz]\nhttp-switchboard test --config <config.toml> --profile <name> --input <message.json>\nEvery knob is also an environment variable (HTTP_SWITCHBOARD_CONFIG, _LISTEN, …); --help lists them.\n";

/// The config file the dry-run reads when no `--config` is given.
pub const DEFAULT_CONFIG: &'static str = "config.toml";

/// How the binary is used.
pub fn usage() -> (r: String)
    ensures
        r@ == USAGE@,
{
    String::from_str(USAGE)
}

// ── the dry-run's arguments ────────────────────────────────────────────

/// What `test` was asked to do: render the message in `input` with the
/// profile named `profile` from the config file `config`.
pub struct DryRunArgs {
    pub config: String,
    pub profile: String,
    pub input: String,
}

/// The value after the option at `i`, or nothing at the end of the list.
pub open spec fn value_after(args: Seq<Seq<char>>, i: int) -> Seq<char> {
    if i + 1 < args.len() {
        args[i + 1]
    } else {
        Seq::empty()
    }
}

/// The options from position `i` on, read in pairs over the values read
/// so far: each of `--config`, `--profile` and `--input` takes the value
/// after it (a later one wins); anything else is refused by name.
pub open spec fn options_from(args: Seq<Seq<char>>, i: nat, so_far: (Seq<char>, Seq<char>, Seq<char>)) -> Result<
    (Seq<char>, Seq<char>, Seq<char>),
    Seq<char>,
>
    decreases args.len() + 2 - i,
{
    if i >= args.len() {
        Ok(so_far)
    } else {
        let opt = args[i as int];
        let v = value_after(args, i as int);
        if opt == "--config"@ {
            options_from(args, i + 2, (v, so_far.1, so_far.2))
        } else if opt == "--profile"@ {
            options_from(args, i + 2, (so_far.0, v, so_far.2))
        } else if opt == "--input"@ {
            options_from(args, i + 2, (so_far.0, so_far.1, v))
        } else {
            Err("unknown option '"@ + opt + "'.\n"@ + USAGE@)
        }
    }
}

/// The dry-run's arguments: the options read from the start over the
/// default config; a profile and an input are both required, and without
/// them the answer is the usage.
pub open spec fn dry_run_spec(args: Seq<Seq<char>>) -> Result<(Seq<char>, Seq<char>, Seq<char>), Seq<char>> {
    match options_from(args, 0, (DEFAULT_CONFIG@, Seq::empty(), Seq::empty())) {
        Err(e) => Err(e),
        Ok(o) => if o.1.len() == 0 || o.2.len() == 0 {
            Err(USAGE@)
        } else {
            Ok(o)
        },
    }
}

pub open spec fn strings_view(v: Seq<String>) -> Seq<Seq<char>> {
    v.map_values(|s: String| s@)
}

/// Reads the arguments that follow `test`.
pub fn parse_dry_run(args: &Vec<String>) -> (r: Result<DryRunArgs, String>)
    ensures
        match r {
            Ok(a) => dry_run_spec(strings_view(args@)) == Ok::<_, Seq<char>>((a.config@, a.profile@, a.input@)),
            Err(e) => dry_run_spec(strings_view(args@)) == Err::<(Seq<char>, Seq<char>, Seq<char>), _>(e@),
        },
{
    let ghost all = strings_view(args@);
    let mut config = String::from_str(DEFAULT_CONFIG);
    let mut profile = String::new();
    let mut input = String::new();
    let mut i: usize = 0;
    while i < args.len()
        invariant
            all == strings_view(args@),
            options_from(all, 0, (DEFAULT_CONFIG@, Seq::empty(), Seq::empty())) == options_from(
                all,
                i as nat,
                (config@, profile@, input@),
            ),
        decreases args.len() - i,
    {
        let value = if i + 1 < args.len() {
            args[i + 1].clone()
        } else {
            String::new()
        };
        assert(value@ == value_after(all, i as int));
        let opt = args[i].as_str();
        assert(opt@ == all[i as int]);
        if same_text(opt, "--config") {
            config = value;
        } else if same_text(opt, "--profile") {
            profile = value;
        } else if same_text(opt, "--input") {
            input = value;
        } else {
            let mut m = String::from_str("unknown option '");
            m.append(opt);
            m.append("'.\n");
            m.append(USAGE);
            return Err(m);
        }
        if args.len() - i < 2 {
            assert(options_from(all, (i + 2) as nat, (config@, profile@, input@)) == Ok::<
                _,
                Seq<char>,
            >((config@, profile@, input@)));
            assert(options_from(all, i as nat + 2, (config@, profile@, input@)) == options_from(
                all,
                args.len() as nat,
                (config@, profile@, input@),
            ));
            i = args.len();
        } else {
            i = i + 2;
        }
    }
    if chars_of(profile.as_str()).len() == 0 || chars_of(input.as_str()).len() == 0 {
        return Err(String::from_str(USAGE));
    }
    Ok(DryRunArgs { config, profile, input })
}

// ── which profile ──────────────────────────────────────────────────────

/// The names of the profiles, separated by ", ".
pub open spec fn names_list(ps: Seq<ProfileView>) -> Seq<char>
    decreases ps.len(),
{
    if ps.len() == 0 {
        Seq::empty()
    } else if ps.len() == 1 {
        ps[0].name
    } else {
        names_list(ps.drop_last()) + ", "@ + ps.last().name
    }
}

/// The position of the first profile named `name`.
pub open spec fn position_of(ps: Seq<ProfileView>, name: Seq<char>, from: int) -> Option<int>
    decreases ps.len() - from,
{
    if from < 0 || from >= ps.len() {
        None
    } else if ps[from].name == name {
        Some(from)
    } else {
        position_of(ps, name, from + 1)
    }
}

/// The profile the dry-run names, or an answer that lists the ones that
/// exist.
pub open spec fn pick_profile_spec(file: Seq<char>, ps: Seq<ProfileView>, name: Seq<char>) -> Result<int, Seq<char>> {
    match position_of(ps, name, 0) {
        Some(i) => Ok(i),
        None => Err(file + ": there is no profile named '"@ + name + "'. What now: pick one of: "@
            + names_list(ps) + "."@),
    }
}

/// Finds the profile named `name` in `config`, read from `file`.
pub fn pick_profile(file: &str, config: &Config, name: &str) -> (r: Result<usize, String>)
    ensures
        match r {
            Ok(i) => pick_profile_spec(file@, profiles_view(config.profiles@), name@) == Ok::<_, Seq<char>>(i as int),
            Err(e) => pick_profile_spec(file@, profiles_view(config.profiles@), name@) == Err::<int, _>(e@),
        },
{
    let ghost ps = profiles_view(config.profiles@);
    let mut i: usize = 0;
    while i < config.profiles.len()
        invariant
            ps == profiles_view(config.profiles@),
            i <= ps.len(),
            position_of(ps, name@, 0) == position_of(ps, name@, i as int),
        decreases config.profiles.len() - i,
    {
        assert(ps[i as int].name == config.profiles@[i as int].name@);
        if same_text(config.profiles[i].name.as_str(), name) {
            return Ok(i);
        }
        i = i + 1;
    }
    let mut names = String::new();
    let mut k: usize = 0;
    while k < config.profiles.len()
        invariant
            ps == profiles_view(config.profiles@),
            k <= ps.len(),
            names@ == names_list(ps.take(k as int)),
        decreases config.profiles.len() - k,
    {
        assert(ps.take(k + 1).drop_last() =~= ps.take(k as int));
        assert(ps.take(k + 1).last().name == config.profiles@[k as int].name@);
        if k > 0 {
            names.append(", ");
        }
        names.append(config.profiles[k].name.as_str());
        proof {
            if k == 0 {
                assert(ps.take(1).len() == 1);
            }
        }
        assert(names@ =~= names_list(ps.take(k + 1)));
        k = k + 1;
    }
    assert(ps.take(ps.len() as int) =~= ps);
    let mut m = String::from_str(file);
    m.append(": there is no profile named '");
    m.append(name);
    m.append("'. What now: pick one of: ");
    m.append(names.as_str());
    m.append(".");
    Err(m)
}

// ── what would go out ──────────────────────────────────────────────────

/// One line per header: its name, never its value — a header may carry a
/// token, and this output ends up in terminals and pasted into chats.
pub open spec fn header_lines(hs: Seq<(Seq<char>, Seq<char>)>) -> Seq<char>
    decreases hs.len(),
{
    if hs.len() == 0 {
        Seq::empty()
    } else {
        header_lines(hs.drop_last()) + "header: "@ + hs.last().0 + ": ***\n"@
    }
}

/// What the dry-run prints for a delivery: where it would go, its content
/// type, its header names, a separator and the body.
pub open spec fn preview_spec(d: DeliveryView) -> Seq<char> {
    (match d.target {
        TargetView::Url { url, method } => "would send "@ + method + " "@ + url + "\n"@,
        TargetView::KyuTopic { topic } => "would publish to kyu topic "@ + topic + "\n"@,
    }) + "content-type: "@ + d.content_type + "\n"@ + header_lines(d.headers) + "---\n"@ + d.body
        + "\n"@
}

/// The text the dry-run prints instead of sending `delivery`.
pub fn preview(delivery: &Delivery) -> (r: String)
    ensures
        r@ == preview_spec(delivery@),
{
    let mut out = match &delivery.target {
        Target::Url { url, method } => {
            let mut m = String::from_str("would send ");
            m.append(method.as_str());
            m.append(" ");
            m.append(url.as_str());
            m.append("\n");
            m
        },
        Target::KyuTopic { topic } => {
            let mut m = String::from_str("would publish to kyu topic ");
            m.append(topic.as_str());
            m.append("\n");
            m
        },
    };
    out.append("content-type: ");
    out.append(delivery.content_type.as_str());
    out.append("\n");
    let ghost head = out@;
    let ghost hs = delivery@.headers;
    let mut i: usize = 0;
    while i < delivery.headers.len()
        invariant
            hs == delivery@.headers,
            hs.len() == delivery.headers@.len(),
            i <= hs.len(),
            out@ == head + header_lines(hs.take(i as int)),
        decreases delivery.headers.len() - i,
    {
        assert(hs.take(i + 1).drop_last() =~= hs.take(i as int));
        assert(hs[i as int].0 == delivery.headers@[i as int].0@);
        out.append("header: ");
        out.append(delivery.headers[i].0.as_str());
        out.append(": ***\n");
        i = i + 1;
    }
    assert(hs.take(hs.len() as int) =~= hs);
    out.append("---\n");
    out.append(delivery.body.as_str());
    out.append("\n");
    out
}

/// How the dry run ends once the message was rendered: with success and the
/// preview for standard output, or with failure and the refusal, one line,
/// for standard error.
pub fn dry_run_report(rendered: &Result<Delivery, RenderError>) -> (r: (bool, String))
    ensures
        r.0 <==> rendered is Ok,
        rendered matches Ok(d) ==> r.1@ == preview_spec(d@),
        rendered matches Err(e) ==> r.1@ == e@.message() + "\n"@,
{
    match rendered {
        Ok(d) => (true, preview(d)),
        Err(e) => {
            let mut m = e.to_string();
            m.append("\n");
            (false, m)
        },
    }
}

/// What `--check` prints for a config that passed.
pub open spec fn check_line_spec(file: Seq<char>, profiles: nat) -> Seq<char> {
    file + ": ok, "@ + crate::text::decimal(profiles) + " profile(s)"@
}

pub fn check_line(file: &str, profiles: usize) -> (r: String)
    ensures
        r@ == check_line_spec(file@, profiles as nat),
{
    let mut m = String::from_str(file);
    m.append(": ok, ");
    m.append(crate::text::decimal_string(profiles as u64).as_str());
    m.append(" profile(s)");
    m
}

} // verus!
