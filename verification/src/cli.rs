//! The command line: which subcommand runs, the daemon's flags, and the
//! mirror job's sources and output path.
use vstd::prelude::*;
use crate::net::{SOURCE_BACKUP, SOURCE_DIRECT, SOURCE_PRIMARY};
use crate::text::{contains, find_from_exec, occurs_at, str_eq, to_chars};

verus! {

broadcast use vstd::string::group_string_axioms;

/// This program's version.
pub const VERSION: &'static str = "0.2.0";

/// The subcommands: print the version, run the self-test, probe a running
/// app, write the mirror envelope, update once, or run the daemon.
#[derive(PartialEq, Eq, Structural)]
pub enum Command {
    Version,
    Selftest,
    Probe,
    FetchState,
    Update,
    Daemon,
}

/// The subcommand named by the first argument (the daemon when none matches).
pub open spec fn command_for(first: Option<Seq<char>>) -> Command {
    match first {
        Some(a) => if a == "--version"@ || a == "-V"@ {
            Command::Version
        } else if a == "--selftest"@ || a == "selftest"@ {
            Command::Selftest
        } else if a == "probe"@ {
            Command::Probe
        } else if a == "fetch-state"@ {
            Command::FetchState
        } else if a == "update"@ {
            Command::Update
        } else {
            Command::Daemon
        },
        None => Command::Daemon,
    }
}

pub fn command_of(args: &Vec<String>) -> (r: Command)
    ensures
        r == command_for(if args@.len() > 0 {
            Some(args@[0]@)
        } else {
            None
        }),
{
    if args.len() == 0 {
        return Command::Daemon;
    }
    let a = args[0].as_str();
    if str_eq(a, "--version") || str_eq(a, "-V") {
        Command::Version
    } else if str_eq(a, "--selftest") || str_eq(a, "selftest") {
        Command::Selftest
    } else if str_eq(a, "probe") {
        Command::Probe
    } else if str_eq(a, "fetch-state") {
        Command::FetchState
    } else if str_eq(a, "update") {
        Command::Update
    } else {
        Command::Daemon
    }
}

/// Whether `flag` is one of the arguments.
pub fn has_flag(args: &Vec<String>, flag: &str) -> (r: bool)
    ensures
        r == exists|i: int| 0 <= i < args@.len() && #[trigger] args@[i]@ == flag@,
{
    let mut i: usize = 0;
    while i < args.len()
        invariant
            i <= args@.len(),
            forall|j: int| 0 <= j < i ==> #[trigger] args@[j]@ != flag@,
        decreases args@.len() - i,
    {
        if str_eq(args[i].as_str(), flag) {
            return true;
        }
        i = i + 1;
    }
    false
}

/// The daemon's switches: quit after one push; do not restart an app
/// running without its debug port; launch the app when absent; no self-update.
pub struct DaemonFlags {
    pub once: bool,
    pub no_quit: bool,
    pub launch: bool,
    pub no_update: bool,
}

pub open spec fn has_arg(args: Seq<String>, flag: Seq<char>) -> bool {
    exists|i: int| 0 <= i < args.len() && #[trigger] args[i]@ == flag
}

/// The daemon's flags; `no_update_env` tells whether `ITH_NO_UPDATE` is set.
pub fn daemon_flags(args: &Vec<String>, no_update_env: bool) -> (r: DaemonFlags)
    ensures
        r.once == has_arg(args@, "--once"@),
        r.no_quit == has_arg(args@, "--no-quit"@),
        r.launch == has_arg(args@, "--launch"@),
        r.no_update == (has_arg(args@, "--no-update"@) || no_update_env),
{
    DaemonFlags {
        once: has_flag(args, "--once"),
        no_quit: has_flag(args, "--no-quit"),
        launch: has_flag(args, "--launch"),
        no_update: has_flag(args, "--no-update") || no_update_env,
    }
}

/// Where the mirror job writes: the argument after `--out` (its first
/// occurrence), else `public/state.json`.
pub open spec fn out_path_of(args: Seq<String>) -> Seq<char> {
    if exists|i: int| 0 <= i < args.len() && #[trigger] args[i]@ == "--out"@ {
        let i = choose|i: int|
            0 <= i < args.len() && #[trigger] args[i]@ == "--out"@ && forall|j: int|
                0 <= j < i ==> #[trigger] args[j]@ != "--out"@;
        if i + 1 < args.len() {
            args[i + 1]@
        } else {
            "public/state.json"@
        }
    } else {
        "public/state.json"@
    }
}

pub fn out_path(args: &Vec<String>) -> (r: String)
    ensures
        r@ == out_path_of(args@),
{
    let mut i: usize = 0;
    while i < args.len()
        invariant
            i <= args@.len(),
            forall|j: int| 0 <= j < i ==> #[trigger] args@[j]@ != "--out"@,
        decreases args@.len() - i,
    {
        if str_eq(args[i].as_str(), "--out") {
            proof {
                let c = choose|c: int|
                    0 <= c < args@.len() && #[trigger] args@[c]@ == "--out"@ && forall|j: int|
                        0 <= j < c ==> #[trigger] args@[j]@ != "--out"@;
                if c < i {
                } else if c > i {
                    assert(args@[i as int]@ == "--out"@);
                }
                assert(c == i);
            }
            if i + 1 < args.len() {
                return args[i + 1].clone();
            } else {
                return "public/state.json".to_string();
            }
        }
        i = i + 1;
    }
    "public/state.json".to_string()
}

/// The relay that fetches a URL for the mirror job when the sources block it.
pub const RELAY: &'static str = "https://r.jina.ai/";

/// The mirror job's JSON sources in order, each directly and then through
/// the relay: the resets API, the forecast API, the resets API relayed, the
/// forecast API relayed. The betteropc page comes after them.
pub open spec fn mirror_source(k: int) -> Option<(Seq<char>, bool)> {
    if k == 0 {
        Some((SOURCE_PRIMARY@, false))
    } else if k == 1 {
        Some((SOURCE_DIRECT@, false))
    } else if k == 2 {
        Some((SOURCE_PRIMARY@, true))
    } else if k == 3 {
        Some((SOURCE_DIRECT@, true))
    } else {
        None
    }
}

pub fn mirror_job_source(k: usize) -> (r: Option<(&'static str, bool)>)
    ensures
        match mirror_source(k as int) {
            Some((u, relay)) => r matches Some((x, y)) && x@ == u && y == relay,
            None => r is None,
        },
{
    if k == 0 {
        Some((SOURCE_PRIMARY, false))
    } else if k == 1 {
        Some((SOURCE_DIRECT, false))
    } else if k == 2 {
        Some((SOURCE_PRIMARY, true))
    } else if k == 3 {
        Some((SOURCE_DIRECT, true))
    } else {
        None
    }
}

/// The self-test of a fresh binary passes when its embedded avatar parses as
/// JSON and its embedded widget defines `__ith`.
pub fn selftest_ok(avatar_parses: bool, widget_src: &str) -> (r: bool)
    ensures
        r == (avatar_parses && contains(widget_src@, "__ith"@)),
{
    if !avatar_parses {
        return false;
    }
    let wv = to_chars(widget_src);
    let mark = to_chars("__ith");
    match find_from_exec(&wv, &mark, 0) {
        Some(i) => {
            assert(occurs_at(widget_src@, "__ith"@, i as int));
            true
        },
        None => {
            assert forall|i: int| !occurs_at(widget_src@, "__ith"@, i) by {
                if 0 <= i {
                    assert(!occurs_at(wv@, mark@, i));
                }
            }
            false
        },
    }
}

} // verus!
