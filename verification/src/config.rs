//! User-level configuration: named runners and well-known file locations.
//!
//! The configuration file lives under the user's home directory; reading
//! and writing it is the surrounding binary's work, which hands the
//! parsed configuration in as a value.  The path functions resolve the
//! fixed locations the daemon uses (configuration file, database, logs,
//! daemon runtime files); only the home directory itself comes from the
//! platform, through one trusted call.

use vstd::prelude::*;

use crate::errors::{DaemonError, ErrorKind};

verus! {

/// `s` ends with `suffix`.
pub open spec fn str_ends_with(s: Seq<char>, suffix: Seq<char>) -> bool {
    s.len() >= suffix.len() && s.subrange(s.len() - suffix.len(), s.len() as int) == suffix
}

/// Relies on `dirs::home_dir`: the platform's home directory for the
/// current user, if it reports one.  The result depends on the
/// environment, so nothing is promised about its value.
#[verifier::external_body]
fn home_dir_string() -> (r: Option<String>)
{
    dirs::home_dir().and_then(|p| p.into_os_string().into_string().ok())
}

/// The global configuration directory: `<home>/.granary`.
pub fn config_dir() -> (r: Result<String, DaemonError>)
    ensures
        r matches Ok(p) ==> str_ends_with(p@, "/.granary"@),
        r matches Err(e) ==> e.kind == ErrorKind::Io,
{
    match home_dir_string() {
        Some(home) => {
            let p = home.concat("/.granary");
            proof {
                assert(p@.subrange(p@.len() - "/.granary"@.len(), p@.len() as int)
                    =~= "/.granary"@);
            }
            Ok(p)
        },
        None => Err(
            DaemonError::new(ErrorKind::Io, "Could not determine home directory".to_owned()),
        ),
    }
}

/// Append a fixed component to a directory path, keeping track of the
/// suffix the result is known to end with.
fn join_component(dir: String, component: &str) -> (p: String)
    ensures
        p@ == dir@ + component@,
{
    dir.concat(component)
}

/// The global configuration file: `<home>/.granary/config.toml`.
pub fn config_path() -> (r: Result<String, DaemonError>)
    ensures
        r matches Ok(p) ==> str_ends_with(p@, "/.granary/config.toml"@),
        r matches Err(e) ==> e.kind == ErrorKind::Io,
{
    match config_dir() {
        Ok(dir) => {
            let ghost dv = dir@;
            let p = join_component(dir, "/config.toml");
            proof {
                                    reveal_strlit("/.granary/config.toml");
                    reveal_strlit("/.granary");
                    reveal_strlit("/config.toml");
                    assert("/.granary/config.toml"@ =~= "/.granary"@ + "/config.toml"@);
                assert(p@.subrange(p@.len() - "/.granary/config.toml"@.len(), p@.len() as int)
                    =~= "/.granary/config.toml"@);
            }
            Ok(p)
        },
        Err(e) => Err(e),
    }
}

/// The global workers database: `<home>/.granary/workers.db`.
pub fn global_db_path() -> (r: Result<String, DaemonError>)
    ensures
        r matches Ok(p) ==> str_ends_with(p@, "/.granary/workers.db"@),
        r matches Err(e) ==> e.kind == ErrorKind::Io,
{
    match config_dir() {
        Ok(dir) => {
            let p = join_component(dir, "/workers.db");
            proof {
                                    reveal_strlit("/.granary/workers.db");
                    reveal_strlit("/.granary");
                    reveal_strlit("/workers.db");
                    assert("/.granary/workers.db"@ =~= "/.granary"@ + "/workers.db"@);
                assert(p@.subrange(p@.len() - "/.granary/workers.db"@.len(), p@.len() as int)
                    =~= "/.granary/workers.db"@);
            }
            Ok(p)
        },
        Err(e) => Err(e),
    }
}

/// The logs directory: `<home>/.granary/logs`.
pub fn logs_dir() -> (r: Result<String, DaemonError>)
    ensures
        r matches Ok(p) ==> str_ends_with(p@, "/.granary/logs"@),
        r matches Err(e) ==> e.kind == ErrorKind::Io,
{
    match config_dir() {
        Ok(dir) => {
            let p = join_component(dir, "/logs");
            proof {
                                    reveal_strlit("/.granary/logs");
                    reveal_strlit("/.granary");
                    reveal_strlit("/logs");
                    assert("/.granary/logs"@ =~= "/.granary"@ + "/logs"@);
                assert(p@.subrange(p@.len() - "/.granary/logs"@.len(), p@.len() as int)
                    =~= "/.granary/logs"@);
            }
            Ok(p)
        },
        Err(e) => Err(e),
    }
}

/// The daemon runtime directory: `<home>/.granary/daemon`.
pub fn daemon_dir() -> (r: Result<String, DaemonError>)
    ensures
        r matches Ok(p) ==> str_ends_with(p@, "/.granary/daemon"@),
        r matches Err(e) ==> e.kind == ErrorKind::Io,
{
    match config_dir() {
        Ok(dir) => {
            let p = join_component(dir, "/daemon");
            proof {
                                    reveal_strlit("/.granary/daemon");
                    reveal_strlit("/.granary");
                    reveal_strlit("/daemon");
                    assert("/.granary/daemon"@ =~= "/.granary"@ + "/daemon"@);
                assert(p@.subrange(p@.len() - "/.granary/daemon"@.len(), p@.len() as int)
                    =~= "/.granary/daemon"@);
            }
            Ok(p)
        },
        Err(e) => Err(e),
    }
}

/// The daemon's socket: `<home>/.granary/daemon/granaryd.sock`.  Only one
/// daemon can bind it at a time, which is what enforces the
/// one-daemon-per-user invariant.
pub fn daemon_socket_path() -> (r: Result<String, DaemonError>)
    ensures
        r matches Ok(p) ==> str_ends_with(p@, "/daemon/granaryd.sock"@),
        r matches Err(e) ==> e.kind == ErrorKind::Io,
{
    match daemon_dir() {
        Ok(dir) => {
            let p = join_component(dir, "/granaryd.sock");
            proof {
                                    reveal_strlit("/.granary/daemon");
                    reveal_strlit("/.granary");
                    reveal_strlit("/daemon");
                    assert("/.granary/daemon"@ =~= "/.granary"@ + "/daemon"@);
                    reveal_strlit("/daemon/granaryd.sock");
                    reveal_strlit("/daemon");
                    reveal_strlit("/granaryd.sock");
                    assert("/daemon/granaryd.sock"@ =~= "/daemon"@ + "/granaryd.sock"@);
                assert(dir@.subrange(dir@.len() - 7, dir@.len() as int) =~= "/daemon"@) by {
                    assert forall|i: int|
                        0 <= i < 7 implies dir@.subrange(dir@.len() - 7, dir@.len() as int)[i]
                        == "/daemon"@[i] by {
                        assert(dir@.subrange(dir@.len() - 16, dir@.len() as int)[9 + i]
                            == "/.granary/daemon"@[9 + i]);
                    }
                };
                assert(p@.subrange(p@.len() - "/daemon/granaryd.sock"@.len(), p@.len() as int)
                    =~= "/daemon/granaryd.sock"@);
            }
            Ok(p)
        },
        Err(e) => Err(e),
    }
}

/// The daemon's pid file: `<home>/.granary/daemon/granaryd.pid`.
pub fn daemon_pid_path() -> (r: Result<String, DaemonError>)
    ensures
        r matches Ok(p) ==> str_ends_with(p@, "/daemon/granaryd.pid"@),
        r matches Err(e) ==> e.kind == ErrorKind::Io,
{
    match daemon_dir() {
        Ok(dir) => {
            let p = join_component(dir, "/granaryd.pid");
            proof {
                                    reveal_strlit("/.granary/daemon");
                    reveal_strlit("/.granary");
                    reveal_strlit("/daemon");
                    assert("/.granary/daemon"@ =~= "/.granary"@ + "/daemon"@);
                    reveal_strlit("/daemon/granaryd.pid");
                    reveal_strlit("/daemon");
                    reveal_strlit("/granaryd.pid");
                    assert("/daemon/granaryd.pid"@ =~= "/daemon"@ + "/granaryd.pid"@);
                assert(dir@.subrange(dir@.len() - 7, dir@.len() as int) =~= "/daemon"@) by {
                    assert forall|i: int|
                        0 <= i < 7 implies dir@.subrange(dir@.len() - 7, dir@.len() as int)[i]
                        == "/daemon"@[i] by {
                        assert(dir@.subrange(dir@.len() - 16, dir@.len() as int)[9 + i]
                            == "/.granary/daemon"@[9 + i]);
                    }
                };
                assert(p@.subrange(p@.len() - "/daemon/granaryd.pid"@.len(), p@.len() as int)
                    =~= "/daemon/granaryd.pid"@);
            }
            Ok(p)
        },
        Err(e) => Err(e),
    }
}

/// The daemon's own log file: `<home>/.granary/daemon/daemon.log`.
pub fn daemon_log_path() -> (r: Result<String, DaemonError>)
    ensures
        r matches Ok(p) ==> str_ends_with(p@, "/daemon/daemon.log"@),
        r matches Err(e) ==> e.kind == ErrorKind::Io,
{
    match daemon_dir() {
        Ok(dir) => {
            let p = join_component(dir, "/daemon.log");
            proof {
                                    reveal_strlit("/.granary/daemon");
                    reveal_strlit("/.granary");
                    reveal_strlit("/daemon");
                    assert("/.granary/daemon"@ =~= "/.granary"@ + "/daemon"@);
                    reveal_strlit("/daemon/daemon.log");
                    reveal_strlit("/daemon");
                    reveal_strlit("/daemon.log");
                    assert("/daemon/daemon.log"@ =~= "/daemon"@ + "/daemon.log"@);
                assert(dir@.subrange(dir@.len() - 7, dir@.len() as int) =~= "/daemon"@) by {
                    assert forall|i: int|
                        0 <= i < 7 implies dir@.subrange(dir@.len() - 7, dir@.len() as int)[i]
                        == "/daemon"@[i] by {
                        assert(dir@.subrange(dir@.len() - 16, dir@.len() as int)[9 + i]
                            == "/.granary/daemon"@[9 + i]);
                    }
                };
                assert(p@.subrange(p@.len() - "/daemon/daemon.log"@.len(), p@.len() as int)
                    =~= "/daemon/daemon.log"@);
            }
            Ok(p)
        },
        Err(e) => Err(e),
    }
}

/// The logs directory of one worker: `<home>/.granary/logs/<worker_id>`.
pub fn worker_logs_dir(worker_id: &str) -> (r: Result<String, DaemonError>)
    ensures
        r matches Ok(p) ==> str_ends_with(p@, "/.granary/logs/"@ + worker_id@),
        r matches Err(e) ==> e.kind == ErrorKind::Io,
{
    match logs_dir() {
        Ok(dir) => {
            let p = dir.concat("/").concat(worker_id);
            proof {
                                    reveal_strlit("/.granary/logs");
                    reveal_strlit("/.granary");
                    reveal_strlit("/logs");
                    assert("/.granary/logs"@ =~= "/.granary"@ + "/logs"@);
                reveal_strlit("/.granary/logs/");
                reveal_strlit("/");
                assert("/.granary/logs/"@ =~= "/.granary/logs"@ + "/"@);
                assert(p@ == (dir@ + "/"@) + worker_id@);
                assert(p@.subrange(
                    p@.len() - ("/.granary/logs/"@ + worker_id@).len(),
                    p@.len() as int,
                ) =~= "/.granary/logs/"@ + worker_id@);
            }
            Ok(p)
        },
        Err(e) => Err(e),
    }
}

} // verus!

verus! {

/// Mathematical view of a [`RunnerConfig`].
#[verifier::ext_equal]
pub ghost struct RunnerConfigView {
    pub command: Seq<char>,
    pub args: Seq<Seq<char>>,
    pub concurrency: Option<u32>,
    pub on: Option<Seq<char>>,
    pub env: Seq<(Seq<char>, Seq<char>)>,
}

/// A named command template that workers can reference: the command, its
/// arguments, a default concurrency, a default event type, and
/// environment variables to set for its processes (held as a list of
/// pairs with unique names).
#[derive(Debug)]
pub struct RunnerConfig {
    pub command: String,
    pub args: Vec<String>,
    pub concurrency: Option<u32>,
    pub on: Option<String>,
    pub env: Vec<(String, String)>,
}

impl View for RunnerConfig {
    type V = RunnerConfigView;

    open spec fn view(&self) -> RunnerConfigView {
        RunnerConfigView {
            command: self.command@,
            args: self.args.deep_view(),
            concurrency: self.concurrency,
            on: self.on.deep_view(),
            env: self.env.deep_view(),
        }
    }
}

impl DeepView for RunnerConfig {
    type V = RunnerConfigView;

    open spec fn deep_view(&self) -> RunnerConfigView {
        self.view()
    }
}

/// Clone a list of string pairs, preserving its view.
fn clone_string_pairs(v: &Vec<(String, String)>) -> (r: Vec<(String, String)>)
    ensures
        r.deep_view() == v.deep_view(),
{
    let mut r: Vec<(String, String)> = Vec::new();
    let mut i: usize = 0;
    while i < v.len()
        invariant
            i <= v@.len(),
            r@.len() == i,
            forall|j: int| 0 <= j < i ==> r.deep_view()[j] == v.deep_view()[j],
        decreases v@.len() - i,
    {
        let pair = (v[i].0.clone(), v[i].1.clone());
        let ghost prev = r.deep_view();
        let ghost pv = (pair.0@, pair.1@);
        r.push(pair);
        proof {
            assert(r.deep_view() =~= prev.push(pv));
            assert(r.deep_view()[i as int] == v.deep_view()[i as int]);
        }
        i = i + 1;
    }
    proof {
        assert(r.deep_view() =~= v.deep_view());
    }
    r
}

impl Clone for RunnerConfig {
    /// Cloning preserves the view.
    fn clone(&self) -> (r: Self)
        ensures
            r@ == self@,
    {
        RunnerConfig {
            command: self.command.clone(),
            args: crate::model::clone_string_vec(&self.args),
            concurrency: self.concurrency,
            on: crate::model::clone_opt_string(&self.on),
            env: clone_string_pairs(&self.env),
        }
    }
}

impl RunnerConfig {
    /// A runner configuration with just a command.
    pub fn new(command: &str) -> (r: RunnerConfig)
        ensures
            r@.command == command@,
            r@.args.len() == 0,
            r@.concurrency is None,
            r@.on is None,
            r@.env.len() == 0,
    {
        let r = RunnerConfig {
            command: command.to_owned(),
            args: Vec::new(),
            concurrency: None,
            on: None,
            env: Vec::new(),
        };
        proof {
            assert(r@.args =~= Seq::<Seq<char>>::empty());
            assert(r@.env =~= Seq::<(Seq<char>, Seq<char>)>::empty());
        }
        r
    }
}

/// Mathematical view of a [`GlobalConfig`].
#[verifier::ext_equal]
pub ghost struct GlobalConfigView {
    pub runners: Seq<(Seq<char>, RunnerConfigView)>,
}

impl GlobalConfigView {
    /// Runner names are unique.
    pub open spec fn wf(self) -> bool {
        forall|i: int, j: int|
            0 <= i < j < self.runners.len() ==> self.runners[i].0 != self.runners[j].0
    }

    /// Some runner carries the given name.
    pub open spec fn has_runner(self, name: Seq<char>) -> bool {
        exists|i: int| 0 <= i < self.runners.len() && (#[trigger] self.runners[i]).0 == name
    }
}

/// The user-level configuration: runner definitions that persist across
/// workspaces, keyed by unique names.  The surrounding binary loads and
/// saves it; the operations here work on the value.
#[derive(Debug)]
pub struct GlobalConfig {
    pub runners: Vec<(String, RunnerConfig)>,
}

impl View for GlobalConfig {
    type V = GlobalConfigView;

    open spec fn view(&self) -> GlobalConfigView {
        GlobalConfigView { runners: self.runners.deep_view() }
    }
}

impl Default for GlobalConfig {
    /// The default configuration has no runners.
    fn default() -> (r: GlobalConfig)
        ensures
            r@.runners.len() == 0,
            r@.wf(),
    {
        let r = GlobalConfig { runners: Vec::new() };
        proof {
            assert(r@.runners =~= Seq::<(Seq<char>, RunnerConfigView)>::empty());
        }
        r
    }
}

/// Character-for-character string equality.
fn str_eq(a: &str, b: &str) -> (r: bool)
    ensures
        r == (a@ == b@),
{
    let alen = a.unicode_len();
    let blen = b.unicode_len();
    if alen != blen {
        return false;
    }
    let mut i: usize = 0;
    while i < alen
        invariant
            alen == a@.len(),
            blen == b@.len(),
            alen == blen,
            i <= alen,
            forall|k: int| 0 <= k < i ==> a@[k] == b@[k],
        decreases alen - i,
    {
        if a.get_char(i) != b.get_char(i) {
            return false;
        }
        i = i + 1;
    }
    proof {
        assert(a@ =~= b@);
    }
    true
}

/// Index of the runner with the given name, if any.
fn find_runner_index(config: &GlobalConfig, name: &str) -> (r: Option<usize>)
    ensures
        match r {
            Some(i) => i < config@.runners.len() && config@.runners[i as int].0 == name@,
            None => !config@.has_runner(name@),
        },
{
    let mut i: usize = 0;
    while i < config.runners.len()
        invariant
            i <= config@.runners.len(),
            config@.runners.len() == config.runners@.len(),
            forall|j: int| 0 <= j < i ==> (#[trigger] config@.runners[j]).0 != name@,
        decreases config@.runners.len() - i,
    {
        if str_eq(config.runners[i].0.as_str(), name) {
            return Some(i);
        }
        i = i + 1;
    }
    None
}

/// Look up a runner by name; the returned record is a copy.
pub fn get_runner(config: &GlobalConfig, name: &str) -> (r: Option<RunnerConfig>)
    ensures
        match r {
            Some(rc) => exists|i: int|
                0 <= i < config@.runners.len() && (#[trigger] config@.runners[i]).0 == name@ && rc@
                    == config@.runners[i].1,
            None => !config@.has_runner(name@),
        },
{
    match find_runner_index(config, name) {
        Some(i) => Some(config.runners[i].1.clone()),
        None => None,
    }
}

/// Add or replace the runner with the given name.
pub fn set_runner(config: &mut GlobalConfig, name: &str, runner: RunnerConfig)
    requires
        old(config)@.wf(),
    ensures
        final(config)@.wf(),
        old(config)@.has_runner(name@) ==> exists|i: int|
            0 <= i < old(config)@.runners.len() && (#[trigger] old(config)@.runners[i]).0 == name@
                && final(config)@.runners == old(config)@.runners.update(i, (name@, runner@)),
        !old(config)@.has_runner(name@) ==> final(config)@.runners == old(config)@.runners.push(
            (name@, runner@),
        ),
{
    let ghost old_c = config@;
    let ghost rv = runner@;
    match find_runner_index(config, name) {
        Some(i) => {
            let entry = &mut config.runners[i];
            *entry = (name.to_owned(), runner);
            proof {
                assert(config@.runners =~= old_c.runners.update(i as int, (name@, rv)));
                assert forall|a: int, b: int|
                    0 <= a < b < config@.runners.len() implies config@.runners[a].0
                    != config@.runners[b].0 by {
                    assert(old_c.runners[a].0 != old_c.runners[b].0);
                }
            }
        },
        None => {
            config.runners.push((name.to_owned(), runner));
            proof {
                assert(config@.runners =~= old_c.runners.push((name@, rv)));
                assert forall|a: int, b: int|
                    0 <= a < b < config@.runners.len() implies config@.runners[a].0
                    != config@.runners[b].0 by {
                    if b < config@.runners.len() - 1 {
                        assert(old_c.runners[a].0 != old_c.runners[b].0);
                    } else {
                        assert(config@.runners[a] == old_c.runners[a]);
                    }
                }
            }
        },
    }
}

/// The runner table without the named entry.
pub open spec fn spec_remove_runner(
    rs: Seq<(Seq<char>, RunnerConfigView)>,
    name: Seq<char>,
) -> Seq<(Seq<char>, RunnerConfigView)>
    decreases rs.len(),
{
    if rs.len() == 0 {
        Seq::empty()
    } else {
        let rest = spec_remove_runner(rs.drop_last(), name);
        if rs.last().0 == name {
            rest
        } else {
            rest.push(rs.last())
        }
    }
}

/// Remove the runner with the given name; reports whether one existed.
pub fn remove_runner(config: &mut GlobalConfig, name: &str) -> (removed: bool)
    requires
        old(config)@.wf(),
    ensures
        final(config)@.wf(),
        removed == old(config)@.has_runner(name@),
        final(config)@.runners == spec_remove_runner(old(config)@.runners, name@),
{
    let ghost old_c = config@;
    let mut kept: Vec<(String, RunnerConfig)> = Vec::new();
    let mut removed = false;
    let mut i: usize = 0;
    proof {
        assert(kept.deep_view() =~= spec_remove_runner(old_c.runners.take(0), name@));
    }
    while i < config.runners.len()
        invariant
            old_c.wf(),
            i <= old_c.runners.len(),
            config@ == old_c,
            kept.deep_view() == spec_remove_runner(old_c.runners.take(i as int), name@),
            removed == exists|j: int|
                0 <= j < i && (#[trigger] old_c.runners[j]).0 == name@,
            forall|k: int|
                0 <= k < kept.deep_view().len() ==> exists|j: int|
                    0 <= j < i && (#[trigger] kept.deep_view()[k]) == old_c.runners[j],
            forall|a: int, b: int|
                0 <= a < b < kept.deep_view().len() ==> kept.deep_view()[a].0
                    != kept.deep_view()[b].0,
        decreases old_c.runners.len() - i,
    {
        let hit = str_eq(config.runners[i].0.as_str(), name);
        let ghost prev = kept.deep_view();
        if hit {
            removed = true;
        } else {
            let key = config.runners[i].0.clone();
            let rc = config.runners[i].1.clone();
            kept.push((key, rc));
            proof {
                assert(kept.deep_view() =~= prev.push(old_c.runners[i as int]));
                assert forall|k: int|
                    0 <= k < kept.deep_view().len() implies exists|j: int|
                    0 <= j < i + 1 && (#[trigger] kept.deep_view()[k]) == old_c.runners[j] by {
                    if k < prev.len() {
                        assert(kept.deep_view()[k] == prev[k]);
                    } else {
                        assert(kept.deep_view()[k] == old_c.runners[i as int]);
                    }
                }
                assert forall|a: int, b: int|
                    0 <= a < b < kept.deep_view().len() implies kept.deep_view()[a].0
                    != kept.deep_view()[b].0 by {
                    if b == kept.deep_view().len() - 1 {
                        let ja = choose|j: int| 0 <= j < i && prev[a] == old_c.runners[j];
                        assert(old_c.runners[ja].0 != old_c.runners[i as int].0);
                    }
                }
            }
        }
        proof {
            assert(old_c.runners.take(i + 1).drop_last() =~= old_c.runners.take(i as int));
            assert(old_c.runners.take(i + 1).last() == old_c.runners[i as int]);
            assert(kept.deep_view() =~= spec_remove_runner(old_c.runners.take(i + 1), name@));
        }
        i = i + 1;
    }
    proof {
        assert(old_c.runners.take(old_c.runners.len() as int) =~= old_c.runners);
    }
    config.runners = kept;
    removed
}

/// All runner names, in table order.
pub fn list_runners(config: &GlobalConfig) -> (names: Vec<String>)
    ensures
        names.deep_view() == Seq::new(config@.runners.len(), |i: int| config@.runners[i].0),
{
    let mut names: Vec<String> = Vec::new();
    let mut i: usize = 0;
    while i < config.runners.len()
        invariant
            i <= config@.runners.len(),
            config@.runners.len() == config.runners@.len(),
            names@.len() == i,
            forall|j: int| 0 <= j < i ==> names.deep_view()[j] == config@.runners[j].0,
        decreases config@.runners.len() - i,
    {
        let n = config.runners[i].0.clone();
        let ghost prev = names.deep_view();
        let ghost nv = n@;
        names.push(n);
        proof {
            assert(names.deep_view() =~= prev.push(nv));
        }
        i = i + 1;
    }
    proof {
        assert(names.deep_view() =~= Seq::new(
            config@.runners.len(),
            |i: int| config@.runners[i].0,
        ));
    }
    names
}

} // verus!

verus! {

/// Index of the first closing brace at or after `i`, or -1 when none.
pub open spec fn find_close(s: Seq<char>, i: int) -> int
    decreases s.len() - i when 0 <= i <= s.len()
{
    if i >= s.len() {
        -1
    } else if s[i] == '}' {
        i
    } else {
        find_close(s, i + 1)
    }
}

/// The value of the first environment entry with the given name, or the
/// empty string when the variable is unset.
pub open spec fn env_value(env: Seq<(Seq<char>, Seq<char>)>, name: Seq<char>) -> Seq<char>
    decreases env.len(),
{
    if env.len() == 0 {
        Seq::empty()
    } else if env.first().0 == name {
        env.first().1
    } else {
        env_value(env.drop_first(), name)
    }
}

/// A string with every `${VAR}` replaced by the variable's value (the
/// empty string when unset), scanning left to right.  Substituted values
/// are not re-expanded; text after a `${` with no closing brace is left
/// as it stands.
pub open spec fn spec_expand(s: Seq<char>, env: Seq<(Seq<char>, Seq<char>)>) -> Seq<char>
    decreases s.len(),
{
    if s.len() >= 2 && s[0] == '$' && s[1] == '{' {
        let j = find_close(s, 2);
        if 2 <= j && j < s.len() {
            env_value(env, s.subrange(2, j)) + spec_expand(s.skip(j + 1), env)
        } else {
            s
        }
    } else if s.len() >= 1 {
        seq![s[0]] + spec_expand(s.skip(1), env)
    } else {
        s
    }
}

/// The views of an environment given as name/value pairs.
pub open spec fn env_view(env: Seq<(String, String)>) -> Seq<(Seq<char>, Seq<char>)> {
    Seq::new(env.len(), |i: int| (env[i].0@, env[i].1@))
}

/// Look up a variable in the environment list.
fn env_lookup(env: &Vec<(String, String)>, name: &str) -> (r: Option<String>)
    ensures
        match r {
            Some(v) => v@ == env_value(env_view(env@), name@),
            None => env_value(env_view(env@), name@) == Seq::<char>::empty(),
        },
{
    let ghost ev = env_view(env@);
    let mut k: usize = 0;
    proof {
        assert(ev.skip(0) =~= ev);
    }
    while k < env.len()
        invariant
            k <= env@.len(),
            ev == env_view(env@),
            ev.len() == env@.len(),
            env_value(ev, name@) == env_value(ev.skip(k as int), name@),
        decreases env@.len() - k,
    {
        proof {
            assert(ev.skip(k as int).first() == ev[k as int]);
            assert(ev.skip(k as int).drop_first() =~= ev.skip(k + 1));
        }
        if str_eq(env[k].0.as_str(), name) {
            return Some(env[k].1.clone());
        }
        k = k + 1;
    }
    proof {
        assert(ev.skip(env@.len() as int) =~= Seq::<(Seq<char>, Seq<char>)>::empty());
    }
    None
}

/// Expand `${VAR}` references in a string against the given environment.
pub fn expand_env_vars(input: &str, env: &Vec<(String, String)>) -> (r: String)
    ensures
        r@ == spec_expand(input@, env_view(env@)),
{
    let ghost ev = env_view(env@);
    let len = input.unicode_len();
    let mut out = String::new();
    let mut pos: usize = 0;
    proof {
        assert(input@.skip(0) =~= input@);
        assert(out@ + spec_expand(input@, ev) =~= spec_expand(input@, ev));
    }
    while pos < len
        invariant
            len == input@.len(),
            pos <= len,
            ev == env_view(env@),
            spec_expand(input@, ev) == out@ + spec_expand(input@.skip(pos as int), ev),
        decreases len - pos,
    {
        let ghost t = input@.skip(pos as int);
        proof {
            assert(t.len() == len - pos);
        }
        let is_open = input.get_char(pos) == '$' && pos + 1 < len && input.get_char(pos + 1)
            == '{';
        proof {
            if pos + 1 < len {
                assert(t[0] == input@[pos as int]);
                assert(t[1] == input@[pos as int + 1]);
            } else if pos < len {
                assert(t[0] == input@[pos as int]);
            }
        }
        if is_open {
            // Find the first closing brace after the opener.
            let mut j: usize = pos + 2;
            while j < len && input.get_char(j) != '}'
                invariant
                    len == input@.len(),
                    pos + 2 <= j <= len,
                    t == input@.skip(pos as int),
                    find_close(t, 2) == find_close(t, j - pos),
                decreases len - j,
            {
                proof {
                    assert(t[j - pos] == input@[j as int]);
                }
                j = j + 1;
            }
            if j < len {
                proof {
                    assert(t[j - pos] == input@[j as int]);
                    assert(find_close(t, 2) == j - pos);
                }
                let name_sub = input.substring_char(pos + 2, j);
                proof {
                    assert(name_sub@ =~= t.subrange(2, j - pos));
                }
                let ghost before = out@;
                match env_lookup(env, name_sub) {
                    Some(v) => {
                        out.append(v.as_str());
                    },
                    None => (),
                }
                proof {
                    assert(out@ =~= before + env_value(ev, t.subrange(2, j - pos)));
                    assert(t.skip(j - pos + 1) =~= input@.skip(j + 1));
                    assert(spec_expand(input@, ev) == out@ + spec_expand(input@.skip(j + 1), ev));
                }
                pos = j + 1;
            } else {
                // No closing brace: the remainder stands as written.
                proof {
                    assert(find_close(t, 2) == -1) by {
                        assert(t.len() == j - pos);
                    }
                }
                let rest = input.substring_char(pos, len);
                out.append(rest);
                proof {
                    assert(rest@ =~= t);
                    assert(spec_expand(t, ev) == t);
                    assert(spec_expand(input@, ev) == out@ + spec_expand(
                        input@.skip(len as int),
                        ev,
                    )) by {
                        assert(input@.skip(len as int) =~= Seq::<char>::empty());
                        assert(spec_expand(input@.skip(len as int), ev)
                            == Seq::<char>::empty());
                        assert(out@ =~= (out@ + spec_expand(input@.skip(len as int), ev)));
                    }
                }
                pos = len;
            }
        } else {
            let one = input.substring_char(pos, pos + 1);
            out.append(one);
            proof {
                assert(one@ =~= seq![t[0]]);
                assert(t.skip(1) =~= input@.skip(pos + 1));
                assert(spec_expand(input@, ev) == out@ + spec_expand(input@.skip(pos + 1), ev));
            }
            pos = pos + 1;
        }
    }
    proof {
        assert(input@.skip(len as int) =~= Seq::<char>::empty());
        assert(spec_expand(input@.skip(len as int), ev) == Seq::<char>::empty());
        assert(out@ =~= spec_expand(input@, ev));
    }
    out
}

impl RunnerConfig {
    /// The runner's arguments with `${VAR}` references expanded against
    /// the given environment.
    pub fn expand_env_in_args(&self, env: &Vec<(String, String)>) -> (r: Vec<String>)
        ensures
            r.deep_view() == Seq::new(
                self@.args.len(),
                |i: int| spec_expand(self@.args[i], env_view(env@)),
            ),
    {
        let mut r: Vec<String> = Vec::new();
        let mut i: usize = 0;
        while i < self.args.len()
            invariant
                i <= self.args@.len(),
                self@.args.len() == self.args@.len(),
                r@.len() == i,
                forall|j: int|
                    0 <= j < i ==> r.deep_view()[j] == spec_expand(
                        self@.args[j],
                        env_view(env@),
                    ),
            decreases self.args@.len() - i,
        {
            let e = expand_env_vars(self.args[i].as_str(), env);
            let ghost prev = r.deep_view();
            let ghost evw = e@;
            r.push(e);
            proof {
                assert(r.deep_view() =~= prev.push(evw));
            }
            i = i + 1;
        }
        proof {
            assert(r.deep_view() =~= Seq::new(
                self@.args.len(),
                |i: int| spec_expand(self@.args[i], env_view(env@)),
            ));
        }
        r
    }
}

} // verus!
