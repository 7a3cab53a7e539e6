//! Configuration of external command-line solvers (FIRE, Kira, FORM, ...).
//!
//! A [`CliSolver`] records which program to run, with which arguments,
//! working directory, environment and timeout; running it is left to the
//! caller's process layer.
use vstd::prelude::*;

use crate::lagrangian::{str_views, string_views};

verus! {

/// A command-line solver: an executable fed on stdin, read on stdout.
pub struct CliSolver {
    executable: String,
    arguments: Vec<String>,
    timeout_secs: u64,
    timeout_nanos: u32,
    work_dir: Option<String>,
    env_vars: Vec<(String, String)>,
}

/// The whole seconds of a duration, as `Duration::as_secs` reports them.
pub uninterp spec fn duration_whole_secs(d: std::time::Duration) -> u64;

/// The fractional part of a duration in nanoseconds, as
/// `Duration::subsec_nanos` reports it.
pub uninterp spec fn duration_subsec(d: std::time::Duration) -> u32;

/// `Duration::new`: a duration of `secs` whole seconds and `nanos`
/// nanoseconds. With `nanos` below one second (the `requires`) nothing
/// carries into the seconds (the carry panics on overflow), so by the
/// documentation of `as_secs` and `subsec_nanos` the duration reports
/// exactly `secs` and `nanos` back.
#[verifier::external_body]
fn duration_from_parts(secs: u64, nanos: u32) -> (d: std::time::Duration)
    requires
        nanos < 1_000_000_000,
    ensures
        duration_whole_secs(d) == secs,
        duration_subsec(d) == nanos,
{
    std::time::Duration::new(secs, nanos)
}

/// `Duration::as_secs`: the whole seconds of a duration.
#[verifier::external_body]
fn duration_secs(d: &std::time::Duration) -> (secs: u64)
    ensures
        secs == duration_whole_secs(*d),
{
    d.as_secs()
}

/// `Duration::subsec_nanos`: the fractional part of a duration in
/// nanoseconds, which its documentation bounds below one second.
#[verifier::external_body]
fn duration_subsec_nanos(d: &std::time::Duration) -> (nanos: u32)
    ensures
        nanos == duration_subsec(*d),
        nanos < 1_000_000_000,
{
    d.subsec_nanos()
}

impl CliSolver {
    /// Executable name, as given.
    pub closed spec fn spec_executable(&self) -> Seq<char> {
        self.executable@
    }

    /// Command-line arguments.
    pub closed spec fn spec_arguments(&self) -> Seq<Seq<char>> {
        string_views(self.arguments@)
    }

    /// Timeout as (whole seconds, nanoseconds).
    pub closed spec fn spec_timeout(&self) -> (u64, u32) {
        (self.timeout_secs, self.timeout_nanos)
    }

    /// Working directory, if set.
    pub closed spec fn spec_work_dir(&self) -> Option<Seq<char>> {
        match self.work_dir {
            Some(d) => Some(d@),
            None => None,
        }
    }

    /// Environment variables, in the order they were added.
    pub closed spec fn spec_env(&self) -> Seq<(Seq<char>, Seq<char>)> {
        self.env_vars@.map_values(|kv: (String, String)| (kv.0@, kv.1@))
    }

    /// The nanosecond part of the timeout is below one second.
    #[verifier::type_invariant]
    closed spec fn wf(&self) -> bool {
        self.timeout_nanos < 1_000_000_000
    }

    /// A solver for `executable`, without arguments, working directory or
    /// environment, with a 30 s timeout.
    pub fn new(executable: &str) -> (s: Self)
        ensures
            s.spec_executable() == executable@,
            s.spec_arguments().len() == 0,
            s.spec_timeout() == (30u64, 0u32),
            s.spec_work_dir().is_none(),
            s.spec_env().len() == 0,
    {
        let s = CliSolver {
            executable: String::from_str(executable),
            arguments: Vec::new(),
            timeout_secs: 30,
            timeout_nanos: 0,
            work_dir: None,
            env_vars: Vec::new(),
        };
        assert(s.spec_arguments() =~= Seq::<Seq<char>>::empty());
        assert(s.spec_env() =~= Seq::<(Seq<char>, Seq<char>)>::empty());
        s
    }

    /// Replace the command-line arguments.
    pub fn args(self, args: &[&str]) -> (s: Self)
        ensures
            s.spec_arguments() == str_views(args@),
            s.spec_executable() == self.spec_executable(),
            s.spec_timeout() == self.spec_timeout(),
            s.spec_work_dir() == self.spec_work_dir(),
            s.spec_env() == self.spec_env(),
    {
        proof { use_type_invariant(&self); }
        let mut s = self;
        s.arguments = crate::lagrangian::owned_strings(args);
        s
    }

    /// Set the timeout in whole seconds.
    pub fn timeout_secs(self, secs: u64) -> (s: Self)
        ensures
            s.spec_timeout() == (secs, 0u32),
            s.spec_executable() == self.spec_executable(),
            s.spec_arguments() == self.spec_arguments(),
            s.spec_work_dir() == self.spec_work_dir(),
            s.spec_env() == self.spec_env(),
    {
        let mut s = self;
        s.timeout_nanos = 0;
        s.timeout_secs = secs;
        s
    }

    /// Set the timeout as a `Duration`.
    pub fn timeout(self, duration: std::time::Duration) -> (s: Self)
        ensures
            s.spec_timeout() == (duration_whole_secs(duration), duration_subsec(duration)),
            s.spec_executable() == self.spec_executable(),
            s.spec_arguments() == self.spec_arguments(),
            s.spec_work_dir() == self.spec_work_dir(),
            s.spec_env() == self.spec_env(),
    {
        let secs = duration_secs(&duration);
        let nanos = duration_subsec_nanos(&duration);
        let mut s = self;
        s.timeout_nanos = nanos;
        s.timeout_secs = secs;
        s
    }

    /// Set the working directory of the child process.
    pub fn working_dir(self, dir: &str) -> (s: Self)
        ensures
            s.spec_work_dir() == Some(dir@),
            s.spec_executable() == self.spec_executable(),
            s.spec_arguments() == self.spec_arguments(),
            s.spec_timeout() == self.spec_timeout(),
            s.spec_env() == self.spec_env(),
    {
        proof { use_type_invariant(&self); }
        let mut s = self;
        s.work_dir = Some(String::from_str(dir));
        s
    }

    /// Add an environment variable for the child process.
    pub fn env(self, key: &str, value: &str) -> (s: Self)
        ensures
            s.spec_env() == self.spec_env().push((key@, value@)),
            s.spec_executable() == self.spec_executable(),
            s.spec_arguments() == self.spec_arguments(),
            s.spec_timeout() == self.spec_timeout(),
            s.spec_work_dir() == self.spec_work_dir(),
    {
        proof { use_type_invariant(&self); }
        let ghost old_env = self.spec_env();
        let CliSolver { executable, arguments, timeout_secs, timeout_nanos, work_dir, env_vars } = self;
        let mut env_vars = env_vars;
        env_vars.push((String::from_str(key), String::from_str(value)));
        let s = CliSolver { executable, arguments, timeout_secs, timeout_nanos, work_dir, env_vars };
        assert(s.spec_env() =~= old_env.push((key@, value@)));
        s
    }

    /// The executable name.
    pub fn executable(&self) -> (e: &str)
        ensures
            e@ == self.spec_executable(),
    {
        self.executable.as_str()
    }

    /// The solver's name: its executable.
    pub fn name(&self) -> (e: &str)
        ensures
            e@ == self.spec_executable(),
    {
        self.executable.as_str()
    }

    /// The command-line arguments.
    pub fn arguments(&self) -> (a: &Vec<String>)
        ensures
            string_views(a@) == self.spec_arguments(),
    {
        &self.arguments
    }

    /// The working directory, if set.
    pub fn work_dir(&self) -> (d: Option<&str>)
        ensures
            match d {
                Some(x) => self.spec_work_dir() == Some(x@),
                None => self.spec_work_dir().is_none(),
            },
    {
        match &self.work_dir {
            Some(x) => Some(x.as_str()),
            None => None,
        }
    }

    /// The environment variables, in the order they were added.
    pub fn env_vars(&self) -> (v: &Vec<(String, String)>)
        ensures
            v@.map_values(|kv: (String, String)| (kv.0@, kv.1@)) == self.spec_env(),
    {
        &self.env_vars
    }

    /// The configured timeout as (whole seconds, nanoseconds).
    pub fn timeout_parts(&self) -> (t: (u64, u32))
        ensures
            t == self.spec_timeout(),
    {
        (self.timeout_secs, self.timeout_nanos)
    }

    /// The configured timeout.
    pub fn configured_timeout(&self) -> (d: std::time::Duration)
        ensures
            (duration_whole_secs(d), duration_subsec(d)) == self.spec_timeout(),
    {
        proof { use_type_invariant(self); }
        duration_from_parts(self.timeout_secs, self.timeout_nanos)
    }

}

} // verus!
