use vstd::prelude::*;
use crate::text::string_views;
use crate::retry::RetryPolicy;

verus! {

/// The program run when no path is configured.
pub open spec fn default_path() -> Seq<char> {
    "adb"@
}

/// Retries allowed when none are configured.
pub const DEFAULT_MAX_RETRIES: u32 = 3;

/// Delay before the first retry, in milliseconds, when none is configured.
pub const DEFAULT_RETRY_DELAY_MS: u64 = 1000;

/// Deadline of an operation, in milliseconds, when none is configured.
pub const DEFAULT_TIMEOUT_MS: u64 = 30000;

/// How to run the device tool; every setting may be left unset.
#[derive(Debug, Clone)]
pub struct ADBConfig {
    /// The program to run.
    pub path: Option<String>,
    /// Attempts allowed after the first failure.
    pub max_retries: Option<u32>,
    /// Delay before the first retry, in milliseconds.
    pub retry_delay: Option<u64>,
    /// Deadline of an operation, in milliseconds.
    pub timeout: Option<u64>,
    /// How much to log.
    pub log_level: Option<String>,
    /// Arguments put before those of every command.
    pub additional_args: Option<Vec<String>>,
}

/// Whether `c` is the default configuration.
pub open spec fn is_default_config(c: ADBConfig) -> bool {
    &&& c.path is Some && c.path->0@ == default_path()
    &&& c.max_retries == Some(DEFAULT_MAX_RETRIES)
    &&& c.retry_delay == Some(DEFAULT_RETRY_DELAY_MS)
    &&& c.timeout == Some(DEFAULT_TIMEOUT_MS)
    &&& c.log_level is None
    &&& c.additional_args is None
}

impl Default for ADBConfig {
    fn default() -> (r: ADBConfig)
        ensures
            is_default_config(r),
    {
        ADBConfig {
            path: Some(String::from_str("adb")),
            max_retries: Some(DEFAULT_MAX_RETRIES),
            retry_delay: Some(DEFAULT_RETRY_DELAY_MS),
            timeout: Some(DEFAULT_TIMEOUT_MS),
            log_level: None,
            additional_args: None,
        }
    }
}

impl ADBConfig {
    /// The retry policy of this configuration, with the defaults for what is unset.
    pub fn retry_policy(&self) -> (r: RetryPolicy)
        ensures
            r.max_retries == match self.max_retries {
                Some(n) => n,
                None => DEFAULT_MAX_RETRIES,
            },
            r.initial_delay_ms == match self.retry_delay {
                Some(d) => d,
                None => DEFAULT_RETRY_DELAY_MS,
            },
    {
        RetryPolicy {
            max_retries: match self.max_retries {
                Some(n) => n,
                None => DEFAULT_MAX_RETRIES,
            },
            initial_delay_ms: match self.retry_delay {
                Some(d) => d,
                None => DEFAULT_RETRY_DELAY_MS,
            },
        }
    }

    /// The deadline of an operation in milliseconds, with the default when unset.
    pub fn timeout_ms(&self) -> (r: u64)
        ensures
            r == match self.timeout {
                Some(t) => t,
                None => DEFAULT_TIMEOUT_MS,
            },
    {
        match self.timeout {
            Some(t) => t,
            None => DEFAULT_TIMEOUT_MS,
        }
    }
}

/// Collects settings and fills in the defaults for the rest.
#[derive(Debug)]
pub struct ADBConfigBuilder {
    staged: ADBConfig,
}

/// Whether `a` and `b` agree on every setting but the one numbered `skip`:
/// 0 path, 1 retries, 2 delay, 3 timeout, 4 log level, 5 arguments.
pub open spec fn same_settings_but(a: ADBConfig, b: ADBConfig, skip: int) -> bool {
    &&& (skip == 0 || a.path == b.path)
    &&& (skip == 1 || a.max_retries == b.max_retries)
    &&& (skip == 2 || a.retry_delay == b.retry_delay)
    &&& (skip == 3 || a.timeout == b.timeout)
    &&& (skip == 4 || a.log_level == b.log_level)
    &&& (skip == 5 || a.additional_args == b.additional_args)
}

impl Default for ADBConfigBuilder {
    fn default() -> (r: ADBConfigBuilder)
        ensures
            r.staged().path is None && r.staged().max_retries is None,
            r.staged().retry_delay is None && r.staged().timeout is None,
            r.staged().log_level is None && r.staged().additional_args is None,
    {
        ADBConfigBuilder {
            staged: ADBConfig {
                path: None,
                max_retries: None,
                retry_delay: None,
                timeout: None,
                log_level: None,
                additional_args: None,
            },
        }
    }
}

impl ADBConfigBuilder {
    /// The settings made so far.
    pub closed spec fn staged(&self) -> ADBConfig {
        self.staged
    }

    /// Sets the program to run.
    pub fn path(self, path: &str) -> (r: ADBConfigBuilder)
        ensures
            r.staged().path is Some && r.staged().path->0@ == path@,
            same_settings_but(r.staged(), self.staged(), 0),
    {
        let mut b = self;
        b.staged.path = Some(path.to_owned());
        b
    }

    /// Sets the number of retries.
    pub fn max_retries(self, retries: u32) -> (r: ADBConfigBuilder)
        ensures
            r.staged().max_retries == Some(retries),
            same_settings_but(r.staged(), self.staged(), 1),
    {
        let mut b = self;
        b.staged.max_retries = Some(retries);
        b
    }

    /// Sets the delay before the first retry, in milliseconds.
    pub fn retry_delay(self, delay: u64) -> (r: ADBConfigBuilder)
        ensures
            r.staged().retry_delay == Some(delay),
            same_settings_but(r.staged(), self.staged(), 2),
    {
        let mut b = self;
        b.staged.retry_delay = Some(delay);
        b
    }

    /// Sets the deadline of an operation, in milliseconds.
    pub fn timeout(self, timeout: u64) -> (r: ADBConfigBuilder)
        ensures
            r.staged().timeout == Some(timeout),
            same_settings_but(r.staged(), self.staged(), 3),
    {
        let mut b = self;
        b.staged.timeout = Some(timeout);
        b
    }

    /// Sets how much to log.
    pub fn log_level(self, level: &str) -> (r: ADBConfigBuilder)
        ensures
            r.staged().log_level is Some && r.staged().log_level->0@ == level@,
            same_settings_but(r.staged(), self.staged(), 4),
    {
        let mut b = self;
        b.staged.log_level = Some(level.to_owned());
        b
    }

    /// Appends an argument to put before those of every command.
    pub fn add_arg(self, arg: &str) -> (r: ADBConfigBuilder)
        ensures
            r.staged().additional_args is Some,
            string_views(r.staged().additional_args->0@) == match self.staged().additional_args {
                Some(a) => string_views(a@),
                None => Seq::<Seq<char>>::empty(),
            }.push(arg@),
            same_settings_but(r.staged(), self.staged(), 5),
    {
        let mut b = self;
        let mut args = match b.staged.additional_args {
            Some(a) => a,
            None => Vec::new(),
        };
        let ghost before = args@;
        args.push(arg.to_owned());
        assert(string_views(args@) =~= string_views(before).push(arg@));
        b.staged.additional_args = Some(args);
        b
    }

    /// The configuration: each setting made, and the default for the rest.
    pub fn build(self) -> (r: ADBConfig)
        ensures
            self.staged().path is Some ==> r.path == self.staged().path,
            self.staged().path is None ==> r.path is Some && r.path->0@ == default_path(),
            r.max_retries == Some(
                match self.staged().max_retries {
                    Some(n) => n,
                    None => DEFAULT_MAX_RETRIES,
                },
            ),
            r.retry_delay == Some(
                match self.staged().retry_delay {
                    Some(d) => d,
                    None => DEFAULT_RETRY_DELAY_MS,
                },
            ),
            r.timeout == Some(
                match self.staged().timeout {
                    Some(t) => t,
                    None => DEFAULT_TIMEOUT_MS,
                },
            ),
            r.log_level == self.staged().log_level,
            r.additional_args == self.staged().additional_args,
    {
        let d = ADBConfig::default();
        let s = self.staged;
        ADBConfig {
            path: match s.path {
                Some(p) => Some(p),
                None => d.path,
            },
            max_retries: match s.max_retries {
                Some(n) => Some(n),
                None => d.max_retries,
            },
            retry_delay: match s.retry_delay {
                Some(n) => Some(n),
                None => d.retry_delay,
            },
            timeout: match s.timeout {
                Some(n) => Some(n),
                None => d.timeout,
            },
            log_level: s.log_level,
            additional_args: s.additional_args,
        }
    }
}

} // verus!
