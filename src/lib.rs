//! Orchestration core for driving flaky, slow, per-device commands: bounded
//! retries with capped exponential backoff, timeout resolution, time-to-live
//! caches, fan-out across device sets with per-device isolation, and scoped
//! tracking of remote temporary files with guaranteed cleanup attempts.
//!
//! Everything here is plain data and decisions; the blocking command
//! executor, the clock and the sleeping are supplied by the caller.

pub mod text;
pub mod error;
pub mod retry;
pub mod timeout;
pub mod cache;
pub mod parallel;
pub mod device;
pub mod resource;
pub mod config;
pub mod package;
pub mod transfer;
pub mod args;
pub mod lines;
pub mod listing;
pub mod shell_commands;
pub mod package_report;
pub mod probes;
pub mod outcome;

pub use error::{ADBError, ADBResult};
pub use retry::{
    next_delay, retry_with_backoff, run_with_retry, RetryPolicy, RetryState, RetryStep,
    MAX_RETRY_DELAY_MS,
};
pub use text::{contains_any, decimal, format_duration, format_size};
pub use timeout::resolve_timeout;
pub use cache::{fresh, CacheEntry, TtlCache};
pub use parallel::{dispatch, dispatch_online, distinct_ids, select_online, FanoutResult};
pub use device::{ADBDevice, DeviceStatus};
pub use resource::{removal_command, with_resources, ResourceManager};
pub use config::{ADBConfig, ADBConfigBuilder};
pub use package::{PackageInfo, PackageInfoBuilder};
pub use transfer::{chunk_count, pull_args, push_args, TransferOptions};
pub use args::parse_args;
pub use lines::{get_line_at, split_lines, split_whitespace, trim};
pub use listing::{
    launch_failed, parse_device_line, parse_device_list, parse_package_list, parse_properties,
    property_line, reports_exists, starts_with, trim_start_matches,
};
pub use shell_commands::{screenrecord_command, server_arch, server_start_command};
pub use package_report::{extract_number, parse_package_report};
pub use probes::{
    available_space, first_line_pid, first_word, listed_pid, reported_size, server_version,
    PidLookup, PidStage, PidStep,
};
pub use outcome::{command_failure, connect_failure, package_command_failure};
