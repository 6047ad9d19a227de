use vstd::prelude::*;
use crate::lines::{lines_spec, split_lines, split_whitespace, tokens_spec, trim, trim_spec};
use crate::package_report::{
    capture_i32, captured_i32, first_capture, i32_of_text, parse_i32, parse_u64, regex_capture,
    text_view, u64_of_text,
};
use crate::text::string_views;

verus! {

/// The process id in word `column` of the first line of a process listing,
/// when that line has at least `min_words` words and the word is a number.
pub open spec fn first_line_pid_spec(output: Seq<char>, column: nat, min_words: nat) -> Option<i32> {
    let ls = lines_spec(output);
    if ls.len() == 0 {
        None
    } else {
        let words = tokens_spec(ls[0]);
        if words.len() >= min_words && column < words.len() {
            i32_of_text(words[column as int])
        } else {
            None
        }
    }
}

/// Reads a process id from word `column` of the first line of `output`,
/// which must have at least `min_words` words.
pub fn first_line_pid(output: &str, column: usize, min_words: usize) -> (r: Option<i32>)
    ensures
        r == first_line_pid_spec(output@, column as nat, min_words as nat),
{
    let lines = split_lines(output);
    if lines.len() == 0 {
        return None;
    }
    assert(string_views(lines@)[0] == lines@[0]@);
    let words = split_whitespace(lines[0].as_str());
    if words.len() >= min_words && column < words.len() {
        assert(string_views(words@)[column as int] == words@[column as int]@);
        parse_i32(words[column].as_str())
    } else {
        None
    }
}

/// The process id of the first line, from line `i` on, whose word `column`
/// is a number.
pub open spec fn listed_pid_from(lines: Seq<Seq<char>>, column: nat, i: nat) -> Option<i32>
    decreases lines.len() - i,
{
    if i >= lines.len() {
        None
    } else {
        let words = tokens_spec(lines[i as int]);
        if column < words.len() && i32_of_text(words[column as int]) is Some {
            i32_of_text(words[column as int])
        } else {
            listed_pid_from(lines, column, i + 1)
        }
    }
}

/// Reads the process id of the first line of a process listing whose word
/// `column` is a number.
pub fn listed_pid(output: &str, column: usize) -> (r: Option<i32>)
    ensures
        r == listed_pid_from(lines_spec(output@), column as nat, 0),
{
    let lines = split_lines(output);
    let ghost ls = string_views(lines@);
    let mut i: usize = 0;
    while i < lines.len()
        invariant
            ls == string_views(lines@),
            ls == lines_spec(output@),
            i <= lines.len(),
            listed_pid_from(ls, column as nat, i as nat) == listed_pid_from(ls, column as nat, 0),
        decreases lines.len() - i,
    {
        assert(ls[i as int] == lines@[i as int]@);
        let words = split_whitespace(lines[i].as_str());
        if column < words.len() {
            assert(string_views(words@)[column as int] == words@[column as int]@);
            let pid = parse_i32(words[column].as_str());
            if pid.is_some() {
                return pid;
            }
        }
        i = i + 1;
    }
    None
}

/// The command that asks `pidof` for a package's process.
pub open spec fn pidof_command_spec(package: Seq<char>) -> Seq<char> {
    "pidof "@ + package
}

/// The command that lists a package's processes; `all` lists every user's.
pub open spec fn ps_command_spec(package: Seq<char>, all: bool) -> Seq<char> {
    (if all {
        "ps -A | grep "@
    } else {
        "ps | grep "@
    }) + package + " | grep -v grep"@
}

/// The word of a `ps` line that holds the process id.
pub open spec fn ps_column(all: bool) -> nat {
    if all {
        1
    } else {
        2
    }
}

/// The command that lists the services mentioning a package.
pub open spec fn services_command_spec(package: Seq<char>) -> Seq<char> {
    "dumpsys activity services | grep -i "@ + package
}

/// The pattern of a process id in a service listing.
pub const SERVICE_PID_PATTERN: &'static str = "pid=(\\d+)";

/// Which probe a process-id lookup ran last.
#[derive(Debug, Clone, Copy, PartialEq, Eq, Structural)]
pub enum PidStage {
    Pidof,
    Ps,
    Services,
    Done,
}

/// What a process-id lookup asks for next.
#[derive(Debug, Clone, PartialEq, Eq)]
pub enum PidStep {
    /// Run this shell command on the device and report its output.
    Run(String),
    /// The process id.
    Found(i32),
    /// No probe found the process.
    NotFound,
}

/// Whether `s` asks to run exactly `command`.
pub open spec fn runs(s: PidStep, command: Seq<char>) -> bool {
    s is Run && s->Run_0@ == command
}

/// The lookup of a package's process id on one device, probe by probe:
/// `pidof` where the platform has it, then `ps`, then the service listing.
/// The caller runs each command and hands back its output.
pub struct PidLookup {
    package: String,
    ps_lists_all: bool,
    stage: PidStage,
}

fn concat3(a: &str, b: &str, c: &str) -> (r: String)
    ensures
        r@ == a@ + b@ + c@,
{
    let mut s = String::from_str(a);
    s.append(b);
    s.append(c);
    s
}

impl PidLookup {
    /// The package looked up.
    pub closed spec fn package(&self) -> Seq<char> {
        self.package@
    }

    /// Whether `ps` lists every user's processes on the device.
    pub closed spec fn lists_all(&self) -> bool {
        self.ps_lists_all
    }

    /// The probe that ran last.
    pub closed spec fn stage(&self) -> PidStage {
        self.stage
    }

    /// The probe that ran last.
    pub fn current_stage(&self) -> (r: PidStage)
        ensures
            r == self.stage(),
    {
        self.stage
    }

    fn ps_command(&self) -> (r: String)
        ensures
            r@ == ps_command_spec(self.package(), self.lists_all()),
    {
        let head = if self.ps_lists_all {
            "ps -A | grep "
        } else {
            "ps | grep "
        };
        concat3(head, self.package.as_str(), " | grep -v grep")
    }

    /// Begins a lookup of `package`: with `pidof` when the platform has it,
    /// else with `ps`.
    pub fn start(package: &str, pidof_available: bool, ps_lists_all: bool) -> (r: (PidLookup, PidStep))
        ensures
            r.0.package() == package@,
            r.0.lists_all() == ps_lists_all,
            pidof_available ==> r.0.stage() == PidStage::Pidof && runs(r.1, pidof_command_spec(package@)),
            !pidof_available ==> r.0.stage() == PidStage::Ps && runs(r.1, ps_command_spec(package@, ps_lists_all)),
    {
        let lookup = PidLookup { package: package.to_owned(), ps_lists_all, stage: PidStage::Pidof };
        if pidof_available {
            let command = String::from_str("pidof ").concat(package);
            (lookup, PidStep::Run(command))
        } else {
            let lookup = PidLookup { stage: PidStage::Ps, ..lookup };
            let command = lookup.ps_command();
            (lookup, PidStep::Run(command))
        }
    }

    /// Takes the output of the command last asked for and says what comes
    /// next: the process id when the output gives one, else the next probe,
    /// else that none found it.
    pub fn on_output(&mut self, output: &str) -> (r: PidStep)
        requires
            old(self).stage() != PidStage::Done,
        ensures
            final(self).package() == old(self).package(),
            final(self).lists_all() == old(self).lists_all(),
            old(self).stage() == PidStage::Pidof ==> match i32_of_text(trim_spec(output@)) {
                Some(p) => r == PidStep::Found(p) && final(self).stage() == PidStage::Done,
                None => runs(r, ps_command_spec(old(self).package(), old(self).lists_all()))
                    && final(self).stage() == PidStage::Ps,
            },
            old(self).stage() == PidStage::Ps ==> match listed_pid_from(
                lines_spec(output@),
                ps_column(old(self).lists_all()),
                0,
            ) {
                Some(p) => r == PidStep::Found(p) && final(self).stage() == PidStage::Done,
                None => runs(r, services_command_spec(old(self).package()))
                    && final(self).stage() == PidStage::Services,
            },
            old(self).stage() == PidStage::Services ==> final(self).stage() == PidStage::Done && (
            if trim_spec(output@).len() > 0 && captured_i32(
                regex_capture(SERVICE_PID_PATTERN@, output@),
            ) is Some {
                r == PidStep::Found(captured_i32(regex_capture(SERVICE_PID_PATTERN@, output@))->0)
            } else {
                r == PidStep::NotFound
            }),
    {
        match self.stage {
            PidStage::Pidof => {
                let t = trim(output);
                match parse_i32(t.as_str()) {
                    Some(p) => {
                        self.stage = PidStage::Done;
                        PidStep::Found(p)
                    },
                    None => {
                        self.stage = PidStage::Ps;
                        PidStep::Run(self.ps_command())
                    },
                }
            },
            PidStage::Ps => {
                let column: usize = if self.ps_lists_all {
                    1
                } else {
                    2
                };
                match listed_pid(output, column) {
                    Some(p) => {
                        self.stage = PidStage::Done;
                        PidStep::Found(p)
                    },
                    None => {
                        self.stage = PidStage::Services;
                        let command = String::from_str("dumpsys activity services | grep -i ").concat(
                            self.package.as_str(),
                        );
                        PidStep::Run(command)
                    },
                }
            },
            _ => {
                self.stage = PidStage::Done;
                if trim(output).unicode_len() > 0 {
                    match capture_i32(SERVICE_PID_PATTERN, output) {
                        Some(p) => PidStep::Found(p),
                        None => PidStep::NotFound,
                    }
                } else {
                    PidStep::NotFound
                }
            },
        }
    }
}

/// The size that a size probe reports: the trimmed output as a number of
/// bytes, or of kibibytes when `in_kib`; `None` when it is not a number or
/// the bytes do not fit.
pub open spec fn reported_size_spec(output: Seq<char>, in_kib: bool) -> Option<u64> {
    match u64_of_text(trim_spec(output)) {
        Some(n) => if !in_kib {
            Some(n)
        } else if n * 1024 <= u64::MAX {
            Some((n * 1024) as u64)
        } else {
            None
        },
        None => None,
    }
}

/// Reads the size that a size probe (`wc -c`, or `du -sk` when `in_kib`)
/// reports, in bytes.
pub fn reported_size(output: &str, in_kib: bool) -> (r: Option<u64>)
    ensures
        r == reported_size_spec(output@, in_kib),
{
    let t = trim(output);
    match parse_u64(t.as_str()) {
        Some(n) => if !in_kib {
            Some(n)
        } else if n <= u64::MAX / 1024 {
            Some(n * 1024)
        } else {
            None
        },
        None => None,
    }
}

/// The free space that the last line of `df -k` reports, in bytes: its
/// fourth word, a number of kibibytes.
pub open spec fn available_space_spec(output: Seq<char>) -> Option<u64> {
    let words = tokens_spec(output);
    if words.len() < 4 {
        None
    } else {
        match u64_of_text(words[3]) {
            Some(n) => if n * 1024 <= u64::MAX {
                Some((n * 1024) as u64)
            } else {
                None
            },
            None => None,
        }
    }
}

/// Reads the free space that a line of `df -k` reports, in bytes.
pub fn available_space(output: &str) -> (r: Option<u64>)
    ensures
        r == available_space_spec(output@),
{
    let words = split_whitespace(output);
    if words.len() < 4 {
        return None;
    }
    assert(string_views(words@)[3] == words@[3]@);
    match parse_u64(words[3].as_str()) {
        Some(n) => if n <= u64::MAX / 1024 {
            Some(n * 1024)
        } else {
            None
        },
        None => None,
    }
}

/// The first word of `output`, as a digest listing (`md5sum`) gives it.
pub fn first_word(output: &str) -> (r: Option<String>)
    ensures
        tokens_spec(output@).len() == 0 ==> r is None,
        tokens_spec(output@).len() > 0 ==> r is Some && r->0@ == tokens_spec(output@)[0],
{
    let mut words = split_whitespace(output);
    if words.len() == 0 {
        None
    } else {
        assert(string_views(words@)[0] == words@[0]@);
        Some(words.swap_remove(0))
    }
}

/// The patterns of the three parts of the tool's version line; each
/// captures one part of the same match.
pub const VERSION_MAJOR_PATTERN: &'static str = "Android Debug Bridge version (\\d+)\\.\\d+\\.\\d+";
pub const VERSION_MINOR_PATTERN: &'static str = "Android Debug Bridge version \\d+\\.(\\d+)\\.\\d+";
pub const VERSION_PATCH_PATTERN: &'static str = "Android Debug Bridge version \\d+\\.\\d+\\.(\\d+)";

/// A version part: its digits as a `u32`, zero when they do not fit.
pub open spec fn version_part(c: Option<Seq<char>>) -> int {
    match c {
        Some(t) => match u64_of_text(t) {
            Some(n) => if n <= u32::MAX {
                n as int
            } else {
                0
            },
            None => 0,
        },
        None => 0,
    }
}

/// The tool version that `version` output reports, as
/// `major * 10000 + minor * 100 + patch`; `None` when the output holds no
/// version line or the number does not fit a `u32`.
pub open spec fn server_version_spec(output: Seq<char>) -> Option<u32> {
    let v = version_part(regex_capture(VERSION_MAJOR_PATTERN@, output)) * 10000 + version_part(
        regex_capture(VERSION_MINOR_PATTERN@, output),
    ) * 100 + version_part(regex_capture(VERSION_PATCH_PATTERN@, output));
    if regex_capture(VERSION_MAJOR_PATTERN@, output) is Some && v <= u32::MAX {
        Some(v as u32)
    } else {
        None
    }
}

fn read_part(pattern: &str, output: &str) -> (r: u64)
    ensures
        r == version_part(regex_capture(pattern@, output@)),
        r <= u32::MAX,
{
    match first_capture(pattern, output) {
        Some(t) => match parse_u64(t.as_str()) {
            Some(n) => if n <= 0xffff_ffff {
                n
            } else {
                0
            },
            None => 0,
        },
        None => 0,
    }
}

/// Reads the tool version from the output of `version`.
pub fn server_version(output: &str) -> (r: Option<u32>)
    ensures
        r == server_version_spec(output@),
{
    let present = first_capture(VERSION_MAJOR_PATTERN, output);
    if present.is_none() {
        return None;
    }
    let major = read_part(VERSION_MAJOR_PATTERN, output);
    let minor = read_part(VERSION_MINOR_PATTERN, output);
    let patch = read_part(VERSION_PATCH_PATTERN, output);
    assert(text_view(present) is Some);
    let v: u128 = major as u128 * 10000 + minor as u128 * 100 + patch as u128;
    if v <= 0xffff_ffff {
        Some(v as u32)
    } else {
        None
    }
}

} // verus!
