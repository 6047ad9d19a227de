use vstd::prelude::*;
use crate::device::same_text;
use crate::text::{decimal, decimal_spec};

verus! {

/// The longest recording the device allows, in seconds.
pub const MAX_RECORDING_SECS: u32 = 180;

/// The command that records the screen for `secs` seconds (at most the
/// device's limit), at an optional size, into `device_path`.
pub open spec fn screenrecord_spec(secs: u32, size: Option<Seq<char>>, device_path: Seq<char>) -> Seq<char> {
    let limit = if secs < MAX_RECORDING_SECS {
        secs
    } else {
        MAX_RECORDING_SECS
    };
    "screenrecord --time-limit "@ + decimal_spec(limit as nat) + " "@ + match size {
        Some(s) => "--size "@ + s + " "@,
        None => Seq::empty(),
    } + device_path
}

/// The command that records the screen into `device_path`.
pub fn screenrecord_command(duration_secs: u32, size: Option<&str>, device_path: &str) -> (r: String)
    ensures
        r@ == screenrecord_spec(
            duration_secs,
            match size {
                Some(s) => Some(s@),
                None => None,
            },
            device_path@,
        ),
{
    let limit = if duration_secs < MAX_RECORDING_SECS {
        duration_secs
    } else {
        MAX_RECORDING_SECS
    };
    let mut command = String::from_str("screenrecord --time-limit ");
    let digits = decimal(limit as u64);
    command.append(digits.as_str());
    command.append(" ");
    match size {
        Some(s) => {
            command.append("--size ");
            command.append(s);
            command.append(" ");
        },
        None => {},
    }
    command.append(device_path);
    command
}

/// The architecture name that instrumentation servers use for a device ABI.
pub open spec fn server_arch_spec(abi: Seq<char>) -> Option<Seq<char>> {
    if abi == "armeabi-v7a"@ || abi == "armeabi"@ {
        Some("arm"@)
    } else if abi == "arm64-v8a"@ {
        Some("arm64"@)
    } else if abi == "x86"@ {
        Some("x86"@)
    } else if abi == "x86_64"@ {
        Some("x86_64"@)
    } else {
        None
    }
}

/// The architecture name that instrumentation servers use for a device ABI;
/// `None` for an ABI they are not built for.
pub fn server_arch(abi: &str) -> (r: Option<String>)
    ensures
        r is Some <==> server_arch_spec(abi@) is Some,
        r is Some ==> r->0@ == server_arch_spec(abi@)->0,
{
    let a = abi.to_owned();
    if same_text(&a, "armeabi-v7a") || same_text(&a, "armeabi") {
        Some(String::from_str("arm"))
    } else if same_text(&a, "arm64-v8a") {
        Some(String::from_str("arm64"))
    } else if same_text(&a, "x86") {
        Some(String::from_str("x86"))
    } else if same_text(&a, "x86_64") {
        Some(String::from_str("x86_64"))
    } else {
        None
    }
}

/// The command that starts an instrumentation server binary listening on
/// every interface at `port`, as root when `use_root` holds.
pub open spec fn server_start_spec(binary: Seq<char>, port: u16, use_root: bool) -> Seq<char> {
    let launch = binary + " -l 0.0.0.0:"@ + decimal_spec(port as nat);
    if use_root {
        "su -c '"@ + launch + "'"@
    } else {
        launch
    }
}

/// The command that starts an instrumentation server binary.
pub fn server_start_command(binary: &str, port: u16, use_root: bool) -> (r: String)
    ensures
        r@ == server_start_spec(binary@, port, use_root),
{
    let mut launch = String::from_str(binary);
    launch.append(" -l 0.0.0.0:");
    let digits = decimal(port as u64);
    launch.append(digits.as_str());
    if use_root {
        let mut command = String::from_str("su -c '");
        command.append(launch.as_str());
        command.append("'");
        command
    } else {
        launch
    }
}

} // verus!
