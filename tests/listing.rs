use adb_orchestra::{
    first_line_pid, get_line_at, launch_failed, listed_pid, parse_device_line, parse_device_list, parse_package_list,
    reports_exists, split_lines, split_whitespace, starts_with, trim, trim_start_matches,
    DeviceStatus, PidLookup, PidStage, PidStep,
};

#[test]
fn lines_follow_str_lines() {
    for text in ["", "a", "a\n", "a\r\nb", "a\n\nb\n", "\n", "x\r", "x\r\n\r\n", "one\ntwo\r\nthree"] {
        let expected: Vec<String> = text.lines().map(|l| l.to_string()).collect();
        assert_eq!(split_lines(text), expected, "text {:?}", text);
    }
}

#[test]
fn line_lookup() {
    assert_eq!(get_line_at("a\nb\nc", 1), Some("b".to_string()));
    assert_eq!(get_line_at("a\nb\nc", 3), None);
    assert_eq!(get_line_at("", 0), None);
}

#[test]
fn words_and_trimming() {
    for text in ["", "  ", " a  b\tc\n", "abc", "x\u{3000}y "] {
        let expected: Vec<String> = text.split_whitespace().map(|w| w.to_string()).collect();
        assert_eq!(split_whitespace(text), expected);
        assert_eq!(trim(text), text.trim());
    }
}

#[test]
fn prefixes() {
    assert!(starts_with("model:Pixel", "model:"));
    assert!(!starts_with("mod", "model:"));
    assert!(starts_with("abc", ""));
    assert_eq!(trim_start_matches("model:model:x", "model:"), "x");
    assert_eq!(trim_start_matches("model:", "model:"), "");
    assert_eq!(trim_start_matches("abc", ""), "abc");
    assert_eq!(trim_start_matches("xmodel:", "model:"), "xmodel:");
}

#[test]
fn device_line_with_details() {
    let d = parse_device_line(
        "emulator-5554 device product:sdk_gphone64 model:sdk_gphone64_x86_64 device:emu64 transport_id:1",
    )
    .unwrap();
    assert_eq!(d.id, "emulator-5554");
    assert_eq!(d.status, DeviceStatus::Online);
    assert_eq!(d.model.as_deref(), Some("sdk_gphone64_x86_64"));
    assert_eq!(d.name, "sdk_gphone64_x86_64");
    assert_eq!(d.product.as_deref(), Some("sdk_gphone64"));
    assert_eq!(d.transport_id.as_deref(), Some("1"));
}

#[test]
fn device_line_without_details() {
    let d = parse_device_line("R58M123 unauthorized").unwrap();
    assert_eq!(d.name, "Device R58M123");
    assert_eq!(d.status, DeviceStatus::Unauthorized);
    assert!(d.model.is_none());
    assert!(parse_device_line("lonely").is_none());
    assert!(parse_device_line("   ").is_none());
}

#[test]
fn device_list_skips_heading_and_blank_lines() {
    let out = "List of devices attached\nemulator-5554\tdevice\n\n192.168.1.5:5555 offline transport_id:7\n";
    let ds = parse_device_list(out);
    assert_eq!(ds.len(), 2);
    assert_eq!(ds[0].id, "emulator-5554");
    assert_eq!(ds[1].status, DeviceStatus::Offline);
    assert_eq!(ds[1].transport_id.as_deref(), Some("7"));
    assert!(parse_device_list("").is_empty());
    assert!(parse_device_list("List of devices attached\n").is_empty());
}

#[test]
fn package_listing() {
    let out = "package:com.android.chrome\npackage:com.example.app \nnot a package\r\npackage: spaced\n";
    assert_eq!(
        parse_package_list(out),
        vec!["com.android.chrome".to_string(), "com.example.app".to_string(), "spaced".to_string()]
    );
}

#[test]
fn launch_outputs() {
    assert!(launch_failed("Error: Activity class does not exist"));
    assert!(launch_failed("java.lang.SecurityException"));
    assert!(launch_failed("monkey aborted: injection failed"));
    assert!(!launch_failed("Starting: Intent { cmp=com.example/.Main }"));
}

#[test]
fn existence_probe() {
    assert!(reports_exists("exists\n"));
    assert!(!reports_exists("not exists\n"));
}

const REPORT: &str = "Packages:\n  Package [com.example.app] (abc):\n    userId=10123\n    versionCode=42 minSdk=21 targetSdk=34\n    versionName=1.4.2\n    firstInstallTime=2024-01-01 10:00:00\n    lastUpdateTime=2024-02-02\n    installerPackageName=com.android.vending\n    requested permissions:\n      android.permission.INTERNET: granted=true\n      android.permission.CAMERA: granted=false\n      : granted=true\n\n    other.permission: granted=true\nActivity Resolver Table:\n  Non-Data Actions:\n      123abc com.example.app/.MainActivity filter 1\n      456def com.other/.Main filter 2\n\n  com.example.app/.Outside\n";

#[test]
fn package_report_details() {
    let p = adb_orchestra::parse_package_report("com.example.app", REPORT);
    assert_eq!(p.package_name, "com.example.app");
    assert_eq!(p.version_name.as_deref(), Some("1.4.2"));
    assert_eq!(p.version_code, Some(42));
    assert_eq!(p.uid, Some(10123));
    assert_eq!(p.min_sdk, Some(21));
    assert_eq!(p.target_sdk, Some(34));
    assert_eq!(p.install_time.as_deref(), Some("2024-01-01"));
    assert_eq!(p.update_time.as_deref(), Some("2024-02-02"));
    assert_eq!(p.install_source.as_deref(), Some("com.android.vending"));
    assert_eq!(
        p.permissions,
        vec!["android.permission.INTERNET".to_string(), "android.permission.CAMERA".to_string()]
    );
    assert_eq!(p.activities, vec![".MainActivity".to_string()]);
    assert_eq!(p.raw_data.as_deref(), Some(REPORT));
}

#[test]
fn package_report_with_missing_or_oversized_numbers() {
    let p = adb_orchestra::parse_package_report("x", "versionCode=99999999999 userId=7");
    assert_eq!(p.version_code, None);
    assert_eq!(p.uid, Some(7));
    assert!(p.version_name.is_none());
    assert!(p.permissions.is_empty() && p.activities.is_empty());
}

#[test]
fn process_ids_from_listings() {
    assert_eq!(first_line_pid("1234\n", 0, 1), Some(1234));
    assert_eq!(first_line_pid("1234 5678\n", 0, 1), Some(1234));
    assert_eq!(first_line_pid("1234\n", 0, 2), None);
    assert_eq!(first_line_pid("", 0, 1), None);
    assert_eq!(first_line_pid("u0_a123  4321 100 com.example\n", 1, 2), Some(4321));
    assert_eq!(first_line_pid("USER PID\nu0 77 x\n", 1, 2), None);
    let ps = "USER PID PPID NAME\nu0_a1 abc 1 com.example\nu0_a1 5150 1 com.example:remote\n";
    assert_eq!(listed_pid(ps, 1), Some(5150));
    assert_eq!(listed_pid(ps, 7), None);
    assert_eq!(listed_pid("root -17 x", 1), Some(-17));
}

#[test]
fn pid_lookup_walks_the_probes() {
    let (mut lookup, step) = PidLookup::start("com.example", true, true);
    assert_eq!(step, PidStep::Run("pidof com.example".to_string()));
    assert_eq!(lookup.on_output("\n"), PidStep::Run("ps -A | grep com.example | grep -v grep".to_string()));
    assert_eq!(lookup.current_stage(), PidStage::Ps);
    assert_eq!(lookup.on_output(""), PidStep::Run("dumpsys activity services | grep -i com.example".to_string()));
    assert_eq!(lookup.on_output("  ServiceRecord{1 u0 com.example/.Sync} pid=2468 user=0\n"), PidStep::Found(2468));
    assert_eq!(lookup.current_stage(), PidStage::Done);

    let (mut old, step) = PidLookup::start("pkg", false, false);
    assert_eq!(step, PidStep::Run("ps | grep pkg | grep -v grep".to_string()));
    assert_eq!(old.on_output("app_12 root 999 1 pkg\n"), PidStep::Found(999));

    let (mut quick, _) = PidLookup::start("pkg", true, true);
    assert_eq!(quick.on_output(" 31337 \n"), PidStep::Found(31337));

    let (mut none, _) = PidLookup::start("pkg", false, true);
    let _ = none.on_output("");
    assert_eq!(none.on_output("   \n"), PidStep::NotFound);
}

fn regex_properties(output: &str) -> Vec<(String, String)> {
    let re = regex::Regex::new(r"^\[([^\]]+)\]:\s*\[([^\]]*)\]$").unwrap();
    let mut out: Vec<(String, String)> = Vec::new();
    for line in output.lines() {
        if let Some(caps) = re.captures(line.trim()) {
            let k = caps[1].to_string();
            let v = caps[2].to_string();
            match out.iter_mut().find(|(key, _)| *key == k) {
                Some(entry) => entry.1 = v,
                None => out.push((k, v)),
            }
        }
    }
    out
}

#[test]
fn property_listing() {
    let out = "[ro.build.version.release]: [14]\n  [ro.product.model]:   [Pixel 7]  \n[empty]: []\n[]: [x]\n[a]b]: [c]\n[k]: [v]w]\n[k2]:[v2]\n[ro.build.version.release]: [15]\nnoise\n[x]: [unterminated\n[[k]: [[v]\n";
    let parsed = adb_orchestra::parse_properties(out);
    assert_eq!(parsed, regex_properties(out));
    assert_eq!(parsed[0], ("ro.build.version.release".to_string(), "15".to_string()));
    assert_eq!(adb_orchestra::property_line("[a]: [b]"), Some(("a".to_string(), "b".to_string())));
    assert_eq!(adb_orchestra::property_line("[a] : [b]"), None);
}

#[test]
fn storage_probes() {
    use_probes();
}

fn use_probes() {
    assert_eq!(adb_orchestra::reported_size(" 2048\n", false), Some(2048));
    assert_eq!(adb_orchestra::reported_size("16\n", true), Some(16384));
    assert_eq!(adb_orchestra::reported_size("+7", false), Some(7));
    assert_eq!(adb_orchestra::reported_size("-7", false), None);
    assert_eq!(adb_orchestra::reported_size("n/a", false), None);
    assert_eq!(adb_orchestra::reported_size("18446744073709551615", true), None);
    assert_eq!(
        adb_orchestra::available_space("/dev/block/dm-5 118481568 64264124 54086372 55% /data\n"),
        Some(54086372 * 1024)
    );
    assert_eq!(adb_orchestra::available_space("Filesystem 1K-blocks"), None);
    assert_eq!(
        adb_orchestra::first_word("d41d8cd98f00b204e9800998ecf8427e  /sdcard/a\n").as_deref(),
        Some("d41d8cd98f00b204e9800998ecf8427e")
    );
    assert_eq!(adb_orchestra::first_word(" \n"), None);
}

#[test]
fn tool_versions() {
    assert_eq!(
        adb_orchestra::server_version("Android Debug Bridge version 1.0.41\nVersion 35.0.1-11580240\n"),
        Some(10041)
    );
    assert_eq!(adb_orchestra::server_version("Android Debug Bridge version 2.13.7"), Some(21307));
    assert_eq!(adb_orchestra::server_version("adb: unknown"), None);
    assert_eq!(adb_orchestra::server_version("Android Debug Bridge version 500000.0.0"), None);
}
