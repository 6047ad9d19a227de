use adb_orchestra::{
    command_failure, connect_failure, package_command_failure,
    chunk_count, contains_any, decimal, format_duration, format_size, parse_args, pull_args,
    push_args, removal_command, ADBConfig, ADBConfigBuilder, ADBDevice, ADBError, DeviceStatus,
    PackageInfo, PackageInfoBuilder, TransferOptions,
};

#[test]
fn config_defaults() {
    let c = ADBConfig::default();
    assert_eq!(c.path.as_deref(), Some("adb"));
    assert_eq!(c.max_retries, Some(3));
    assert_eq!(c.retry_delay, Some(1000));
    assert_eq!(c.timeout, Some(30000));
    assert!(c.log_level.is_none());
    assert!(c.additional_args.is_none());
    let p = c.retry_policy();
    assert_eq!((p.max_retries, p.initial_delay_ms), (3, 1000));
    assert_eq!(c.timeout_ms(), 30000);
}

#[test]
fn config_builder_overrides_and_fills_defaults() {
    let c = ADBConfigBuilder::default()
        .path("/opt/platform-tools/adb")
        .max_retries(5)
        .timeout(500)
        .log_level("debug")
        .add_arg("-H")
        .add_arg("localhost")
        .build();
    assert_eq!(c.path.as_deref(), Some("/opt/platform-tools/adb"));
    assert_eq!(c.max_retries, Some(5));
    assert_eq!(c.retry_delay, Some(1000));
    assert_eq!(c.timeout, Some(500));
    assert_eq!(c.log_level.as_deref(), Some("debug"));
    assert_eq!(c.additional_args, Some(vec!["-H".to_string(), "localhost".to_string()]));
    let d = ADBConfigBuilder::default().retry_delay(250).build();
    assert_eq!(d.path.as_deref(), Some("adb"));
    assert_eq!(d.retry_delay, Some(250));
    assert!(d.additional_args.is_none());
    assert_eq!(ADBConfig { max_retries: None, ..d }.retry_policy().max_retries, 3);
}

#[test]
fn package_builder_sets_each_detail() {
    let p = PackageInfo::builder("com.example.app")
        .with_version_name("1.2.3")
        .with_version_code(123)
        .with_install_time("2024-01-01")
        .with_update_time("2024-02-01")
        .with_uid(10123)
        .with_target_sdk(34)
        .with_min_sdk(21)
        .add_flag("HAS_CODE")
        .add_permission("android.permission.INTERNET")
        .add_permission("android.permission.CAMERA")
        .add_activity(".MainActivity")
        .add_service(".SyncService")
        .with_install_source("com.android.vending")
        .with_raw_data("raw")
        .build();
    assert_eq!(p.package_name, "com.example.app");
    assert_eq!(p.version_name.as_deref(), Some("1.2.3"));
    assert_eq!(p.version_code, Some(123));
    assert_eq!(p.install_time.as_deref(), Some("2024-01-01"));
    assert_eq!(p.update_time.as_deref(), Some("2024-02-01"));
    assert_eq!(p.uid, Some(10123));
    assert_eq!(p.target_sdk, Some(34));
    assert_eq!(p.min_sdk, Some(21));
    assert_eq!(p.flags, vec!["HAS_CODE".to_string()]);
    assert_eq!(p.permissions.len(), 2);
    assert_eq!(p.permissions[1], "android.permission.CAMERA");
    assert_eq!(p.activities, vec![".MainActivity".to_string()]);
    assert_eq!(p.services, vec![".SyncService".to_string()]);
    assert_eq!(p.install_source.as_deref(), Some("com.android.vending"));
    assert_eq!(p.raw_data.as_deref(), Some("raw"));
}

#[test]
fn bare_package() {
    let p = PackageInfo::new("pkg");
    assert_eq!(p.package_name, "pkg");
    assert!(p.version_name.is_none() && p.version_code.is_none() && p.uid.is_none());
    assert!(p.flags.is_empty() && p.permissions.is_empty());
    let q = PackageInfoBuilder::new("pkg").build();
    assert_eq!(q.package_name, "pkg");
    assert!(q.raw_data.is_none());
}

#[test]
fn device_construction() {
    let d = ADBDevice::new("emulator-5554", DeviceStatus::Online)
        .with_model("Pixel_7")
        .with_name("Pixel 7")
        .with_product("panther")
        .with_transport_id("3")
        .add_property("ro.build.version.release", "13")
        .add_property("ro.product.cpu.abi", "arm64-v8a")
        .add_property("ro.build.version.release", "14");
    assert_eq!(d.id, "emulator-5554");
    assert_eq!(d.name, "Pixel 7");
    assert_eq!(d.model.as_deref(), Some("Pixel_7"));
    assert_eq!(d.product.as_deref(), Some("panther"));
    assert_eq!(d.transport_id.as_deref(), Some("3"));
    assert!(d.is_online());
    assert_eq!(
        d.properties,
        Some(vec![
            ("ro.build.version.release".to_string(), "14".to_string()),
            ("ro.product.cpu.abi".to_string(), "arm64-v8a".to_string()),
        ])
    );
    let fresh = ADBDevice::new("abc", DeviceStatus::Offline);
    assert_eq!(fresh.name, "Device abc");
    assert!(!fresh.is_online());
    assert!(fresh.properties.is_none());
}

#[test]
fn status_words() {
    assert_eq!(DeviceStatus::parse("device"), DeviceStatus::Online);
    assert_eq!(DeviceStatus::parse("ONLINE"), DeviceStatus::Online);
    assert_eq!(DeviceStatus::parse("offline"), DeviceStatus::Offline);
    assert_eq!(DeviceStatus::parse("Unauthorized"), DeviceStatus::Unauthorized);
    assert_eq!(DeviceStatus::parse("recovery"), DeviceStatus::Recovery);
    assert_eq!(DeviceStatus::parse("sideload"), DeviceStatus::Sideload);
    assert_eq!(DeviceStatus::parse("fastboot"), DeviceStatus::Bootloader);
    assert_eq!(DeviceStatus::parse("bootloader"), DeviceStatus::Bootloader);
    assert_eq!(DeviceStatus::parse("Host"), DeviceStatus::Other("Host".to_string()));
    assert_eq!(DeviceStatus::Online.to_string(), "online");
    assert_eq!(DeviceStatus::Other("no permissions".to_string()).to_string(), "no permissions");
}

#[test]
fn durations() {
    assert_eq!(format_duration(0), "00:00:00");
    assert_eq!(format_duration(3661), "01:01:01");
    assert_eq!(format_duration(59), "00:00:59");
    assert_eq!(format_duration(86399), "23:59:59");
    assert_eq!(format_duration(360000), "100:00:00");
}

#[test]
fn decimals() {
    assert_eq!(decimal(0), "0");
    assert_eq!(decimal(907), "907");
    assert_eq!(decimal(u64::MAX), u64::MAX.to_string());
}

#[test]
fn sizes() {
    assert_eq!(format_size(0), "0 B");
    assert_eq!(format_size(1023), "1023 B");
    assert_eq!(format_size(1024), "1.00 KB");
    assert_eq!(format_size(1536), "1.50 KB");
    assert_eq!(format_size(1048576), "1.00 MB");
    assert_eq!(format_size(5 * 1073741824), "5.00 GB");
}

fn float_size(n: u64) -> String {
    const KB: u64 = 1024;
    const MB: u64 = KB * 1024;
    const GB: u64 = MB * 1024;
    if n >= GB {
        format!("{:.2} GB", n as f64 / GB as f64)
    } else if n >= MB {
        format!("{:.2} MB", n as f64 / MB as f64)
    } else if n >= KB {
        format!("{:.2} KB", n as f64 / KB as f64)
    } else {
        format!("{} B", n)
    }
}

#[test]
fn sizes_match_double_precision_formatting() {
    let mut samples: Vec<u64> = vec![1152, 1088, 1049600, 1048575, 1073741823, u64::MAX, u64::MAX - 1];
    samples.push((1u64 << 53) + 1);
    samples.push((1u64 << 60) + (1u64 << 7));
    samples.push(1u64 << 63);
    let mut x: u64 = 1;
    while x < u64::MAX / 3 {
        samples.push(x);
        samples.push(x + 5);
        x = x * 3 + 7;
    }
    for k in 0..4096u64 {
        samples.push(1024 + k);
        samples.push(1073741824 + k * 5368709);
    }
    for n in samples {
        assert_eq!(format_size(n), float_size(n), "size {}", n);
    }
}

#[test]
fn keyword_search() {
    assert!(contains_any("Error: device offline", &["Exception", "Error"]));
    assert!(!contains_any("Success", &["Error", "Failure"]));
    assert!(!contains_any("anything", &[]));
    assert!(contains_any("anything", &[""]));
}

#[test]
fn argument_parsing() {
    let args: Vec<String> = ["run", "--device", "abc", "--verbose", "--count", "3", "--verbose", "x", "--last"]
        .iter()
        .map(|s| s.to_string())
        .collect();
    let parsed = parse_args(&args);
    assert_eq!(
        parsed,
        vec![
            ("device".to_string(), "abc".to_string()),
            ("verbose".to_string(), "x".to_string()),
            ("count".to_string(), "3".to_string()),
            ("last".to_string(), "true".to_string()),
        ]
    );
    assert!(parse_args(&[]).is_empty());
    assert_eq!(parse_args(&["--".to_string()]), vec![(String::new(), "true".to_string())]);
}

#[test]
fn transfer_arguments() {
    let o = TransferOptions::default();
    assert_eq!(o.chunk_size, 65536);
    assert_eq!(pull_args("", "/sdcard/a", "a", &o), vec!["pull", "-Z", "/sdcard/a", "a"]);
    let o2 = TransferOptions {
        compression: true,
        compression_algorithm: Some("zstd".to_string()),
        sync: true,
        dry_run: true,
        preserve_timestamp: true,
        chunk_size: 10,
    };
    assert_eq!(
        pull_args("dev", "/d", "l", &o2),
        vec!["-s", "dev", "pull", "-a", "-z", "zstd", "/d", "l"]
    );
    assert_eq!(
        push_args("dev", "l", "/d", &o2),
        vec!["-s", "dev", "push", "--sync", "-n", "-z", "zstd", "l", "/d"]
    );
    let o3 = TransferOptions { compression: true, ..TransferOptions::default() };
    assert_eq!(push_args("", "l", "/d", &o3), vec!["push", "-z", "any", "l", "/d"]);
}

#[test]
fn chunk_counts() {
    assert_eq!(chunk_count(0, 10), 0);
    assert_eq!(chunk_count(10, 10), 1);
    assert_eq!(chunk_count(11, 10), 2);
    assert_eq!(chunk_count(usize::MAX, 2), usize::MAX / 2 + 1);
}

#[test]
fn error_texts() {
    assert_eq!(ADBError::CommandError("x".to_string()).to_string(), "command error: x");
    assert_eq!(ADBError::AppNotFound("p".to_string()).to_string(), "app not found: p");
    assert_eq!(removal_command("/sdcard/t.png"), "rm -f /sdcard/t.png");
}

#[test]
fn package_command_outcomes() {
    assert_eq!(package_command_failure("APK install", true, "Success\n", ""), None);
    assert_eq!(
        package_command_failure("APK install", true, "Failure [INSTALL_FAILED_OLDER_SDK]", ""),
        Some(ADBError::CommandError("APK install failed: Failure [INSTALL_FAILED_OLDER_SDK]".to_string()))
    );
    assert_eq!(
        package_command_failure("uninstall", false, "", "no device"),
        Some(ADBError::CommandError("uninstall failed: no device".to_string()))
    );
    assert_eq!(
        package_command_failure("uninstall", false, "", ""),
        Some(ADBError::CommandError("uninstall failed for an unknown reason".to_string()))
    );
    assert_eq!(connect_failure(true, "connected to 10.0.0.2:5555", ""), None);
    assert_eq!(
        connect_failure(true, "failed to connect to 10.0.0.2:5555", ""),
        Some(ADBError::CommandError("connect failed: failed to connect to 10.0.0.2:5555".to_string()))
    );
    assert_eq!(command_failure(true, "ok", ""), None);
    assert_eq!(
        command_failure(false, "out", "err"),
        Some(ADBError::CommandError("command failed: err".to_string()))
    );
}

#[test]
fn device_commands() {
    assert_eq!(
        adb_orchestra::screenrecord_command(500, Some("1280x720"), "/sdcard/r.mp4"),
        "screenrecord --time-limit 180 --size 1280x720 /sdcard/r.mp4"
    );
    assert_eq!(adb_orchestra::screenrecord_command(30, None, "/sdcard/r.mp4"), "screenrecord --time-limit 30 /sdcard/r.mp4");
    assert_eq!(adb_orchestra::server_arch("arm64-v8a").as_deref(), Some("arm64"));
    assert_eq!(adb_orchestra::server_arch("armeabi").as_deref(), Some("arm"));
    assert_eq!(adb_orchestra::server_arch("x86_64").as_deref(), Some("x86_64"));
    assert_eq!(adb_orchestra::server_arch("mips"), None);
    assert_eq!(
        adb_orchestra::server_start_command("/data/local/tmp/fs", 27042, true),
        "su -c '/data/local/tmp/fs -l 0.0.0.0:27042'"
    );
    assert_eq!(adb_orchestra::server_start_command("fs", 1, false), "fs -l 0.0.0.0:1");
}

#[test]
fn numbers_in_text() {
    assert_eq!(adb_orchestra::extract_number("version 42 build 7"), Some(42));
    assert_eq!(adb_orchestra::extract_number("none"), None);
    assert_eq!(adb_orchestra::extract_number("x99999999999"), None);
}
