use adb_orchestra::{
    dispatch, dispatch_online, distinct_ids, next_delay, resolve_timeout, retry_with_backoff,
    select_online, ADBDevice, ADBError, ADBResult, DeviceStatus, ResourceManager, RetryPolicy,
    RetryState, RetryStep, TtlCache, with_resources, run_with_retry,
};

use std::cell::{Cell, RefCell};
use std::sync::atomic::{AtomicUsize, Ordering};

fn failing(counter: &Cell<u32>) -> ADBResult<u32> {
    counter.set(counter.get() + 1);
    Err(ADBError::CommandError(format!("attempt {}", counter.get())))
}

#[test]
fn permanently_failing_operation_runs_max_retries_plus_one_times() {
    for n in 0u32..6 {
        let calls = Cell::new(0u32);
        let sleeps = RefCell::new(Vec::new());
        let r = retry_with_backoff(n, 5, || failing(&calls), |d| sleeps.borrow_mut().push(d));
        assert_eq!(calls.get(), n + 1);
        assert_eq!(sleeps.borrow().len() as u32, n);
        assert_eq!(r, Err(ADBError::CommandError(format!("attempt {}", n + 1))));
    }
}

#[test]
fn retry_returns_first_success() {
    let calls = Cell::new(0u32);
    let r = retry_with_backoff(
        5,
        10,
        || {
            calls.set(calls.get() + 1);
            if calls.get() < 3 {
                Err(ADBError::DeviceError("flaky".to_string()))
            } else {
                Ok(calls.get() * 10)
            }
        },
        |_| {},
    );
    assert_eq!(r, Ok(30));
    assert_eq!(calls.get(), 3);
}

#[test]
fn delay_sequence_doubles_up_to_the_ceiling() {
    let calls = Cell::new(0u32);
    let sleeps = RefCell::new(Vec::new());
    let _ = retry_with_backoff(7, 1000, || failing(&calls), |d| sleeps.borrow_mut().push(d));
    assert_eq!(*sleeps.borrow(), vec![1000, 2000, 4000, 8000, 10000, 10000, 10000]);
}

#[test]
fn delay_above_ceiling_is_used_once_then_capped() {
    let calls = Cell::new(0u32);
    let sleeps = RefCell::new(Vec::new());
    let _ = retry_with_backoff(3, 25000, || failing(&calls), |d| sleeps.borrow_mut().push(d));
    assert_eq!(*sleeps.borrow(), vec![25000, 10000, 10000]);
}

#[test]
fn next_delay_values() {
    assert_eq!(next_delay(0), 0);
    assert_eq!(next_delay(1000), 2000);
    assert_eq!(next_delay(5000), 10000);
    assert_eq!(next_delay(6000), 10000);
    assert_eq!(next_delay(u64::MAX), 10000);
}

#[test]
fn retry_state_machine_steps() {
    let policy = RetryPolicy { max_retries: 2, initial_delay_ms: 300 };
    let mut s = RetryState::new(&policy);
    assert_eq!(s.on_failure(&policy), RetryStep::Retry { delay_ms: 300 });
    assert_eq!(s.on_failure(&policy), RetryStep::Retry { delay_ms: 600 });
    assert_eq!(s.on_failure(&policy), RetryStep::GiveUp);
    assert_eq!(s.on_failure(&policy), RetryStep::GiveUp);
    assert_eq!(s, RetryState { retries: 2, delay_ms: 1200 });
}

#[test]
fn timeout_passes_through_a_finished_result() {
    let r: ADBResult<u32> = resolve_timeout(200, Some(Ok(7)));
    assert_eq!(r, Ok(7));
    let e: ADBResult<u32> = resolve_timeout(200, Some(Err(ADBError::ParseError("x".to_string()))));
    assert_eq!(e, Err(ADBError::ParseError("x".to_string())));
}

#[test]
fn timeout_reports_the_requested_duration() {
    let r: ADBResult<u32> = resolve_timeout(100, None);
    assert_eq!(
        r,
        Err(ADBError::TimeoutError { message: "operation timed out".to_string(), duration: 100 })
    );
    assert_eq!(r.unwrap_err().to_string(), "timed out after 100ms: operation timed out");
}

#[test]
fn cache_computes_once_within_ttl_and_again_after() {
    let mut cache: TtlCache<i32> = TtlCache::new();
    let calls = Cell::new(0);
    let compute = || {
        calls.set(calls.get() + 1);
        Ok(4242)
    };
    assert_eq!(cache.get_or_compute("dev:pkg", 3000, 10_000, compute), Ok(4242));
    assert_eq!(cache.get_or_compute("dev:pkg", 3000, 12_999, compute), Ok(4242));
    assert_eq!(calls.get(), 1);
    assert_eq!(cache.get_or_compute("dev:pkg", 3000, 13_000, compute), Ok(4242));
    assert_eq!(calls.get(), 2);
    assert_eq!(cache.len(), 1);
}

#[test]
fn cache_never_stores_a_failure() {
    let mut cache: TtlCache<i32> = TtlCache::new();
    let calls = Cell::new(0);
    let failing = || {
        calls.set(calls.get() + 1);
        Err(ADBError::CommandError("no pid".to_string()))
    };
    assert!(cache.get_or_compute("k", 3000, 0, failing).is_err());
    assert!(cache.get_or_compute("k", 3000, 1, failing).is_err());
    assert_eq!(calls.get(), 2);
    assert_eq!(cache.len(), 0);
    assert_eq!(cache.lookup("k", 3000, 1), None);
}

#[test]
fn cache_keys_are_independent() {
    let mut cache: TtlCache<u32> = TtlCache::new();
    cache.store("a", 1, 0);
    cache.store("b", 2, 0);
    cache.store("a", 3, 5);
    assert_eq!(cache.len(), 2);
    assert_eq!(cache.lookup("a", 10, 6), Some(3));
    assert_eq!(cache.lookup("b", 10, 6), Some(2));
    assert_eq!(cache.lookup("b", 10, 10), None);
    assert_eq!(cache.lookup("c", 10, 0), None);
    assert_eq!(cache.lookup("a", 0, 5), None);
}

#[test]
fn fanout_isolates_a_failing_device() {
    let attempts = AtomicUsize::new(0);
    let r = dispatch(&["d1", "d2", "d3"], |id: &str| {
        attempts.fetch_add(1, Ordering::SeqCst);
        if id == "d2" {
            Err(ADBError::DeviceError(format!("{} failed", id)))
        } else {
            Ok(format!("{} ok", id))
        }
    });
    assert_eq!(attempts.load(Ordering::SeqCst), 3);
    assert_eq!(r.len(), 3);
    assert_eq!(r.get("d1"), Some(&Ok("d1 ok".to_string())));
    assert_eq!(r.get("d2"), Some(&Err(ADBError::DeviceError("d2 failed".to_string()))));
    assert_eq!(r.get("d3"), Some(&Ok("d3 ok".to_string())));
    assert_eq!(r.get("d4"), None);
    assert_eq!(r.device_ids(), vec!["d1".to_string(), "d2".to_string(), "d3".to_string()]);
}

#[test]
fn fanout_runs_each_device_once() {
    let attempts = AtomicUsize::new(0);
    let r = dispatch(&["a", "b", "a", "c", "b"], |id: &str| {
        attempts.fetch_add(1, Ordering::SeqCst);
        Ok(id.len())
    });
    assert_eq!(attempts.load(Ordering::SeqCst), 3);
    assert_eq!(r.device_ids(), vec!["a".to_string(), "b".to_string(), "c".to_string()]);
    let empty = dispatch(&[], |_: &str| Ok(1u8));
    assert_eq!(empty.len(), 0);
}

#[test]
fn distinct_ids_keeps_first_occurrences() {
    assert_eq!(distinct_ids(&["x", "y", "x"]), vec!["x".to_string(), "y".to_string()]);
    assert!(distinct_ids(&[]).is_empty());
}

fn devices() -> Vec<ADBDevice> {
    vec![
        ADBDevice::new("emulator-5554", DeviceStatus::Online),
        ADBDevice::new("offline-1", DeviceStatus::Offline),
        ADBDevice::new("192.168.1.5:5555", DeviceStatus::parse("device")),
    ]
}

#[test]
fn online_devices_are_selected_in_order() {
    assert_eq!(
        select_online(&devices()),
        Ok(vec!["emulator-5554".to_string(), "192.168.1.5:5555".to_string()])
    );
    let r = dispatch_online(&devices(), |id: &str| Ok(id.to_string())).unwrap();
    assert_eq!(r.len(), 2);
    assert_eq!(r.get("offline-1"), None);
}

#[test]
fn no_online_devices_fails_as_a_whole() {
    let offline = vec![ADBDevice::new("a", DeviceStatus::Offline)];
    let expected = Err(ADBError::DeviceError("no online devices".to_string()));
    assert_eq!(select_online(&offline), expected);
    assert_eq!(select_online(&Vec::new()), expected);
    let r = dispatch_online(&offline, |_: &str| Ok(1u8));
    assert!(matches!(r, Err(ADBError::DeviceError(_))));
}

fn fail_a(log: &RefCell<Vec<String>>) -> impl Fn(&str, &str) -> ADBResult<String> + '_ {
    move |device: &str, command: &str| {
        log.borrow_mut().push(format!("{} {}", device, command));
        if command.ends_with("/a") {
            Err(ADBError::DeviceError("read-only".to_string()))
        } else {
            Ok(String::new())
        }
    }
}

#[test]
fn scope_removes_every_file_and_keeps_the_body_error() {
    let log = RefCell::new(Vec::new());
    let exec = fail_a(&log);
    let r: ADBResult<()> = with_resources(
        "dev1",
        0,
        |scope: &mut ResourceManager| {
            scope.track_temp_file("/a");
            scope.track_temp_file("/b");
            Err(ADBError::CommandError("body failed".to_string()))
        },
        &exec,
    );
    assert_eq!(r, Err(ADBError::CommandError("body failed".to_string())));
    assert_eq!(*log.borrow(), vec!["dev1 rm -f /a".to_string(), "dev1 rm -f /b".to_string()]);
}

#[test]
fn explicit_cleanup_names_only_the_failed_path() {
    let log = RefCell::new(Vec::new());
    let exec = fail_a(&log);
    let mut scope = ResourceManager::new("dev1", 0);
    scope.track_temp_file("/a");
    scope.track_temp_file("/b");
    let r = scope.cleanup(&exec);
    assert_eq!(
        r,
        Err(ADBError::FileError(
            "failed to remove temporary files: file /a: device error: read-only".to_string()
        ))
    );
    assert_eq!(log.borrow().len(), 2);
    assert!(scope.temp_files().is_empty());
}

#[test]
fn second_cleanup_is_a_no_op() {
    let log = RefCell::new(Vec::new());
    let exec = fail_a(&log);
    let mut scope = ResourceManager::new("dev1", 0);
    scope.track_temp_file("/b");
    assert_eq!(scope.cleanup(&exec), Ok(()));
    assert_eq!(scope.cleanup(&exec), Ok(()));
    assert_eq!(log.borrow().len(), 1);
}

#[test]
fn cleanup_lists_every_failure() {
    let exec = |_: &str, command: &str| -> ADBResult<String> {
        Err(ADBError::CommandError(format!("cannot run {}", command)))
    };
    let mut scope = ResourceManager::new("d", 0);
    scope.track_temp_file("/x");
    scope.track_temp_file("/y");
    assert_eq!(
        scope.cleanup(&exec),
        Err(ADBError::FileError(
            "failed to remove temporary files: file /x: command error: cannot run rm -f /x, \
             file /y: command error: cannot run rm -f /y"
                .to_string()
        ))
    );
}

#[test]
fn scope_reports_elapsed_time_and_device() {
    let scope = ResourceManager::new("dev9", 1_000);
    assert_eq!(scope.elapsed(1_250), 250);
    assert_eq!(scope.elapsed(500), 0);
    assert_eq!(scope.device_id(), "dev9");
}

#[test]
fn run_with_retry_reports_the_retries_made() {
    let policy = RetryPolicy { max_retries: 3, initial_delay_ms: 1000 };
    let calls = Cell::new(0u32);
    let (r, state) = run_with_retry(&policy, || failing(&calls), |_| {});
    assert!(r.is_err());
    assert_eq!(calls.get(), 4);
    assert_eq!(state, RetryState { retries: 3, delay_ms: 8000 });

    let calls = Cell::new(0u32);
    let (r, state) = run_with_retry(
        &policy,
        || {
            calls.set(calls.get() + 1);
            if calls.get() == 2 { Ok(5) } else { Err(ADBError::UnknownError("x".to_string())) }
        },
        |_| {},
    );
    assert_eq!(r, Ok(5));
    assert_eq!(state.retries, 1);
}
