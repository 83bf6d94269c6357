use mac_health::command::CommandRun;
use mac_health::fixed::Fixed;
use mac_health::monitors::ram::{
    force_quit_process, get_ram_info, get_top_memory_processes, memory_clean_result,
    pressure_level, purge_memory_with_admin, signal_target, PurgeStep, QuitEvent, QuitStep,
    Signal, SignalFault, SignalOutcome,
};

const PS: &str = "  PID    RSS COMMAND\n    1  12000 /sbin/launchd\n  314 904000 /Applications/Safari.app/Contents/MacOS/Safari -psn\n   77  12000 /usr/sbin/syslogd\n  501 x /bin/zsh\n  900 512 /bin/zsh -l\n 1200 70000 /usr/bin/some tool\n 1300 3000 top\n";

fn finished(stdout: &str) -> CommandRun {
    CommandRun::Finished { success: true, stdout: stdout.to_string(), stderr: String::new() }
}

fn failed(fault: SignalFault, description: &str) -> SignalOutcome {
    SignalOutcome::Failed { fault, description: description.to_string() }
}

const PID: u32 = 4321;

fn answered(signal: Signal, outcome: SignalOutcome) -> QuitEvent {
    QuitEvent::Answered { pid: PID, signal, outcome }
}

fn deliver(pid: i32, signal: Signal) -> SignalOutcome {
    let sent = match signal {
        Signal::Terminate => Some(nix::sys::signal::Signal::SIGTERM),
        Signal::Probe => None,
        Signal::Kill => Some(nix::sys::signal::Signal::SIGKILL),
    };
    match nix::sys::signal::kill(nix::unistd::Pid::from_raw(pid), sent) {
        Ok(()) => SignalOutcome::Delivered,
        Err(nix::errno::Errno::ESRCH) => failed(SignalFault::NoSuchProcess, "ESRCH"),
        Err(nix::errno::Errno::EPERM) => failed(SignalFault::NotPermitted, "EPERM"),
        Err(e) => failed(SignalFault::Other, &e.to_string()),
    }
}

#[test]
fn test_get_ram_info() {
    let result = get_ram_info(17_179_869_184, 9_000_000_000, 0);
    assert!(result.is_ok());

    let info = result.unwrap();
    assert!(info.total_bytes > 0);
    let used_percentage = info.used_percentage.thousandths as f64 / 1000.0;
    assert!(used_percentage >= 0.0 && used_percentage <= 100.0);
    assert!(["normal", "warn", "critical"].contains(&info.pressure_level.as_str()));
}

#[test]
fn test_get_top_memory_processes() {
    let result = get_top_memory_processes(&finished(PS), 17_179_869_184, Some(5));
    assert!(result.is_ok());

    let processes = result.unwrap();
    assert!(processes.len() <= 5);

    // Verify sorted by memory descending
    for i in 1..processes.len() {
        assert!(processes[i - 1].memory_bytes >= processes[i].memory_bytes);
    }
}

#[test]
fn ram_percentage_is_used_over_total() {
    let info = get_ram_info(16_000, 4_000, 0).unwrap();
    assert_eq!(info.total_bytes, 16_000);
    assert_eq!(info.used_bytes, 4_000);
    assert_eq!(info.available_bytes, 12_000);
    assert_eq!(info.used_percentage.thousandths, 25_000);
    assert_eq!(info.pressure_level, "normal");
    let third = get_ram_info(3, 1, 0).unwrap();
    assert_eq!(third.used_percentage.thousandths, 33_333);
    let exact = 9_000_000_000f64 / 17_179_869_184f64 * 100.0;
    let info = get_ram_info(17_179_869_184, 9_000_000_000, 0).unwrap();
    assert!((info.used_percentage.thousandths as f64 / 1000.0 - exact).abs() < 0.001);
}

#[test]
fn ram_pressure_changes_at_sixty_and_eighty_five() {
    assert_eq!(get_ram_info(100_000, 59_999, 1).unwrap().pressure_level, "normal");
    assert_eq!(get_ram_info(100_000, 60_000, 1).unwrap().pressure_level, "warn");
    assert_eq!(get_ram_info(100_000, 84_999, 1).unwrap().pressure_level, "warn");
    assert_eq!(get_ram_info(100_000, 85_000, 1).unwrap().pressure_level, "critical");
    assert_eq!(get_ram_info(100_000, 100_000, 1).unwrap().pressure_level, "critical");
    assert_eq!(get_ram_info(100_000, 0, 1).unwrap().pressure_level, "normal");
    assert_eq!(pressure_level(Fixed { thousandths: 59_999 }), "normal");
    assert_eq!(pressure_level(Fixed { thousandths: 60_000 }), "warn");
    assert_eq!(pressure_level(Fixed { thousandths: 85_000 }), "critical");
}

#[test]
fn ram_without_a_total_is_zero_percent() {
    let info = get_ram_info(0, 0, 0).unwrap();
    assert_eq!(info.used_percentage.thousandths, 0);
    assert_eq!(info.pressure_level, "normal");
    assert_eq!(info.available_bytes, 0);
}

#[test]
fn ram_available_is_kept_unless_zero() {
    assert_eq!(get_ram_info(100, 60, 25).unwrap().available_bytes, 25);
    assert_eq!(get_ram_info(100, 60, 0).unwrap().available_bytes, 40);
    assert_eq!(get_ram_info(100, 160, 0).unwrap().available_bytes, 0);
}

#[test]
fn top_memory_is_sorted_and_cut() {
    let processes = get_top_memory_processes(&finished(PS), 1_024_000_000, Some(5)).unwrap();
    assert_eq!(processes.len(), 5);
    assert_eq!(processes[0].pid, 314);
    assert_eq!(processes[0].name, "Safari");
    assert_eq!(processes[0].path, "/Applications/Safari.app/Contents/MacOS/Safari -psn");
    assert_eq!(processes[0].memory_bytes, 904000 * 1024);
    assert_eq!(processes[0].memory_percentage.thousandths, 90_400);
    assert_eq!(processes[1].pid, 1200);
    assert_eq!(processes[1].name, "some");
    assert_eq!(processes[1].path, "/usr/bin/some tool");
    // equal sizes stay in the order of the listing
    assert_eq!(processes[2].pid, 1);
    assert_eq!(processes[2].name, "launchd");
    assert_eq!(processes[3].pid, 77);
    assert_eq!(processes[4].pid, 1300);
    assert_eq!(processes[4].name, "top");
    assert_eq!(processes[4].path, "top");
}

#[test]
fn top_memory_count_defaults_to_ten() {
    let mut listing = String::from("PID RSS COMMAND\n");
    for i in 0..15 {
        listing.push_str(&format!("{} {} /bin/p{}\n", i + 1, 100 + i, i));
    }
    let run = finished(&listing);
    let ten = get_top_memory_processes(&run, 0, None).unwrap();
    assert_eq!(ten.len(), 10);
    assert_eq!(ten[0].pid, 15);
    assert_eq!(ten[9].pid, 6);
    assert_eq!(ten[0].memory_percentage.thousandths, 0);
    assert_eq!(get_top_memory_processes(&run, 0, Some(0)).unwrap().len(), 0);
    assert_eq!(get_top_memory_processes(&run, 0, Some(99)).unwrap().len(), 15);
}

#[test]
fn top_memory_passes_over_rows_it_cannot_read() {
    let listing = "header line that is skipped 1 2 3\n1 2\n 4294967296 5 /too/large/pid\n7 -3 /negative\n\n9 18014398509481984 /huge rss\n10 4 a/b c\r\n";
    let processes = get_top_memory_processes(&finished(listing), 1000, None).unwrap();
    assert_eq!(processes.len(), 2);
    assert_eq!(processes[0].pid, 9);
    assert_eq!(processes[0].memory_bytes, u64::MAX);
    assert_eq!(processes[0].name, "huge");
    assert_eq!(processes[1].pid, 10);
    assert_eq!(processes[1].path, "a/b c");
    assert_eq!(processes[1].name, "b");
    assert_eq!(processes[1].memory_bytes, 4096);
    assert!(get_top_memory_processes(&finished(""), 1000, None).unwrap().is_empty());
    assert!(get_top_memory_processes(&finished("1 2 only-a-header\n"), 1000, None)
        .unwrap()
        .is_empty());
}

#[test]
fn top_memory_errors() {
    let run = CommandRun::NotStarted { reason: "boom".to_string() };
    assert_eq!(get_top_memory_processes(&run, 1, None).unwrap_err(), "Failed to run ps: boom");
    let run = CommandRun::Finished {
        success: false,
        stdout: PS.to_string(),
        stderr: String::new(),
    };
    assert_eq!(get_top_memory_processes(&run, 1, None).unwrap_err(), "ps command failed");
}

#[test]
fn purge_that_ran_is_followed_by_a_second_reading() {
    match purge_memory_with_admin(&finished("")) {
        PurgeStep::SettleThenMeasure { millis } => assert_eq!(millis, 500),
        other => panic!("unexpected step {:?}", other),
    }
    let r = memory_clean_result(5_000_000, 3_999_000);
    assert!(r.success);
    assert_eq!(r.freed_bytes, 1_001_000);
    assert_eq!(r.message, "Freed 1001000 bytes of memory");
    let r = memory_clean_result(10, 20);
    assert!(r.success);
    assert_eq!(r.freed_bytes, 0);
    assert_eq!(r.message, "Freed 0 bytes of memory");
    let r = memory_clean_result(u64::MAX, 0);
    assert_eq!(r.message, "Freed 18446744073709551615 bytes of memory");
}

#[test]
fn purge_that_was_cancelled_is_an_outcome() {
    let run = CommandRun::Finished {
        success: false,
        stdout: String::new(),
        stderr: "execution error: User canceled. (-128)".to_string(),
    };
    match purge_memory_with_admin(&run) {
        PurgeStep::Done { result: Ok(r) } => {
            assert!(!r.success);
            assert_eq!(r.freed_bytes, 0);
            assert_eq!(r.message, "Authentication cancelled");
        }
        other => panic!("unexpected step {:?}", other),
    }
}

#[test]
fn purge_that_failed_is_an_error() {
    let run = CommandRun::Finished {
        success: false,
        stdout: String::new(),
        stderr: "purge: not permitted".to_string(),
    };
    match purge_memory_with_admin(&run) {
        PurgeStep::Done { result: Err(e) } => assert_eq!(e, "Purge failed: purge: not permitted"),
        other => panic!("unexpected step {:?}", other),
    }
    let run = CommandRun::NotStarted { reason: "no osascript".to_string() };
    match purge_memory_with_admin(&run) {
        PurgeStep::Done { result: Err(e) } => {
            assert_eq!(e, "Failed to execute osascript: no osascript")
        }
        other => panic!("unexpected step {:?}", other),
    }
}

#[test]
fn quit_starts_with_the_gentle_signal() {
    match force_quit_process(&QuitEvent::Requested { pid: PID }) {
        QuitStep::Send { target, signal } => {
            assert_eq!(target, 4321);
            assert_eq!(signal, Signal::Terminate);
        }
        other => panic!("unexpected step {:?}", other),
    }
}

#[test]
fn only_ids_of_single_processes_have_a_target() {
    assert_eq!(signal_target(0), None);
    assert_eq!(signal_target(1), Some(1));
    assert_eq!(signal_target(4321), Some(4321));
    assert_eq!(signal_target(i32::MAX as u32), Some(i32::MAX));
    assert_eq!(signal_target(i32::MAX as u32 + 1), None);
    assert_eq!(signal_target(u32::MAX), None);
}

#[test]
fn an_id_that_names_no_single_process_is_never_signalled() {
    for pid in [0u32, i32::MAX as u32 + 1, u32::MAX] {
        let events = [
            QuitEvent::Requested { pid },
            QuitEvent::Answered { pid, signal: Signal::Terminate, outcome: SignalOutcome::Delivered },
            QuitEvent::Answered { pid, signal: Signal::Probe, outcome: SignalOutcome::Delivered },
            QuitEvent::Answered { pid, signal: Signal::Kill, outcome: SignalOutcome::Delivered },
        ];
        for event in &events {
            match force_quit_process(event) {
                QuitStep::Done { result: Ok(outcome) } => {
                    assert!(!outcome.success);
                    assert_eq!(outcome.message, "Process not found");
                }
                other => panic!("unexpected step {:?}", other),
            }
        }
    }
}

#[test]
fn terminate_to_a_missing_process_is_reported_as_not_found() {
    let event = answered(
        Signal::Terminate,
        failed(SignalFault::NoSuchProcess, "ESRCH: No such process"),
    );
    match force_quit_process(&event) {
        QuitStep::Done { result: Ok(outcome) } => {
            assert!(!outcome.success);
            assert_eq!(outcome.message, "Process not found");
        }
        other => panic!("unexpected step {:?}", other),
    }
}

#[test]
fn terminate_sent_to_a_pid_that_does_not_exist() {
    // no process has an id this large
    let pid = i32::MAX as u32;
    assert!(matches!(deliver(i32::MAX, Signal::Probe), SignalOutcome::Failed { .. }));
    let (target, signal) = match force_quit_process(&QuitEvent::Requested { pid }) {
        QuitStep::Send { target, signal } => (target, signal),
        other => panic!("unexpected step {:?}", other),
    };
    assert_eq!(target, i32::MAX);
    let outcome = deliver(target, signal);
    match force_quit_process(&QuitEvent::Answered { pid, signal, outcome }) {
        QuitStep::Done { result: Ok(outcome) } => {
            assert!(!outcome.success);
            assert_eq!(outcome.message, "Process not found");
        }
        other => panic!("unexpected step {:?}", other),
    }
}

#[test]
fn terminate_without_permission_is_reported() {
    let event = answered(Signal::Terminate, failed(SignalFault::NotPermitted, "EPERM"));
    match force_quit_process(&event) {
        QuitStep::Done { result: Ok(outcome) } => {
            assert!(!outcome.success);
            assert_eq!(outcome.message, "Permission denied. Try granting Accessibility access.");
        }
        other => panic!("unexpected step {:?}", other),
    }
}

#[test]
fn terminate_that_fails_otherwise_is_an_error() {
    let event = answered(
        Signal::Terminate,
        failed(SignalFault::Other, "EINVAL: Invalid argument"),
    );
    match force_quit_process(&event) {
        QuitStep::Done { result: Err(e) } => {
            assert_eq!(e, "Failed to terminate process: EINVAL: Invalid argument")
        }
        other => panic!("unexpected step {:?}", other),
    }
}

#[test]
fn delivered_terminate_is_followed_by_a_probe_after_half_a_second() {
    match force_quit_process(&answered(Signal::Terminate, SignalOutcome::Delivered)) {
        QuitStep::SettleThenSend { millis, target, signal } => {
            assert_eq!(millis, 500);
            assert_eq!(target, 4321);
            assert_eq!(signal, Signal::Probe);
        }
        other => panic!("unexpected step {:?}", other),
    }
}

#[test]
fn process_that_is_gone_at_the_probe_has_terminated() {
    for fault in [SignalFault::NoSuchProcess, SignalFault::NotPermitted, SignalFault::Other] {
        match force_quit_process(&answered(Signal::Probe, failed(fault, "whatever"))) {
            QuitStep::Done { result: Ok(outcome) } => {
                assert!(outcome.success);
                assert_eq!(outcome.message, "Process terminated");
            }
            other => panic!("unexpected step {:?}", other),
        }
    }
}

#[test]
fn process_that_is_still_there_is_killed() {
    match force_quit_process(&answered(Signal::Probe, SignalOutcome::Delivered)) {
        QuitStep::Send { target, signal } => {
            assert_eq!(target, 4321);
            assert_eq!(signal, Signal::Kill);
        }
        other => panic!("unexpected step {:?}", other),
    }
    match force_quit_process(&answered(Signal::Kill, SignalOutcome::Delivered)) {
        QuitStep::Done { result: Ok(outcome) } => {
            assert!(outcome.success);
            assert_eq!(outcome.message, "Process force killed");
        }
        other => panic!("unexpected step {:?}", other),
    }
}

#[test]
fn kill_that_fails_is_an_error() {
    let event = answered(Signal::Kill, failed(SignalFault::NoSuchProcess, "ESRCH: No such process"));
    match force_quit_process(&event) {
        QuitStep::Done { result: Err(e) } => {
            assert_eq!(e, "Failed to kill process: ESRCH: No such process")
        }
        other => panic!("unexpected step {:?}", other),
    }
}
