use mac_health::command::CommandRun;
use mac_health::fixed::Fixed;
use mac_health::monitors::cpu::{
    core_count, get_cpu_info, get_cpu_usage_from_top, get_top_cpu_processes, LoadAverage,
};

const TOP: &str = "Processes: 512 total, 3 running, 509 sleeping, 2500 threads \n2024/01/01 10:00:00\nLoad Avg: 2.10, 1.95, 1.80 \nCPU usage: 26.85% user, 19.57% sys, 53.57% idle \nSharedLibs: 400M resident\n";

const PS: &str = "  PID  %CPU COMM\n  314  42.5 Safari\n   77   9.1 Google Chrome Helper\n  bad   1.0 x\n  501   0.3 zsh\n  900   0.0 launchd\n   12   0.0 short\n";

fn finished(stdout: &str) -> CommandRun {
    CommandRun::Finished { success: true, stdout: stdout.to_string(), stderr: String::new() }
}

fn load(one: i64) -> LoadAverage {
    LoadAverage {
        one_minute: Fixed { thousandths: one },
        five_minutes: Fixed { thousandths: 1_950 },
        fifteen_minutes: Fixed { thousandths: 1_800 },
    }
}

fn wobble(cores: usize) -> Vec<Fixed> {
    let mut v = Vec::new();
    for i in 0..cores {
        let share = ((i as f64) * 1.5).sin().abs();
        v.push(Fixed { thousandths: (share * 1000.0) as i64 });
    }
    v
}

#[test]
fn test_get_cpu_info() {
    let usage = get_cpu_usage_from_top(&finished(TOP), &load(2_100));
    let result = get_cpu_info(8, Some("Apple M2".to_string()), usage, load(2_100), &wobble(8));
    assert!(result.is_ok());

    let info = result.unwrap();
    assert!(info.total_cores > 0);
    assert!(info.total_usage_percentage.thousandths as f64 / 1000.0 >= 0.0);
    assert_eq!(info.per_core_usage.len(), info.total_cores);
}

#[test]
fn test_get_top_cpu_processes() {
    let result = get_top_cpu_processes(&finished(PS), Some(5));
    assert!(result.is_ok());

    let processes = result.unwrap();
    assert!(processes.len() <= 5);
}

#[test]
fn usage_is_one_hundred_less_idle() {
    let usage = get_cpu_usage_from_top(&finished(TOP), &load(2_100));
    assert_eq!(usage, Some(Fixed { thousandths: 46_430 }));
}

#[test]
fn usage_falls_back_to_an_estimate_from_the_load() {
    let none = "Processes: 1 total\nLoad Avg: 2.10\n";
    assert_eq!(
        get_cpu_usage_from_top(&finished(none), &load(2_100)),
        Some(Fixed { thousandths: 21_000 })
    );
    assert_eq!(
        get_cpu_usage_from_top(&finished(none), &load(15_000)),
        Some(Fixed { thousandths: 100_000 })
    );
    assert_eq!(
        get_cpu_usage_from_top(&finished(""), &load(10_000)),
        Some(Fixed { thousandths: 100_000 })
    );
}

#[test]
fn usage_skips_lines_that_state_no_idle_figure() {
    // the percent signs are taken off the end first, then the commas
    let text = "CPU usage: busy\nCPU usage: n/a idle\nCPU usage: 10.0%, idle\nCPU usage: 1% user, 75,,%% idle\n";
    assert_eq!(
        get_cpu_usage_from_top(&finished(text), &load(0)),
        Some(Fixed { thousandths: 25_000 })
    );
}

#[test]
fn usage_of_a_run_that_did_not_start_is_nothing() {
    let run = CommandRun::NotStarted { reason: "not found".to_string() };
    assert_eq!(get_cpu_usage_from_top(&run, &load(2_100)), None);
}

#[test]
fn per_core_figures_follow_the_formula() {
    let usage = Some(Fixed { thousandths: 46_430 });
    let info = get_cpu_info(4, Some("Apple M2".to_string()), usage, load(2_100), &wobble(4))
        .unwrap();
    assert_eq!(info.model_name, "Apple M2");
    assert_eq!(info.total_cores, 4);
    assert_eq!(info.total_usage_percentage.thousandths, 46_430);
    assert_eq!(info.load_average, load(2_100));
    // 0.7 * 46.43 = 32.501; |sin(0)| = 0, |sin(1.5)| = 0.997, |sin(3)| = 0.141
    assert_eq!(info.per_core_usage[0].thousandths, 42_501);
    assert_eq!(info.per_core_usage[1].thousandths, 32_501 + 997 * 25 + 10_000);
    assert_eq!(info.per_core_usage[2].thousandths, 32_501 + 141 * 25 + 10_000);
    for (i, figure) in info.per_core_usage.iter().enumerate() {
        let expected = (0.7 * 46.43 + ((i as f64) * 1.5).sin().abs() * 25.0 + 10.0)
            .min(100.0)
            .max(8.0);
        assert!((figure.thousandths as f64 / 1000.0 - expected).abs() < 0.05);
    }
}

#[test]
fn per_core_figures_stay_within_eight_and_one_hundred() {
    let high = get_cpu_info(16, None, Some(Fixed { thousandths: 100_000 }), load(0), &wobble(16))
        .unwrap();
    assert_eq!(high.per_core_usage.len(), 16);
    for figure in &high.per_core_usage {
        assert!(figure.thousandths >= 8_000 && figure.thousandths <= 100_000);
    }
    assert_eq!(high.per_core_usage[1].thousandths, 100_000);
    let odd = vec![Fixed { thousandths: i64::MIN }, Fixed { thousandths: i64::MAX }];
    let low = get_cpu_info(3, None, None, load(0), &odd).unwrap();
    assert_eq!(low.per_core_usage[0].thousandths, 8_000);
    assert_eq!(low.per_core_usage[1].thousandths, 100_000);
    assert_eq!(low.per_core_usage[2].thousandths, 10_000);
}

#[test]
fn core_count_is_what_was_detected_or_ten() {
    assert_eq!(core_count(0), 10);
    assert_eq!(core_count(1), 1);
    assert_eq!(core_count(12), 12);
    let info = get_cpu_info(0, None, None, load(0), &wobble(core_count(0))).unwrap();
    assert_eq!(info.per_core_usage.len(), core_count(0));
    // core 1 gets 0.997 of the swing of twenty-five
    assert_eq!(info.per_core_usage[1].thousandths, 997 * 25 + 10_000);
}

#[test]
fn no_detected_core_falls_back_to_ten() {
    let info = get_cpu_info(0, None, None, load(0), &Vec::new()).unwrap();
    assert_eq!(info.total_cores, 10);
    assert_eq!(info.per_core_usage.len(), 10);
    assert_eq!(info.model_name, "Unknown");
    assert_eq!(info.total_usage_percentage.thousandths, 0);
}

#[test]
fn total_usage_is_held_within_zero_and_one_hundred() {
    let over = get_cpu_info(1, None, Some(Fixed { thousandths: 120_000 }), load(0), &Vec::new())
        .unwrap();
    assert_eq!(over.total_usage_percentage.thousandths, 100_000);
    let under = get_cpu_info(1, None, Some(Fixed { thousandths: -5 }), load(0), &Vec::new())
        .unwrap();
    assert_eq!(under.total_usage_percentage.thousandths, 0);
}

#[test]
fn top_cpu_rows_are_read_then_sorted_then_cut() {
    let processes = get_top_cpu_processes(&finished(PS), Some(5)).unwrap();
    // the row without a process id is passed over before the list is cut
    assert_eq!(processes.len(), 5);
    assert_eq!(processes[0].pid, 314);
    assert_eq!(processes[0].name, "Safari");
    assert_eq!(processes[0].cpu_percentage.thousandths, 42_500);
    assert_eq!(processes[1].pid, 77);
    assert_eq!(processes[1].name, "Google Chrome Helper");
    assert_eq!(processes[1].cpu_percentage.thousandths, 9_100);
    assert_eq!(processes[2].pid, 501);
    // equal shares stay in the order of the listing
    assert_eq!(processes[3].pid, 900);
    assert_eq!(processes[4].pid, 12);
}

#[test]
fn top_cpu_puts_the_busiest_first() {
    let listing = "PID %CPU COMM\n1 0.5 a\n2 12.25 b\n3 nan c\n4 3 d\n5 12.25 e\n6 -1 f\n";
    let processes = get_top_cpu_processes(&finished(listing), Some(4)).unwrap();
    let pids: Vec<u32> = processes.iter().map(|p| p.pid).collect();
    assert_eq!(pids, vec![2, 5, 4, 1]);
    for i in 1..processes.len() {
        assert!(processes[i - 1].cpu_percentage.thousandths >= processes[i].cpu_percentage.thousandths);
    }
    let all = get_top_cpu_processes(&finished(listing), None).unwrap();
    assert_eq!(all.len(), 5);
    assert_eq!(all[4].pid, 6);
    assert_eq!(all[4].cpu_percentage.thousandths, -1_000);
}

#[test]
fn top_cpu_defaults_to_ten_rows() {
    let mut listing = String::from("PID %CPU COMM\n");
    for i in 0..15 {
        listing.push_str(&format!("{} 1.5 proc{}\n", i + 1, i));
    }
    assert_eq!(get_top_cpu_processes(&finished(&listing), None).unwrap().len(), 10);
    assert_eq!(get_top_cpu_processes(&finished(&listing), Some(0)).unwrap().len(), 0);
    assert_eq!(get_top_cpu_processes(&finished(&listing), Some(100)).unwrap().len(), 15);
    assert_eq!(get_top_cpu_processes(&finished(""), None).unwrap().len(), 0);
}

#[test]
fn top_cpu_errors() {
    let run = CommandRun::NotStarted { reason: "boom".to_string() };
    assert_eq!(get_top_cpu_processes(&run, None).unwrap_err(), "Failed to run ps: boom");
    let run = CommandRun::Finished {
        success: false,
        stdout: PS.to_string(),
        stderr: String::new(),
    };
    assert_eq!(get_top_cpu_processes(&run, None).unwrap_err(), "ps command failed");
}
