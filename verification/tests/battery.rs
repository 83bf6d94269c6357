use mac_health::command::CommandRun;
use mac_health::fixed::Fixed;
use mac_health::monitors::battery::{battery_condition, get_battery_info, get_ioreg_value};

const DUMP: &str = "+-o AppleSmartBattery  <class AppleSmartBattery, id 0x100000abc, registered>\n    {\n      \"TimeRemaining\" = 251\n      \"AppleRawCurrentCapacity\" = 3541\n      \"BatteryData\" = {\"CycleCount\"=999,\"DesignCapacity\"=1,\"Voltage\"=1}\n      \"Temperature\" = 3012\n      \"AppleRawMaxCapacity\" = 4382\n      \"IsCharging\" = No\n      \"DesignCapacity\" = 4790\n      \"ExternalConnected\" = No\n      \"CycleCount\" = 312\n      \"CycleCount\" = 999\n      \"Voltage\" = 12345\n      \"Serial\" = \"D86 1234\"\n      \"Blank\" = \"  \"\n    }\n";

fn finished(stdout: &str) -> CommandRun {
    CommandRun::Finished { success: true, stdout: stdout.to_string(), stderr: String::new() }
}

fn percent(x: Fixed) -> f64 {
    x.thousandths as f64 / 1000.0
}

#[test]
fn test_get_battery_info() {
    let result = get_battery_info(&finished(DUMP));
    // Battery info may not be available on desktop Macs
    match result {
        Ok(info) => {
            assert!(percent(info.percentage) >= 0.0 && percent(info.percentage) <= 100.0);
            assert!(
                percent(info.max_capacity_percentage) >= 0.0
                    && percent(info.max_capacity_percentage) <= 150.0
            );
            assert!(["Normal", "Service Recommended", "Replace Soon"]
                .contains(&info.condition.as_str()));
        }
        Err(e) => {
            // Expected on desktop Macs without batteries
            assert!(e.contains("No battery found") || e.contains("Failed"));
        }
    }
}

#[test]
fn battery_fields_are_read_exactly() {
    let info = get_battery_info(&finished(DUMP)).unwrap();
    assert_eq!(info.percentage.thousandths, 80_807);
    assert_eq!(info.max_capacity_percentage.thousandths, 91_482);
    assert_eq!(info.condition, "Normal");
    assert!(!info.is_charging);
    assert!(!info.is_plugged_in);
    assert_eq!(info.power_source, "Battery");
    assert_eq!(info.cycle_count, Some(312));
    assert_eq!(info.time_to_full_minutes, None);
    assert_eq!(info.time_to_empty_minutes, Some(251));
    assert_eq!(info.temperature_celsius, Some(Fixed { thousandths: 30_120 }));
    assert_eq!(info.voltage_volts, Some(Fixed { thousandths: 12_345 }));
}

#[test]
fn charging_battery_reports_time_to_full_only() {
    let dump = "\"IsCharging\" = Yes\n\"ExternalConnected\" = 1\n\"TimeRemaining\" = 42\n";
    let info = get_battery_info(&finished(dump)).unwrap();
    assert!(info.is_charging);
    assert!(info.is_plugged_in);
    assert_eq!(info.power_source, "AC Adapter");
    assert_eq!(info.time_to_full_minutes, Some(42));
    assert_eq!(info.time_to_empty_minutes, None);
}

#[test]
fn unknown_time_sentinel_becomes_absent() {
    let info = get_battery_info(&finished("\"TimeRemaining\" = 65535\n")).unwrap();
    assert_eq!(info.time_to_empty_minutes, None);
    assert_eq!(info.time_to_full_minutes, None);
    let info = get_battery_info(&finished("\"TimeRemaining\" = 65534\n")).unwrap();
    assert_eq!(info.time_to_empty_minutes, Some(65534));
}

#[test]
fn missing_fields_degrade_to_defaults() {
    let info = get_battery_info(&finished("nothing of use\n")).unwrap();
    assert_eq!(info.percentage.thousandths, 0);
    assert_eq!(info.max_capacity_percentage.thousandths, 100_000);
    assert_eq!(info.condition, "Normal");
    assert_eq!(info.cycle_count, None);
    assert_eq!(info.temperature_celsius, None);
    assert_eq!(info.voltage_volts, None);
    assert!(!info.is_charging);
}

#[test]
fn health_may_exceed_one_hundred() {
    let dump = "\"AppleRawMaxCapacity\" = 5000\n\"DesignCapacity\" = 4000\n";
    let info = get_battery_info(&finished(dump)).unwrap();
    assert_eq!(info.max_capacity_percentage.thousandths, 125_000);
    assert_eq!(info.condition, "Normal");
}

#[test]
fn design_capacity_of_zero_gives_a_health_of_zero() {
    let dump = "\"AppleRawMaxCapacity\" = 4382\n\"DesignCapacity\" = 0\n\"AppleRawCurrentCapacity\" = 5\n";
    let info = get_battery_info(&finished(dump)).unwrap();
    assert_eq!(info.max_capacity_percentage.thousandths, 0);
    assert_eq!(info.condition, "Replace Soon");
    let dump = "\"AppleRawMaxCapacity\" = 0\n\"DesignCapacity\" = -3\n\"AppleRawCurrentCapacity\" = 5\n";
    let info = get_battery_info(&finished(dump)).unwrap();
    assert_eq!(info.max_capacity_percentage.thousandths, 0);
    assert_eq!(info.condition, "Replace Soon");
    assert_eq!(info.percentage.thousandths, 0);
}

#[test]
fn condition_follows_health() {
    assert_eq!(battery_condition(Fixed { thousandths: 80_000 }), "Normal");
    assert_eq!(battery_condition(Fixed { thousandths: 79_999 }), "Service Recommended");
    assert_eq!(battery_condition(Fixed { thousandths: 50_000 }), "Service Recommended");
    assert_eq!(battery_condition(Fixed { thousandths: 49_999 }), "Replace Soon");
    assert_eq!(battery_condition(Fixed { thousandths: 0 }), "Replace Soon");
    assert_eq!(battery_condition(Fixed { thousandths: 150_000 }), "Normal");
}

#[test]
fn no_battery_is_an_error() {
    let e = get_battery_info(&finished("  \n\t\n")).unwrap_err();
    assert_eq!(e, "No battery found (desktop Mac?)");
    let e = get_battery_info(&finished("")).unwrap_err();
    assert_eq!(e, "No battery found (desktop Mac?)");
}

#[test]
fn failed_registry_run_is_an_error() {
    let run = CommandRun::Finished {
        success: false,
        stdout: DUMP.to_string(),
        stderr: String::new(),
    };
    assert_eq!(get_battery_info(&run).unwrap_err(), "ioreg command failed");
}

#[test]
fn registry_that_did_not_start_is_an_error() {
    let run = CommandRun::NotStarted { reason: "No such file or directory (os error 2)".to_string() };
    assert_eq!(
        get_battery_info(&run).unwrap_err(),
        "Failed to run ioreg: No such file or directory (os error 2)"
    );
}

#[test]
fn ioreg_value_takes_the_first_spaced_match() {
    assert_eq!(get_ioreg_value(DUMP, "\"CycleCount\""), Some("312".to_string()));
    assert_eq!(get_ioreg_value(DUMP, "\"DesignCapacity\""), Some("4790".to_string()));
    assert_eq!(get_ioreg_value(DUMP, "\"Voltage\""), Some("12345".to_string()));
    assert_eq!(get_ioreg_value(DUMP, "\"Missing\""), None);
    assert_eq!(get_ioreg_value("", "\"CycleCount\""), None);
}

#[test]
fn ioreg_value_cuts_at_white_space_and_then_strips_quotes() {
    assert_eq!(get_ioreg_value("\"K\" = \"a\" b", "\"K\""), Some("a".to_string()));
    assert_eq!(get_ioreg_value("\"K\" = \"\"a\"\"\tb", "\"K\""), Some("a".to_string()));
    assert_eq!(get_ioreg_value("\"K\" = a\"b\" c", "\"K\""), Some("a\"b".to_string()));
    assert_eq!(get_ioreg_value("\"K\" = \"\"", "\"K\""), Some(String::new()));
    assert_eq!(get_ioreg_value("\"K\" =  \t ", "\"K\""), Some(String::new()));
    assert_eq!(get_ioreg_value(DUMP, "\"Serial\""), Some("D86".to_string()));
    assert_eq!(get_ioreg_value(DUMP, "\"Blank\""), Some(String::new()));
    assert_eq!(get_ioreg_value(DUMP, "\"IsCharging\""), Some("No".to_string()));
    assert_eq!(get_ioreg_value("\"A\" = \r\n", "\"A\""), Some(String::new()));
    assert_eq!(get_ioreg_value("x \"A\" =   7 trailing", "\"A\""), Some("7".to_string()));
}

#[test]
fn ioreg_value_never_holds_white_space() {
    let outputs = [
        DUMP,
        "\"K\" = \"  \"",
        "\"K\" = \" a \"",
        "\"K\" = \u{a0}x\u{3000}y",
        "first\n  \"K\" = one two\n\"K\" = three",
        "\"K\" = ",
        "\"K\"=5",
    ];
    for output in outputs {
        for key in ["\"K\"", "\"Blank\"", "\"Serial\"", "\"BatteryData\"", "\"CycleCount\""] {
            let pattern = format!("{} = ", key);
            let found = get_ioreg_value(output, key);
            assert_eq!(found.is_some(), output.lines().any(|l| l.contains(&pattern)));
            if let Some(v) = found {
                assert!(!v.chars().any(|c| c.is_whitespace()), "{:?}", v);
            }
        }
    }
    assert_eq!(
        get_ioreg_value("first\n  \"K\" = one two\n\"K\" = three", "\"K\""),
        Some("one".to_string())
    );
}
