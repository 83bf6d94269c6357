//! The battery, as the registry dump of the power source describes it.

use vstd::prelude::*;
use crate::command::{followed, owned, CommandRun};
use crate::fixed::{percent_of, quotient, sat, Fixed};
use crate::numeral::{decimal_numeral, numeral_u32, read_fixed, read_u32};
use crate::text::{
    append_chars, blank, chars_of, find, find_first, is_blank, lines, part, same, split_lines,
    split_tokens, string_of, strip, stripped, texts, tokens, is_space, leading,
    lemma_stripped_is_part, lemma_token_holds_no_space, CharClass,
};

verus! {

/// A snapshot of the battery.
#[derive(Debug, Clone)]
pub struct BatteryInfo {
    /// Charge, as a percentage of what the battery can hold now.
    pub percentage: Fixed,
    pub is_charging: bool,
    pub is_plugged_in: bool,
    /// `AC Adapter` or `Battery`.
    pub power_source: String,
    /// `Normal`, `Service Recommended` or `Replace Soon`.
    pub condition: String,
    /// Health: what the battery can hold now, as a percentage of what it was
    /// designed to hold. It may exceed one hundred.
    pub max_capacity_percentage: Fixed,
    pub cycle_count: Option<u32>,
    pub time_to_full_minutes: Option<u32>,
    pub time_to_empty_minutes: Option<u32>,
    pub temperature_celsius: Option<Fixed>,
    pub voltage_volts: Option<Fixed>,
}

/// A raw time of this size or more stands for "not known".
pub const UNKNOWN_TIME: u32 = 65535;

/// What follows position `start` of `line`, as a value: the first word
/// there, which ends at the next white space, without the double quotes at
/// its two ends; and the empty value where no word follows.
pub open spec fn value_after(line: Seq<char>, start: int) -> Seq<char> {
    let t = tokens(line.skip(start));
    if t.len() > 0 {
        stripped(t[0], '"')
    } else {
        Seq::empty()
    }
}

/// The value behind the first of `rows` in which `pattern` stands.
pub open spec fn value_in(rows: Seq<Seq<char>>, pattern: Seq<char>) -> Option<Seq<char>>
    decreases rows.len(),
{
    if rows.len() == 0 {
        None
    } else {
        match find(rows[0], pattern) {
            Some(at) => Some(value_after(rows[0], at + pattern.len())),
            None => value_in(rows.drop_first(), pattern),
        }
    }
}

/// The value that the lines `rows` give for `key`: the first one that holds
/// the key followed by ` = ` decides.
pub open spec fn entry(rows: Seq<Seq<char>>, key: Seq<char>) -> Option<Seq<char>> {
    value_in(rows, key + " = "@)
}

/// The value that the registry dump `output` gives for `key`.
pub open spec fn ioreg_value(output: Seq<char>, key: Seq<char>) -> Option<Seq<char>> {
    entry(lines(output), key)
}

/// The number under `key`, in thousandths, and `fallback` where the key is
/// missing or its value is no decimal numeral.
pub open spec fn amount(rows: Seq<Seq<char>>, key: Seq<char>, fallback: int) -> int {
    match entry(rows, key) {
        Some(v) => match decimal_numeral(v) {
            Some(x) => sat(x),
            None => fallback,
        },
        None => fallback,
    }
}

/// The number under `key`, in thousandths, if there is one.
pub open spec fn measure(rows: Seq<Seq<char>>, key: Seq<char>) -> Option<int> {
    match entry(rows, key) {
        Some(v) => match decimal_numeral(v) {
            Some(x) => Some(sat(x)),
            None => None,
        },
        None => None,
    }
}

/// Whether the value under `key` says yes.
pub open spec fn flag(rows: Seq<Seq<char>>, key: Seq<char>) -> bool {
    match entry(rows, key) {
        Some(v) => v == "Yes"@ || v == "1"@,
        None => false,
    }
}

/// The whole number under `key`, if there is one.
pub open spec fn count(rows: Seq<Seq<char>>, key: Seq<char>) -> Option<u32> {
    match entry(rows, key) {
        Some(v) => numeral_u32(v),
        None => None,
    }
}

/// The minutes that remain, unless the raw value stands for "not known".
pub open spec fn remaining(rows: Seq<Seq<char>>) -> Option<u32> {
    match count(rows, "\"TimeRemaining\""@) {
        Some(v) => if v < UNKNOWN_TIME {
            Some(v)
        } else {
            None
        },
        None => None,
    }
}

/// Charge in thousandths of a percent: current capacity against the most the
/// battery holds now, and zero where that is not above zero.
pub open spec fn charge(rows: Seq<Seq<char>>) -> int {
    let current = amount(rows, "\"AppleRawCurrentCapacity\""@, 0);
    let most = amount(rows, "\"AppleRawMaxCapacity\""@, 100_000);
    if most > 0 {
        sat(percent_of(current, most))
    } else {
        0
    }
}

/// Health in thousandths of a percent: the most the battery holds now against
/// what it was designed for, and zero where that is not above zero. A
/// capacity that the dump does not give counts as one hundred.
pub open spec fn health(rows: Seq<Seq<char>>) -> int {
    let most = amount(rows, "\"AppleRawMaxCapacity\""@, 100_000);
    let design = amount(rows, "\"DesignCapacity\""@, 100_000);
    if design > 0 {
        sat(percent_of(most, design))
    } else {
        0
    }
}

/// The condition that goes with a health of `health` thousandths of a percent.
pub open spec fn condition_label(health: int) -> Seq<char> {
    if health >= 80_000 {
        "Normal"@
    } else if health >= 50_000 {
        "Service Recommended"@
    } else {
        "Replace Soon"@
    }
}

/// The name of the source that feeds the machine.
pub open spec fn source_label(plugged_in: bool) -> Seq<char> {
    if plugged_in {
        "AC Adapter"@
    } else {
        "Battery"@
    }
}

impl BatteryInfo {
    /// `self` is what the lines `rows` of a registry dump describe.
    pub open spec fn reads(self, rows: Seq<Seq<char>>) -> bool {
        let charging = flag(rows, "\"IsCharging\""@);
        let plugged = flag(rows, "\"ExternalConnected\""@);
        &&& self.percentage.value() == charge(rows)
        &&& self.is_charging == charging
        &&& self.is_plugged_in == plugged
        &&& self.power_source@ == source_label(plugged)
        &&& self.condition@ == condition_label(health(rows))
        &&& self.max_capacity_percentage.value() == health(rows)
        &&& self.cycle_count == count(rows, "\"CycleCount\""@)
        &&& self.time_to_full_minutes == if charging {
            remaining(rows)
        } else {
            None
        }
        &&& self.time_to_empty_minutes == if charging {
            None
        } else {
            remaining(rows)
        }
        &&& match measure(rows, "\"Temperature\""@) {
            Some(raw) => self.temperature_celsius is Some
                && self.temperature_celsius->Some_0.value() == quotient(raw, 100),
            None => self.temperature_celsius is None,
        }
        &&& match measure(rows, "\"Voltage\""@) {
            Some(raw) => self.voltage_volts is Some && self.voltage_volts->Some_0.value()
                == quotient(raw, 1000),
            None => self.voltage_volts is None,
        }
    }
}

/// What `get_battery_info` owes for the run `run` of the registry utility.
pub open spec fn battery_outcome(run: CommandRun, r: Result<BatteryInfo, String>) -> bool {
    match run {
        CommandRun::NotStarted { reason } => r is Err && r->Err_0@ == "Failed to run ioreg: "@
            + reason@,
        CommandRun::Finished { success, stdout, stderr } => if !success {
            r is Err && r->Err_0@ == "ioreg command failed"@
        } else if is_blank(stdout@) {
            r is Err && r->Err_0@ == "No battery found (desktop Mac?)"@
        } else {
            r is Ok && r->Ok_0.reads(lines(stdout@))
        },
    }
}

/// A value is found exactly when one of the rows holds the pattern, and a
/// value that is found holds no white space.
pub proof fn lemma_value_in(rows: Seq<Seq<char>>, pattern: Seq<char>)
    ensures
        value_in(rows, pattern) is Some <==> exists|r: int|
            0 <= r < rows.len() && find(#[trigger] rows[r], pattern) is Some,
        value_in(rows, pattern) is Some ==> forall|i: int|
            0 <= i < value_in(rows, pattern)->Some_0.len() ==> !is_space(
                #[trigger] value_in(rows, pattern)->Some_0[i],
            ),
    decreases rows.len(),
{
    if rows.len() > 0 {
        match find(rows[0], pattern) {
            Some(at) => {
                let rest = rows[0].skip(at + pattern.len());
                let v = value_after(rows[0], at + pattern.len());
                if tokens(rest).len() > 0 {
                    let word = tokens(rest)[0];
                    lemma_token_holds_no_space(rest, 0);
                    lemma_stripped_is_part(word, '"');
                    assert forall|i: int| 0 <= i < v.len() implies !is_space(#[trigger] v[i]) by {
                        let k = leading(word, CharClass::Is('"')) + i;
                        assert(v[i] == word[k]);
                        assert(!is_space(tokens(rest)[0][k]));
                    }
                }
            },
            None => {
                let tail = rows.drop_first();
                lemma_value_in(tail, pattern);
                if value_in(rows, pattern) is Some {
                    let r = choose|r: int|
                        0 <= r < tail.len() && find(#[trigger] tail[r], pattern) is Some;
                    assert(rows[r + 1] == tail[r]);
                }
                if exists|r: int| 0 <= r < rows.len() && find(#[trigger] rows[r], pattern) is Some {
                    let r = choose|r: int|
                        0 <= r < rows.len() && find(#[trigger] rows[r], pattern) is Some;
                    assert(r > 0);
                    assert(tail[r - 1] == rows[r]);
                }
            },
        }
    }
}

/// Every health that is not negative has exactly one condition: `Normal` from
/// 80 percent on, `Service Recommended` from 50 percent up to 80, and
/// `Replace Soon` below 50.
pub proof fn lemma_condition_total(health: int)
    requires
        health >= 0,
    ensures
        health >= 80_000 <==> condition_label(health) == "Normal"@,
        50_000 <= health < 80_000 <==> condition_label(health) == "Service Recommended"@,
        health < 50_000 <==> condition_label(health) == "Replace Soon"@,
{
    reveal_strlit("Normal");
    reveal_strlit("Service Recommended");
    reveal_strlit("Replace Soon");
    assert("Normal"@.len() == 6);
    assert("Service Recommended"@.len() == 19);
    assert("Replace Soon"@.len() == 12);
}

/// The value behind position `start` of `line`.
fn value_from<'a>(line: &'a [char], start: usize) -> (r: &'a [char])
    requires
        start <= line@.len(),
    ensures
        r@ == value_after(line@, start as int),
{
    let rest = part(line, start, line.len());
    let t = split_tokens(rest);
    if t.len() > 0 {
        assert(texts(t@)[0] == t@[0]@);
        strip(t[0], '"')
    } else {
        part(rest, 0, 0)
    }
}

/// The value behind the first of `rows` in which `pattern` stands.
fn value_in_rows<'a>(rows: &Vec<&'a [char]>, pattern: &[char]) -> (r: Option<&'a [char]>)
    ensures
        match r {
            Some(v) => value_in(texts(rows@), pattern@) == Some(v@),
            None => value_in(texts(rows@), pattern@) is None,
        },
{
    let ghost all = texts(rows@);
    let mut i: usize = 0;
    assert(all.skip(0) =~= all);
    while i < rows.len()
        invariant
            i <= rows@.len(),
            all == texts(rows@),
            value_in(all, pattern@) == value_in(all.skip(i as int), pattern@),
        decreases rows@.len() - i,
    {
        let row = rows[i];
        proof {
            assert(all.skip(i as int)[0] == row@);
            assert(all.skip(i as int).drop_first() =~= all.skip(i + 1));
        }
        match find_first(row, pattern) {
            Some(at) => {
                let width = row.len();
                assert(at + pattern@.len() <= width);
                return Some(value_from(row, at + pattern.len()));
            },
            None => {},
        }
        i += 1;
    }
    None
}

/// The value that the rows give for `key`.
fn lookup<'a>(rows: &Vec<&'a [char]>, key: &str) -> (r: Option<&'a [char]>)
    ensures
        match r {
            Some(v) => entry(texts(rows@), key@) == Some(v@),
            None => entry(texts(rows@), key@) is None,
        },
{
    let mut pattern = chars_of(key);
    let tail = chars_of(" = ");
    append_chars(&mut pattern, tail.as_slice());
    value_in_rows(rows, pattern.as_slice())
}

/// Looks `key` up in the registry dump `output`: the first line in which the
/// key stands, followed by ` = `, gives the value.
pub fn get_ioreg_value(output: &str, key: &str) -> (r: Option<String>)
    ensures
        match r {
            Some(v) => ioreg_value(output@, key@) == Some(v@),
            None => ioreg_value(output@, key@) is None,
        },
{
    let text = chars_of(output);
    let rows = split_lines(text.as_slice());
    match lookup(&rows, key) {
        Some(v) => Some(string_of(v)),
        None => None,
    }
}


/// The number under `key`, or `fallback`.
fn amount_of(rows: &Vec<&[char]>, key: &str, fallback: Fixed) -> (r: Fixed)
    ensures
        r.value() == amount(texts(rows@), key@, fallback.value()),
{
    match lookup(rows, key) {
        Some(v) => match read_fixed(v) {
            Some(x) => x,
            None => fallback,
        },
        None => fallback,
    }
}

/// The number under `key`, if there is one.
fn measure_of(rows: &Vec<&[char]>, key: &str) -> (r: Option<Fixed>)
    ensures
        match measure(texts(rows@), key@) {
            Some(x) => r is Some && r->Some_0.value() == x,
            None => r is None,
        },
{
    match lookup(rows, key) {
        Some(v) => read_fixed(v),
        None => None,
    }
}

/// Whether the value under `key` says yes.
fn flag_of(rows: &Vec<&[char]>, key: &str) -> (r: bool)
    ensures
        r == flag(texts(rows@), key@),
{
    match lookup(rows, key) {
        Some(v) => {
            let yes = chars_of("Yes");
            let one = chars_of("1");
            same(v, yes.as_slice()) || same(v, one.as_slice())
        },
        None => false,
    }
}

/// The whole number under `key`, if there is one.
fn count_of(rows: &Vec<&[char]>, key: &str) -> (r: Option<u32>)
    ensures
        r == count(texts(rows@), key@),
{
    match lookup(rows, key) {
        Some(v) => read_u32(v),
        None => None,
    }
}

/// Names the condition of a battery whose health is `health` percent.
pub fn battery_condition(health: Fixed) -> (r: String)
    ensures
        r@ == condition_label(health.value()),
{
    if health.thousandths >= 80_000 {
        owned("Normal")
    } else if health.thousandths >= 50_000 {
        owned("Service Recommended")
    } else {
        owned("Replace Soon")
    }
}

/// Assembles the snapshot from the lines of a registry dump.
fn read_battery(rows: &Vec<&[char]>) -> (info: BatteryInfo)
    ensures
        info.reads(texts(rows@)),
{
    let current = amount_of(rows, "\"AppleRawCurrentCapacity\"", Fixed { thousandths: 0 });
    let most = amount_of(rows, "\"AppleRawMaxCapacity\"", Fixed { thousandths: 100_000 });
    let design = amount_of(rows, "\"DesignCapacity\"", Fixed { thousandths: 100_000 });
    let is_charging = flag_of(rows, "\"IsCharging\"");
    let is_plugged_in = flag_of(rows, "\"ExternalConnected\"");
    let cycle_count = count_of(rows, "\"CycleCount\"");
    let temperature_celsius = match measure_of(rows, "\"Temperature\"") {
        Some(raw) => Some(raw.divided(100)),
        None => None,
    };
    let voltage_volts = match measure_of(rows, "\"Voltage\"") {
        Some(raw) => Some(raw.divided(1000)),
        None => None,
    };
    let left = match count_of(rows, "\"TimeRemaining\"") {
        Some(v) => if v < UNKNOWN_TIME {
            Some(v)
        } else {
            None
        },
        None => None,
    };
    let percentage = current.percent_against(most);
    let max_capacity_percentage = most.percent_against(design);
    let condition = battery_condition(max_capacity_percentage);
    let power_source = if is_plugged_in {
        owned("AC Adapter")
    } else {
        owned("Battery")
    };
    BatteryInfo {
        percentage,
        is_charging,
        is_plugged_in,
        power_source,
        condition,
        max_capacity_percentage,
        cycle_count,
        time_to_full_minutes: if is_charging {
            left
        } else {
            None
        },
        time_to_empty_minutes: if is_charging {
            None
        } else {
            left
        },
        temperature_celsius,
        voltage_volts,
    }
}

/// Reads the battery from a run of `ioreg -rc AppleSmartBattery`.
///
/// A run that did not start, one that failed and one that printed nothing but
/// white space each give their own error; any other output gives a snapshot,
/// with defaults where a field is missing or unreadable.
pub fn get_battery_info(run: &CommandRun) -> (r: Result<BatteryInfo, String>)
    ensures
        battery_outcome(*run, r),
{
    match run {
        CommandRun::NotStarted { reason } => Err(followed("Failed to run ioreg: ", reason.as_str())),
        CommandRun::Finished { success, stdout, stderr } => {
            if !*success {
                return Err(owned("ioreg command failed"));
            }
            let text = chars_of(stdout.as_str());
            if blank(text.as_slice()) {
                return Err(owned("No battery found (desktop Mac?)"));
            }
            let rows = split_lines(text.as_slice());
            Ok(read_battery(&rows))
        },
    }
}

} // verus!
