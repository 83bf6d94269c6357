//! The processor: how busy it is, how that is spread over the cores for
//! display, and the processes that use most of it.

use vstd::prelude::*;
use crate::command::{followed, owned, CommandRun};
use crate::fixed::{divide, lemma_quotient_bounds, quotient, sat, Fixed};
use crate::monitors::ram::{below_header, DEFAULT_COUNT};
use crate::numeral::{decimal_numeral, numeral_u32, read_fixed, read_u32};
use crate::order::{descending, descending_order, lemma_descending, positions};
use crate::text::{
    chars_of, contains, find, find_first, join_from, joined, lines, part, split_lines,
    split_tokens, string_of, strip_end, stripped_end, texts, tokens,
};

verus! {

/// The load averages over one, five and fifteen minutes.
#[derive(Debug, Clone, Copy, PartialEq, Eq, Structural)]
pub struct LoadAverage {
    pub one_minute: Fixed,
    pub five_minutes: Fixed,
    pub fifteen_minutes: Fixed,
}

/// A snapshot of the processor.
#[derive(Debug, Clone)]
pub struct CpuInfo {
    pub model_name: String,
    pub total_cores: usize,
    /// How busy the processor is as a whole, from 0 to 100 percent.
    pub total_usage_percentage: Fixed,
    /// One figure for each core, each from 8 to 100 percent. These are drawn
    /// from the figure for the whole processor, not measured.
    pub per_core_usage: Vec<Fixed>,
    pub load_average: LoadAverage,
}

/// One process and the share of the processor that it uses.
#[derive(Debug, Clone)]
pub struct ProcessCpuInfo {
    pub pid: u32,
    pub name: String,
    pub cpu_percentage: Fixed,
}

/// What a `ProcessCpuInfo` holds, as mathematical values.
pub struct ProcessCpu {
    pub pid: u32,
    pub name: Seq<char>,
    pub cpu_percentage: int,
}

impl View for ProcessCpuInfo {
    type V = ProcessCpu;

    open spec fn view(&self) -> ProcessCpu {
        ProcessCpu { pid: self.pid, name: self.name@, cpu_percentage: self.cpu_percentage.value() }
    }
}

/// What each of `v` holds.
pub open spec fn cpu_views(v: Seq<ProcessCpuInfo>) -> Seq<ProcessCpu> {
    Seq::new(v.len(), |i: int| v[i]@)
}

/// The number of cores that is shown where none was detected.
pub const FALLBACK_CORES: usize = 10;

/// The idle percentage that the line `line` of the summary states, in
/// thousandths: the line holds `CPU usage:`, and the word that ends just
/// before its first `idle`, without the `%` signs and then the commas at its
/// end, is a decimal numeral.
pub open spec fn idle_of(line: Seq<char>) -> Option<int> {
    if find(line, "CPU usage:"@) is Some {
        match find(line, "idle"@) {
            Some(at) => {
                let words = tokens(line.take(at));
                if words.len() > 0 {
                    match decimal_numeral(stripped_end(stripped_end(words.last(), '%'), ',')) {
                        Some(v) => Some(sat(v)),
                        None => None,
                    }
                } else {
                    None
                }
            },
            None => None,
        }
    } else {
        None
    }
}

/// The idle percentage that the first of `rows` to state one states.
pub open spec fn first_idle(rows: Seq<Seq<char>>) -> Option<int>
    decreases rows.len(),
{
    if rows.len() == 0 {
        None
    } else {
        match idle_of(rows[0]) {
            Some(v) => Some(v),
            None => first_idle(rows.drop_first()),
        }
    }
}

/// An estimate of the use from the load average over one minute: ten times
/// the load, and no more than one hundred percent. It is a guess, not a
/// measurement.
pub open spec fn estimate(load: int) -> int {
    if load * 10 > 100_000 {
        100_000
    } else {
        sat(load * 10)
    }
}

/// The use that the summary `rows` states: one hundred percent less what is
/// idle; and the estimate from the load where no line states what is idle.
pub open spec fn usage_from(rows: Seq<Seq<char>>, load: int) -> int {
    match first_idle(rows) {
        Some(idle) => sat(100_000 - idle),
        None => estimate(load),
    }
}

/// What `get_cpu_usage_from_top` owes for the run `run` of the summary.
pub open spec fn cpu_usage(run: CommandRun, load: LoadAverage) -> Option<int> {
    match run {
        CommandRun::NotStarted { reason } => None,
        CommandRun::Finished { success, stdout, stderr } => Some(
            usage_from(lines(stdout@), load.one_minute.value()),
        ),
    }
}

/// `x`, but no less than `low` and no more than `high`.
pub open spec fn clamped(x: int, low: int, high: int) -> int {
    if x < low {
        low
    } else if x > high {
        high
    } else {
        x
    }
}

/// The figure that is shown for one core, in thousandths of a percent: seven
/// tenths of the use of the whole processor, plus a swing of ten percent and
/// up to twenty-five more, of which the core gets the share `wobble`
/// (thousandths); never below 8 percent nor above 100.
pub open spec fn core_usage(total: int, wobble: int) -> int {
    clamped(quotient(total * 7, 10) + wobble * 25 + 10_000, 8_000, 100_000)
}

/// The share of the swing that core `i` gets, and none where the caller gave
/// no share for it.
pub open spec fn wobble_at(wobble: Seq<Fixed>, i: int) -> int {
    if 0 <= i < wobble.len() {
        wobble[i].value()
    } else {
        0
    }
}

/// The number of cores that is shown.
pub open spec fn cores_shown(detected: usize) -> usize {
    if detected > 0 {
        detected
    } else {
        FALLBACK_CORES
    }
}

/// The use that is shown for the whole processor: what was measured, held
/// within 0 and 100 percent, and zero where nothing was measured.
pub open spec fn usage_shown(usage: Option<Fixed>) -> int {
    match usage {
        Some(u) => clamped(u.value(), 0, 100_000),
        None => 0,
    }
}

impl CpuInfo {
    /// `self` is the snapshot for these readings.
    pub open spec fn reads(
        self,
        detected: usize,
        brand: Option<String>,
        usage: Option<Fixed>,
        load: LoadAverage,
        wobble: Seq<Fixed>,
    ) -> bool {
        &&& self.model_name@ == match brand {
            Some(b) => b@,
            None => "Unknown"@,
        }
        &&& self.total_cores == cores_shown(detected)
        &&& self.total_usage_percentage.value() == usage_shown(usage)
        &&& self.load_average == load
        &&& self.per_core_usage@.len() == self.total_cores
        &&& forall|i: int|
            0 <= i < self.per_core_usage@.len() ==> (#[trigger] self.per_core_usage@[i]).value()
                == core_usage(usage_shown(usage), wobble_at(wobble, i))
    }
}

/// Whatever the use of the whole processor and whatever share of the swing a
/// core gets, its figure is between 8 and 100 percent.
pub proof fn lemma_core_usage_bounds(total: int, wobble: int)
    ensures
        8_000 <= core_usage(total, wobble) <= 100_000,
{
}

/// Every snapshot has one figure for each core that it counts, and each
/// figure is between 8 and 100 percent.
pub proof fn lemma_per_core(
    info: CpuInfo,
    detected: usize,
    brand: Option<String>,
    usage: Option<Fixed>,
    load: LoadAverage,
    wobble: Seq<Fixed>,
)
    requires
        info.reads(detected, brand, usage, load, wobble),
    ensures
        info.per_core_usage@.len() == info.total_cores,
        info.total_cores > 0,
        forall|i: int|
            0 <= i < info.per_core_usage@.len() ==> 8_000 <= (
            #[trigger] info.per_core_usage@[i]).value() <= 100_000,
{
}

/// The process that the row `line` of a listing describes: a process id, the
/// share of the processor, and the name in the words that remain. A row with
/// fewer than three words, or whose first two are no numbers, describes none.
pub open spec fn cpu_row(line: Seq<char>) -> Option<ProcessCpu> {
    let words = tokens(line);
    if words.len() >= 3 {
        match (numeral_u32(words[0]), decimal_numeral(words[1])) {
            (Some(pid), Some(share)) => Some(
                ProcessCpu { pid, name: joined(words.skip(2)), cpu_percentage: sat(share) },
            ),
            _ => None,
        }
    } else {
        None
    }
}

/// The processes that the rows describe, in the order of the rows.
pub open spec fn cpu_rows(rows: Seq<Seq<char>>) -> Seq<ProcessCpu>
    decreases rows.len(),
{
    if rows.len() == 0 {
        Seq::empty()
    } else {
        let front = cpu_rows(rows.drop_last());
        match cpu_row(rows.last()) {
            Some(p) => front.push(p),
            None => front,
        }
    }
}

/// A share of the processor as a key that grows with it.
pub open spec fn rank(share: int) -> u64 {
    (share + 0x8000_0000_0000_0000) as u64
}

/// The key of each of `found`.
pub open spec fn cpu_keys(found: Seq<ProcessCpu>) -> Seq<u64> {
    Seq::new(found.len(), |i: int| rank(found[i].cpu_percentage))
}

/// The `count` processes of the listing `stdout` that use most of the
/// processor, the busiest first; processes that use the same stay in the
/// order of the listing. Rows are read first, then sorted, then cut.
pub open spec fn top_cpu(stdout: Seq<char>, count: nat) -> Seq<ProcessCpu> {
    let found = cpu_rows(below_header(lines(stdout)));
    let order = descending(cpu_keys(found));
    let n = if count < found.len() {
        count
    } else {
        found.len()
    };
    Seq::new(n, |i: int| found[order[i]])
}

/// The listing that comes back never holds more than was asked for, and no
/// process in it uses less than one that follows it.
pub proof fn lemma_top_cpu_sorted(stdout: Seq<char>, count: nat)
    ensures
        top_cpu(stdout, count).len() <= count,
        forall|i: int, j: int|
            0 <= i < j < top_cpu(stdout, count).len() ==> (#[trigger] top_cpu(
                stdout,
                count,
            )[i]).cpu_percentage >= (#[trigger] top_cpu(stdout, count)[j]).cpu_percentage,
{
    let found = cpu_rows(below_header(lines(stdout)));
    let keys = cpu_keys(found);
    let order = descending(keys);
    lemma_descending(keys);
    lemma_cpu_rows_fit(below_header(lines(stdout)));
    assert forall|i: int, j: int| 0 <= i < j < top_cpu(stdout, count).len() implies (
    #[trigger] top_cpu(stdout, count)[i]).cpu_percentage >= (#[trigger] top_cpu(
        stdout,
        count,
    )[j]).cpu_percentage by {
        assert(keys[order[i]] >= keys[order[j]]);
    }
}

/// Every share that was read fits into 64 bits with a sign.
pub proof fn lemma_cpu_rows_fit(rows: Seq<Seq<char>>)
    ensures
        forall|i: int|
            0 <= i < cpu_rows(rows).len() ==> i64::MIN <= (#[trigger] cpu_rows(
                rows,
            )[i]).cpu_percentage <= i64::MAX,
    decreases rows.len(),
{
    if rows.len() > 0 {
        let front = cpu_rows(rows.drop_last());
        lemma_cpu_rows_fit(rows.drop_last());
        assert forall|i: int| 0 <= i < cpu_rows(rows).len() implies i64::MIN <= (
        #[trigger] cpu_rows(rows)[i]).cpu_percentage <= i64::MAX by {
            if i < front.len() {
                assert(cpu_rows(rows)[i] == front[i]);
            }
        }
    }
}

/// What `get_top_cpu_processes` owes for the run `run` of the process
/// listing.
pub open spec fn top_cpu_outcome(
    run: CommandRun,
    count: Option<usize>,
    r: Result<Vec<ProcessCpuInfo>, String>,
) -> bool {
    match run {
        CommandRun::NotStarted { reason } => r is Err && r->Err_0@ == "Failed to run ps: "@
            + reason@,
        CommandRun::Finished { success, stdout, stderr } => if !success {
            r is Err && r->Err_0@ == "ps command failed"@
        } else {
            r is Ok && cpu_views(r->Ok_0@) == top_cpu(
                stdout@,
                match count {
                    Some(n) => n as nat,
                    None => DEFAULT_COUNT as nat,
                },
            )
        },
    }
}

/// Reads what is idle from one line of the summary.
fn read_idle(line: &[char]) -> (r: Option<Fixed>)
    ensures
        match idle_of(line@) {
            Some(v) => r is Some && r->Some_0.value() == v,
            None => r is None,
        },
{
    let marker = chars_of("CPU usage:");
    if !contains(line, marker.as_slice()) {
        return None;
    }
    let idle = chars_of("idle");
    match find_first(line, idle.as_slice()) {
        Some(at) => {
            let width = line.len();
            let head = part(line, 0, at);
            assert(head@ =~= line@.take(at as int));
            let words = split_tokens(head);
            if words.len() == 0 {
                return None;
            }
            assert(texts(words@).last() == words@[words@.len() - 1]@);
            let word = words[words.len() - 1];
            read_fixed(strip_end(strip_end(word, '%'), ','))
        },
        None => None,
    }
}

/// The use that the lines of the summary state, or the estimate.
fn usage_in(rows: &Vec<&[char]>, load: &LoadAverage) -> (r: Fixed)
    ensures
        r.value() == usage_from(texts(rows@), load.one_minute.value()),
{
    let ghost all = texts(rows@);
    let mut i: usize = 0;
    assert(all.skip(0) =~= all);
    while i < rows.len()
        invariant
            i <= rows@.len(),
            all == texts(rows@),
            first_idle(all) == first_idle(all.skip(i as int)),
        decreases rows@.len() - i,
    {
        proof {
            assert(all.skip(i as int)[0] == rows@[i as int]@);
            assert(all.skip(i as int).drop_first() =~= all.skip(i + 1));
        }
        match read_idle(rows[i]) {
            Some(idle) => {
                return Fixed::nearest(100_000 - idle.thousandths as i128);
            },
            None => {},
        }
        i += 1;
    }
    let tenfold = load.one_minute.thousandths as i128 * 10;
    if tenfold > 100_000 {
        Fixed { thousandths: 100_000 }
    } else {
        Fixed::nearest(tenfold)
    }
}

/// Reads how busy the processor is from a run of `top -l 1 -n 0`: one
/// hundred percent less what the first line that says so calls idle. Where no
/// line says so, the answer is an estimate from the load average, not a
/// measurement. A run that did not start gives nothing.
pub fn get_cpu_usage_from_top(run: &CommandRun, load: &LoadAverage) -> (r: Option<Fixed>)
    ensures
        match cpu_usage(*run, *load) {
            Some(v) => r is Some && r->Some_0.value() == v,
            None => r is None,
        },
{
    match run {
        CommandRun::NotStarted { reason } => None,
        CommandRun::Finished { success, stdout, stderr } => {
            let text = chars_of(stdout.as_str());
            let rows = split_lines(text.as_slice());
            Some(usage_in(&rows, load))
        },
    }
}

/// Holds `x` within `low` and `high`.
fn clamp(x: i128, low: i64, high: i64) -> (r: i64)
    requires
        low <= high,
    ensures
        r == clamped(x as int, low as int, high as int),
{
    if x < low as i128 {
        low
    } else if x > high as i128 {
        high
    } else {
        x as i64
    }
}

/// The number of cores that a snapshot shows where the system reports
/// `detected`: that many, and ten where it reports none.
pub fn core_count(detected: usize) -> (r: usize)
    ensures
        r == cores_shown(detected),
        r > 0,
{
    if detected > 0 {
        detected
    } else {
        FALLBACK_CORES
    }
}

/// Assembles the snapshot of the processor.
///
/// `detected` is the number of cores that the system reports and `brand` the
/// name of the first, if there is one; `usage` is what
/// `get_cpu_usage_from_top` gave. `wobble` holds, for each of the
/// `core_count(detected)` cores that are shown, the share of the swing that
/// its figure gets, in thousandths: the absolute value of the sine of one and
/// a half times the core's number. A core for which `wobble` holds nothing
/// gets no share; what `wobble` holds beyond the cores is not read.
pub fn get_cpu_info(
    detected: usize,
    brand: Option<String>,
    usage: Option<Fixed>,
    load: LoadAverage,
    wobble: &Vec<Fixed>,
) -> (r: Result<CpuInfo, String>)
    ensures
        r is Ok,
        r->Ok_0.reads(detected, brand, usage, load, wobble@),
{
    let total_cores = core_count(detected);
    let total = match usage {
        Some(u) => clamp(u.thousandths as i128, 0, 100_000),
        None => 0,
    };
    let base = divide(total as i128 * 7, 10);
    proof {
        lemma_quotient_bounds(total * 7, 10);
    }
    let mut per_core_usage: Vec<Fixed> = Vec::new();
    let mut i: usize = 0;
    while i < total_cores
        invariant
            i <= total_cores,
            per_core_usage@.len() == i,
            total == usage_shown(usage),
            base == quotient(total * 7, 10),
            0 <= base <= 700_000,
            forall|a: int|
                0 <= a < i ==> (#[trigger] per_core_usage@[a]).value() == core_usage(
                    total as int,
                    wobble_at(wobble@, a),
                ),
        decreases total_cores - i,
    {
        let w: i64 = if i < wobble.len() {
            wobble[i].thousandths
        } else {
            0
        };
        let figure = clamp(base + w as i128 * 25 + 10_000, 8_000, 100_000);
        per_core_usage.push(Fixed { thousandths: figure });
        i += 1;
    }
    let model_name = match &brand {
        Some(b) => b.clone(),
        None => owned("Unknown"),
    };
    Ok(
        CpuInfo {
            model_name,
            total_cores,
            total_usage_percentage: Fixed { thousandths: total },
            per_core_usage,
            load_average: load,
        },
    )
}

/// Reads one row of the listing.
fn read_cpu_row(line: &[char]) -> (r: Option<ProcessCpuInfo>)
    ensures
        match cpu_row(line@) {
            Some(p) => r is Some && r->Some_0@ == p,
            None => r is None,
        },
{
    let words = split_tokens(line);
    if words.len() < 3 {
        return None;
    }
    assert(texts(words@)[0] == words@[0]@);
    assert(texts(words@)[1] == words@[1]@);
    let pid = match read_u32(words[0]) {
        Some(v) => v,
        None => {
            return None;
        },
    };
    let cpu_percentage = match read_fixed(words[1]) {
        Some(v) => v,
        None => {
            return None;
        },
    };
    let name = join_from(&words, 2);
    Some(ProcessCpuInfo { pid, name: string_of(name.as_slice()), cpu_percentage })
}

impl ProcessCpuInfo {
    /// A second record that holds the same.
    pub fn duplicate(&self) -> (r: ProcessCpuInfo)
        ensures
            r@ == self@,
    {
        ProcessCpuInfo {
            pid: self.pid,
            name: self.name.clone(),
            cpu_percentage: self.cpu_percentage,
        }
    }
}

/// The key by which a share is sorted.
fn rank_of(share: Fixed) -> (r: u64)
    ensures
        r == rank(share.value()),
{
    (share.thousandths as i128 + 0x8000_0000_0000_0000) as u64
}

/// Reads the rows below the header, with the key of each process.
fn read_cpu_rows(rows: &Vec<&[char]>) -> (r: (Vec<ProcessCpuInfo>, Vec<u64>))
    ensures
        cpu_views(r.0@) == cpu_rows(below_header(texts(rows@))),
        r.1@ == cpu_keys(cpu_views(r.0@)),
{
    let ghost listed = below_header(texts(rows@));
    let mut found: Vec<ProcessCpuInfo> = Vec::new();
    let mut keys: Vec<u64> = Vec::new();
    proof {
        assert(listed.take(0) =~= Seq::<Seq<char>>::empty());
        assert(cpu_views(found@) =~= Seq::<ProcessCpu>::empty());
        assert(keys@ =~= cpu_keys(cpu_views(found@)));
    }
    if rows.len() == 0 {
        proof {
            assert(cpu_rows(listed) =~= Seq::<ProcessCpu>::empty());
        }
        return (found, keys);
    }
    let mut i: usize = 1;
    while i < rows.len()
        invariant
            1 <= i <= rows@.len(),
            listed == below_header(texts(rows@)),
            cpu_views(found@) == cpu_rows(listed.take(i - 1)),
            keys@ == cpu_keys(cpu_views(found@)),
        decreases rows@.len() - i,
    {
        let ghost before = cpu_views(found@);
        proof {
            assert(listed.take(i as int).drop_last() =~= listed.take(i - 1));
            assert(listed.take(i as int).last() == rows@[i as int]@);
        }
        match read_cpu_row(rows[i]) {
            Some(p) => {
                keys.push(rank_of(p.cpu_percentage));
                let ghost pv = p@;
                found.push(p);
                proof {
                    assert(cpu_views(found@) =~= before.push(pv));
                    assert(keys@ =~= cpu_keys(cpu_views(found@)));
                }
            },
            None => {},
        }
        i += 1;
    }
    proof {
        assert(listed.take(rows@.len() - 1) =~= listed);
    }
    (found, keys)
}

/// Lists the processes that use most of the processor, from a run of
/// `ps -arcwwwxo pid,%cpu,comm`. Without a count, ten are listed.
pub fn get_top_cpu_processes(run: &CommandRun, count: Option<usize>) -> (r: Result<
    Vec<ProcessCpuInfo>,
    String,
>)
    ensures
        top_cpu_outcome(*run, count, r),
{
    let limit = match count {
        Some(n) => n,
        None => DEFAULT_COUNT,
    };
    match run {
        CommandRun::NotStarted { reason } => Err(followed("Failed to run ps: ", reason.as_str())),
        CommandRun::Finished { success, stdout, stderr } => {
            if !*success {
                return Err(owned("ps command failed"));
            }
            let text = chars_of(stdout.as_str());
            let rows = split_lines(text.as_slice());
            let (found, keys) = read_cpu_rows(&rows);
            let order = descending_order(&keys);
            let n = if limit < found.len() {
                limit
            } else {
                found.len()
            };
            let mut top: Vec<ProcessCpuInfo> = Vec::new();
            let mut j: usize = 0;
            let ghost all = cpu_views(found@);
            let ghost want = top_cpu(stdout@, limit as nat);
            assert(want.len() == n);
            while j < n
                invariant
                    j <= n <= found@.len(),
                    order@.len() == found@.len(),
                    forall|a: int| 0 <= a < order@.len() ==> #[trigger] order@[a] < found@.len(),
                    all == cpu_views(found@),
                    positions(order@) == descending(cpu_keys(all)),
                    want.len() == n,
                    forall|a: int| 0 <= a < n ==> #[trigger] want[a] == all[descending(
                        cpu_keys(all),
                    )[a]],
                    top@.len() == j,
                    forall|a: int| 0 <= a < j ==> (#[trigger] top@[a])@ == want[a],
                decreases n - j,
            {
                proof {
                    assert(positions(order@)[j as int] == order@[j as int] as int);
                }
                let p = found[order[j]].duplicate();
                top.push(p);
                j += 1;
            }
            proof {
                assert(cpu_views(top@) =~= want);
            }
            Ok(top)
        },
    }
}

} // verus!
