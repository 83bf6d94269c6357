//! Memory: the totals, the processes that hold most of it, freeing it, and
//! quitting a process.

use vstd::prelude::*;
use crate::command::{followed, owned, CommandRun};
use crate::fixed::{lemma_percent_below, lemma_share_bounds, share, Fixed};
use crate::numeral::{
    decimal_text, kilobytes, numeral_u32, numeral_u64, read_u32, read_u64, to_bytes, write_u64,
};
use crate::order::{descending, descending_order, lemma_descending, positions};
use crate::text::{
    append_chars, chars_of, contains, find, join_from, joined, leading, leading_run, lines, part,
    split_lines, split_tokens, string_of, texts, tokens, trailing, trailing_run, CharClass,
};

verus! {

/// A snapshot of the memory.
#[derive(Debug, Clone)]
pub struct RamInfo {
    pub total_bytes: u64,
    pub used_bytes: u64,
    pub available_bytes: u64,
    /// What is used, as a percentage of the total; zero where the total is
    /// zero.
    pub used_percentage: Fixed,
    /// `normal`, `warn` or `critical`.
    pub pressure_level: String,
}

/// The pressure that goes with a use of `used` thousandths of a percent:
/// `normal` below 60 percent, `warn` from there up to 85, `critical` from 85
/// on.
pub open spec fn pressure_label(used: int) -> Seq<char> {
    if used < 60_000 {
        "normal"@
    } else if used < 85_000 {
        "warn"@
    } else {
        "critical"@
    }
}

/// What is available: the reading, or what the use leaves of the total where
/// the reading is zero.
pub open spec fn available_of(total: u64, used: u64, available: u64) -> int {
    if available != 0 {
        available as int
    } else if used <= total {
        total - used
    } else {
        0
    }
}

impl RamInfo {
    /// `self` is the snapshot for the three readings.
    pub open spec fn reads(self, total: u64, used: u64, available: u64) -> bool {
        &&& self.total_bytes == total
        &&& self.used_bytes == used
        &&& self.available_bytes == available_of(total, used, available)
        &&& self.used_percentage.value() == share(used as int, total as int)
        &&& self.pressure_level@ == pressure_label(share(used as int, total as int))
    }
}

/// For a total above zero and a use within it, the percentage is the use
/// divided by the total, times one hundred, and it lies between 0 and 100; the
/// pressure is `normal` exactly below 60 percent of the total, `warn` exactly
/// from 60 up to 85 percent, and `critical` exactly from 85 percent on.
pub proof fn lemma_pressure_matches(used: int, total: int)
    requires
        total > 0,
        0 <= used <= total,
    ensures
        share(used, total) == used * 100_000 / total,
        0 <= share(used, total) <= 100_000,
        pressure_label(share(used, total)) == "normal"@ <==> used * 100 < 60 * total,
        pressure_label(share(used, total)) == "warn"@ <==> 60 * total <= used * 100 < 85
            * total,
        pressure_label(share(used, total)) == "critical"@ <==> 85 * total <= used * 100,
{
    lemma_share_bounds(used, total);
    lemma_percent_below(used, total, 60);
    lemma_percent_below(used, total, 85);
    reveal_strlit("normal");
    reveal_strlit("warn");
    reveal_strlit("critical");
    assert("normal"@.len() == 6);
    assert("warn"@.len() == 4);
    assert("critical"@.len() == 8);
}

/// Names the pressure for a use of `used` percent.
pub fn pressure_level(used: Fixed) -> (r: String)
    ensures
        r@ == pressure_label(used.value()),
{
    if used.thousandths < 60_000 {
        owned("normal")
    } else if used.thousandths < 85_000 {
        owned("warn")
    } else {
        owned("critical")
    }
}

/// Assembles the memory snapshot from the three readings, in bytes.
pub fn get_ram_info(total: u64, used: u64, available: u64) -> (r: Result<RamInfo, String>)
    ensures
        r is Ok,
        r->Ok_0.reads(total, used, available),
{
    let available_bytes = if available == 0 {
        if used <= total {
            total - used
        } else {
            0
        }
    } else {
        available
    };
    let used_percentage = Fixed::share_of(used, total);
    let pressure_level = pressure_level(used_percentage);
    Ok(RamInfo { total_bytes: total, used_bytes: used, available_bytes, used_percentage, pressure_level })
}


/// One process and the memory it holds.
#[derive(Debug, Clone)]
pub struct ProcessMemoryInfo {
    pub pid: u32,
    /// The name of the executable: what follows the last `/` of `path`, up to
    /// its first space.
    pub name: String,
    /// The command, its words joined by single spaces.
    pub path: String,
    pub memory_bytes: u64,
    /// `memory_bytes` as a percentage of the machine's memory.
    pub memory_percentage: Fixed,
}

/// What a `ProcessMemoryInfo` holds, as mathematical values.
pub struct ProcessMemory {
    pub pid: u32,
    pub name: Seq<char>,
    pub path: Seq<char>,
    pub memory_bytes: u64,
    pub memory_percentage: int,
}

impl View for ProcessMemoryInfo {
    type V = ProcessMemory;

    open spec fn view(&self) -> ProcessMemory {
        ProcessMemory {
            pid: self.pid,
            name: self.name@,
            path: self.path@,
            memory_bytes: self.memory_bytes,
            memory_percentage: self.memory_percentage.value(),
        }
    }
}

/// How many processes are listed where the caller names no count.
pub const DEFAULT_COUNT: usize = 10;

/// The name of the executable in the command `path`: what follows its last
/// `/`, up to the first space.
pub open spec fn short_name(path: Seq<char>) -> Seq<char> {
    let base = path.skip(path.len() - trailing(path, CharClass::IsNot('/')));
    base.take(leading(base, CharClass::IsNot(' ')) as int)
}

/// The process that the row `line` of a listing describes: a process id, the
/// resident kilobytes, and the command in the words that remain. A row with
/// fewer than three words, or whose first two are no numbers, describes none.
pub open spec fn memory_row(line: Seq<char>, total: u64) -> Option<ProcessMemory> {
    let words = tokens(line);
    if words.len() >= 3 {
        match (numeral_u32(words[0]), numeral_u64(words[1])) {
            (Some(pid), Some(kb)) => {
                let path = joined(words.skip(2));
                Some(
                    ProcessMemory {
                        pid,
                        name: short_name(path),
                        path,
                        memory_bytes: kilobytes(kb),
                        memory_percentage: share(kilobytes(kb) as int, total as int),
                    },
                )
            },
            _ => None,
        }
    } else {
        None
    }
}

/// The processes that the rows describe, in the order of the rows.
pub open spec fn memory_rows(rows: Seq<Seq<char>>, total: u64) -> Seq<ProcessMemory>
    decreases rows.len(),
{
    if rows.len() == 0 {
        Seq::empty()
    } else {
        let front = memory_rows(rows.drop_last(), total);
        match memory_row(rows.last(), total) {
            Some(p) => front.push(p),
            None => front,
        }
    }
}

/// The rows of a listing without its header.
pub open spec fn below_header(rows: Seq<Seq<char>>) -> Seq<Seq<char>> {
    if rows.len() > 0 {
        rows.drop_first()
    } else {
        rows
    }
}

/// The memory that each of `found` holds.
pub open spec fn memory_keys(found: Seq<ProcessMemory>) -> Seq<u64> {
    Seq::new(found.len(), |i: int| found[i].memory_bytes)
}

/// The `count` processes of the listing `stdout` that hold most memory, the
/// largest first; processes that hold the same stay in the order of the
/// listing.
pub open spec fn top_memory(stdout: Seq<char>, total: u64, count: nat) -> Seq<ProcessMemory> {
    let found = memory_rows(below_header(lines(stdout)), total);
    let order = descending(memory_keys(found));
    let n = if count < found.len() {
        count
    } else {
        found.len()
    };
    Seq::new(n, |i: int| found[order[i]])
}

/// The listing that comes back never holds more than was asked for, and no
/// process in it holds less than one that follows it.
pub proof fn lemma_top_memory_sorted(stdout: Seq<char>, total: u64, count: nat)
    ensures
        top_memory(stdout, total, count).len() <= count,
        forall|i: int, j: int|
            0 <= i < j < top_memory(stdout, total, count).len() ==> (#[trigger] top_memory(
                stdout,
                total,
                count,
            )[i]).memory_bytes >= (#[trigger] top_memory(stdout, total, count)[j]).memory_bytes,
{
    let found = memory_rows(below_header(lines(stdout)), total);
    let keys = memory_keys(found);
    let order = descending(keys);
    lemma_descending(keys);
    assert forall|i: int, j: int| 0 <= i < j < top_memory(stdout, total, count).len() implies (
    #[trigger] top_memory(stdout, total, count)[i]).memory_bytes >= (#[trigger] top_memory(
        stdout,
        total,
        count,
    )[j]).memory_bytes by {
        assert(keys[order[i]] >= keys[order[j]]);
    }
}

/// What each of `v` holds.
pub open spec fn memory_views(v: Seq<ProcessMemoryInfo>) -> Seq<ProcessMemory> {
    Seq::new(v.len(), |i: int| v[i]@)
}

/// What `get_top_memory_processes` owes for the run `run` of the process
/// listing.
pub open spec fn top_memory_outcome(
    run: CommandRun,
    total: u64,
    count: Option<usize>,
    r: Result<Vec<ProcessMemoryInfo>, String>,
) -> bool {
    match run {
        CommandRun::NotStarted { reason } => r is Err && r->Err_0@ == "Failed to run ps: "@
            + reason@,
        CommandRun::Finished { success, stdout, stderr } => if !success {
            r is Err && r->Err_0@ == "ps command failed"@
        } else {
            r is Ok && memory_views(r->Ok_0@) == top_memory(
                stdout@,
                total,
                match count {
                    Some(n) => n as nat,
                    None => DEFAULT_COUNT as nat,
                },
            )
        },
    }
}

impl ProcessMemoryInfo {
    /// A second record that holds the same.
    pub fn duplicate(&self) -> (r: ProcessMemoryInfo)
        ensures
            r@ == self@,
    {
        ProcessMemoryInfo {
            pid: self.pid,
            name: self.name.clone(),
            path: self.path.clone(),
            memory_bytes: self.memory_bytes,
            memory_percentage: self.memory_percentage,
        }
    }
}

/// The name of the executable in the command `path`.
fn name_of(path: &[char]) -> (r: &[char])
    ensures
        r@ == short_name(path@),
{
    let n = trailing_run(path, CharClass::IsNot('/'));
    let base = part(path, path.len() - n, path.len());
    part(base, 0, leading_run(base, CharClass::IsNot(' ')))
}

/// Reads one row of the listing.
fn read_memory_row(line: &[char], total: u64) -> (r: Option<ProcessMemoryInfo>)
    ensures
        match memory_row(line@, total) {
            Some(p) => r is Some && r->Some_0@ == p,
            None => r is None,
        },
{
    let words = split_tokens(line);
    if words.len() < 3 {
        return None;
    }
    assert(texts(words@)[0] == words@[0]@);
    assert(texts(words@)[1] == words@[1]@);
    let pid = match read_u32(words[0]) {
        Some(v) => v,
        None => {
            return None;
        },
    };
    let kb = match read_u64(words[1]) {
        Some(v) => v,
        None => {
            return None;
        },
    };
    let memory_bytes = to_bytes(kb);
    let path = join_from(&words, 2);
    let name = string_of(name_of(path.as_slice()));
    Some(
        ProcessMemoryInfo {
            pid,
            name,
            path: string_of(path.as_slice()),
            memory_bytes,
            memory_percentage: Fixed::share_of(memory_bytes, total),
        },
    )
}

/// Lists the processes that hold most memory, from a run of
/// `ps -axm -o pid,rss,command` and the machine's memory in bytes. Without a
/// count, ten are listed.
pub fn get_top_memory_processes(run: &CommandRun, total_memory: u64, count: Option<usize>) -> (r:
    Result<Vec<ProcessMemoryInfo>, String>)
    ensures
        top_memory_outcome(*run, total_memory, count, r),
{
    let limit = match count {
        Some(n) => n,
        None => DEFAULT_COUNT,
    };
    match run {
        CommandRun::NotStarted { reason } => Err(followed("Failed to run ps: ", reason.as_str())),
        CommandRun::Finished { success, stdout, stderr } => {
            if !*success {
                return Err(owned("ps command failed"));
            }
            let text = chars_of(stdout.as_str());
            let rows = split_lines(text.as_slice());
            let ghost listed = below_header(texts(rows@));
            let mut found: Vec<ProcessMemoryInfo> = Vec::new();
            let mut keys: Vec<u64> = Vec::new();
            let mut i: usize = 1;
            proof {
                assert(listed.take(0) =~= Seq::<Seq<char>>::empty());
                assert(memory_views(found@) =~= Seq::<ProcessMemory>::empty());
                assert(keys@ =~= memory_keys(memory_views(found@)));
            }
            if rows.len() == 0 {
                proof {
                    assert(memory_rows(listed, total_memory) =~= Seq::<ProcessMemory>::empty());
                    assert(memory_views(found@) =~= top_memory(
                        stdout@,
                        total_memory,
                        limit as nat,
                    ));
                }
                return Ok(found);
            }
            while i < rows.len()
                invariant
                    1 <= i <= rows@.len(),
                    listed == below_header(texts(rows@)),
                    memory_views(found@) == memory_rows(listed.take(i - 1), total_memory),
                    keys@ == memory_keys(memory_views(found@)),
                decreases rows@.len() - i,
            {
                let ghost before = memory_views(found@);
                proof {
                    assert(listed.take(i as int).drop_last() =~= listed.take(i - 1));
                    assert(listed.take(i as int).last() == rows@[i as int]@);
                }
                match read_memory_row(rows[i], total_memory) {
                    Some(p) => {
                        keys.push(p.memory_bytes);
                        let ghost pv = p@;
                        found.push(p);
                        proof {
                            assert(memory_views(found@) =~= before.push(pv));
                            assert(keys@ =~= memory_keys(memory_views(found@)));
                        }
                    },
                    None => {},
                }
                i += 1;
            }
            proof {
                assert(listed.take(rows@.len() - 1) =~= listed);
            }
            let order = descending_order(&keys);
            let n = if limit < found.len() {
                limit
            } else {
                found.len()
            };
            let mut top: Vec<ProcessMemoryInfo> = Vec::new();
            let mut j: usize = 0;
            let ghost all = memory_views(found@);
            let ghost want = top_memory(stdout@, total_memory, limit as nat);
            assert(want.len() == n);
            while j < n
                invariant
                    j <= n <= found@.len(),
                    order@.len() == found@.len(),
                    forall|a: int| 0 <= a < order@.len() ==> #[trigger] order@[a] < found@.len(),
                    all == memory_views(found@),
                    positions(order@) == descending(memory_keys(all)),
                    want.len() == n,
                    forall|a: int| 0 <= a < n ==> #[trigger] want[a] == all[descending(
                        memory_keys(all),
                    )[a]],
                    top@.len() == j,
                    forall|a: int| 0 <= a < j ==> (#[trigger] top@[a])@ == want[a],
                decreases n - j,
            {
                proof {
                    assert(positions(order@)[j as int] == order@[j as int] as int);
                }
                let p = found[order[j]].duplicate();
                top.push(p);
                j += 1;
            }
            proof {
                assert(memory_views(top@) =~= want);
            }
            Ok(top)
        },
    }
}


/// What an attempt to free memory came to.
#[derive(Debug, Clone)]
pub struct MemoryCleanResult {
    pub success: bool,
    pub freed_bytes: u64,
    pub message: String,
}

/// What an attempt to quit a process came to.
#[derive(Debug, Clone)]
pub struct ForceQuitResult {
    pub success: bool,
    pub message: String,
}

/// How long a process, or the memory, is given to settle: half a second.
pub const SETTLE_MILLIS: u64 = 500;

/// What the caller does next while memory is being freed.
#[derive(Debug)]
pub enum PurgeStep {
    /// Wait `millis` milliseconds, read the used memory again and hand both
    /// readings to `memory_clean_result`.
    SettleThenMeasure { millis: u64 },
    /// Nothing more: this is the answer.
    Done { result: Result<MemoryCleanResult, String> },
}

/// The report on memory that was freed.
pub open spec fn freed_message(freed: u64) -> Seq<char> {
    "Freed "@ + decimal_text(freed as nat) + " bytes of memory"@
}

/// What `purge_memory_with_admin` owes for the run `run` of the privileged
/// purge.
pub open spec fn purge_outcome(run: CommandRun, step: PurgeStep) -> bool {
    match run {
        CommandRun::NotStarted { reason } => step is Done && step->result is Err
            && step->result->Err_0@ == "Failed to execute osascript: "@ + reason@,
        CommandRun::Finished { success, stdout, stderr } => if success {
            step == (PurgeStep::SettleThenMeasure { millis: SETTLE_MILLIS })
        } else if find(stderr@, "canceled"@) is Some {
            &&& step is Done
            &&& step->result is Ok
            &&& !step->result->Ok_0.success
            &&& step->result->Ok_0.freed_bytes == 0
            &&& step->result->Ok_0.message@ == "Authentication cancelled"@
        } else {
            step is Done && step->result is Err && step->result->Err_0@ == "Purge failed: "@
                + stderr@
        },
    }
}

/// Decides what follows a run of the privileged purge: a run that succeeded is
/// followed by the settle interval and a second reading; one that the user
/// cancelled is reported as such, and any other failure is an error.
pub fn purge_memory_with_admin(run: &CommandRun) -> (step: PurgeStep)
    ensures
        purge_outcome(*run, step),
{
    match run {
        CommandRun::NotStarted { reason } => PurgeStep::Done {
            result: Err(followed("Failed to execute osascript: ", reason.as_str())),
        },
        CommandRun::Finished { success, stdout, stderr } => {
            if *success {
                return PurgeStep::SettleThenMeasure { millis: SETTLE_MILLIS };
            }
            let said = chars_of(stderr.as_str());
            let word = chars_of("canceled");
            if contains(said.as_slice(), word.as_slice()) {
                PurgeStep::Done {
                    result: Ok(
                        MemoryCleanResult {
                            success: false,
                            freed_bytes: 0,
                            message: owned("Authentication cancelled"),
                        },
                    ),
                }
            } else {
                PurgeStep::Done { result: Err(followed("Purge failed: ", stderr.as_str())) }
            }
        },
    }
}

/// Reports what a purge freed, from the used memory before it and after it:
/// the difference, and nothing where the use went up.
pub fn memory_clean_result(before: u64, after: u64) -> (r: MemoryCleanResult)
    ensures
        r.success,
        r.freed_bytes == if after <= before {
            before - after
        } else {
            0
        },
        r.message@ == freed_message(r.freed_bytes),
{
    let freed_bytes = if after <= before {
        before - after
    } else {
        0
    };
    let mut text = chars_of("Freed ");
    let digits = write_u64(freed_bytes);
    append_chars(&mut text, digits.as_slice());
    let tail = chars_of(" bytes of memory");
    append_chars(&mut text, tail.as_slice());
    MemoryCleanResult { success: true, freed_bytes, message: string_of(text.as_slice()) }
}

/// A signal that the caller delivers to the process.
#[derive(Debug, Clone, Copy, PartialEq, Eq, Structural)]
pub enum Signal {
    /// Asks the process to end.
    Terminate,
    /// Delivers nothing and only tells whether the process is there.
    Probe,
    /// Ends the process.
    Kill,
}

/// Why a signal was not delivered.
#[derive(Debug, Clone, Copy, PartialEq, Eq, Structural)]
pub enum SignalFault {
    /// There is no process with that id.
    NoSuchProcess,
    /// The caller may not signal that process.
    NotPermitted,
    /// Anything else.
    Other,
}

/// What became of delivering a signal.
#[derive(Debug, Clone)]
pub enum SignalOutcome {
    Delivered,
    /// Not delivered; `description` is the system's text for the fault.
    Failed { fault: SignalFault, description: String },
}

/// The number under which the system knows the one process with the id
/// `pid`. The id zero and ids beyond the signed range name no single process:
/// to the system they would mean a group of processes, or all of them.
pub open spec fn target_of(pid: u32) -> Option<i32> {
    if 1 <= pid <= i32::MAX {
        Some(pid as i32)
    } else {
        None
    }
}

/// What has happened so far.
#[derive(Debug, Clone)]
pub enum QuitEvent {
    /// The user has asked to quit the process `pid`; nothing has been sent
    /// yet.
    Requested { pid: u32 },
    /// `signal` was sent to the process `pid`, with this outcome.
    Answered { pid: u32, signal: Signal, outcome: SignalOutcome },
}

/// What the caller does next while a process is being quit.
#[derive(Debug)]
pub enum QuitStep {
    /// Send `signal` to the process `target` now and report the outcome.
    Send { target: i32, signal: Signal },
    /// Wait `millis` milliseconds, then send `signal` to the process `target`
    /// and report the outcome.
    SettleThenSend { millis: u64, target: i32, signal: Signal },
    /// Nothing more: this is the answer.
    Done { result: Result<ForceQuitResult, String> },
}

impl QuitEvent {
    /// The process that the event is about.
    pub open spec fn pid(self) -> u32 {
        match self {
            QuitEvent::Requested { pid } => pid,
            QuitEvent::Answered { pid, signal, outcome } => pid,
        }
    }
}

impl QuitStep {
    /// The step ends the protocol with this flag and this message.
    pub open spec fn reports(self, success: bool, message: Seq<char>) -> bool {
        &&& self is Done
        &&& self->result is Ok
        &&& self->result->Ok_0.success == success
        &&& self->result->Ok_0.message@ == message
    }

    /// The step ends the protocol with this error.
    pub open spec fn fails(self, message: Seq<char>) -> bool {
        self is Done && self->result is Err && self->result->Err_0@ == message
    }

    /// The process that the step has a signal sent to, if it sends one.
    pub open spec fn signalled(self) -> Option<i32> {
        match self {
            QuitStep::Send { target, signal } => Some(target),
            QuitStep::SettleThenSend { millis, target, signal } => Some(target),
            QuitStep::Done { result } => None,
        }
    }
}

/// What follows the answer to a signal that went to the process `target`.
///
/// If the gentle signal cannot be delivered, a missing process and a missing
/// permission are reported as outcomes, anything else is an error. If it is
/// delivered, the process gets the settle interval and is then probed. A
/// probe that is not delivered means that the process has gone; one that is
/// delivered is followed by the kill, which either succeeds or is an error.
pub open spec fn answer_outcome(
    target: i32,
    signal: Signal,
    outcome: SignalOutcome,
    step: QuitStep,
) -> bool {
    match signal {
        Signal::Terminate => match outcome {
            SignalOutcome::Delivered => step == (QuitStep::SettleThenSend {
                millis: SETTLE_MILLIS,
                target,
                signal: Signal::Probe,
            }),
            SignalOutcome::Failed { fault: SignalFault::NoSuchProcess, description } => step.reports(
                false,
                "Process not found"@,
            ),
            SignalOutcome::Failed { fault: SignalFault::NotPermitted, description } => step.reports(
                false,
                "Permission denied. Try granting Accessibility access."@,
            ),
            SignalOutcome::Failed { fault: SignalFault::Other, description } => step.fails(
                "Failed to terminate process: "@ + description@,
            ),
        },
        Signal::Probe => match outcome {
            SignalOutcome::Delivered => step == (QuitStep::Send { target, signal: Signal::Kill }),
            SignalOutcome::Failed { fault, description } => step.reports(
                true,
                "Process terminated"@,
            ),
        },
        Signal::Kill => match outcome {
            SignalOutcome::Delivered => step.reports(true, "Process force killed"@),
            SignalOutcome::Failed { fault, description } => step.fails(
                "Failed to kill process: "@ + description@,
            ),
        },
    }
}

/// What `force_quit_process` owes after `event`.
///
/// An id that names no single process is reported as not found, and nothing
/// is sent. Otherwise a request is answered by asking the process to end, and
/// an answer by what `answer_outcome` says.
pub open spec fn quit_outcome(event: QuitEvent, step: QuitStep) -> bool {
    match target_of(event.pid()) {
        None => step.reports(false, "Process not found"@),
        Some(target) => match event {
            QuitEvent::Requested { pid } => step == (QuitStep::Send {
                target,
                signal: Signal::Terminate,
            }),
            QuitEvent::Answered { pid, signal, outcome } => answer_outcome(
                target,
                signal,
                outcome,
                step,
            ),
        },
    }
}

/// Whatever the event, a step that sends a signal sends it to the one process
/// whose id the event names: never to the id zero, which stands for the
/// caller's own group, and never to a negative number, which stands for
/// another group or for every process.
pub proof fn lemma_only_the_process_is_signalled(event: QuitEvent, step: QuitStep)
    requires
        quit_outcome(event, step),
    ensures
        match step.signalled() {
            Some(target) => target >= 1 && target == event.pid(),
            None => true,
        },
{
}

/// Finds the number to signal for the process `pid`: there is one exactly for
/// the ids from one up to the largest signed number.
pub fn signal_target(pid: u32) -> (r: Option<i32>)
    ensures
        r == target_of(pid),
        r is Some <==> 1 <= pid <= i32::MAX,
        r is Some ==> r->Some_0 == pid,
{
    if 1 <= pid && pid <= i32::MAX as u32 {
        Some(pid as i32)
    } else {
        None
    }
}

/// An outcome of the protocol.
fn report(success: bool, message: &str) -> (step: QuitStep)
    ensures
        step.reports(success, message@),
{
    QuitStep::Done { result: Ok(ForceQuitResult { success, message: owned(message) }) }
}

/// What follows the answer to a signal that went to the process `target`.
fn after_answer(target: i32, signal: Signal, outcome: &SignalOutcome) -> (step: QuitStep)
    ensures
        answer_outcome(target, signal, *outcome, step),
{
    match signal {
        Signal::Terminate => match outcome {
            SignalOutcome::Delivered => QuitStep::SettleThenSend {
                millis: SETTLE_MILLIS,
                target,
                signal: Signal::Probe,
            },
            SignalOutcome::Failed { fault, description } => match fault {
                SignalFault::NoSuchProcess => report(false, "Process not found"),
                SignalFault::NotPermitted => report(
                    false,
                    "Permission denied. Try granting Accessibility access.",
                ),
                SignalFault::Other => QuitStep::Done {
                    result: Err(followed("Failed to terminate process: ", description.as_str())),
                },
            },
        },
        Signal::Probe => match outcome {
            SignalOutcome::Delivered => QuitStep::Send { target, signal: Signal::Kill },
            SignalOutcome::Failed { fault, description } => report(true, "Process terminated"),
        },
        Signal::Kill => match outcome {
            SignalOutcome::Delivered => report(true, "Process force killed"),
            SignalOutcome::Failed { fault, description } => QuitStep::Done {
                result: Err(followed("Failed to kill process: ", description.as_str())),
            },
        },
    }
}

/// Takes one step of the protocol that quits a process: first the gentle
/// signal, then, if the process is still there after the settle interval, the
/// kill. It is taken once for the request and once for each answer, until it
/// says `Done`. Every signal goes to the one process that the event names; an
/// id that names no single process ends the protocol at once, as not found.
pub fn force_quit_process(event: &QuitEvent) -> (step: QuitStep)
    ensures
        quit_outcome(*event, step),
{
    match event {
        QuitEvent::Requested { pid } => match signal_target(*pid) {
            Some(target) => QuitStep::Send { target, signal: Signal::Terminate },
            None => report(false, "Process not found"),
        },
        QuitEvent::Answered { pid, signal, outcome } => match signal_target(*pid) {
            Some(target) => after_answer(target, *signal, outcome),
            None => report(false, "Process not found"),
        },
    }
}

} // verus!
