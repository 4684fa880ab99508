//! The rules of the rotating log: how a record is written, when the active
//! file is rotated and how, and which files a cleanup deletes.

use crate::text::{chars_of, decimal_digits, decimal_string, starts_at};
use vstd::prelude::*;
use vstd::string::*;

verus! {

/// The size at which the active file is rotated before the next write.
pub const MAX_LOG_FILE_SIZE: u64 = 10 * 1024 * 1024;

/// The number of rotated files that are kept.
pub const MAX_LOG_BACKUP_COUNT: usize = 5;

/// The size that all log files together may have after a cleanup.
pub const MAX_TOTAL_LOG_SIZE: u64 = 5 * MAX_LOG_FILE_SIZE;

/// The directory of the log files, inside the storage directory.
pub const LOG_DIRECTORY: &'static str = "logs";

/// The name of the active log file.
pub const LOG_FILE: &'static str = "rust_error.log";

/// The text of one record: the time in seconds since the epoch, the
/// message, and the end of the line.
pub open spec fn record_text(timestamp: u64, message: Seq<char>) -> Seq<char> {
    "["@ + decimal_digits(timestamp as nat) + "] ERROR: "@ + message + "\n"@
}

/// The name of the rotated file with the number `index`.
pub open spec fn backup_name_text(index: u64) -> Seq<char> {
    "rust_error.log."@ + decimal_digits(index as nat)
}

/// Whether a file of this name belongs to the log: its name begins with the
/// name of the active file.
pub open spec fn is_log_name(name: Seq<char>) -> bool {
    "rust_error.log"@.is_prefix_of(name)
}

/// Renders [`record_text`].
pub fn format_record(timestamp: u64, message: &str) -> (record: String)
    ensures
        record@ == record_text(timestamp, message@),
{
    let number = decimal_string(timestamp);
    let mut record = String::from_str("[");
    record.append(number.as_str());
    record.append("] ERROR: ");
    record.append(message);
    record.append("\n");
    record
}

/// Renders [`backup_name_text`].
pub fn backup_name(index: u64) -> (name: String)
    ensures
        name@ == backup_name_text(index),
{
    let number = decimal_string(index);
    let mut name = String::from_str("rust_error.log.");
    name.append(number.as_str());
    name
}

/// Decides [`is_log_name`].
pub fn is_log_file_name(name: &str) -> (is_log: bool)
    ensures
        is_log == is_log_name(name@),
{
    let chars = chars_of(name);
    let prefix = chars_of("rust_error.log");
    starts_at(&chars, &prefix, 0)
}

/// Whether the active file, of the given size if it exists, has to be
/// rotated before the next record is written.
pub fn needs_rotation(active_size: Option<u64>) -> (rotate: bool)
    ensures
        rotate == (active_size matches Some(size) && size >= MAX_LOG_FILE_SIZE),
{
    match active_size {
        Some(size) => size >= MAX_LOG_FILE_SIZE,
        None => false,
    }
}

/// Whether a cleanup is due after a write at this time, in seconds since the
/// epoch: one write in ten is followed by one, on average.
pub fn cleanup_due(now_secs: u64) -> (due: bool)
    ensures
        due == (now_secs % 10 == 0),
{
    now_secs % 10 == 0
}

/// One change to the log files that a rotation makes. The active file has
/// the number 0, and the rotated file `rust_error.log.N` the number `N`.
#[derive(Debug, Clone, Copy, PartialEq, Eq)]
pub enum RotationStep {
    /// Delete the file with this number. A failure is passed over.
    Remove { index: usize },
    /// Give the file with the number `from` the number `to`. A failure ends
    /// the rotation and the write.
    Rename { from: usize, to: usize },
}

/// Which log files exist: the active one, and the rotated ones by their
/// numbers from 1 on.
#[derive(Debug, Clone, Copy, PartialEq, Eq)]
pub struct LogFiles {
    /// The size of the active file, if it exists.
    pub active_size: Option<u64>,
    /// Whether the rotated file `N` exists, at the place `N - 1`.
    pub backups: [bool; 5],
}

impl LogFiles {
    /// Whether the file with the number `index` exists.
    pub open spec fn present(self, index: int) -> bool {
        if index == 0 {
            self.active_size is Some
        } else {
            1 <= index <= 5 && self.backups@[index - 1]
        }
    }
}

/// What a rotation does about the file with the number `index`: the oldest
/// rotated file is deleted, every other file moves up by one.
pub open spec fn step_for(files: LogFiles, index: int) -> Seq<RotationStep> {
    if !files.present(index) {
        seq![]
    } else if index >= MAX_LOG_BACKUP_COUNT {
        seq![RotationStep::Remove { index: index as usize }]
    } else {
        seq![RotationStep::Rename { from: index as usize, to: (index + 1) as usize }]
    }
}

/// The steps of a rotation for the files with the numbers from `index` down
/// to 0, highest number first.
pub open spec fn steps_down_from(files: LogFiles, index: int) -> Seq<RotationStep>
    decreases index,
{
    if index <= 0 {
        step_for(files, 0)
    } else {
        step_for(files, index) + steps_down_from(files, index - 1)
    }
}

/// The steps of a rotation, in the order in which they are taken.
pub open spec fn rotation_steps(files: LogFiles) -> Seq<RotationStep> {
    steps_down_from(files, MAX_LOG_BACKUP_COUNT as int)
}

/// Plans a rotation: computes [`rotation_steps`].
pub fn plan_rotation(files: &LogFiles) -> (steps: Vec<RotationStep>)
    ensures
        steps@ == rotation_steps(*files),
{
    let mut steps: Vec<RotationStep> = Vec::new();
    let mut index: usize = MAX_LOG_BACKUP_COUNT;
    while index > 0
        invariant
            index <= MAX_LOG_BACKUP_COUNT,
            steps@ + steps_down_from(*files, index as int) == rotation_steps(*files),
        decreases index,
    {
        let ghost before = steps@;
        if files.backups[index - 1] {
            if index >= MAX_LOG_BACKUP_COUNT {
                steps.push(RotationStep::Remove { index });
            } else {
                steps.push(RotationStep::Rename { from: index, to: index + 1 });
            }
        }
        assert(steps@ =~= before + step_for(*files, index as int));
        assert(steps@ + steps_down_from(*files, index - 1) =~= before + steps_down_from(
            *files,
            index as int,
        ));
        index -= 1;
    }
    let ghost before = steps@;
    if files.active_size.is_some() {
        steps.push(RotationStep::Rename { from: 0, to: 1 });
    }
    assert(steps@ =~= before + steps_down_from(*files, 0));
    steps
}

/// The log files after one step, as a map from the numbers of the files
/// that exist to what they hold.
pub open spec fn apply_step<T>(held: Map<int, T>, step: RotationStep) -> Map<int, T> {
    match step {
        RotationStep::Remove { index } => held.remove(index as int),
        RotationStep::Rename { from, to } => if held.contains_key(from as int) {
            held.remove(from as int).insert(to as int, held[from as int])
        } else {
            held
        },
    }
}

/// The log files after a run of steps.
pub open spec fn apply_steps<T>(held: Map<int, T>, steps: Seq<RotationStep>) -> Map<int, T>
    decreases steps.len(),
{
    if steps.len() == 0 {
        held
    } else {
        apply_steps(apply_step(held, steps[0]), steps.skip(1))
    }
}

/// The log files after a rotation: what the file `N` held, the file `N + 1`
/// now holds, up to the number of files that are kept; no active file is
/// left, and what the oldest rotated file held is gone.
pub open spec fn rotated<T>(held: Map<int, T>) -> Map<int, T> {
    Map::new(
        |k: int| 1 <= k <= MAX_LOG_BACKUP_COUNT && held.contains_key(k - 1),
        |k: int| held[k - 1],
    )
}

/// `files` says which of the numbered files `held` has, and `held` has none
/// with any other number.
pub open spec fn describes<T>(files: LogFiles, held: Map<int, T>) -> bool {
    forall|k: int| held.contains_key(k) <==> files.present(k)
}

/// Where the rotation stands once the files with numbers above `index` have
/// been dealt with: those below are untouched, the place `index + 1` is
/// taken by nothing that has not moved there, and every file above has
/// moved up by one.
spec fn moved_above<T>(held: Map<int, T>, now: Map<int, T>, index: int) -> bool {
    &&& forall|k: int| #[trigger]
        now.contains_key(k) <==> if k <= index {
            held.contains_key(k)
        } else {
            index + 2 <= k <= MAX_LOG_BACKUP_COUNT && held.contains_key(k - 1)
        }
    &&& forall|k: int| #[trigger]
        now.contains_key(k) ==> now[k] == if k <= index {
            held[k]
        } else {
            held[k - 1]
        }
}

proof fn lemma_steps_down<T>(files: LogFiles, held: Map<int, T>, now: Map<int, T>, index: int)
    requires
        describes(files, held),
        0 <= index <= MAX_LOG_BACKUP_COUNT,
        moved_above(held, now, index),
    ensures
        apply_steps(now, steps_down_from(files, index)) == rotated(held),
    decreases index,
{
    let here = step_for(files, index);
    let next = if here.len() == 0 {
        now
    } else {
        apply_step(now, here[0])
    };
    assert(files.present(index) <==> held.contains_key(index));
    assert(now.contains_key(index) <==> held.contains_key(index));
    assert(now.contains_key(index) ==> now[index] == held[index]);
    assert(moved_above(held, next, index - 1)) by {
        assert forall|k: int| #[trigger]
            next.contains_key(k) <==> if k <= index - 1 {
                held.contains_key(k)
            } else {
                index + 1 <= k <= MAX_LOG_BACKUP_COUNT && held.contains_key(k - 1)
            } by {
            assert(now.contains_key(k) <==> if k <= index {
                held.contains_key(k)
            } else {
                index + 2 <= k <= MAX_LOG_BACKUP_COUNT && held.contains_key(k - 1)
            });
            assert(held.contains_key(k) <==> files.present(k));
            assert(held.contains_key(k - 1) <==> files.present(k - 1));
        }
        assert forall|k: int| #[trigger] next.contains_key(k) implies next[k] == if k <= index
            - 1 {
            held[k]
        } else {
            held[k - 1]
        } by {
            if now.contains_key(k) {
            }
        }
    }
    if index == 0 {
        assert(steps_down_from(files, index) == here);
        if here.len() == 0 {
            assert(apply_steps(now, here) == now);
        } else {
            assert(here.skip(1).len() == 0);
            assert(apply_steps(next, here.skip(1)) == next);
            assert(apply_steps(now, here) == next);
        }
        assert(next =~= rotated(held)) by {
            assert forall|k: int| next.contains_key(k) <==> rotated(held).contains_key(k) by {
                assert(held.contains_key(k - 1) <==> files.present(k - 1));
                assert(held.contains_key(k) <==> files.present(k));
            }
        }
    } else {
        let rest = steps_down_from(files, index - 1);
        lemma_steps_down(files, held, next, index - 1);
        if here.len() == 0 {
            assert(here + rest =~= rest);
        } else {
            assert((here + rest).skip(1) =~= rest);
            assert((here + rest)[0] == here[0]);
        }
    }
}

/// A rotation, taken step by step, moves every log file up by one number:
/// the active file becomes the rotated file 1 and leaves no active file
/// behind, each rotated file takes the next number, and what the rotated
/// file with the highest number held is dropped.
pub proof fn lemma_rotation_shifts<T>(files: LogFiles, held: Map<int, T>)
    requires
        describes(files, held),
    ensures
        apply_steps(held, rotation_steps(files)) == rotated(held),
        !rotated(held).contains_key(0),
        held.contains_key(0) ==> rotated(held).contains_key(1) && rotated(held)[1] == held[0],
        forall|k: int|
            1 <= k < MAX_LOG_BACKUP_COUNT && held.contains_key(k) ==> rotated(held).contains_key(
                k + 1,
            ) && #[trigger] rotated(held)[k + 1] == held[k],
        forall|k: int| k > MAX_LOG_BACKUP_COUNT ==> !rotated(held).contains_key(k),
{
    assert(moved_above(held, held, MAX_LOG_BACKUP_COUNT as int)) by {
        assert forall|k: int| #[trigger]
            held.contains_key(k) implies k <= MAX_LOG_BACKUP_COUNT by {
            assert(files.present(k));
        }
    }
    lemma_steps_down(files, held, held, MAX_LOG_BACKUP_COUNT as int);
}

/// What writing one record takes.
#[derive(Debug, Clone, PartialEq, Eq)]
pub struct WritePlan {
    /// The steps to take before the write, in their order; empty where the
    /// active file is not rotated.
    pub rotation: Vec<RotationStep>,
    /// The text to append to the active file, which is created if it is not
    /// there.
    pub record: String,
    /// Whether a cleanup follows the write.
    pub cleanup: bool,
}

/// The steps that come before a write: a rotation where the active file has
/// reached its ceiling, and nothing otherwise.
pub open spec fn steps_before_write(files: LogFiles) -> Seq<RotationStep> {
    if files.active_size matches Some(size) && size >= MAX_LOG_FILE_SIZE {
        rotation_steps(files)
    } else {
        seq![]
    }
}

/// The log files after a record has been written, as a map from the
/// numbers of the files that exist to their texts.
pub open spec fn after_write(
    files: LogFiles,
    held: Map<int, Seq<char>>,
    record: Seq<char>,
) -> Map<int, Seq<char>> {
    let base = apply_steps(held, steps_before_write(files));
    let before = if base.contains_key(0) {
        base[0]
    } else {
        Seq::empty()
    };
    base.insert(0, before + record)
}

/// Plans the write of one record at the time `now_secs`, in seconds since
/// the epoch.
pub fn plan_write(files: &LogFiles, now_secs: u64, message: &str) -> (plan: WritePlan)
    ensures
        plan.rotation@ == steps_before_write(*files),
        plan.record@ == record_text(now_secs, message@),
        plan.cleanup == (now_secs % 10 == 0),
{
    let rotation = if needs_rotation(files.active_size) {
        plan_rotation(files)
    } else {
        Vec::new()
    };
    WritePlan { rotation, record: format_record(now_secs, message), cleanup: cleanup_due(now_secs) }
}

/// A write to an active file that has reached its ceiling rotates first:
/// afterwards the rotated file 1 holds what the active file held, the
/// active file holds the new record and nothing else, every other rotated
/// file has moved up by one, and what the rotated file with the highest
/// number held is gone.
pub proof fn lemma_write_rotates_full_file(
    files: LogFiles,
    held: Map<int, Seq<char>>,
    record: Seq<char>,
)
    requires
        describes(files, held),
        files.active_size matches Some(size) && size >= MAX_LOG_FILE_SIZE,
    ensures
        after_write(files, held, record)[0] == record,
        after_write(files, held, record).contains_key(1),
        after_write(files, held, record)[1] == held[0],
        forall|k: int|
            1 <= k < MAX_LOG_BACKUP_COUNT ==> (#[trigger] after_write(
                files,
                held,
                record,
            ).contains_key(k + 1) <==> held.contains_key(k)),
        forall|k: int|
            1 <= k < MAX_LOG_BACKUP_COUNT && held.contains_key(k) ==> #[trigger] after_write(
                files,
                held,
                record,
            )[k + 1] == held[k],
        forall|k: int|
            k > MAX_LOG_BACKUP_COUNT ==> !after_write(files, held, record).contains_key(k),
{
    lemma_rotation_shifts(files, held);
    assert(files.present(0));
    assert(Seq::<char>::empty() + record =~= record);
}

/// A write to an active file below its ceiling, or to none, touches no
/// rotated file: the record goes to the end of the active file.
pub proof fn lemma_write_appends(files: LogFiles, held: Map<int, Seq<char>>, record: Seq<char>)
    requires
        !(files.active_size matches Some(size) && size >= MAX_LOG_FILE_SIZE),
    ensures
        after_write(files, held, record) == held.insert(
            0,
            (if held.contains_key(0) {
                held[0]
            } else {
                Seq::empty()
            }) + record,
        ),
{
}

/// The log sink of the process: it knows where the active log file is once
/// it has been initialized, and stays so for the life of the process.
#[derive(Debug, Clone, PartialEq, Eq)]
pub struct LogSink {
    /// The path of the active log file, once it is known.
    pub file: Option<String>,
}

impl LogSink {
    /// The path of the active log file as a sequence of characters, if the
    /// sink has been initialized.
    pub open spec fn file_text(&self) -> Option<Seq<char>> {
        match self.file {
            Some(path) => Some(path@),
            None => None,
        }
    }

    /// A sink that has not been initialized: what is logged to it is
    /// dropped.
    pub fn new() -> (sink: Self)
        ensures
            sink.file is None,
    {
        LogSink { file: None }
    }

    /// Initializes the sink with the path of the active log file.
    pub fn init(&mut self, file: String)
        ensures
            final(self).file == Some(file),
    {
        self.file = Some(file);
    }

    /// Plans the write of one record: nothing before the sink has been
    /// initialized, and the plan of [`plan_write`] from then on.
    pub fn write_plan(&self, files: &LogFiles, now_secs: u64, message: &str) -> (planned: Option<
        WritePlan,
    >)
        ensures
            planned is Some <==> self.file is Some,
            planned matches Some(plan) ==> {
                &&& plan.rotation@ == steps_before_write(*files)
                &&& plan.record@ == record_text(now_secs, message@)
                &&& plan.cleanup == (now_secs % 10 == 0)
            },
    {
        match self.file {
            Some(_) => Some(plan_write(files, now_secs, message)),
            None => None,
        }
    }
}

/// What is printed when a record could not be written.
pub open spec fn write_failure_text(reason: Seq<char>) -> Seq<char> {
    "Failed to write to log file: "@ + reason
}

/// Renders [`write_failure_text`].
pub fn write_failure_notice(reason: &str) -> (notice: String)
    ensures
        notice@ == write_failure_text(reason@),
{
    let mut notice = String::from_str("Failed to write to log file: ");
    notice.append(reason);
    notice
}

} // verus!
