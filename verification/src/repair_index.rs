//! The offline repair of the indexes under a data directory: which directories and files are
//! looked at, in which order, what is decided for each segment and what is told about it.
use vstd::prelude::*;

use crate::decimal::{decimal, decimal_signed, digits, numeral, parse_signed, signed_value};
use crate::path::{below, join_below};
use crate::repair::{
    index_errors, read_entries, used_entries, used_slots, validate_index, RepairError,
};
use crate::text::{chars_of, ends_with, has_suffix, slice_text, texts};
use crate::text_order::{sort_texts, sorted_texts};

verus! {

/// The arguments of the repair tool.
#[derive(Debug)]
pub struct RepairIndexOpt {
    /// Path of the data directory.
    pub data_dir: String,
    /// Only report corruption, change nothing.
    pub dry_run: bool,
}

/// The regular files and the directories in a directory.
#[derive(Debug)]
pub struct DirTree {
    pub files: Vec<String>,
    pub dirs: Vec<(String, DirTree)>,
}

/// Whether a file name has the extension `log`.
pub open spec fn is_log_name(name: Seq<char>) -> bool {
    name.len() > 4 && has_suffix(name, ".log"@)
}

/// Whether a file with the extension `log` is among `files`.
pub open spec fn has_log_file(files: Seq<Seq<char>>) -> bool {
    exists|i: int| 0 <= i < files.len() && is_log_name(#[trigger] files[i])
}

/// The paths, relative to where `at` is relative to, of the directories that hold log files: a
/// directory before those below it, and these in the order in which they are listed.
pub open spec fn partition_paths(tree: DirTree, at: Seq<char>) -> Seq<Seq<char>>
    decreases tree, 1nat,
{
    (if has_log_file(texts(tree.files@)) {
        Seq::<Seq<char>>::empty().push(at)
    } else {
        Seq::<Seq<char>>::empty()
    }) + paths_below(tree, at).flatten()
}

/// For each directory in `tree` the paths that it contributes.
pub open spec fn paths_below(tree: DirTree, at: Seq<char>) -> Seq<Seq<Seq<char>>>
    decreases tree, 0nat,
{
    Seq::new(
        tree.dirs@.len(),
        |i: int|
            if 0 <= i < tree.dirs@.len() {
                partition_paths(tree.dirs@[i].1, below(at, tree.dirs@[i].0@))
            } else {
                Seq::empty()
            },
    )
}

fn is_log(name: &str) -> (r: bool)
    ensures
        r == is_log_name(name@),
{
    let v = chars_of(name);
    v.len() > 4 && ends_with(name, ".log")
}

fn any_log(files: &Vec<String>) -> (r: bool)
    ensures
        r == has_log_file(texts(files@)),
{
    let mut i: usize = 0;
    while i < files.len()
        invariant
            i <= files@.len(),
            forall|k: int| 0 <= k < i ==> !is_log_name(#[trigger] texts(files@)[k]),
        decreases files.len() - i,
    {
        if is_log(files[i].as_str()) {
            assert(is_log_name(texts(files@)[i as int]));
            return true;
        }
        i += 1;
    }
    false
}

/// Collects the directories below `at` that hold log files, behind those already in `result`.
fn collect_below(tree: &DirTree, at: &str, result: &mut Vec<String>)
    ensures
        texts(final(result)@) == texts(old(result)@) + partition_paths(*tree, at@),
    decreases tree,
{
    let ghost start = texts(result@);
    let ghost own = if has_log_file(texts(tree.files@)) {
        Seq::<Seq<char>>::empty().push(at@)
    } else {
        Seq::<Seq<char>>::empty()
    };
    if any_log(&tree.files) {
        result.push(at.to_owned());
    }
    assert(texts(result@) =~= start + own);
    let ghost parts = paths_below(*tree, at@);
    let mut i: usize = 0;
    assert(parts.take(0).flatten() =~= Seq::<Seq<char>>::empty());
    while i < tree.dirs.len()
        invariant
            i <= tree.dirs@.len(),
            parts == paths_below(*tree, at@),
            texts(result@) == start + own + parts.take(i as int).flatten(),
        decreases tree.dirs.len() - i,
    {
        let path = join_below(at, tree.dirs[i].0.as_str());
        let ghost before = texts(result@);
        collect_below(&tree.dirs[i].1, path.as_str(), result);
        proof {
            parts.take(i as int).lemma_flatten_push(parts[i as int]);
            assert(parts.take(i + 1) =~= parts.take(i as int).push(parts[i as int]));
            assert(texts(result@) =~= start + own + parts.take(i + 1).flatten());
        }
        i += 1;
    }
    assert(parts.take(i as int) =~= parts);
    assert(start + own + parts.flatten() =~= start + (own + parts.flatten()));
}

/// The directories of `tree` that hold log files, as paths relative to its root.
pub fn collect_partition_dirs(tree: &DirTree) -> (paths: Vec<String>)
    ensures
        texts(paths@) == partition_paths(*tree, Seq::empty()),
{
    let mut paths: Vec<String> = Vec::new();
    let root = String::new();
    assert(root@ =~= Seq::empty());
    collect_below(tree, root.as_str(), &mut paths);
    assert(texts(paths@) =~= partition_paths(*tree, Seq::empty()));
    paths
}

/// The names among `files` that have the extension `log`.
pub open spec fn log_names(files: Seq<Seq<char>>) -> Seq<Seq<char>> {
    files.filter(|name: Seq<char>| is_log_name(name))
}

/// A file name without its extension `.log`.
pub open spec fn log_stem(name: Seq<char>) -> Seq<char> {
    name.take(name.len() - 4)
}

/// The base offset that the name of a log file gives, where it is a number of 64 bits.
pub open spec fn base_offset_of(name: Seq<char>) -> Option<int> {
    match signed_value(log_stem(name)) {
        Some(n) => if i64::MIN <= n <= i64::MAX {
            Some(n)
        } else {
            None
        },
        None => None,
    }
}

/// The first log from `from` on whose name gives a base offset, or the number of logs.
pub open spec fn first_standard(logs: Seq<Seq<char>>, from: int) -> int
    decreases logs.len() - from,
{
    if from >= logs.len() {
        logs.len() as int
    } else if base_offset_of(logs[from]) is Some {
        from
    } else {
        first_standard(logs, from + 1)
    }
}

/// The numeral of a 32-bit number.
fn numeral_u32(n: u32) -> (s: String)
    ensures
        s@ == digits(n as nat),
{
    decimal(n as u64)
}

pub open spec fn partition_line(path: Seq<char>) -> Seq<char> {
    "\nPartition: "@ + path
}

pub open spec fn skip_line(path: Seq<char>) -> Seq<char> {
    "  Skipping non-standard log file: "@ + path
}

/// The lines for the logs from `from` up to `to`, which are passed over.
pub open spec fn skip_lines(dir: Seq<char>, logs: Seq<Seq<char>>, from: int, to: int) -> Seq<
    Seq<char>,
> {
    logs.subrange(from, to).map_values(|name: Seq<char>| skip_line(below(dir, name)))
}

pub open spec fn segment_head(base_offset: int) -> Seq<char> {
    "  Segment "@ + numeral(base_offset)
}

pub open spec fn scan_error_line(base_offset: int, error: Seq<char>) -> Seq<char> {
    segment_head(base_offset) + ": ERROR scanning log: "@ + error
}

pub open spec fn index_error_line(base_offset: int, error: Seq<char>) -> Seq<char> {
    segment_head(base_offset) + ": ERROR opening index: "@ + error
}

pub open spec fn ok_line(base_offset: int, batches: nat, entries: nat) -> Seq<char> {
    segment_head(base_offset) + ": OK ("@ + digits(batches) + " batches, "@ + digits(entries)
        + " index entries)"@
}

pub open spec fn corrupt_line(base_offset: int, errors: nat, batches: nat, entries: nat) -> Seq<
    char,
> {
    segment_head(base_offset) + ": CORRUPT ("@ + digits(errors) + " errors, "@ + digits(batches)
        + " batches, "@ + digits(entries) + " index entries)"@
}

pub open spec fn error_line(error: RepairError) -> Seq<char> {
    match error {
        RepairError::PositionPastEof { slot, position, log_size } => "    - Slot "@ + digits(
            slot as nat,
        ) + ": position "@ + digits(position as nat) + " past EOF (log size "@ + digits(
            log_size as nat,
        ) + ")"@,
        RepairError::NonMonotonicOffset { slot, offset, prev_offset } => "    - Slot "@ + digits(
            slot as nat,
        ) + ": offset "@ + digits(offset as nat) + " < previous offset "@ + digits(
            prev_offset as nat,
        ),
        RepairError::PositionMismatch { offset, index_pos, actual_pos } => "    - Offset "@
            + digits(offset as nat) + ": index position "@ + digits(index_pos as nat)
            + " != actual position "@ + digits(actual_pos as nat),
    }
}

pub open spec fn rebuilt_line(entries: nat) -> Seq<char> {
    "    Rebuilt: "@ + digits(entries) + " index entries written"@
}

pub open spec fn rebuild_error_line(error: Seq<char>) -> Seq<char> {
    "    ERROR rebuilding index: "@ + error
}

pub open spec fn summary_lines(dry_run: bool, segments: nat, errors: nat, repaired: nat) -> Seq<
    Seq<char>,
> {
    Seq::<Seq<char>>::empty().push("\n--- Summary ---"@).push(
        "Segments scanned: "@ + digits(segments),
    ).push("Corrupt segments: "@ + digits(errors)).push(
        if dry_run {
            "Mode: dry-run (no changes made)"@
        } else {
            "Segments repaired: "@ + digits(repaired)
        },
    )
}

fn tell_error(error: &RepairError) -> (line: String)
    ensures
        line@ == error_line(*error),
{
    match error {
        RepairError::PositionPastEof { slot, position, log_size } => "    - Slot ".to_owned().concat(
            numeral_u32(*slot).as_str(),
        ).concat(": position ").concat(numeral_u32(*position).as_str()).concat(
            " past EOF (log size ",
        ).concat(decimal(*log_size).as_str()).concat(")"),
        RepairError::NonMonotonicOffset { slot, offset, prev_offset } => "    - Slot ".to_owned().concat(
            numeral_u32(*slot).as_str(),
        ).concat(": offset ").concat(numeral_u32(*offset).as_str()).concat(
            " < previous offset ",
        ).concat(numeral_u32(*prev_offset).as_str()),
        RepairError::PositionMismatch {
            offset,
            index_pos,
            actual_pos,
        } => "    - Offset ".to_owned().concat(numeral_u32(*offset).as_str()).concat(
            ": index position ",
        ).concat(numeral_u32(*index_pos).as_str()).concat(" != actual position ").concat(
            numeral_u32(*actual_pos).as_str(),
        ),
    }
}

/// What stands in place of the index of a segment.
#[derive(Debug)]
pub enum IndexFile {
    /// There is no such file.
    Missing,
    /// The file could not be opened, for the reason given.
    Unreadable(String),
    /// The bytes of the file.
    Bytes(Vec<u8>),
}

/// What is wrong with an index. One that is missing or cannot be opened counts as corrupt.
pub open spec fn found_errors(
    index: IndexFile,
    batches: Seq<(i64, u32)>,
    log_size: u64,
) -> Seq<RepairError> {
    match index {
        IndexFile::Missing => Seq::<RepairError>::empty().push(
            RepairError::PositionMismatch { offset: 0, index_pos: 0, actual_pos: 0 },
        ),
        IndexFile::Unreadable(_) => Seq::<RepairError>::empty().push(
            RepairError::PositionPastEof { slot: 0, position: 0, log_size },
        ),
        IndexFile::Bytes(bytes) => index_errors(
            crate::repair::entries_of(bytes@),
            batches,
            log_size,
        ),
    }
}

/// The number of entries that an index holds.
pub open spec fn found_entries(index: IndexFile) -> nat {
    match index {
        IndexFile::Bytes(bytes) => used_slots(crate::repair::entries_of(bytes@)) as u32 as nat,
        _ => 0,
    }
}

/// What is told of an index that could not be opened.
pub open spec fn opening_lines(base_offset: int, index: IndexFile) -> Seq<Seq<char>> {
    match index {
        IndexFile::Unreadable(error) => Seq::<Seq<char>>::empty().push(
            index_error_line(base_offset, error@),
        ),
        _ => Seq::<Seq<char>>::empty(),
    }
}

/// What is told of a segment whose log was scanned.
pub open spec fn segment_lines(
    dry_run: bool,
    base_offset: int,
    batches: Seq<(i64, u32)>,
    log_size: u64,
    index: IndexFile,
) -> Seq<Seq<char>> {
    let errors = found_errors(index, batches, log_size);
    let none = Seq::<Seq<char>>::empty();
    opening_lines(base_offset, index) + (if errors.len() == 0 {
        none.push(ok_line(base_offset, batches.len(), found_entries(index)))
    } else {
        none.push(
            corrupt_line(base_offset, errors.len(), batches.len(), found_entries(index)),
        ) + errors.map_values(|e: RepairError| error_line(e)) + (if dry_run {
            none.push("    (dry-run: skipping rebuild)"@)
        } else {
            none
        })
    })
}

fn push_error_lines(output: &mut Vec<String>, errors: &Vec<RepairError>)
    ensures
        texts(final(output)@) == texts(old(output)@) + errors@.map_values(
            |e: RepairError| error_line(e),
        ),
{
    let ghost start = texts(output@);
    let ghost all = errors@.map_values(|e: RepairError| error_line(e));
    let mut i: usize = 0;
    assert(texts(output@) =~= start + all.take(0));
    while i < errors.len()
        invariant
            i <= errors@.len(),
            all == errors@.map_values(|e: RepairError| error_line(e)),
            texts(output@) == start + all.take(i as int),
        decreases errors.len() - i,
    {
        let ghost before = texts(output@);
        output.push(tell_error(&errors[i]));
        assert(texts(output@) =~= before.push(all[i as int]));
        i += 1;
        assert(texts(output@) =~= start + all.take(i as int));
    }
    assert(all.take(i as int) =~= all);
}

/// Where a repair run stands.
#[derive(Debug, Clone, Copy, PartialEq, Eq, Structural)]
pub enum RepairStage {
    /// The next thing to do is to be asked for.
    Walking,
    /// The files of a partition directory are awaited.
    Listing,
    /// The scan of a log is awaited.
    Scanning,
    /// The outcome of a rebuild is awaited.
    Rebuilding,
    /// Nothing is left to do.
    Finished,
}

/// What a repair run asks for.
#[derive(Debug)]
pub enum RepairAction {
    /// The names of the regular files in a directory.
    List { path: String },
    /// The batches and the size of a log, and its index.
    Scan { log_path: String, index_path: String, base_offset: i64 },
    /// Nothing more.
    Finish,
}

/// A repair run over the partition directories of a data directory.
#[derive(Debug)]
pub struct RepairRun {
    pub data_dir: String,
    pub dry_run: bool,
    /// The partition directories, relative to the data directory.
    pub partitions: Vec<String>,
    pub next_partition: usize,
    /// The path of the partition directory at hand, and its logs in order.
    pub dir: String,
    pub logs: Vec<String>,
    pub next_log: usize,
    pub base_offset: i64,
    pub stage: RepairStage,
    pub total_segments: u32,
    pub total_errors: u32,
    pub total_repaired: u32,
    /// What was told so far, line by line.
    pub output: Vec<String>,
}

/// The path of a partition directory.
pub open spec fn partition_path(data_dir: Seq<char>, relative: Seq<char>) -> Seq<char> {
    if relative.len() == 0 {
        data_dir
    } else {
        below(data_dir, relative)
    }
}

impl RepairRun {
    /// No more segments are corrupt than were scanned, and no more are repaired than are corrupt.
    pub open spec fn wf(self) -> bool {
        &&& self.next_partition <= self.partitions@.len()
        &&& self.next_log <= self.logs@.len()
        &&& forall|i: int| 0 <= i < self.logs@.len() ==> is_log_name(#[trigger] self.logs@[i]@)
        &&& self.total_repaired + (if self.stage == RepairStage::Rebuilding {
            1int
        } else {
            0
        }) <= self.total_errors
        &&& self.total_errors + (if self.stage == RepairStage::Scanning {
            1int
        } else {
            0
        }) <= self.total_segments
    }

    /// What no step but the first changes.
    pub open spec fn same_plan(self, other: RepairRun) -> bool {
        &&& self.data_dir@ == other.data_dir@
        &&& self.dry_run == other.dry_run
        &&& texts(self.partitions@) == texts(other.partitions@)
    }

    /// What is told so far.
    pub open spec fn told(self) -> Seq<Seq<char>> {
        texts(self.output@)
    }
}

impl RepairIndexOpt {
    /// The error for a data directory that is none.
    pub fn check_data_dir(&self, is_dir: bool) -> (r: Result<(), String>)
        ensures
            (match r {
                Ok(_) => is_dir,
                Err(e) => !is_dir && e@ == "Data directory does not exist: "@ + self.data_dir@,
            }),
    {
        if is_dir {
            Ok(())
        } else {
            Err("Data directory does not exist: ".to_owned().concat(self.data_dir.as_str()))
        }
    }

    /// Starts a run over the partition directories found under the data directory. Where there
    /// are none, the run says so and is finished, with no summary.
    pub fn start(self, tree: &DirTree) -> (run: RepairRun)
        ensures
            run.wf(),
            run.data_dir@ == self.data_dir@,
            run.dry_run == self.dry_run,
            texts(run.partitions@) == partition_paths(*tree, Seq::empty()),
            run.next_partition == 0,
            run.logs@.len() == 0,
            run.next_log == 0,
            run.total_segments == 0,
            run.total_errors == 0,
            run.total_repaired == 0,
            partition_paths(*tree, Seq::empty()).len() == 0 ==> run.stage == RepairStage::Finished
                && run.told() == Seq::<Seq<char>>::empty().push(
                "No partition directories found under "@ + self.data_dir@,
            ),
            partition_paths(*tree, Seq::empty()).len() > 0 ==> run.stage == RepairStage::Walking
                && run.told() == Seq::<Seq<char>>::empty(),
    {
        let partitions = collect_partition_dirs(tree);
        assert(texts(partitions@).len() == partitions@.len());
        let mut output: Vec<String> = Vec::new();
        assert(texts(output@) =~= Seq::empty());
        let stage = if partitions.len() == 0 {
            output.push(
                "No partition directories found under ".to_owned().concat(self.data_dir.as_str()),
            );
            assert(texts(output@) =~= Seq::empty().push(
                "No partition directories found under "@ + self.data_dir@,
            ));
            RepairStage::Finished
        } else {
            RepairStage::Walking
        };
        RepairRun {
            data_dir: self.data_dir,
            dry_run: self.dry_run,
            partitions,
            next_partition: 0,
            dir: String::new(),
            logs: Vec::new(),
            next_log: 0,
            base_offset: 0,
            stage,
            total_segments: 0,
            total_errors: 0,
            total_repaired: 0,
            output,
        }
    }
}

fn stem_of(name: &str) -> (r: String)
    requires
        is_log_name(name@),
    ensures
        r@ == log_stem(name@),
{
    let v = chars_of(name);
    let s = slice_text(&v, 0, v.len() - 4);
    assert(s@ =~= log_stem(name@));
    s
}

/// The names among `files` that have the extension `log`, in ascending order.
pub fn sorted_logs(files: &Vec<String>) -> (logs: Vec<String>)
    ensures
        texts(logs@) == sorted_texts(log_names(texts(files@))),
        forall|i: int| 0 <= i < logs@.len() ==> is_log_name(#[trigger] logs@[i]@),
{
    let mut logs: Vec<String> = Vec::new();
    let mut i: usize = 0;
    proof {
        reveal(Seq::filter);
        assert(texts(logs@) =~= log_names(texts(files@).take(0)));
    }
    while i < files.len()
        invariant
            i <= files@.len(),
            texts(logs@) == log_names(texts(files@).take(i as int)),
        decreases files.len() - i,
    {
        let ghost before = texts(logs@);
        if is_log(files[i].as_str()) {
            logs.push(files[i].clone());
            assert(texts(logs@) =~= before.push(files@[i as int]@));
        }
        proof {
            reveal(Seq::filter);
            let next = texts(files@).take(i + 1);
            assert(next.drop_last() =~= texts(files@).take(i as int));
            assert(next.last() == files@[i as int]@);
        }
        i += 1;
    }
    assert(texts(files@).take(i as int) =~= texts(files@));
    let ghost unsorted = texts(logs@);
    let sorted = sort_texts(logs);
    proof {
        let leq = |a: Seq<char>, b: Seq<char>| crate::text_order::text_le(a, b);
        crate::text_order::law_text_order_is_total();
        unsorted.lemma_sort_by_ensures(leq);
        let pred = |name: Seq<char>| is_log_name(name);
        assert forall|k: int| 0 <= k < sorted@.len() implies is_log_name(
            #[trigger] sorted@[k]@,
        ) by {
            let name = texts(sorted@)[k];
            assert(unsorted.sort_by(leq).contains(name));
            assert(unsorted.contains(name));
            let at = choose|at: int| 0 <= at < unsorted.len() && unsorted[at] == name;
            texts(files@).lemma_filter_pred(pred, at);
        }
    }
    sorted
}

impl RepairRun {
    /// Goes on to the next log, or the next partition directory, or the end. Logs whose names
    /// give no base offset are counted, told of and passed over. A partition directory is told
    /// of before its files are asked for; the end comes with the summary.
    pub fn next(&mut self) -> (action: RepairAction)
        requires
            old(self).wf(),
            old(self).stage == RepairStage::Walking,
            old(self).total_segments + (old(self).logs@.len() - old(self).next_log) <= u32::MAX,
        ensures
            final(self).wf(),
            final(self).same_plan(*old(self)),
            final(self).total_errors == old(self).total_errors,
            final(self).total_repaired == old(self).total_repaired,
            ({
                let logs = texts(old(self).logs@);
                let from = old(self).next_log as int;
                let at = first_standard(logs, from);
                let skipped = old(self).told() + skip_lines(old(self).dir@, logs, from, at);
                let partitions = texts(old(self).partitions@);
                let p = old(self).next_partition as int;
                if at < logs.len() {
                    &&& action matches RepairAction::Scan { log_path, index_path, base_offset }
                    &&& log_path@ == below(old(self).dir@, logs[at])
                    &&& index_path@ == below(old(self).dir@, log_stem(logs[at]) + ".index"@)
                    &&& base_offset_of(logs[at]) == Some(base_offset as int)
                    &&& final(self).stage == RepairStage::Scanning
                    &&& final(self).base_offset == base_offset
                    &&& final(self).dir@ == old(self).dir@
                    &&& texts(final(self).logs@) == logs
                    &&& final(self).next_log == at + 1
                    &&& final(self).next_partition == p
                    &&& final(self).total_segments == old(self).total_segments + (at + 1 - from)
                    &&& final(self).told() == skipped
                } else if p < partitions.len() {
                    &&& action matches RepairAction::List { path }
                    &&& path@ == partition_path(old(self).data_dir@, partitions[p])
                    &&& final(self).stage == RepairStage::Listing
                    &&& final(self).dir@ == path@
                    &&& final(self).logs@.len() == 0
                    &&& final(self).next_partition == p + 1
                    &&& final(self).total_segments == old(self).total_segments + (logs.len() - from)
                    &&& final(self).told() == skipped.push(partition_line(partitions[p]))
                } else {
                    &&& action is Finish
                    &&& final(self).stage == RepairStage::Finished
                    &&& final(self).next_partition == p
                    &&& final(self).total_segments == old(self).total_segments + (logs.len() - from)
                    &&& final(self).told() == skipped + summary_lines(
                        old(self).dry_run,
                        final(self).total_segments as nat,
                        old(self).total_errors as nat,
                        old(self).total_repaired as nat,
                    )
                }
            }),
    {
        let ghost logs = texts(self.logs@);
        let ghost from = self.next_log as int;
        let ghost at = first_standard(logs, from);
        let ghost told = self.told();
        let ghost begin = *self;
        assert(told + skip_lines(self.dir@, logs, from, from) =~= told);
        while self.next_log < self.logs.len()
            invariant
                self.wf(),
                self.same_plan(begin),
                self.stage == RepairStage::Walking,
                self.dir@ == begin.dir@,
                texts(self.logs@) == logs,
                self.next_partition == begin.next_partition,
                self.total_errors == begin.total_errors,
                self.total_repaired == begin.total_repaired,
                0 <= from <= self.next_log <= logs.len(),
                first_standard(logs, self.next_log as int) == at,
                self.total_segments == begin.total_segments + (self.next_log - from),
                begin.total_segments + (logs.len() - from) <= u32::MAX,
                logs.len() == self.logs@.len(),
                self.told() == told + skip_lines(begin.dir@, logs, from, self.next_log as int),
                logs == texts(begin.logs@),
                from == begin.next_log,
                at == first_standard(logs, from),
                told == begin.told(),
                begin.wf(),
                begin.stage == RepairStage::Walking,
                *old(self) == begin,
            decreases self.logs.len() - self.next_log,
        {
            let name = self.logs[self.next_log].clone();
            assert(name@ == logs[self.next_log as int]);
            let stem = stem_of(name.as_str());
            let log_path = join_below(self.dir.as_str(), name.as_str());
            self.total_segments = self.total_segments + 1;
            match parse_signed(stem.as_str()) {
                Some(base_offset) => {
                    let index_name = stem.concat(".index");
                    let index_path = join_below(self.dir.as_str(), index_name.as_str());
                    self.next_log = self.next_log + 1;
                    self.base_offset = base_offset;
                    self.stage = RepairStage::Scanning;
                    return RepairAction::Scan { log_path, index_path, base_offset };
                },
                None => {
                    let ghost before = self.told();
                    let line = "  Skipping non-standard log file: ".to_owned().concat(
                        log_path.as_str(),
                    );
                    self.output.push(line);
                    assert(self.told() =~= before.push(skip_line(log_path@)));
                    assert(skip_lines(begin.dir@, logs, from, self.next_log + 1) =~= skip_lines(
                        begin.dir@,
                        logs,
                        from,
                        self.next_log as int,
                    ).push(skip_line(below(begin.dir@, name@))));
                    assert(self.told() =~= told + skip_lines(
                        begin.dir@,
                        logs,
                        from,
                        self.next_log + 1,
                    ));
                    self.next_log = self.next_log + 1;
                },
            }
        }
        let ghost before = self.told();
        if self.next_partition < self.partitions.len() {
            let relative = self.partitions[self.next_partition].clone();
            assert(relative@ == texts(begin.partitions@)[self.next_partition as int]);
            let path = if relative.as_str().is_empty() {
                self.data_dir.clone()
            } else {
                join_below(self.data_dir.as_str(), relative.as_str())
            };
            self.output.push("\nPartition: ".to_owned().concat(relative.as_str()));
            assert(self.told() =~= before.push(partition_line(relative@)));
            self.next_partition = self.next_partition + 1;
            self.dir = path.clone();
            self.logs = Vec::new();
            self.next_log = 0;
            self.stage = RepairStage::Listing;
            RepairAction::List { path }
        } else {
            self.push_summary();
            self.stage = RepairStage::Finished;
            RepairAction::Finish
        }
    }

    fn push_summary(&mut self)
        ensures
            final(self).told() == old(self).told() + summary_lines(
                old(self).dry_run,
                old(self).total_segments as nat,
                old(self).total_errors as nat,
                old(self).total_repaired as nat,
            ),
            *final(self) == (RepairRun { output: final(self).output, ..*old(self) }),
    {
        let ghost before = self.told();
        self.output.push("\n--- Summary ---".to_owned());
        self.output.push("Segments scanned: ".to_owned().concat(numeral_u32(self.total_segments).as_str()));
        self.output.push("Corrupt segments: ".to_owned().concat(numeral_u32(self.total_errors).as_str()));
        if self.dry_run {
            self.output.push("Mode: dry-run (no changes made)".to_owned());
        } else {
            self.output.push("Segments repaired: ".to_owned().concat(numeral_u32(self.total_repaired).as_str()));
        }
        assert(self.told() =~= before + summary_lines(
            self.dry_run,
            self.total_segments as nat,
            self.total_errors as nat,
            self.total_repaired as nat,
        ));
    }

    /// Takes the names of the regular files in the partition directory.
    pub fn listed(&mut self, files: &Vec<String>)
        requires
            old(self).wf(),
            old(self).stage == RepairStage::Listing,
        ensures
            final(self).wf(),
            final(self).same_plan(*old(self)),
            final(self).stage == RepairStage::Walking,
            texts(final(self).logs@) == sorted_texts(log_names(texts(files@))),
            final(self).next_log == 0,
            final(self).dir@ == old(self).dir@,
            final(self).next_partition == old(self).next_partition,
            final(self).total_segments == old(self).total_segments,
            final(self).total_errors == old(self).total_errors,
            final(self).total_repaired == old(self).total_repaired,
            final(self).told() == (if final(self).logs@.len() == 0 {
                old(self).told().push("  No .log files found"@)
            } else {
                old(self).told()
            }),
    {
        let ghost before = self.told();
        self.logs = sorted_logs(files);
        self.next_log = 0;
        self.stage = RepairStage::Walking;
        if self.logs.len() == 0 {
            self.output.push("  No .log files found".to_owned());
            assert(self.told() =~= before.push("  No .log files found"@));
        }
    }

    /// Takes the news that the log could not be scanned; the segment counts as corrupt.
    pub fn scan_failed(&mut self, error: &str)
        requires
            old(self).wf(),
            old(self).stage == RepairStage::Scanning,
        ensures
            final(self).wf(),
            final(self).same_plan(*old(self)),
            final(self).stage == RepairStage::Walking,
            texts(final(self).logs@) == texts(old(self).logs@),
            final(self).next_log == old(self).next_log,
            final(self).dir@ == old(self).dir@,
            final(self).next_partition == old(self).next_partition,
            final(self).total_segments == old(self).total_segments,
            final(self).total_errors == old(self).total_errors + 1,
            final(self).total_repaired == old(self).total_repaired,
            final(self).told() == old(self).told().push(
                scan_error_line(old(self).base_offset as int, error@),
            ),
    {
        let ghost before = self.told();
        let line = "  Segment ".to_owned().concat(decimal_signed(self.base_offset).as_str()).concat(
            ": ERROR scanning log: ",
        ).concat(error);
        self.output.push(line);
        assert(self.told() =~= before.push(scan_error_line(self.base_offset as int, error@)));
        self.total_errors = self.total_errors + 1;
        self.stage = RepairStage::Walking;
    }

    /// Takes what the log and the index hold. The index is to be rebuilt, and `true` returned,
    /// where it is corrupt and the run is not a dry one.
    pub fn scanned(&mut self, batches: &[(i64, u32)], log_size: u64, index: &IndexFile) -> (rebuild:
        bool)
        requires
            old(self).wf(),
            old(self).stage == RepairStage::Scanning,
        ensures
            final(self).wf(),
            final(self).same_plan(*old(self)),
            ({
                let corrupt = found_errors(*index, batches@, log_size).len() > 0;
                &&& rebuild == (corrupt && !old(self).dry_run)
                &&& final(self).total_errors == old(self).total_errors + (if corrupt {
                    1int
                } else {
                    0
                })
            }),
            final(self).stage == (if rebuild {
                RepairStage::Rebuilding
            } else {
                RepairStage::Walking
            }),
            final(self).base_offset == old(self).base_offset,
            texts(final(self).logs@) == texts(old(self).logs@),
            final(self).next_log == old(self).next_log,
            final(self).dir@ == old(self).dir@,
            final(self).next_partition == old(self).next_partition,
            final(self).total_segments == old(self).total_segments,
            final(self).total_repaired == old(self).total_repaired,
            final(self).told() == old(self).told() + segment_lines(
                old(self).dry_run,
                old(self).base_offset as int,
                batches@,
                log_size,
                *index,
            ),
    {
        let ghost before = self.told();
        let mut entry_count: u32 = 0;
        let mut errors: Vec<RepairError> = Vec::new();
        match index {
            IndexFile::Missing => {
                errors.push(
                    RepairError::PositionMismatch { offset: 0, index_pos: 0, actual_pos: 0 },
                );
            },
            IndexFile::Unreadable(error) => {
                let line = "  Segment ".to_owned().concat(
                    decimal_signed(self.base_offset).as_str(),
                ).concat(": ERROR opening index: ").concat(error.as_str());
                self.output.push(line);
                errors.push(RepairError::PositionPastEof { slot: 0, position: 0, log_size });
            },
            IndexFile::Bytes(bytes) => {
                let entries = read_entries(bytes);
                entry_count = used_entries(entries.as_slice());
                errors = validate_index(entries.as_slice(), batches, log_size);
            },
        }
        assert(errors@ == found_errors(*index, batches@, log_size));
        assert(entry_count == found_entries(*index));
        let ghost opened = opening_lines(self.base_offset as int, *index);
        assert(self.told() =~= before + opened);
        let head = "  Segment ".to_owned().concat(decimal_signed(self.base_offset).as_str());
        let batch_count = decimal(batches.len() as u64);
        let entry_text = numeral_u32(entry_count);
        if errors.len() == 0 {
            let line = head.concat(": OK (").concat(batch_count.as_str()).concat(" batches, ").concat(
                entry_text.as_str(),
            ).concat(" index entries)");
            self.output.push(line);
            assert(self.told() =~= before + segment_lines(
                self.dry_run,
                self.base_offset as int,
                batches@,
                log_size,
                *index,
            ));
            self.stage = RepairStage::Walking;
            return false;
        }
        let line = head.concat(": CORRUPT (").concat(decimal(errors.len() as u64).as_str()).concat(
            " errors, ",
        ).concat(batch_count.as_str()).concat(" batches, ").concat(entry_text.as_str()).concat(
            " index entries)",
        );
        let ghost corrupt = line@;
        self.output.push(line);
        assert(self.told() =~= (before + opened).push(corrupt));
        push_error_lines(&mut self.output, &errors);
        let ghost listed = self.told();
        if self.dry_run {
            self.output.push("    (dry-run: skipping rebuild)".to_owned());
            assert(self.told() =~= listed.push("    (dry-run: skipping rebuild)"@));
        }
        assert(self.told() =~= before + segment_lines(
            self.dry_run,
            self.base_offset as int,
            batches@,
            log_size,
            *index,
        ));
        self.total_errors = self.total_errors + 1;
        if self.dry_run {
            self.stage = RepairStage::Walking;
            false
        } else {
            self.stage = RepairStage::Rebuilding;
            true
        }
    }

    /// Takes the outcome of the rebuild: the number of entries written, or the error.
    pub fn rebuilt(&mut self, outcome: &Result<u32, String>)
        requires
            old(self).wf(),
            old(self).stage == RepairStage::Rebuilding,
        ensures
            final(self).wf(),
            final(self).same_plan(*old(self)),
            final(self).stage == RepairStage::Walking,
            texts(final(self).logs@) == texts(old(self).logs@),
            final(self).next_log == old(self).next_log,
            final(self).dir@ == old(self).dir@,
            final(self).next_partition == old(self).next_partition,
            final(self).total_segments == old(self).total_segments,
            final(self).total_errors == old(self).total_errors,
            final(self).total_repaired == old(self).total_repaired + (if outcome is Ok {
                1int
            } else {
                0
            }),
            final(self).told() == old(self).told().push(
                match *outcome {
                    Ok(entries) => rebuilt_line(entries as nat),
                    Err(error) => rebuild_error_line(error@),
                },
            ),
    {
        let ghost before = self.told();
        match outcome {
            Ok(entries) => {
                self.output.push(
                    "    Rebuilt: ".to_owned().concat(numeral_u32(*entries).as_str()).concat(
                        " index entries written",
                    ),
                );
                assert(self.told() =~= before.push(rebuilt_line(*entries as nat)));
                self.total_repaired = self.total_repaired + 1;
            },
            Err(error) => {
                self.output.push(
                    "    ERROR rebuilding index: ".to_owned().concat(error.as_str()),
                );
                assert(self.told() =~= before.push(rebuild_error_line(error@)));
            },
        }
        self.stage = RepairStage::Walking;
    }
}

} // verus!
