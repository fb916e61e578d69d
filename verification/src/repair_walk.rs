//! Which directories and logs a repair run comes to, and what it tells of them.
use vstd::prelude::*;

use crate::decimal::{digits, law_read_back_signed, numeral, signed_value};
use crate::path::below;
use crate::repair::RepairError;
use crate::repair_index::{
    base_offset_of, error_line, first_standard, found_entries, found_errors, has_log_file,
    is_log_name, log_names,
    log_stem, partition_line, partition_path, partition_paths, paths_below, rebuild_error_line,
    rebuilt_line, scan_error_line, segment_lines, skip_lines, summary_lines, DirTree, IndexFile,
};
use crate::text::{lemma_filter_from, texts};

verus! {

/// Whether the steps lead from directory to directory: each is the place of a directory in the list
/// of those in the one before.
pub open spec fn leads_on(tree: DirTree, steps: Seq<int>) -> bool
    decreases steps.len(),
{
    steps.len() > 0 ==> 0 <= steps[0] < tree.dirs@.len() && leads_on(
        tree.dirs@[steps[0]].1,
        steps.skip(1),
    )
}

/// The directory that the steps lead to.
pub open spec fn reached(tree: DirTree, steps: Seq<int>) -> DirTree
    decreases steps.len(),
{
    if steps.len() == 0 {
        tree
    } else {
        reached(tree.dirs@[steps[0]].1, steps.skip(1))
    }
}

/// The path along the steps.
pub open spec fn path_along(tree: DirTree, at: Seq<char>, steps: Seq<int>) -> Seq<char>
    decreases steps.len(),
{
    if steps.len() == 0 {
        at
    } else {
        path_along(
            tree.dirs@[steps[0]].1,
            below(at, tree.dirs@[steps[0]].0@),
            steps.skip(1),
        )
    }
}

/// Whether a directory holds a file whose name is some text and `.log`.
pub open spec fn holds_a_log(tree: DirTree) -> bool {
    exists|i: int, stem: Seq<char>|
        0 <= i < tree.files@.len() && stem.len() > 0 && (#[trigger] tree.files@[i])@ == #[trigger] (stem
            + ".log"@)
}

/// A name is that of a log exactly where it is some text and `.log`, and that text is its stem.
pub proof fn law_log_is_known_by_its_name(stem: Seq<char>, name: Seq<char>)
    ensures
        is_log_name(stem + ".log"@) <==> stem.len() > 0,
        log_stem(stem + ".log"@) == stem,
        is_log_name(name) ==> name == log_stem(name) + ".log"@ && log_stem(name).len() > 0,
{
    reveal_strlit(".log");
    let full = stem + ".log"@;
    assert(full.subrange(stem.len() as int, full.len() as int) =~= ".log"@);
    assert(full.take(full.len() - 4) =~= stem);
    if is_log_name(name) {
        assert(name =~= log_stem(name) + name.subrange(name.len() - 4, name.len() as int));
    }
}

proof fn lemma_holds_a_log(tree: DirTree)
    ensures
        holds_a_log(tree) <==> has_log_file(texts(tree.files@)),
{
    let files = texts(tree.files@);
    if holds_a_log(tree) {
        let (i, stem) = choose|i: int, stem: Seq<char>|
            0 <= i < tree.files@.len() && stem.len() > 0 && (#[trigger] tree.files@[i])@ == #[trigger] (
            stem + ".log"@);
        law_log_is_known_by_its_name(stem, files[i]);
        assert(is_log_name(files[i]));
    }
    if has_log_file(files) {
        let i = choose|i: int| 0 <= i < files.len() && is_log_name(#[trigger] files[i]);
        law_log_is_known_by_its_name(Seq::empty(), files[i]);
        let stem = log_stem(files[i]);
        assert(tree.files@[i]@ == stem + ".log"@);
    }
}

proof fn lemma_in_flat(parts: Seq<Seq<Seq<char>>>, i: int, x: Seq<char>)
    requires
        0 <= i < parts.len(),
        parts[i].contains(x),
    ensures
        parts.flatten().contains(x),
    decreases parts.len(),
{
    let rest = parts.drop_first();
    let k = if i == 0 {
        choose|k: int| 0 <= k < parts[0].len() && parts[0][k] == x
    } else {
        0
    };
    if i == 0 {
        assert(parts.flatten()[k] == x);
    } else {
        assert(rest[i - 1] == parts[i]);
        lemma_in_flat(rest, i - 1, x);
        let j = choose|j: int| 0 <= j < rest.flatten().len() && rest.flatten()[j] == x;
        assert(parts.flatten()[parts[0].len() + j] == x);
    }
}

proof fn lemma_from_flat(parts: Seq<Seq<Seq<char>>>, x: Seq<char>) -> (i: int)
    requires
        parts.flatten().contains(x),
    ensures
        0 <= i < parts.len(),
        parts[i].contains(x),
    decreases parts.len(),
{
    let k = choose|k: int| 0 <= k < parts.flatten().len() && parts.flatten()[k] == x;
    if parts.len() == 0 {
        0
    } else if k < parts[0].len() {
        assert(parts[0][k] == x);
        0
    } else {
        let rest = parts.drop_first();
        assert(rest.flatten()[k - parts[0].len()] == x);
        let i = lemma_from_flat(rest, x);
        assert(rest[i] == parts[i + 1]);
        i + 1
    }
}

/// A directory that holds a log is looked at, however deep it lies.
pub proof fn law_directory_with_a_log_is_looked_at(tree: DirTree, at: Seq<char>, steps: Seq<int>)
    requires
        leads_on(tree, steps),
        holds_a_log(reached(tree, steps)),
    ensures
        partition_paths(tree, at).contains(path_along(tree, at, steps)),
    decreases steps.len(),
{
    let own = if has_log_file(texts(tree.files@)) {
        Seq::<Seq<char>>::empty().push(at)
    } else {
        Seq::<Seq<char>>::empty()
    };
    let parts = paths_below(tree, at);
    let all = partition_paths(tree, at);
    assert(all == own + parts.flatten());
    if steps.len() == 0 {
        lemma_holds_a_log(tree);
        assert(all[0] == at);
    } else {
        let i = steps[0];
        let rest = steps.skip(1);
        let inner = tree.dirs@[i].1;
        let place = below(at, tree.dirs@[i].0@);
        law_directory_with_a_log_is_looked_at(inner, place, rest);
        let x = path_along(inner, place, rest);
        assert(parts[i] == partition_paths(inner, place));
        lemma_in_flat(parts, i, x);
        let j = choose|j: int| 0 <= j < parts.flatten().len() && parts.flatten()[j] == x;
        assert(all[own.len() + j] == x);
    }
}

/// A directory that is looked at holds a log, and its path is the one along the directories to it.
pub proof fn law_directory_that_is_looked_at_holds_a_log(
    tree: DirTree,
    at: Seq<char>,
    path: Seq<char>,
)
    requires
        partition_paths(tree, at).contains(path),
    ensures
        exists|steps: Seq<int>| #[trigger]
            leads_on(tree, steps) && holds_a_log(reached(tree, steps)) && path == path_along(
                tree,
                at,
                steps,
            ),
    decreases tree,
{
    let own = if has_log_file(texts(tree.files@)) {
        Seq::<Seq<char>>::empty().push(at)
    } else {
        Seq::<Seq<char>>::empty()
    };
    let parts = paths_below(tree, at);
    let all = partition_paths(tree, at);
    assert(all == own + parts.flatten());
    let k = choose|k: int| 0 <= k < all.len() && all[k] == path;
    if k < own.len() {
        lemma_holds_a_log(tree);
        let none = Seq::<int>::empty();
        assert(leads_on(tree, none) && reached(tree, none) == tree && path_along(tree, at, none) == at);
    } else {
        assert(parts.flatten()[k - own.len()] == path);
        let i = lemma_from_flat(parts, path);
        let inner = tree.dirs@[i].1;
        let place = below(at, tree.dirs@[i].0@);
        assert(parts[i] == partition_paths(inner, place));
        assert(decreases_to!(tree => inner));
        law_directory_that_is_looked_at_holds_a_log(inner, place, path);
        let rest = choose|steps: Seq<int>| #[trigger]
            leads_on(inner, steps) && holds_a_log(reached(inner, steps)) && path == path_along(
                inner,
                place,
                steps,
            );
        let steps = seq![i] + rest;
        assert(steps.skip(1) =~= rest);
        assert(steps[0] == i);
        assert(leads_on(tree, steps));
        assert(reached(tree, steps) == reached(inner, rest));
        assert(path_along(tree, at, steps) == path_along(inner, place, rest));
    }
}

/// A directory is looked at before those in it, and these in the order in which they are listed: one
/// more directory at the end of the list comes behind all others.
pub proof fn law_directories_are_looked_at_in_order(
    tree: DirTree,
    more: DirTree,
    at: Seq<char>,
    name: String,
    last: DirTree,
)
    requires
        more.files@ == tree.files@,
        more.dirs@ == tree.dirs@.push((name, last)),
    ensures
        partition_paths(more, at) == partition_paths(tree, at) + partition_paths(
            last,
            below(at, name@),
        ),
        tree.dirs@.len() == 0 ==> partition_paths(tree, at) == (if holds_a_log(tree) {
            seq![at]
        } else {
            Seq::empty()
        }),
{
    let before = paths_below(tree, at);
    let after = paths_below(more, at);
    let tail = partition_paths(last, below(at, name@));
    assert(after =~= before.push(tail));
    before.lemma_flatten_push(tail);
    lemma_holds_a_log(tree);
    let own = if has_log_file(texts(tree.files@)) {
        Seq::<Seq<char>>::empty().push(at)
    } else {
        Seq::<Seq<char>>::empty()
    };
    assert(own + (before.flatten() + tail) =~= (own + before.flatten()) + tail);
    if tree.dirs@.len() == 0 {
        assert(before.flatten() =~= Seq::<Seq<char>>::empty());
        assert(own + before.flatten() =~= own);
        assert(Seq::<Seq<char>>::empty().push(at) =~= seq![at]);
    }
}

/// The directory of a partition lies below the data directory, and is that itself where the partition
/// is its root.
pub proof fn law_partition_lies_below_the_data_directory(data_dir: Seq<char>, relative: Seq<char>)
    requires
        relative.len() > 0 ==> relative[0] != '/',
        data_dir.len() > 0 && data_dir.last() != '/',
    ensures
        partition_path(data_dir, Seq::empty()) == data_dir,
        relative.len() > 0 ==> partition_path(data_dir, relative) == data_dir + seq!['/'] + relative,
{
    reveal_strlit("/");
    assert("/"@ =~= seq!['/']);
}

/// The name of a log gives its base offset: it is the numeral of the offset and `.log`. An offset of
/// more than 64 bits is none, and neither is a stem that is no numeral.
pub proof fn law_log_is_named_by_its_offset(offset: int, stem: Seq<char>)
    ensures
        base_offset_of(numeral(offset) + ".log"@) == (if i64::MIN <= offset <= i64::MAX {
            Some(offset)
        } else {
            None
        }),
        signed_value(stem) is None ==> base_offset_of(stem + ".log"@) is None,
        (exists|i: int| 1 <= i < stem.len() && !('0' <= #[trigger] stem[i] <= '9')) ==> base_offset_of(
            stem + ".log"@,
        ) is None,
{
    law_log_is_known_by_its_name(numeral(offset), Seq::empty());
    law_log_is_known_by_its_name(stem, Seq::empty());
    law_read_back_signed(offset);
    if exists|i: int| 1 <= i < stem.len() && !('0' <= #[trigger] stem[i] <= '9') {
        let i = choose|i: int| 1 <= i < stem.len() && !('0' <= #[trigger] stem[i] <= '9');
        assert(stem.skip(1)[i - 1] == stem[i]);
        assert(!crate::decimal::is_digit(stem[i]));
        assert(!crate::decimal::is_digits(stem.skip(1)));
        assert(!crate::decimal::is_digits(stem));
    }
}

/// Of the files of a directory all that are logs are looked at, and no others.
pub proof fn law_logs_are_picked_by_their_names(files: Seq<Seq<char>>, name: Seq<char>)
    ensures
        log_names(files).contains(name) <==> files.contains(name) && exists|stem: Seq<char>|
            stem.len() > 0 && name == #[trigger] (stem + ".log"@),
{
    let pred = |n: Seq<char>| is_log_name(n);
    broadcast use vstd::seq_lib::group_filter_ensures;

    law_log_is_known_by_its_name(Seq::empty(), name);
    if log_names(files).contains(name) {
        let k = choose|k: int| 0 <= k < log_names(files).len() && log_names(files)[k] == name;
        lemma_filter_from(files, pred, k);
        assert(name == log_stem(name) + ".log"@);
    }
    if files.contains(name) && exists|stem: Seq<char>|
        stem.len() > 0 && name == #[trigger] (stem + ".log"@) {
        let stem = choose|stem: Seq<char>| stem.len() > 0 && name == #[trigger] (stem + ".log"@);
        law_log_is_known_by_its_name(stem, name);
        let i = choose|i: int| 0 <= i < files.len() && files[i] == name;
        assert(pred(files[i]));
        assert(files.filter(pred).contains(files[i]));
    }
}

/// The next log that is scanned is the first whose name gives an offset; all before it are passed over
/// and told of, each by its path.
pub proof fn law_logs_without_an_offset_are_passed_over(
    dir: Seq<char>,
    logs: Seq<Seq<char>>,
    from: int,
)
    requires
        0 <= from <= logs.len(),
    ensures
        ({
            let at = first_standard(logs, from);
            &&& from <= at <= logs.len()
            &&& at < logs.len() ==> base_offset_of(logs[at]) is Some
            &&& forall|i: int| from <= i < at ==> base_offset_of(#[trigger] logs[i]) is None
            &&& skip_lines(dir, logs, from, at).len() == at - from
            &&& forall|i: int|
                0 <= i < at - from ==> #[trigger] skip_lines(dir, logs, from, at)[i]
                    == "  Skipping non-standard log file: "@ + below(dir, logs[from + i])
        }),
    decreases logs.len() - from,
{
    if from < logs.len() && base_offset_of(logs[from]) is None {
        law_logs_without_an_offset_are_passed_over(dir, logs, from + 1);
    }
}

/// An index that is missing or cannot be opened counts as corrupt.
pub proof fn law_missing_index_is_corrupt(
    error: String,
    batches: Seq<(i64, u32)>,
    log_size: u64,
)
    ensures
        found_errors(IndexFile::Missing, batches, log_size).len() > 0,
        found_errors(IndexFile::Unreadable(error), batches, log_size).len() > 0,
{
}

/// An index that is missing or cannot be opened holds no entries. One that is there holds as many as
/// stand before its first empty slot.
pub proof fn law_entries_are_counted_up_to_an_empty_slot(
    error: String,
    bytes: Vec<u8>,
    entries: Seq<(u32, u32)>,
    n: nat,
)
    requires
        entries == crate::repair::entries_of(bytes@),
        n <= entries.len() && n <= u32::MAX,
        forall|i: int| 0 <= i < n ==> #[trigger] entries[i] != (0u32, 0u32),
        n == entries.len() || entries[n as int] == (0u32, 0u32),
    ensures
        found_entries(IndexFile::Missing) == 0,
        found_entries(IndexFile::Unreadable(error)) == 0,
        found_entries(IndexFile::Bytes(bytes)) == n,
{
    crate::repair::lemma_used_slots(entries, n);
}

/// What is told of a segment whose index could be looked for: one line that it is in order where no
/// error was found. Else one line that it is corrupt, with the number of errors, of batches and of
/// entries, one for each error, and one more where nothing is to be changed.
pub proof fn law_segment_is_told_of(
    dry_run: bool,
    base_offset: int,
    batches: Seq<(i64, u32)>,
    log_size: u64,
    index: IndexFile,
)
    requires
        !(index is Unreadable),
    ensures
        ({
            let errors = found_errors(index, batches, log_size);
            let lines = segment_lines(dry_run, base_offset, batches, log_size, index);
            let entries = found_entries(index);
            &&& errors.len() == 0 ==> lines.len() == 1 && lines[0] == "  Segment "@ + numeral(
                base_offset,
            ) + ": OK ("@ + digits(batches.len()) + " batches, "@ + digits(entries)
                + " index entries)"@
            &&& errors.len() > 0 ==> {
                &&& lines.len() == 1 + errors.len() + (if dry_run {
                    1int
                } else {
                    0
                })
                &&& lines[0] == "  Segment "@ + numeral(base_offset) + ": CORRUPT ("@ + digits(
                    errors.len(),
                ) + " errors, "@ + digits(batches.len()) + " batches, "@ + digits(entries)
                    + " index entries)"@
                &&& forall|i: int|
                    0 <= i < errors.len() ==> #[trigger] error_line(errors[i]) == lines[i + 1]
                &&& dry_run ==> lines.last() == "    (dry-run: skipping rebuild)"@
            }
        }),
{
    let errors = found_errors(index, batches, log_size);
    let lines = segment_lines(dry_run, base_offset, batches, log_size, index);
    let none = Seq::<Seq<char>>::empty();
    let told = errors.map_values(|e: RepairError| error_line(e));
    if errors.len() > 0 {
        assert forall|i: int| 0 <= i < errors.len() implies #[trigger] error_line(errors[i])
            == lines[i + 1] by {
            assert(told[i] == error_line(errors[i]));
        }
    }
}

/// What is told of a partition, of a log that cannot be scanned, of an index that cannot be opened, and
/// of a rebuild.
pub proof fn law_steps_are_told_of(
    path: Seq<char>,
    base_offset: int,
    error: String,
    entries: nat,
    batches: Seq<(i64, u32)>,
    log_size: u64,
    dry_run: bool,
)
    ensures
        partition_line(path) == "\nPartition: "@ + path,
        scan_error_line(base_offset, error@) == "  Segment "@ + numeral(base_offset)
            + ": ERROR scanning log: "@ + error@,
        segment_lines(dry_run, base_offset, batches, log_size, IndexFile::Unreadable(error))[0]
            == "  Segment "@ + numeral(base_offset) + ": ERROR opening index: "@ + error@,
        rebuilt_line(entries) == "    Rebuilt: "@ + digits(entries) + " index entries written"@,
        rebuild_error_line(error@) == "    ERROR rebuilding index: "@ + error@,
{
}

/// The line of an error names the slot or the offset, what the index has there and what it should.
pub proof fn law_error_is_told_of(a: u32, b: u32, c: u32, size: u64)
    ensures
        error_line(RepairError::PositionPastEof { slot: a, position: b, log_size: size })
            == "    - Slot "@ + digits(a as nat) + ": position "@ + digits(b as nat)
            + " past EOF (log size "@ + digits(size as nat) + ")"@,
        error_line(RepairError::NonMonotonicOffset { slot: a, offset: b, prev_offset: c })
            == "    - Slot "@ + digits(a as nat) + ": offset "@ + digits(b as nat)
            + " < previous offset "@ + digits(c as nat),
        error_line(RepairError::PositionMismatch { offset: a, index_pos: b, actual_pos: c })
            == "    - Offset "@ + digits(a as nat) + ": index position "@ + digits(b as nat)
            + " != actual position "@ + digits(c as nat),
{
}

/// The summary gives the numbers of the segments that were scanned, of those that are corrupt and, where
/// changes were to be made, of those that were repaired.
pub proof fn law_summary_gives_the_numbers(dry_run: bool, segments: nat, errors: nat, repaired: nat)
    ensures
        summary_lines(dry_run, segments, errors, repaired) == seq![
            "\n--- Summary ---"@,
            "Segments scanned: "@ + digits(segments),
            "Corrupt segments: "@ + digits(errors),
            if dry_run {
                "Mode: dry-run (no changes made)"@
            } else {
                "Segments repaired: "@ + digits(repaired)
            },
        ],
{
    assert(summary_lines(dry_run, segments, errors, repaired) =~= seq![
        "\n--- Summary ---"@,
        "Segments scanned: "@ + digits(segments),
        "Corrupt segments: "@ + digits(errors),
        if dry_run {
            "Mode: dry-run (no changes made)"@
        } else {
            "Segments repaired: "@ + digits(repaired)
        },
    ]);
}

} // verus!
