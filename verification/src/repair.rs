//! Consistency of a segment's index with its log, and the rebuilding of the index from the log.
use vstd::prelude::*;

verus! {

/// What was done to repair the index of a segment.
#[derive(Debug)]
pub struct RepairReport {
    pub base_offset: i64,
    pub batches_found: u32,
    pub index_entries_before: u32,
    pub index_entries_after: u32,
    pub errors: Vec<RepairError>,
}

/// What can be wrong with an entry of an index.
#[derive(Debug, Clone, Copy, PartialEq, Eq, Structural)]
pub enum RepairError {
    PositionPastEof { slot: u32, position: u32, log_size: u64 },
    NonMonotonicOffset { slot: u32, offset: u32, prev_offset: u32 },
    PositionMismatch { offset: u32, index_pos: u32, actual_pos: u32 },
}

/// The number of entries before the first empty slot.
pub open spec fn used_slots(entries: Seq<(u32, u32)>) -> nat
    decreases entries.len(),
{
    if entries.len() == 0 || (entries[0].0 == 0 && entries[0].1 == 0) {
        0
    } else {
        1 + used_slots(entries.skip(1))
    }
}

/// Whether a batch of the log starts at `position`.
pub open spec fn has_batch_at(batches: Seq<(i64, u32)>, position: u32) -> bool {
    exists|i: int| 0 <= i < batches.len() && (#[trigger] batches[i]).1 == position
}

/// The position of the first batch whose offset lies `offset` behind `base`, 0 where there is
/// none.
pub open spec fn position_behind(batches: Seq<(i64, u32)>, base: int, offset: u32) -> u32
    decreases batches.len(),
{
    if batches.len() == 0 {
        0
    } else if batches[0].0 - base == offset {
        batches[0].1
    } else {
        position_behind(batches.skip(1), base, offset)
    }
}

/// The position of the first batch whose offset lies `offset` behind that of the first batch of
/// the log, 0 where there is none.
pub open spec fn batch_position(batches: Seq<(i64, u32)>, offset: u32) -> u32 {
    if batches.len() == 0 {
        0
    } else {
        position_behind(batches, batches[0].0 as int, offset)
    }
}

/// The entry points behind the end of the log.
pub open spec fn past_eof(entry: (u32, u32), log_size: u64) -> bool {
    entry.1 > log_size
}

/// The entry in `slot` has a smaller offset than the one before it.
pub open spec fn goes_back(entries: Seq<(u32, u32)>, slot: int) -> bool {
    slot > 0 && entries[slot].0 < entries[slot - 1].0
}

/// What is wrong with the entry in `slot`.
pub open spec fn slot_errors(
    entries: Seq<(u32, u32)>,
    batches: Seq<(i64, u32)>,
    log_size: u64,
    slot: int,
) -> Seq<RepairError> {
    let entry = entries[slot];
    let none = Seq::<RepairError>::empty();
    (if past_eof(entry, log_size) {
        none.push(
            RepairError::PositionPastEof { slot: slot as u32, position: entry.1, log_size },
        )
    } else {
        none
    }) + (if goes_back(entries, slot) {
        none.push(
            RepairError::NonMonotonicOffset {
                slot: slot as u32,
                offset: entry.0,
                prev_offset: entries[slot - 1].0,
            },
        )
    } else {
        none
    }) + (if !has_batch_at(batches, entry.1) {
        none.push(
            RepairError::PositionMismatch {
                offset: entry.0,
                index_pos: entry.1,
                actual_pos: batch_position(batches, entry.0),
            },
        )
    } else {
        none
    })
}

/// What is wrong with the first `n` entries, slot by slot.
pub open spec fn errors_before(
    entries: Seq<(u32, u32)>,
    batches: Seq<(i64, u32)>,
    log_size: u64,
    n: nat,
) -> Seq<RepairError>
    decreases n,
{
    if n == 0 {
        Seq::empty()
    } else {
        errors_before(entries, batches, log_size, (n - 1) as nat) + slot_errors(
            entries,
            batches,
            log_size,
            n - 1,
        )
    }
}

/// What is wrong with an index: the errors of the entries before the first empty slot.
pub open spec fn index_errors(
    entries: Seq<(u32, u32)>,
    batches: Seq<(i64, u32)>,
    log_size: u64,
) -> Seq<RepairError> {
    errors_before(entries, batches, log_size, used_slots(entries))
}

/// Whether the entry in `slot` lies in the log, does not go back and points at a batch.
pub open spec fn slot_is_good(
    entries: Seq<(u32, u32)>,
    batches: Seq<(i64, u32)>,
    log_size: u64,
    slot: int,
) -> bool {
    !past_eof(entries[slot], log_size) && !goes_back(entries, slot) && has_batch_at(
        batches,
        entries[slot].1,
    )
}

pub proof fn lemma_used_slots(entries: Seq<(u32, u32)>, n: nat)
    requires
        n <= entries.len(),
        forall|i: int| 0 <= i < n ==> #[trigger] entries[i] != (0u32, 0u32),
        n == entries.len() || entries[n as int] == (0u32, 0u32),
    ensures
        used_slots(entries) == n,
    decreases n,
{
    if n > 0 {
        assert(entries[0] != (0u32, 0u32));
        let rest = entries.skip(1);
        assert forall|i: int| 0 <= i < n - 1 implies #[trigger] rest[i] != (0u32, 0u32) by {
            assert(entries[i + 1] != (0u32, 0u32));
        }
        lemma_used_slots(rest, (n - 1) as nat);
    }
}

/// The used slots are not empty, and the first slot behind them is.
pub proof fn lemma_used_slots_bounds(entries: Seq<(u32, u32)>)
    ensures
        used_slots(entries) <= entries.len(),
        forall|i: int| 0 <= i < used_slots(entries) ==> #[trigger] entries[i] != (0u32, 0u32),
        used_slots(entries) < entries.len() ==> entries[used_slots(entries) as int] == (0u32, 0u32),
    decreases entries.len(),
{
    if entries.len() > 0 && entries[0] != (0u32, 0u32) {
        let rest = entries.skip(1);
        lemma_used_slots_bounds(rest);
        assert forall|i: int| 0 <= i < used_slots(entries) implies #[trigger] entries[i] != (
            0u32,
            0u32,
        ) by {
            if i > 0 {
                assert(rest[i - 1] == entries[i]);
            }
        }
    }
}

proof fn lemma_errors_before_empty(
    entries: Seq<(u32, u32)>,
    batches: Seq<(i64, u32)>,
    log_size: u64,
    n: nat,
)
    ensures
        errors_before(entries, batches, log_size, n).len() == 0 <==> forall|slot: int|
            0 <= slot < n ==> #[trigger] slot_is_good(entries, batches, log_size, slot),
    decreases n,
{
    if n > 0 {
        lemma_errors_before_empty(entries, batches, log_size, (n - 1) as nat);
        let last = slot_errors(entries, batches, log_size, n - 1);
        assert(last.len() == 0 <==> slot_is_good(entries, batches, log_size, n - 1));
    }
}

/// No errors are found exactly where every used entry lies in the log, does not go back and
/// points at a batch.
pub proof fn law_no_errors_means_consistent(
    entries: Seq<(u32, u32)>,
    batches: Seq<(i64, u32)>,
    log_size: u64,
)
    ensures
        index_errors(entries, batches, log_size).len() == 0 <==> forall|slot: int|
            0 <= slot < used_slots(entries) ==> #[trigger] slot_is_good(
                entries,
                batches,
                log_size,
                slot,
            ),
{
    lemma_errors_before_empty(entries, batches, log_size, used_slots(entries));
}

proof fn lemma_errors_before_agree(
    a: Seq<(u32, u32)>,
    b: Seq<(u32, u32)>,
    batches: Seq<(i64, u32)>,
    log_size: u64,
    n: nat,
)
    requires
        n <= a.len(),
        n <= b.len(),
        a.take(n as int) == b.take(n as int),
    ensures
        errors_before(a, batches, log_size, n) == errors_before(b, batches, log_size, n),
    decreases n,
{
    if n > 0 {
        assert forall|i: int| 0 <= i < n implies a[i] == b[i] by {
            assert(a.take(n as int)[i] == b.take(n as int)[i]);
        }
        assert(a.take(n - 1) =~= b.take(n - 1));
        lemma_errors_before_agree(a, b, batches, log_size, (n - 1) as nat);
    }
}

/// What stands behind the first empty slot has no influence.
pub proof fn law_empty_slot_ends_the_index(
    entries: Seq<(u32, u32)>,
    tail: Seq<(u32, u32)>,
    batches: Seq<(i64, u32)>,
    log_size: u64,
)
    ensures
        index_errors(entries.push((0u32, 0u32)) + tail, batches, log_size) == index_errors(
            entries,
            batches,
            log_size,
        ),
{
    let whole = entries.push((0u32, 0u32)) + tail;
    let n = used_slots(entries);
    lemma_used_slots_bounds(entries);
    assert forall|i: int| 0 <= i < n implies #[trigger] whole[i] != (0u32, 0u32) by {
        assert(whole[i] == entries[i]);
    }
    lemma_used_slots(whole, n);
    assert(whole.take(n as int) =~= entries.take(n as int));
    lemma_errors_before_agree(whole, entries, batches, log_size, n);
}

fn batch_starts_at(batches: &[(i64, u32)], position: u32) -> (r: bool)
    ensures
        r == has_batch_at(batches@, position),
{
    let mut i: usize = 0;
    while i < batches.len()
        invariant
            i <= batches@.len(),
            forall|k: int| 0 <= k < i ==> (#[trigger] batches@[k]).1 != position,
        decreases batches.len() - i,
    {
        if batches[i].1 == position {
            assert(batches@[i as int].1 == position);
            return true;
        }
        i += 1;
    }
    false
}

fn find_batch_position(batches: &[(i64, u32)], offset: u32) -> (r: u32)
    ensures
        r == batch_position(batches@, offset),
{
    if batches.len() == 0 {
        return 0;
    }
    let base: i64 = batches[0].0;
    let mut i: usize = 0;
    assert(batches@.skip(0) =~= batches@);
    while i < batches.len()
        invariant
            i <= batches@.len(),
            batches@.len() > 0,
            base == batches@[0].0,
            position_behind(batches@.skip(i as int), base as int, offset) == position_behind(
                batches@,
                base as int,
                offset,
            ),
        decreases batches.len() - i,
    {
        assert(batches@.skip(i as int)[0] == batches@[i as int]);
        if batches[i].0 as i128 - base as i128 == offset as i128 {
            return batches[i].1;
        }
        assert(batches@.skip(i as int).skip(1) =~= batches@.skip(i + 1));
        i += 1;
    }
    0
}

/// Holds the entries of an index against the batches of its log and returns what is wrong with
/// them. Nothing is wrong with a consistent index. Each entry is an offset relative to the
/// segment's base offset and a position, both in the machine's byte order.
pub fn validate_index(
    index_entries: &[(u32, u32)],
    log_batches: &[(i64, u32)],
    log_size: u64,
) -> (errors: Vec<RepairError>)
    ensures
        errors@ == index_errors(index_entries@, log_batches@, log_size),
{
    let mut errors: Vec<RepairError> = Vec::new();
    let mut prev_offset: u32 = 0;
    let mut slot: usize = 0;
    while slot < index_entries.len()
        invariant
            slot <= index_entries@.len(),
            slot > 0 ==> prev_offset == index_entries@[slot - 1].0,
            forall|i: int| 0 <= i < slot ==> #[trigger] index_entries@[i] != (0u32, 0u32),
            errors@ == errors_before(index_entries@, log_batches@, log_size, slot as nat),
        decreases index_entries.len() - slot,
    {
        let (offset, position) = index_entries[slot];
        if offset == 0 && position == 0 {
            proof {
                lemma_used_slots(index_entries@, slot as nat);
            }
            return errors;
        }
        let ghost before = errors@;
        if position as u64 > log_size {
            #[verifier::truncate]
            let at: u32 = slot as u32;
            errors.push(RepairError::PositionPastEof { slot: at, position, log_size });
        }
        if slot > 0 && offset < prev_offset {
            #[verifier::truncate]
            let at: u32 = slot as u32;
            errors.push(RepairError::NonMonotonicOffset { slot: at, offset, prev_offset });
        }
        if !batch_starts_at(log_batches, position) {
            let actual_pos: u32 = find_batch_position(log_batches, offset);
            errors.push(
                RepairError::PositionMismatch { offset, index_pos: position, actual_pos },
            );
        }
        assert(errors@ =~= before + slot_errors(
            index_entries@,
            log_batches@,
            log_size,
            slot as int,
        ));
        prev_offset = offset;
        slot += 1;
    }
    proof {
        lemma_used_slots(index_entries@, slot as nat);
    }
    errors
}

/// The number that four bytes stand for, the most significant byte first.
pub open spec fn big_endian(bytes: Seq<u8>, at: int) -> int {
    bytes[at] * 0x100_0000 + bytes[at + 1] * 0x1_0000 + bytes[at + 2] * 0x100 + bytes[at + 3]
}

/// The entries of an index file: one for each full group of eight bytes, the offset in the first
/// four and the position in the last four.
pub open spec fn entries_of(bytes: Seq<u8>) -> Seq<(u32, u32)> {
    Seq::new(
        bytes.len() / 8,
        |i: int| (big_endian(bytes, 8 * i) as u32, big_endian(bytes, 8 * i + 4) as u32),
    )
}

fn read_big_endian(bytes: &Vec<u8>, at: usize) -> (r: u32)
    requires
        at + 4 <= bytes@.len(),
    ensures
        r == big_endian(bytes@, at as int),
{
    assert(bytes@.len() == bytes.len());
    bytes[at] as u32 * 0x100_0000 + bytes[at + 1] as u32 * 0x1_0000 + bytes[at + 2] as u32 * 0x100
        + bytes[at + 3] as u32
}

/// The entries that the bytes of an index file hold, in the machine's byte order.
pub fn read_entries(bytes: &Vec<u8>) -> (entries: Vec<(u32, u32)>)
    ensures
        entries@ == entries_of(bytes@),
{
    let count: usize = bytes.len() / 8;
    let mut entries: Vec<(u32, u32)> = Vec::new();
    let mut i: usize = 0;
    while i < count
        invariant
            i <= count,
            count == bytes.len() / 8,
            bytes@.len() == bytes.len(),
            entries@ == entries_of(bytes@).take(i as int),
        decreases count - i,
    {
        entries.push((read_big_endian(bytes, 8 * i), read_big_endian(bytes, 8 * i + 4)));
        i += 1;
        assert(entries@ =~= entries_of(bytes@).take(i as int));
    }
    assert(entries@ =~= entries_of(bytes@));
    entries
}

/// The number of entries before the first empty slot, in 32 bits.
pub fn used_entries(entries: &[(u32, u32)]) -> (n: u32)
    ensures
        n == used_slots(entries@) as u32,
{
    let mut i: usize = 0;
    while i < entries.len() && (entries[i].0 != 0 || entries[i].1 != 0)
        invariant
            i <= entries@.len(),
            forall|k: int| 0 <= k < i ==> #[trigger] entries@[k] != (0u32, 0u32),
        decreases entries.len() - i,
    {
        i += 1;
    }
    proof {
        lemma_used_slots(entries@, i as nat);
    }
    #[verifier::truncate]
    let n: u32 = i as u32;
    n
}

/// An entry offered to a new index, with the number of bytes that count toward the interval
/// between entries.
#[derive(Debug, Clone, Copy, PartialEq, Eq, Structural)]
pub struct IndexWrite {
    pub offset: u32,
    pub position: u32,
    pub batch_size: u32,
}

/// The position of the batch before batch `i`, 0 for the first.
pub open spec fn position_before(batches: Seq<(i64, u32)>, i: int) -> int {
    if i == 0 {
        0
    } else {
        batches[i - 1].1 as int
    }
}

/// What batch `i` offers to a new index. Its size is the distance to the position before it; a
/// batch that does not lie behind that position counts as one byte more than the interval, so
/// that its entry is written.
pub open spec fn index_write(
    base_offset: i64,
    batches: Seq<(i64, u32)>,
    interval: u32,
    i: int,
) -> IndexWrite {
    let position = batches[i].1;
    IndexWrite {
        offset: (batches[i].0 - base_offset) as u32,
        position,
        batch_size: (if position > position_before(batches, i) {
            position - position_before(batches, i)
        } else {
            interval + 1
        }) as u32,
    }
}

/// The entries offered to a new index, one for each batch.
pub open spec fn offered_writes(
    base_offset: i64,
    batches: Seq<(i64, u32)>,
    interval: u32,
) -> Seq<IndexWrite> {
    Seq::new(batches.len(), |i: int| index_write(base_offset, batches, interval, i))
}

/// No subtraction or addition on the way to the writes leaves its integer type.
pub open spec fn writes_fit(base_offset: i64, batches: Seq<(i64, u32)>, interval: u32) -> bool {
    forall|i: int|
        0 <= i < batches.len() ==> {
            &&& i64::MIN <= (#[trigger] batches[i]).0 - base_offset <= i64::MAX
            &&& batches[i].1 <= position_before(batches, i) ==> interval < u32::MAX
        }
}

/// The entries to offer, in the order of the log, to a new index of the segment that starts at
/// `base_offset`. Which of them the index keeps depends on `interval`, the number of bytes
/// between two entries.
pub fn rebuild_index(base_offset: i64, log_batches: &[(i64, u32)], interval: u32) -> (writes: Vec<
    IndexWrite,
>)
    requires
        writes_fit(base_offset, log_batches@, interval),
    ensures
        writes@ == offered_writes(base_offset, log_batches@, interval),
        writes@.len() == log_batches@.len(),
        forall|i: int|
            0 <= i < log_batches@.len() ==> {
                &&& (#[trigger] writes@[i]).position == log_batches@[i].1
                &&& 0 <= log_batches@[i].0 - base_offset <= u32::MAX ==> base_offset
                    + writes@[i].offset == log_batches@[i].0
            },
{
    let mut writes: Vec<IndexWrite> = Vec::new();
    let mut prev_pos: u32 = 0;
    let mut i: usize = 0;
    while i < log_batches.len()
        invariant
            i <= log_batches@.len(),
            prev_pos == position_before(log_batches@, i as int),
            writes_fit(base_offset, log_batches@, interval),
            writes@ == offered_writes(base_offset, log_batches@, interval).take(i as int),
        decreases log_batches.len() - i,
    {
        let (batch_offset, batch_pos) = log_batches[i];
        assert(log_batches@[i as int] == (batch_offset, batch_pos));
        #[verifier::truncate]
        let offset: u32 = (batch_offset - base_offset) as u32;
        let batch_size: u32 = if batch_pos > prev_pos {
            batch_pos - prev_pos
        } else {
            interval + 1
        };
        writes.push(IndexWrite { offset, position: batch_pos, batch_size });
        prev_pos = batch_pos;
        i += 1;
        assert(writes@ =~= offered_writes(base_offset, log_batches@, interval).take(i as int));
    }
    assert(writes@ =~= offered_writes(base_offset, log_batches@, interval));
    proof {
        law_write_leads_to_its_batch(base_offset, log_batches@, interval);
    }
    writes
}

/// The report on an index that was rebuilt from `log_batches` with `entries_after` entries.
pub fn rebuilt_report(
    base_offset: i64,
    log_batches: &[(i64, u32)],
    entries_after: u32,
) -> (report: RepairReport)
    ensures
        report.base_offset == base_offset,
        report.batches_found == log_batches@.len() as u32,
        report.index_entries_before == 0,
        report.index_entries_after == entries_after,
        report.errors@ == Seq::<RepairError>::empty(),
{
    #[verifier::truncate]
    let batches_found: u32 = log_batches.len() as u32;
    RepairReport {
        base_offset,
        batches_found,
        index_entries_before: 0,
        index_entries_after: entries_after,
        errors: Vec::new(),
    }
}

/// The entries that an index holds when it kept the writes numbered `kept`, in that order.
pub open spec fn kept_entries(writes: Seq<IndexWrite>, kept: Seq<int>) -> Seq<(u32, u32)> {
    kept.map_values(|k: int| (writes[k].offset, writes[k].position))
}

/// Increasing numbers below `bound` are no more than `bound`.
proof fn lemma_increasing_numbers(numbers: Seq<int>, bound: nat)
    requires
        forall|i: int| 0 <= i < numbers.len() ==> 0 <= #[trigger] numbers[i] < bound,
        forall|i: int, j: int|
            0 <= i < j < numbers.len() ==> #[trigger] numbers[i] < #[trigger] numbers[j],
    ensures
        numbers.len() <= bound,
    decreases numbers.len(),
{
    if numbers.len() > 0 {
        let front = numbers.drop_last();
        let last = numbers.last();
        assert forall|i: int| 0 <= i < front.len() implies 0 <= #[trigger] front[i] < last by {
            assert(front[i] == numbers[i] && last == numbers[numbers.len() - 1]);
        }
        lemma_increasing_numbers(front, last as nat);
    }
}

/// An index rebuilt from a log is consistent with it, whichever of the offered entries it kept. It
/// has no more entries than the log has batches. Each of its entries, up to the last one, lies in
/// the log, does not go back and points at a batch, and so nothing is wrong with it. That holds
/// where the offsets of the log do not go back and lie within 32 bits of the base offset, and all
/// batches start within the log.
pub proof fn law_rebuilt_index_is_consistent(
    base_offset: i64,
    batches: Seq<(i64, u32)>,
    interval: u32,
    log_size: u64,
    kept: Seq<int>,
)
    requires
        writes_fit(base_offset, batches, interval),
        forall|i: int|
            0 <= i < batches.len() ==> {
                &&& 0 <= (#[trigger] batches[i]).0 - base_offset <= u32::MAX
                &&& batches[i].1 <= log_size
            },
        forall|i: int, j: int|
            0 <= i <= j < batches.len() ==> (#[trigger] batches[i]).0 <= (#[trigger] batches[j]).0,
        forall|i: int| 0 <= i < kept.len() ==> 0 <= #[trigger] kept[i] < batches.len(),
        forall|i: int, j: int|
            0 <= i < j < kept.len() ==> #[trigger] kept[i] < #[trigger] kept[j],
    ensures
        ({
            let entries = kept_entries(offered_writes(base_offset, batches, interval), kept);
            &&& entries.len() == kept.len() <= batches.len()
            &&& forall|slot: int|
                0 <= slot < kept.len() ==> #[trigger] slot_is_good(entries, batches, log_size, slot)
            &&& index_errors(entries, batches, log_size).len() == 0
        }),
{
    let writes = offered_writes(base_offset, batches, interval);
    let entries = kept_entries(writes, kept);
    lemma_used_slots_bounds(entries);
    lemma_increasing_numbers(kept, batches.len());
    assert forall|slot: int| 0 <= slot < kept.len() implies #[trigger] slot_is_good(
        entries,
        batches,
        log_size,
        slot,
    ) by {
        let k = kept[slot];
        assert(entries[slot] == (writes[k].offset, writes[k].position));
        assert(batches[k].1 == entries[slot].1);
        if slot > 0 {
            let p = kept[slot - 1];
            assert(p < k);
            assert(entries[slot - 1] == (writes[p].offset, writes[p].position));
            assert(batches[p].0 <= batches[k].0);
        }
    }
    law_no_errors_means_consistent(entries, batches, log_size);
}

/// What is offered for a batch leads to this very batch: its position is that of the batch, and its
/// offset, counted from the base offset, is that of the batch, up to whole multiples of the 32 bits
/// that an index keeps. The sizes add up to the position where the batches rise, and a batch that
/// does not lie behind the one before it counts as more than the interval.
pub proof fn law_write_leads_to_its_batch(
    base_offset: i64,
    batches: Seq<(i64, u32)>,
    interval: u32,
)
    requires
        writes_fit(base_offset, batches, interval),
    ensures
        ({
            let writes = offered_writes(base_offset, batches, interval);
            &&& writes.len() == batches.len()
            &&& forall|i: int|
                0 <= i < batches.len() ==> {
                    &&& (#[trigger] writes[i]).position == batches[i].1
                    &&& (base_offset + writes[i].offset - batches[i].0) % 0x1_0000_0000 == 0
                    &&& 0 <= batches[i].0 - base_offset <= u32::MAX ==> base_offset
                        + writes[i].offset == batches[i].0
                }
            &&& batches.len() > 0 ==> if batches[0].1 > 0 {
                writes[0].batch_size == batches[0].1
            } else {
                writes[0].batch_size > interval
            }
            &&& forall|i: int|
                1 <= i < batches.len() ==> if batches[i].1 > batches[i - 1].1 {
                    batches[i - 1].1 + (#[trigger] writes[i]).batch_size == batches[i].1
                } else {
                    writes[i].batch_size == interval + 1
                }
        }),
{
    let writes = offered_writes(base_offset, batches, interval);
    assert forall|i: int| 0 <= i < batches.len() implies {
        &&& (#[trigger] writes[i]).position == batches[i].1
        &&& (base_offset + writes[i].offset - batches[i].0) % 0x1_0000_0000 == 0
        &&& 0 <= batches[i].0 - base_offset <= u32::MAX ==> base_offset + writes[i].offset
            == batches[i].0
    } by {
        let d: i64 = (batches[i].0 - base_offset) as i64;
        assert(d == batches[i].0 - base_offset);
        assert(writes[i].offset == d as u32);
        lemma_low_bits(d);
    }
    if batches.len() > 0 {
        assert(writes[0] == index_write(base_offset, batches, interval, 0));
        assert(batches[0].1 <= position_before(batches, 0) ==> interval < u32::MAX);
    }
}

/// The low 32 bits of a number differ from it by a multiple of 2 to the 32nd.
proof fn lemma_low_bits(d: i64)
    ensures
        (d as u32 - d) % 0x1_0000_0000 == 0,
{
    let low = d & 0xffff_ffff;
    let high = d >> 32;
    assert(d as u32 == low) by (bit_vector)
        requires
            low == d & 0xffff_ffff,
    ;
    assert(d == high * 0x1_0000_0000 + low) by (bit_vector)
        requires
            low == d & 0xffff_ffff,
            high == d >> 32,
    ;
    assert((-high * 0x1_0000_0000) % 0x1_0000_0000 == 0) by (nonlinear_arith);
}

/// Each entry that a rebuilt index kept leads to the batch for which it was offered: that batch has
/// the offset that the entry says, counted from the base offset, and starts at its position. Where no
/// two batches have the same offset, no other batch has that offset.
pub proof fn law_kept_entry_leads_to_its_batch(
    base_offset: i64,
    batches: Seq<(i64, u32)>,
    interval: u32,
    kept: Seq<int>,
    slot: int,
)
    requires
        writes_fit(base_offset, batches, interval),
        forall|i: int|
            0 <= i < batches.len() ==> 0 <= (#[trigger] batches[i]).0 - base_offset <= u32::MAX,
        0 <= slot < kept.len(),
        0 <= kept[slot] < batches.len(),
    ensures
        ({
            let entry = kept_entries(offered_writes(base_offset, batches, interval), kept)[slot];
            &&& base_offset + entry.0 == batches[kept[slot]].0
            &&& entry.1 == batches[kept[slot]].1
            &&& (forall|i: int, j: int|
                0 <= i < j < batches.len() ==> (#[trigger] batches[i]).0 != (
                #[trigger] batches[j]).0) ==> forall|j: int|
                0 <= j < batches.len() && (#[trigger] batches[j]).0 == base_offset + entry.0 ==> j
                    == kept[slot]
        }),
{
    law_write_leads_to_its_batch(base_offset, batches, interval);
    let writes = offered_writes(base_offset, batches, interval);
    let k = kept[slot];
    assert(writes[k].position == batches[k].1);
    assert(kept_entries(writes, kept)[slot] == (writes[k].offset, writes[k].position));
}

/// An error of the first `n` slots is one of some slot.
proof fn lemma_error_has_a_slot(
    entries: Seq<(u32, u32)>,
    batches: Seq<(i64, u32)>,
    log_size: u64,
    n: nat,
    e: RepairError,
)
    ensures
        errors_before(entries, batches, log_size, n).contains(e) <==> exists|slot: int|
            0 <= slot < n && #[trigger] slot_errors(entries, batches, log_size, slot).contains(e),
    decreases n,
{
    if n > 0 {
        let before = errors_before(entries, batches, log_size, (n - 1) as nat);
        let last = slot_errors(entries, batches, log_size, n - 1);
        lemma_error_has_a_slot(entries, batches, log_size, (n - 1) as nat, e);
        let all = errors_before(entries, batches, log_size, n);
        assert(all == before + last);
        if all.contains(e) {
            let i = choose|i: int| 0 <= i < all.len() && all[i] == e;
            if i < before.len() {
                assert(before[i] == e);
            } else {
                assert(last[i - before.len()] == e);
            }
        }
        if before.contains(e) {
            let i = choose|i: int| 0 <= i < before.len() && before[i] == e;
            assert(all[i] == e);
        }
        if last.contains(e) {
            let i = choose|i: int| 0 <= i < last.len() && last[i] == e;
            assert(all[before.len() + i] == e);
        }
        if exists|slot: int|
            0 <= slot < n && #[trigger] slot_errors(entries, batches, log_size, slot).contains(e) {
            let slot = choose|slot: int|
                0 <= slot < n && #[trigger] slot_errors(entries, batches, log_size, slot).contains(
                    e,
                );
            if slot < n - 1 {
                assert(slot_errors(entries, batches, log_size, slot).contains(e));
            }
        }
    } else {
        assert(!errors_before(entries, batches, log_size, n).contains(e));
    }
}

/// Whether an error is rightly reported of the entry in `slot`: it points behind the end of the log;
/// or its offset is smaller than that of the slot before it; or no batch starts where it points, and
/// then the position that is reported is that of the first batch that lies as far behind the first
/// batch of the log as the entry says, 0 where there is none.
pub open spec fn is_right_error(
    entries: Seq<(u32, u32)>,
    batches: Seq<(i64, u32)>,
    log_size: u64,
    slot: int,
    e: RepairError,
) -> bool {
    match e {
        RepairError::PositionPastEof { slot: s, position, log_size: size } => {
            &&& entries[slot].1 > log_size
            &&& s == slot as u32 && position == entries[slot].1 && size == log_size
        },
        RepairError::NonMonotonicOffset { slot: s, offset, prev_offset } => {
            &&& slot > 0 && entries[slot].0 < entries[slot - 1].0
            &&& s == slot as u32 && offset == entries[slot].0 && prev_offset == entries[slot - 1].0
        },
        RepairError::PositionMismatch { offset, index_pos, actual_pos } => {
            &&& forall|b: int| 0 <= b < batches.len() ==> (#[trigger] batches[b]).1 != index_pos
            &&& offset == entries[slot].0 && index_pos == entries[slot].1
            &&& {
                ||| actual_pos == 0 && forall|b: int|
                    0 <= b < batches.len() ==> (#[trigger] batches[b]).0 - batches[0].0 != offset
                ||| exists|b: int|
                    0 <= b < batches.len() && (#[trigger] batches[b]).0 - batches[0].0 == offset
                        && batches[b].1 == actual_pos && forall|c: int|
                        0 <= c < b ==> (#[trigger] batches[c]).0 - batches[0].0 != offset
            }
        },
    }
}

proof fn lemma_position_behind(batches: Seq<(i64, u32)>, base: int, offset: u32)
    ensures
        ({
            let r = position_behind(batches, base, offset);
            ||| r == 0 && forall|b: int|
                0 <= b < batches.len() ==> (#[trigger] batches[b]).0 - base != offset
            ||| exists|b: int|
                0 <= b < batches.len() && (#[trigger] batches[b]).0 - base == offset
                    && batches[b].1 == r && forall|c: int|
                    0 <= c < b ==> (#[trigger] batches[c]).0 - base != offset
        }),
    decreases batches.len(),
{
    if batches.len() > 0 && batches[0].0 - base != offset {
        let rest = batches.skip(1);
        lemma_position_behind(rest, base, offset);
        let r = position_behind(rest, base, offset);
        if exists|b: int|
            0 <= b < rest.len() && (#[trigger] rest[b]).0 - base == offset && rest[b].1 == r
                && forall|c: int| 0 <= c < b ==> (#[trigger] rest[c]).0 - base != offset {
            let b = choose|b: int|
                0 <= b < rest.len() && (#[trigger] rest[b]).0 - base == offset && rest[b].1 == r
                    && forall|c: int| 0 <= c < b ==> (#[trigger] rest[c]).0 - base != offset;
            assert(batches[b + 1] == rest[b]);
            assert forall|c: int| 0 <= c < b + 1 implies (#[trigger] batches[c]).0 - base
                != offset by {
                if c > 0 {
                    assert(rest[c - 1] == batches[c]);
                }
            }
        } else {
            assert forall|b: int| 0 <= b < batches.len() implies (#[trigger] batches[b]).0 - base
                != offset by {
                if b > 0 {
                    assert(rest[b - 1] == batches[b]);
                }
            }
        }
    }
}

/// The errors reported of an index are exactly the right ones of the slots before the first empty
/// one: each of them is right of such a slot, and each kind of error is reported of every such slot
/// of which it is right. Nothing is reported of a slot that is empty or lies behind an empty one.
pub proof fn law_reported_errors_are_the_right_ones(
    entries: Seq<(u32, u32)>,
    batches: Seq<(i64, u32)>,
    log_size: u64,
    e: RepairError,
)
    ensures
        index_errors(entries, batches, log_size).contains(e) <==> exists|slot: int|
            {
                &&& 0 <= slot < entries.len()
                &&& forall|i: int| 0 <= i <= slot ==> #[trigger] entries[i] != (0u32, 0u32)
                &&& #[trigger] is_right_error(entries, batches, log_size, slot, e)
            },
{
    let n = used_slots(entries);
    lemma_used_slots_bounds(entries);
    lemma_error_has_a_slot(entries, batches, log_size, n, e);
    assert forall|slot: int| 0 <= slot < n implies #[trigger] slot_errors(
        entries,
        batches,
        log_size,
        slot,
    ).contains(e) == is_right_error(entries, batches, log_size, slot, e) by {
        lemma_slot_errors(entries, batches, log_size, slot, e);
    }
    if index_errors(entries, batches, log_size).contains(e) {
        let slot = choose|slot: int|
            0 <= slot < n && #[trigger] slot_errors(entries, batches, log_size, slot).contains(e);
        assert(is_right_error(entries, batches, log_size, slot, e));
        assert forall|i: int| 0 <= i <= slot implies #[trigger] entries[i] != (0u32, 0u32) by {}
    }
    if exists|slot: int|
        {
            &&& 0 <= slot < entries.len()
            &&& forall|i: int| 0 <= i <= slot ==> #[trigger] entries[i] != (0u32, 0u32)
            &&& #[trigger] is_right_error(entries, batches, log_size, slot, e)
        } {
        let slot = choose|slot: int|
            {
                &&& 0 <= slot < entries.len()
                &&& forall|i: int| 0 <= i <= slot ==> #[trigger] entries[i] != (0u32, 0u32)
                &&& #[trigger] is_right_error(entries, batches, log_size, slot, e)
            };
        if n <= slot {
            assert(entries[n as int] != (0u32, 0u32));
        }
        assert(slot_errors(entries, batches, log_size, slot).contains(e));
    }
}

proof fn lemma_slot_errors(
    entries: Seq<(u32, u32)>,
    batches: Seq<(i64, u32)>,
    log_size: u64,
    slot: int,
    e: RepairError,
)
    requires
        0 <= slot < entries.len(),
    ensures
        slot_errors(entries, batches, log_size, slot).contains(e) == is_right_error(
            entries,
            batches,
            log_size,
            slot,
            e,
        ),
{
    let entry = entries[slot];
    let none = Seq::<RepairError>::empty();
    let past = RepairError::PositionPastEof { slot: slot as u32, position: entry.1, log_size };
    let back = RepairError::NonMonotonicOffset {
        slot: slot as u32,
        offset: entry.0,
        prev_offset: entries[slot - 1].0,
    };
    let wrong = RepairError::PositionMismatch {
        offset: entry.0,
        index_pos: entry.1,
        actual_pos: batch_position(batches, entry.0),
    };
    let a = if past_eof(entry, log_size) {
        none.push(past)
    } else {
        none
    };
    let b = if goes_back(entries, slot) {
        none.push(back)
    } else {
        none
    };
    let c = if !has_batch_at(batches, entry.1) {
        none.push(wrong)
    } else {
        none
    };
    let all = slot_errors(entries, batches, log_size, slot);
    assert(all == a + b + c);
    if past_eof(entry, log_size) {
        assert(all[0] == past);
    }
    if goes_back(entries, slot) {
        assert(all[a.len() as int] == back);
    }
    if !has_batch_at(batches, entry.1) {
        assert(all[(a + b).len() as int] == wrong);
    }
    assert(all.contains(e) <==> (past_eof(entry, log_size) && e == past) || (goes_back(entries, slot)
        && e == back) || (!has_batch_at(batches, entry.1) && e == wrong));
    lemma_position_behind(batches, batches[0].0 as int, entry.0);
    if let RepairError::PositionMismatch { offset, index_pos, actual_pos } = e {
        if is_right_error(entries, batches, log_size, slot, e) && batches.len() > 0 {
            assert(actual_pos == position_behind(batches, batches[0].0 as int, entry.0)) by {
                if exists|b: int|
                    0 <= b < batches.len() && (#[trigger] batches[b]).0 - batches[0].0 == offset {
                    let b = choose|b: int|
                        0 <= b < batches.len() && (#[trigger] batches[b]).0 - batches[0].0 == offset;
                    assert(batches[b].0 - batches[0].0 == offset);
                }
            }
        }
    }
}

/// An entry written into eight bytes, the offset before the position and the most significant byte
/// of each first, is read back, behind the entries of the bytes before it.
pub proof fn law_entry_is_read_back(bytes: Seq<u8>, entry: (u32, u32), written: Seq<u8>)
    requires
        bytes.len() % 8 == 0,
        written.len() == 8,
        entry.0 == written[0] * 0x100_0000 + written[1] * 0x1_0000 + written[2] * 0x100 + written[3],
        entry.1 == written[4] * 0x100_0000 + written[5] * 0x1_0000 + written[6] * 0x100 + written[7],
    ensures
        entries_of(bytes + written) == entries_of(bytes).push(entry),
        forall|n: int|
            0 <= n < 8 ==> entries_of(bytes + #[trigger] written.take(n)) == entries_of(bytes),
{
    let whole = bytes + written;
    let n = bytes.len() as int / 8;
    assert(whole.len() / 8 == n + 1);
    assert forall|i: int| 0 <= i < n implies entries_of(whole)[i] == entries_of(bytes)[i] by {}
    assert(whole[8 * n] == written[0] && whole[8 * n + 1] == written[1] && whole[8 * n + 2]
        == written[2] && whole[8 * n + 3] == written[3] && whole[8 * n + 4] == written[4]
        && whole[8 * n + 5] == written[5] && whole[8 * n + 6] == written[6] && whole[8 * n + 7]
        == written[7]);
    assert(entries_of(whole) =~= entries_of(bytes).push(entry));
    assert forall|k: int| 0 <= k < 8 implies entries_of(bytes + #[trigger] written.take(k))
        == entries_of(bytes) by {
        assert((bytes + written.take(k)).len() / 8 == n);
        assert(entries_of(bytes + written.take(k)) =~= entries_of(bytes));
    }
}

/// The errors come slot by slot, and of each slot at most one of each kind: one more entry adds to the
/// errors of the entries before it one for each thing that is wrong with it, in this order.
pub proof fn law_errors_come_slot_by_slot(
    entries: Seq<(u32, u32)>,
    entry: (u32, u32),
    batches: Seq<(i64, u32)>,
    log_size: u64,
)
    requires
        forall|i: int| 0 <= i < entries.len() ==> #[trigger] entries[i] != (0u32, 0u32),
        entry != (0u32, 0u32),
    ensures
        ({
            let before = index_errors(entries, batches, log_size);
            let after = index_errors(entries.push(entry), batches, log_size);
            let n = before.len() as int;
            let past: int = if entry.1 > log_size {
                1
            } else {
                0
            };
            let back: int = if entries.len() > 0 && entry.0 < entries.last().0 {
                1
            } else {
                0
            };
            let lost: int = if exists|b: int|
                0 <= b < batches.len() && (#[trigger] batches[b]).1 == entry.1 {
                0
            } else {
                1
            };
            &&& after.len() == n + past + back + lost
            &&& after.take(n) == before
            &&& past == 1 ==> after[n] is PositionPastEof
            &&& back == 1 ==> after[n + past] is NonMonotonicOffset
            &&& lost == 1 ==> after[n + past + back] is PositionMismatch
        }),
{
    let more = entries.push(entry);
    let n = entries.len();
    assert forall|i: int| 0 <= i < n + 1 implies #[trigger] more[i] != (0u32, 0u32) by {
        if i < n {
            assert(more[i] == entries[i]);
        }
    }
    lemma_used_slots(entries, n);
    lemma_used_slots(more, n + 1);
    assert(more.take(n as int) =~= entries.take(n as int));
    lemma_errors_before_agree(more, entries, batches, log_size, n);
    let before = index_errors(entries, batches, log_size);
    let added = slot_errors(more, batches, log_size, n as int);
    assert(index_errors(more, batches, log_size) == before + added);
    assert((before + added).take(before.len() as int) =~= before);
    assert(has_batch_at(batches, entry.1) <==> exists|b: int|
        0 <= b < batches.len() && (#[trigger] batches[b]).1 == entry.1);
}

} // verus!
