//! Keeping the log files under their common ceiling: which files a cleanup
//! deletes, and in which order.

use crate::logsink::MAX_TOTAL_LOG_SIZE;
use vstd::prelude::*;

verus! {

/// What a cleanup knows of one log file.
#[derive(Debug, Clone, Copy, PartialEq, Eq)]
pub struct LogFileInfo {
    /// Its size in bytes.
    pub size: u64,
    /// When it was last modified, in seconds since the epoch, if that is
    /// known.
    pub modified: Option<u64>,
}

/// The sizes of all the files, added up.
pub open spec fn total_size(files: Seq<LogFileInfo>) -> nat
    decreases files.len(),
{
    if files.len() == 0 {
        0
    } else {
        total_size(files.drop_last()) + files.last().size as nat
    }
}

/// The file at the place `a` is deleted before the one at the place `b`: it
/// was modified earlier, or at the same time and stands earlier in the
/// list.
pub open spec fn goes_before(files: Seq<LogFileInfo>, a: int, b: int) -> bool {
    let ta = files[a].modified->0;
    let tb = files[b].modified->0;
    ta < tb || (ta == tb && a < b)
}

/// `order` lists the places of the files whose time of modification is
/// known, each once, oldest first.
pub open spec fn is_deletion_order(files: Seq<LogFileInfo>, order: Seq<usize>) -> bool {
    &&& forall|i: int|
        0 <= i < order.len() ==> 0 <= #[trigger] order[i] < files.len()
            && files[order[i] as int].modified is Some
    &&& forall|i: int, j: int|
        0 <= i < j < order.len() ==> goes_before(
            files,
            #[trigger] order[i] as int,
            #[trigger] order[j] as int,
        )
    &&& forall|k: int|
        0 <= k < files.len() && (#[trigger] files[k]).modified is Some ==> order.contains(
            k as usize,
        )
}

/// Two orders of the same files agree on every place that both have, and
/// have the same length.
proof fn lemma_prefix_agrees(
    files: Seq<LogFileInfo>,
    first: Seq<usize>,
    second: Seq<usize>,
    upto: int,
)
    requires
        is_deletion_order(files, first),
        is_deletion_order(files, second),
        0 <= upto <= first.len(),
    ensures
        upto <= second.len(),
        forall|i: int| 0 <= i < upto ==> first[i] == second[i],
    decreases upto,
{
    if upto > 0 {
        lemma_prefix_agrees(files, first, second, upto - 1);
        let at = upto - 1;
        let a = first[at];
        assert(files[a as int].modified is Some);
        let i = choose|i: int| 0 <= i < second.len() && second[i] == a;
        if i < at {
            assert(first[i] == second[i]);
            assert(goes_before(files, first[i] as int, first[at] as int));
        } else if i > at {
            let b = second[at];
            assert(files[b as int].modified is Some);
            let j = choose|j: int| 0 <= j < first.len() && first[j] == b;
            assert(goes_before(files, second[at] as int, second[i] as int));
            if j < at {
                assert(first[j] == second[j]);
                assert(goes_before(files, second[j] as int, second[at] as int));
            } else if j > at {
                assert(goes_before(files, first[at] as int, first[j] as int));
            }
        }
    }
}

/// The files that may be deleted have one deletion order and no other.
pub proof fn lemma_deletion_order_is_unique(
    files: Seq<LogFileInfo>,
    first: Seq<usize>,
    second: Seq<usize>,
)
    requires
        is_deletion_order(files, first),
        is_deletion_order(files, second),
    ensures
        first == second,
{
    lemma_prefix_agrees(files, first, second, first.len() as int);
    lemma_prefix_agrees(files, second, first, second.len() as int);
    assert(first =~= second);
}

/// Adds up the sizes of the files.
pub fn sum_sizes(files: &Vec<LogFileInfo>) -> (total: u128)
    ensures
        total == total_size(files@),
{
    let mut total: u128 = 0;
    let mut i: usize = 0;
    while i < files.len()
        invariant
            i <= files.len(),
            total == total_size(files@.take(i as int)),
            total <= i * 0xffff_ffff_ffff_ffff,
        decreases files.len() - i,
    {
        assert(files@.take(i + 1).drop_last() =~= files@.take(i as int));
        assert((i + 1) * 0xffff_ffff_ffff_ffff == i * 0xffff_ffff_ffff_ffff
            + 0xffff_ffff_ffff_ffff) by (nonlinear_arith);
        assert(i * 0xffff_ffff_ffff_ffff <= 0xffff_ffff_ffff_ffff * 0xffff_ffff_ffff_ffff)
            by (nonlinear_arith)
            requires
                i <= 0xffff_ffff_ffff_ffff,
        ;
        total = total + files[i].size as u128;
        i += 1;
    }
    assert(files@.take(files.len() as int) =~= files@);
    total
}

/// Whether the file at the place `at` was modified after `time`.
fn newer_than(files: &Vec<LogFileInfo>, at: usize, time: u64) -> (newer: bool)
    requires
        at < files.len(),
        files[at as int].modified is Some,
    ensures
        newer == (files[at as int].modified->0 > time),
{
    match files[at].modified {
        Some(other) => other > time,
        None => false,
    }
}

/// Lists the files that a cleanup may delete, oldest first. Files that were
/// modified at the same time keep the order in which they were listed.
pub fn deletion_order(files: &Vec<LogFileInfo>) -> (order: Vec<usize>)
    ensures
        is_deletion_order(files@, order@),
{
    let mut order: Vec<usize> = Vec::new();
    let mut k: usize = 0;
    while k < files.len()
        invariant
            k <= files.len(),
            forall|i: int|
                0 <= i < order.len() ==> 0 <= #[trigger] order[i] < k
                    && files[order[i] as int].modified is Some,
            forall|i: int, j: int|
                0 <= i < j < order.len() ==> goes_before(
                    files@,
                    #[trigger] order[i] as int,
                    #[trigger] order[j] as int,
                ),
            forall|m: int|
                0 <= m < k && (#[trigger] files[m]).modified is Some ==> order@.contains(
                    m as usize,
                ),
        decreases files.len() - k,
    {
        match files[k].modified {
            Some(time) => {
                let mut at: usize = order.len();
                while at > 0 && newer_than(files, order[at - 1], time)
                    invariant
                        at <= order.len(),
                        k < files.len(),
                        files[k as int].modified == Some(time),
                        forall|i: int|
                            0 <= i < order.len() ==> 0 <= #[trigger] order[i] < k
                                && files[order[i] as int].modified is Some,
                        forall|i: int|
                            at <= i < order.len() ==> files[#[trigger] order[i] as int].modified->0
                                > time,
                    decreases at,
                {
                    at -= 1;
                }
                let ghost before = order@;
                order.insert(at, k);
                proof {
                    assert forall|i: int, j: int| 0 <= i < j < order.len() implies goes_before(
                        files@,
                        #[trigger] order[i] as int,
                        #[trigger] order[j] as int,
                    ) by {
                        if j < at {
                            assert(order[i] == before[i] && order[j] == before[j]);
                        } else if j == at {
                            assert(order[i] == before[i]);
                            if at > 0 {
                                assert(i <= at - 1);
                                if i < at - 1 {
                                    assert(goes_before(
                                        files@,
                                        before[i] as int,
                                        before[at - 1] as int,
                                    ));
                                }
                            }
                        } else if i < at {
                            assert(order[i] == before[i] && order[j] == before[j - 1]);
                        } else if i == at {
                            assert(order[j] == before[j - 1]);
                        } else {
                            assert(order[i] == before[i - 1] && order[j] == before[j - 1]);
                        }
                    }
                    assert forall|m: int|
                        0 <= m < k + 1 && (#[trigger] files[m]).modified is Some implies order@.contains(
                        m as usize,
                    ) by {
                        if m < k {
                            let w = choose|w: int| 0 <= w < before.len() && before[w] == m as usize;
                            if w < at {
                                assert(order[w] == m as usize);
                            } else {
                                assert(order[w + 1] == m as usize);
                            }
                        } else {
                            assert(order[at as int] == m as usize);
                        }
                    }
                    assert forall|i: int| 0 <= i < order.len() implies 0 <= #[trigger] order[i] < k
                        + 1 && files[order[i] as int].modified is Some by {
                        if i < at {
                            assert(order[i] == before[i]);
                        } else if i > at {
                            assert(order[i] == before[i - 1]);
                        }
                    }
                }
            },
            None => {},
        }
        k += 1;
    }
    order
}

/// A cleanup in progress.
#[derive(Debug, Clone, PartialEq, Eq)]
pub struct Cleanup {
    /// The places of the files that may be deleted, oldest first.
    pub order: Vec<usize>,
    /// How many of them have been handed out.
    pub next: usize,
    /// The size of all the log files that are left.
    pub current: u128,
}

impl Cleanup {
    /// The file to delete next: the oldest that has not been handed out, as
    /// long as the log files are over their ceiling.
    pub open spec fn victim(self) -> Option<usize> {
        if self.current > MAX_TOTAL_LOG_SIZE && self.next < self.order@.len() {
            Some(self.order@[self.next as int])
        } else {
            None
        }
    }

    /// The cleanup once the next file has been handed out.
    pub open spec fn handed_out(self) -> Self {
        if self.victim() is Some {
            Cleanup { order: self.order, next: (self.next + 1) as usize, current: self.current }
        } else {
            self
        }
    }

    /// The size that is left once `size` bytes have been deleted.
    pub open spec fn less(self, size: u64) -> u128 {
        if size <= self.current {
            (self.current - size) as u128
        } else {
            0
        }
    }

    /// Begins a cleanup of the given files.
    pub fn begin(files: &Vec<LogFileInfo>) -> (cleanup: Self)
        ensures
            is_deletion_order(files@, cleanup.order@),
            cleanup.next == 0,
            cleanup.current == total_size(files@),
    {
        Cleanup { order: deletion_order(files), next: 0, current: sum_sizes(files) }
    }

    /// Hands out the file to delete next, or nothing where the cleanup is
    /// over: the log files are within their ceiling, or no file is left
    /// that may be deleted.
    pub fn next_victim(&mut self) -> (victim: Option<usize>)
        ensures
            victim == old(self).victim(),
            *final(self) == old(self).handed_out(),
    {
        if self.current > MAX_TOTAL_LOG_SIZE as u128 && self.next < self.order.len() {
            let victim = self.order[self.next];
            self.next = self.next + 1;
            Some(victim)
        } else {
            None
        }
    }

    /// Takes note that a file of `size` bytes has been deleted. A file that
    /// could not be deleted is not reported, and counts on.
    pub fn record_removed(&mut self, size: u64)
        ensures
            final(self).order == old(self).order,
            final(self).next == old(self).next,
            final(self).current == old(self).less(size),
    {
        if size as u128 <= self.current {
            self.current = self.current - size as u128;
        } else {
            self.current = 0;
        }
    }
}

/// What is left of `current` bytes once `size` of them are gone.
pub open spec fn minus(current: nat, size: u64) -> nat {
    if size <= current {
        (current - size) as nat
    } else {
        0
    }
}

/// How many files a cleanup deletes when every deletion goes through.
/// `sizes` holds the sizes of the files that may be deleted, oldest first,
/// and `current` the size of all the log files. The cleanup goes on until
/// the log files are within their ceiling or no file is left that may be
/// deleted.
pub open spec fn deletions(sizes: Seq<u64>, current: nat) -> nat
    decreases sizes.len(),
{
    if current <= MAX_TOTAL_LOG_SIZE || sizes.len() == 0 {
        0
    } else {
        1 + deletions(sizes.skip(1), minus(current, sizes[0]))
    }
}

/// The size that is left once the first `count` files have been deleted.
pub open spec fn left_after(sizes: Seq<u64>, current: nat, count: nat) -> nat
    decreases count,
{
    if count == 0 {
        current
    } else {
        minus(left_after(sizes, current, (count - 1) as nat), sizes[count - 1])
    }
}

/// The sizes of the files that a cleanup has still to hand out, oldest
/// first.
pub open spec fn pending_sizes(files: Seq<LogFileInfo>, cleanup: Cleanup) -> Seq<u64> {
    Seq::new(
        (cleanup.order@.len() - cleanup.next) as nat,
        |i: int| files[cleanup.order@[cleanup.next + i] as int].size,
    )
}

proof fn lemma_left_after_shifts(sizes: Seq<u64>, current: nat, count: nat)
    requires
        count < sizes.len(),
    ensures
        left_after(sizes, current, count + 1) == left_after(
            sizes.skip(1),
            minus(current, sizes[0]),
            count,
        ),
    decreases count,
{
    if count == 0 {
        assert(left_after(sizes, current, 0) == current);
        assert(left_after(sizes, current, 1) == minus(current, sizes[0]));
    } else {
        lemma_left_after_shifts(sizes, current, (count - 1) as nat);
        assert(sizes.skip(1)[count - 1] == sizes[count as int]);
    }
}

/// A cleanup deletes no more than it has to: as long as it deletes, the log
/// files are over their ceiling; and it ends within the ceiling, or with no
/// file left that it may delete.
pub proof fn lemma_cleanup_stops_in_time(sizes: Seq<u64>, current: nat)
    ensures
        deletions(sizes, current) <= sizes.len(),
        forall|count: nat|
            count < deletions(sizes, current) ==> #[trigger] left_after(sizes, current, count)
                > MAX_TOTAL_LOG_SIZE,
        left_after(sizes, current, deletions(sizes, current)) <= MAX_TOTAL_LOG_SIZE || deletions(
            sizes,
            current,
        ) == sizes.len(),
    decreases sizes.len(),
{
    if current <= MAX_TOTAL_LOG_SIZE || sizes.len() == 0 {
    } else {
        let rest = sizes.skip(1);
        let less = minus(current, sizes[0]);
        lemma_cleanup_stops_in_time(rest, less);
        let all = deletions(rest, less);
        assert forall|count: nat| count < deletions(sizes, current) implies #[trigger] left_after(
            sizes,
            current,
            count,
        ) > MAX_TOTAL_LOG_SIZE by {
            if count > 0 {
                let below = (count - 1) as nat;
                lemma_left_after_shifts(sizes, current, below);
                assert(left_after(rest, less, below) > MAX_TOTAL_LOG_SIZE);
            }
        }
        if all < sizes.len() {
            lemma_left_after_shifts(sizes, current, all);
        }
    }
}

/// A cleanup in progress goes by the rule that [`deletions`] counts by: it
/// has a file to hand out exactly when one more deletion is counted, that
/// file is the first of those still to be handed out, and the others are
/// left for the turns to come.
pub proof fn lemma_victim_is_counted(files: Seq<LogFileInfo>, cleanup: Cleanup)
    requires
        cleanup.next <= cleanup.order.len(),
    ensures
        cleanup.victim() is Some <==> deletions(
            pending_sizes(files, cleanup),
            cleanup.current as nat,
        ) > 0,
        cleanup.victim() matches Some(place) ==> {
            &&& pending_sizes(files, cleanup)[0] == files[place as int].size
            &&& pending_sizes(files, cleanup.handed_out()) == pending_sizes(files, cleanup).skip(
                1,
            )
        },
{
    if cleanup.victim() is Some {
        assert(pending_sizes(files, cleanup.handed_out()) =~= pending_sizes(files, cleanup).skip(
            1,
        ));
    }
}

} // verus!
