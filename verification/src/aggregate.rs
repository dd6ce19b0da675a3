//! Parsing one record file and summing the results over a device's files.

use vstd::prelude::*;
use crate::lines::{classify_spec, classify_line, LineClass};
use crate::stats::{sat_add_u64, StorageDeviceStats};

verus! {

/// How many of the lines are point records.
pub open spec fn file_points(lines: Seq<String>) -> int
    decreases lines.len(),
{
    if lines.len() == 0 {
        0
    } else {
        file_points(lines.drop_last()) + if classify_spec(lines.last()@) is Point {
            1int
        } else {
            0int
        }
    }
}

/// How many of the lines are last-will-testament markers.
pub open spec fn file_lwts(lines: Seq<String>) -> int
    decreases lines.len(),
{
    if lines.len() == 0 {
        0
    } else {
        file_lwts(lines.drop_last()) + if classify_spec(lines.last()@) is Lwt {
            1int
        } else {
            0int
        }
    }
}

pub proof fn lemma_file_counts_bounded(lines: Seq<String>)
    ensures
        0 <= file_points(lines) <= lines.len(),
        0 <= file_lwts(lines) <= lines.len(),
    decreases lines.len(),
{
    if lines.len() > 0 {
        lemma_file_counts_bounded(lines.drop_last());
    }
}

/// Counts the point and LWT lines of one record file, already read into
/// memory as its list of lines. A line whose second whitespace-separated
/// field is neither `"*"` nor `"lwt"` counts for nothing.
pub fn parse_rec_lines(lines: &Vec<String>) -> (r: StorageDeviceStats)
    ensures
        r.points_count_total == file_points(lines@),
        r.lwts_count_total == file_lwts(lines@),
{
    let mut points: u64 = 0;
    let mut lwts: u64 = 0;
    let mut i: usize = 0;
    proof {
        assert(lines@.take(0) =~= Seq::<String>::empty());
    }
    while i < lines.len()
        invariant
            i <= lines.len(),
            points == file_points(lines@.take(i as int)),
            lwts == file_lwts(lines@.take(i as int)),
        decreases lines.len() - i,
    {
        proof {
            lemma_file_counts_bounded(lines@.take(i as int));
            assert(lines@.take(i + 1).drop_last() =~= lines@.take(i as int));
            assert(lines@.take(i + 1).last() == lines@[i as int]);
        }
        match classify_line(lines[i].as_str()) {
            LineClass::Point => {
                points = points + 1;
            },
            LineClass::Lwt => {
                lwts = lwts + 1;
            },
            LineClass::Ignored => {},
        }
        i = i + 1;
    }
    proof {
        assert(lines@.take(lines@.len() as int) =~= lines@);
    }
    StorageDeviceStats { points_count_total: points, lwts_count_total: lwts }
}

/// The point count one file read contributes: an unreadable file counts zero.
pub open spec fn read_points(f: Option<Vec<String>>) -> int {
    match f {
        Some(lines) => file_points(lines@),
        None => 0,
    }
}

/// The LWT count one file read contributes: an unreadable file counts zero.
pub open spec fn read_lwts(f: Option<Vec<String>>) -> int {
    match f {
        Some(lines) => file_lwts(lines@),
        None => 0,
    }
}

/// Total point count over a device's file reads.
pub open spec fn agg_points(files: Seq<Option<Vec<String>>>) -> int
    decreases files.len(),
{
    if files.len() == 0 {
        0
    } else {
        agg_points(files.drop_last()) + read_points(files.last())
    }
}

/// Total LWT count over a device's file reads.
pub open spec fn agg_lwts(files: Seq<Option<Vec<String>>>) -> int
    decreases files.len(),
{
    if files.len() == 0 {
        0
    } else {
        agg_lwts(files.drop_last()) + read_lwts(files.last())
    }
}

/// A nonnegative total, clipped to what a `u64` series can hold.
pub open spec fn clip_u64(n: int) -> u64 {
    if n > u64::MAX {
        u64::MAX
    } else if n < 0 {
        0u64
    } else {
        n as u64
    }
}

pub proof fn lemma_agg_nonneg(files: Seq<Option<Vec<String>>>)
    ensures
        0 <= agg_points(files),
        0 <= agg_lwts(files),
    decreases files.len(),
{
    if files.len() > 0 {
        lemma_agg_nonneg(files.drop_last());
        lemma_read_nonneg(files.last());
    }
}

pub proof fn lemma_read_nonneg(f: Option<Vec<String>>)
    ensures
        0 <= read_points(f),
        0 <= read_lwts(f),
{
    match f {
        Some(lines) => lemma_file_counts_bounded(lines@),
        None => {},
    }
}

/// Sums the classifications of every readable file of one device directory:
/// `files` holds one entry per listed record file, in discovery order, with
/// `None` where the file could not be opened or read. Unreadable files
/// contribute zero; the others are counted exactly, the sum stopping at the
/// top of the `u64` range instead of aborting.
pub fn aggregate_files(files: &Vec<Option<Vec<String>>>) -> (r: StorageDeviceStats)
    ensures
        r.points_count_total == clip_u64(agg_points(files@)),
        r.lwts_count_total == clip_u64(agg_lwts(files@)),
{
    let mut total = StorageDeviceStats::zero();
    let mut i: usize = 0;
    proof {
        assert(files@.take(0) =~= Seq::<Option<Vec<String>>>::empty());
    }
    while i < files.len()
        invariant
            i <= files.len(),
            total.points_count_total == clip_u64(agg_points(files@.take(i as int))),
            total.lwts_count_total == clip_u64(agg_lwts(files@.take(i as int))),
        decreases files.len() - i,
    {
        let file_stats = match &files[i] {
            Some(lines) => parse_rec_lines(lines),
            None => StorageDeviceStats::zero(),
        };
        proof {
            assert(files@.take(i + 1).drop_last() =~= files@.take(i as int));
            assert(files@.take(i + 1).last() == files@[i as int]);
            lemma_agg_nonneg(files@.take(i as int));
            lemma_read_nonneg(files@[i as int]);
            lemma_clip_sat(agg_points(files@.take(i as int)), read_points(files@[i as int]));
            lemma_clip_sat(agg_lwts(files@.take(i as int)), read_lwts(files@[i as int]));
        }
        total.add_assign(file_stats);
        i = i + 1;
    }
    proof {
        assert(files@.take(files@.len() as int) =~= files@);
    }
    total
}

/// Folding with saturating additions lands on the clipped exact sum.
pub proof fn lemma_clip_sat(a: int, b: int)
    requires
        0 <= a,
        0 <= b <= u64::MAX,
    ensures
        sat_add_u64(clip_u64(a) as int, b) == clip_u64(a + b) as int,
{
}

/// File counts are additive: the counts of a file equal the counts of its
/// two halves added together.
pub proof fn lemma_file_counts_concat(a: Seq<String>, b: Seq<String>)
    ensures
        file_points(a + b) == file_points(a) + file_points(b),
        file_lwts(a + b) == file_lwts(a) + file_lwts(b),
    decreases b.len(),
{
    if b.len() == 0 {
        assert(a + b =~= a);
    } else {
        lemma_file_counts_concat(a, b.drop_last());
        assert((a + b).drop_last() =~= a + b.drop_last());
        assert((a + b).last() == b.last());
    }
}

/// Lines that are all point records count one point each and no LWT.
pub proof fn lemma_all_point_lines(b: Seq<String>)
    requires
        forall|i: int| 0 <= i < b.len() ==> classify_spec(b[i]@) is Point,
    ensures
        file_points(b) == b.len(),
        file_lwts(b) == 0,
    decreases b.len(),
{
    if b.len() > 0 {
        assert(classify_spec(b[b.len() - 1]@) is Point);
        lemma_all_point_lines(b.drop_last());
    }
}

/// Replacing one file read changes the totals by exactly the difference
/// between the new and the old contribution of that file.
pub proof fn lemma_agg_update(files: Seq<Option<Vec<String>>>, j: int, f2: Option<Vec<String>>)
    requires
        0 <= j < files.len(),
    ensures
        agg_points(files.update(j, f2)) == agg_points(files) - read_points(files[j]) + read_points(
            f2,
        ),
        agg_lwts(files.update(j, f2)) == agg_lwts(files) - read_lwts(files[j]) + read_lwts(f2),
    decreases files.len(),
{
    if j == files.len() - 1 {
        assert(files.update(j, f2).drop_last() =~= files.drop_last());
        assert(files.update(j, f2).last() == f2);
    } else {
        lemma_agg_update(files.drop_last(), j, f2);
        assert(files.update(j, f2).drop_last() =~= files.drop_last().update(j, f2));
        assert(files.update(j, f2).last() == files.last());
    }
}

/// Partial-failure isolation: an unreadable file contributes nothing, so the
/// totals are those of the remaining files alone.
pub proof fn lemma_unreadable_file_isolated(files: Seq<Option<Vec<String>>>, j: int)
    requires
        0 <= j < files.len(),
        files[j] is None,
    ensures
        agg_points(files) == agg_points(files.remove(j)),
        agg_lwts(files) == agg_lwts(files.remove(j)),
    decreases files.len(),
{
    if j == files.len() - 1 {
        assert(files.remove(j) =~= files.drop_last());
    } else {
        lemma_unreadable_file_isolated(files.drop_last(), j);
        assert(files.remove(j).drop_last() =~= files.drop_last().remove(j));
        assert(files.remove(j).last() == files.last());
    }
}

/// Monotonicity under append: appending point lines to one readable record
/// file raises the point total by exactly their number and leaves the LWT
/// total unchanged.
pub proof fn lemma_monotonic_append(
    files: Seq<Option<Vec<String>>>,
    j: int,
    after: Vec<String>,
    appended: Seq<String>,
)
    requires
        0 <= j < files.len(),
        files[j] is Some,
        after@ == files[j]->0@ + appended,
        forall|i: int| 0 <= i < appended.len() ==> classify_spec(appended[i]@) is Point,
    ensures
        agg_points(files.update(j, Some(after))) == agg_points(files) + appended.len(),
        agg_lwts(files.update(j, Some(after))) == agg_lwts(files),
{
    lemma_agg_update(files, j, Some(after));
    lemma_file_counts_concat(files[j]->0@, appended);
    lemma_all_point_lines(appended);
}

} // verus!
