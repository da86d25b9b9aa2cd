use crate::domain::tx::record_views;
use crate::domain::tx::TxRecord;
use crate::domain::tx::TxRecordView;
use vstd::prelude::*;

verus! {

/// How often `record` occurs in `records`; two records are the same when all their fields are equal.
pub open spec fn occurrences(records: Seq<TxRecordView>, record: TxRecordView) -> nat
    decreases records.len(),
{
    if records.len() == 0 {
        0
    } else {
        occurrences(records.drop_last(), record) + if records.last() == record {
            1nat
        } else {
            0nat
        }
    }
}

/// How many more times `record` occurs in `first` than in `second`.
pub open spec fn net_count(
    first: Seq<TxRecordView>,
    second: Seq<TxRecordView>,
    record: TxRecordView,
) -> int {
    occurrences(first, record) - occurrences(second, record)
}

/// A record occurs at least once where it stands at some position.
pub proof fn lemma_occurs_at(records: Seq<TxRecordView>, i: int)
    requires
        0 <= i < records.len(),
    ensures
        occurrences(records, records[i]) > 0,
    decreases records.len(),
{
    if i < records.len() - 1 {
        lemma_occurs_at(records.drop_last(), i);
    }
}

/// A record that occurs at least once stands at some position.
pub proof fn lemma_occurs_somewhere(records: Seq<TxRecordView>, record: TxRecordView) -> (i: int)
    requires
        occurrences(records, record) > 0,
    ensures
        0 <= i < records.len(),
        records[i] == record,
    decreases records.len(),
{
    if records.last() == record {
        records.len() - 1
    } else {
        lemma_occurs_somewhere(records.drop_last(), record)
    }
}

/// One of the two files that are compared.
#[derive(Debug, PartialEq, Eq, Clone, Copy, Structural)]
pub enum FileSide {
    /// The file given first.
    First,
    /// The file given second.
    Second,
}

impl FileSide {
    /// The label of the file in a report.
    pub open spec fn label(self) -> Seq<char> {
        match self {
            FileSide::First => "#1"@,
            FileSide::Second => "#2"@,
        }
    }

    /// The label of the file in a report.
    pub fn as_str(&self) -> (s: &'static str)
        ensures
            s@ == self.label(),
    {
        match self {
            FileSide::First => "#1",
            FileSide::Second => "#2",
        }
    }
}

/// A record that does not occur equally often in the two files.
#[derive(Debug)]
pub struct Mismatch {
    /// The record.
    pub record: TxRecord,
    /// How often the record occurs in the first file.
    pub in_first: usize,
    /// How often the record occurs in the second file.
    pub in_second: usize,
}

impl Mismatch {
    /// The file that holds the occurrences which the other file does not match.
    pub open spec fn side_of(self) -> FileSide {
        if self.in_first > self.in_second {
            FileSide::First
        } else {
            FileSide::Second
        }
    }

    /// The file that holds the occurrences which the other file does not match.
    pub fn side(&self) -> (side: FileSide)
        ensures
            side == self.side_of(),
    {
        if self.in_first > self.in_second {
            FileSide::First
        } else {
            FileSide::Second
        }
    }
}

/// Whether a mismatch for `record` is among `diff`.
pub open spec fn names(diff: Seq<Mismatch>, record: TxRecordView) -> bool {
    exists|i: int| 0 <= i < diff.len() && (#[trigger] diff[i]).record@ == record
}

/// Whether the counts of a mismatch are those of its record in the two files, and differ.
pub open spec fn is_counted(
    mismatch: Mismatch,
    first: Seq<TxRecordView>,
    second: Seq<TxRecordView>,
) -> bool {
    &&& mismatch.in_first == occurrences(first, mismatch.record@)
    &&& mismatch.in_second == occurrences(second, mismatch.record@)
    &&& mismatch.in_first != mismatch.in_second
}

/// Whether `diff` names only records that do not occur equally often in both files, once
/// each and with their two counts.
pub open spec fn is_partial_difference(
    diff: Seq<Mismatch>,
    first: Seq<TxRecordView>,
    second: Seq<TxRecordView>,
) -> bool {
    &&& forall|i: int| 0 <= i < diff.len() ==> is_counted(#[trigger] diff[i], first, second)
    &&& forall|i: int, j: int|
        0 <= i < j < diff.len() ==> (#[trigger] diff[i]).record@ != (#[trigger] diff[j]).record@
}

/// Whether `diff` is the difference of the two files: it names, once each, exactly the
/// records that do not occur equally often in both, each with its two counts.
pub open spec fn is_difference(
    diff: Seq<Mismatch>,
    first: Seq<TxRecordView>,
    second: Seq<TxRecordView>,
) -> bool {
    &&& is_partial_difference(diff, first, second)
    &&& forall|record: TxRecordView| #[trigger]
        net_count(first, second, record) != 0 ==> names(diff, record)
}

/// One more mismatch, for a record that is not named yet, keeps a partial difference.
proof fn lemma_push_keeps_partial(
    diff: Seq<Mismatch>,
    mismatch: Mismatch,
    first: Seq<TxRecordView>,
    second: Seq<TxRecordView>,
)
    requires
        is_partial_difference(diff, first, second),
        is_counted(mismatch, first, second),
        !names(diff, mismatch.record@),
    ensures
        is_partial_difference(diff.push(mismatch), first, second),
{
    let more = diff.push(mismatch);
    assert forall|i: int| 0 <= i < more.len() implies is_counted(
        #[trigger] more[i],
        first,
        second,
    ) by {
        if i < diff.len() {
            assert(more[i] == diff[i]);
        }
    }
    assert forall|i: int, j: int| 0 <= i < j < more.len() implies (#[trigger] more[i]).record@ != (
    #[trigger] more[j]).record@ by {
        assert(more[i] == diff[i]);
        if j < diff.len() {
            assert(more[j] == diff[j]);
        }
    }
}

/// A record that is named stays named when a mismatch is added, and the added one is named.
proof fn lemma_push_names(diff: Seq<Mismatch>, mismatch: Mismatch, record: TxRecordView)
    ensures
        names(diff, record) ==> names(diff.push(mismatch), record),
        names(diff.push(mismatch), mismatch.record@),
{
    let more = diff.push(mismatch);
    if names(diff, record) {
        let i = choose|i: int| 0 <= i < diff.len() && (#[trigger] diff[i]).record@ == record;
        assert(more[i] == diff[i]);
    }
    assert(more[diff.len() as int] == mismatch);
}

/// Counts the records of `records` that equal `record` field for field.
pub fn count_occurrences(records: &[TxRecord], record: &TxRecord) -> (n: usize)
    ensures
        n == occurrences(record_views(records@), record@),
{
    let mut n: usize = 0;
    let mut i: usize = 0;
    while i < records.len()
        invariant
            i <= records@.len(),
            n <= i,
            n == occurrences(record_views(records@.take(i as int)), record@),
        decreases records@.len() - i,
    {
        proof {
            let next = record_views(records@.take(i + 1));
            assert(next.drop_last() =~= record_views(records@.take(i as int)));
            assert(next.last() == records@[i as int]@);
        }
        if records[i].eq(record) {
            n += 1;
        }
        i += 1;
    }
    proof {
        assert(records@.take(records@.len() as int) =~= records@);
    }
    n
}

/// Whether a mismatch for `record` is among `diff`.
fn is_listed(diff: &Vec<Mismatch>, record: &TxRecord) -> (listed: bool)
    ensures
        listed == names(diff@, record@),
{
    let mut i: usize = 0;
    while i < diff.len()
        invariant
            i <= diff@.len(),
            forall|j: int| 0 <= j < i ==> (#[trigger] diff@[j]).record@ != record@,
        decreases diff@.len() - i,
    {
        if diff[i].record.eq(record) {
            return true;
        }
        i += 1;
    }
    false
}

/// Whether every record among the first `k` of `side` that does not occur equally often
/// in both files is named by `diff`.
pub open spec fn covers(
    diff: Seq<Mismatch>,
    side: Seq<TxRecord>,
    k: int,
    first: Seq<TxRecordView>,
    second: Seq<TxRecordView>,
) -> bool {
    forall|j: int|
        0 <= j < k && net_count(first, second, (#[trigger] side[j])@) != 0 ==> names(
            diff,
            side[j]@,
        )
}

/// Adds to `diff` the mismatches of the records of `side` that are not named yet.
#[verifier::rlimit(50)]
fn collect_mismatches(
    diff: &mut Vec<Mismatch>,
    side: &[TxRecord],
    first: &[TxRecord],
    second: &[TxRecord],
)
    requires
        is_partial_difference(old(diff)@, record_views(first@), record_views(second@)),
    ensures
        is_partial_difference(final(diff)@, record_views(first@), record_views(second@)),
        forall|record: TxRecordView|
            names(old(diff)@, record) ==> #[trigger] names(final(diff)@, record),
        covers(
            final(diff)@,
            side@,
            side@.len() as int,
            record_views(first@),
            record_views(second@),
        ),
{
    let mut k: usize = 0;
    let ghost a = record_views(first@);
    let ghost b = record_views(second@);
    while k < side.len()
        invariant
            k <= side@.len(),
            a == record_views(first@),
            b == record_views(second@),
            is_partial_difference(diff@, a, b),
            forall|record: TxRecordView|
                names(old(diff)@, record) ==> #[trigger] names(diff@, record),
            covers(diff@, side@, k as int, a, b),
        decreases side@.len() - k,
    {
        let record = &side[k];
        let ghost before = diff@;
        if !is_listed(diff, record) {
            let in_first = count_occurrences(first, record);
            let in_second = count_occurrences(second, record);
            if in_first != in_second {
                let mismatch = Mismatch { record: record.clone(), in_first, in_second };
                proof {
                    lemma_push_keeps_partial(before, mismatch, a, b);
                    assert forall|other: TxRecordView| names(before, other) implies #[trigger] names(
                        before.push(mismatch),
                        other,
                    ) by {
                        lemma_push_names(before, mismatch, other);
                    }
                    lemma_push_names(before, mismatch, record@);
                }
                diff.push(mismatch);
            }
        }
        k += 1;
    }
}

/// Compares two collections of records as multisets: the result names, once each, exactly
/// the records whose numbers of occurrences in the two differ.
#[verifier::rlimit(50)]
pub fn compare_records(first: &[TxRecord], second: &[TxRecord]) -> (diff: Vec<Mismatch>)
    ensures
        is_difference(diff@, record_views(first@), record_views(second@)),
{
    let mut diff: Vec<Mismatch> = Vec::new();
    collect_mismatches(&mut diff, first, first, second);
    let ghost middle = diff@;
    collect_mismatches(&mut diff, second, first, second);
    proof {
        let a = record_views(first@);
        let b = record_views(second@);
        assert forall|record: TxRecordView| #[trigger]
            net_count(a, b, record) != 0 implies names(diff@, record) by {
            if occurrences(a, record) > 0 {
                let k = lemma_occurs_somewhere(a, record);
                assert(first@[k]@ == record);
                assert(names(middle, record));
            } else {
                let k = lemma_occurs_somewhere(b, record);
                assert(second@[k]@ == record);
            }
        }
    }
    diff
}

} // verus!
