//! The cave scanner: maximal runs of the sentinel byte in a byte slice.
//!
//! The scan is byte-oriented. It knows nothing of instruction boundaries and
//! nothing of the bytes that surround the slice it is given: the end of the
//! slice ends a run just as another byte does.

use vstd::prelude::*;

verus! {

/// The padding byte whose runs are reported.
pub const SENTINEL: u8 = 0xCC;

/// One reported cave: a maximal run of sentinel bytes.
#[derive(Clone, Copy, Debug, PartialEq, Eq, Structural)]
pub struct CaveRecord {
    /// Offset of the first byte of the run, from the start of the scanned slice.
    pub start_offset: usize,
    /// Number of bytes in the run.
    pub length: u64,
}

/// Number of consecutive sentinel bytes of `text` that begin at `start`.
///
/// The run ends at the first other byte or at the end of `text`, whichever
/// comes first; it is `0` when `start` is out of range or holds another byte.
pub open spec fn run_length(text: Seq<u8>, start: int) -> nat
    decreases text.len() - start,
{
    if 0 <= start < text.len() && text[start] == SENTINEL {
        1 + run_length(text, start + 1)
    } else {
        0
    }
}

/// A maximal run begins at `i`: a sentinel byte that no sentinel byte precedes.
pub open spec fn is_run_start(text: Seq<u8>, i: int) -> bool {
    &&& 0 <= i < text.len()
    &&& text[i] == SENTINEL
    &&& (i == 0 || text[i - 1] != SENTINEL)
}

/// A maximal run of at least `min_size` bytes begins at `i`.
pub open spec fn is_cave_start(text: Seq<u8>, min_size: nat, i: int) -> bool {
    is_run_start(text, i) && run_length(text, i) >= min_size
}

/// The record of the run that begins at `i`.
pub open spec fn cave_at(text: Seq<u8>, i: int) -> CaveRecord {
    CaveRecord { start_offset: i as usize, length: run_length(text, i) as u64 }
}

/// The caves of `text` that begin before position `n`, in ascending order.
pub open spec fn caves_before(text: Seq<u8>, min_size: nat, n: int) -> Seq<CaveRecord>
    decreases n,
{
    if n <= 0 {
        Seq::empty()
    } else if is_cave_start(text, min_size, n - 1) {
        caves_before(text, min_size, n - 1).push(cave_at(text, n - 1))
    } else {
        caves_before(text, min_size, n - 1)
    }
}

/// Every cave of `text`: one record for each maximal run of at least
/// `min_size` sentinel bytes, in ascending order of offset.
pub open spec fn caves(text: Seq<u8>, min_size: nat) -> Seq<CaveRecord> {
    caves_before(text, min_size, text.len() as int)
}

/// Position `p` lies inside one of `records`.
pub open spec fn covered(records: Seq<CaveRecord>, p: int) -> bool {
    exists|k: int|
        0 <= k < records.len() && (#[trigger] records[k]).start_offset <= p
            < records[k].start_offset + records[k].length
}

/// Position `p` holds a sentinel byte of a maximal run of at least `min_size` bytes.
pub open spec fn in_cave(text: Seq<u8>, min_size: nat, p: int) -> bool {
    exists|s: int| #[trigger]
        is_cave_start(text, min_size, s) && s <= p < s + run_length(text, s)
}

/// No maximal run straddles position `i`.
pub open spec fn at_run_boundary(text: Seq<u8>, i: int) -> bool {
    i <= 0 || i >= text.len() || text[i - 1] != SENTINEL || text[i] != SENTINEL
}

/// A run holds sentinel bytes only, stays inside `text`, and cannot be extended.
pub proof fn lemma_run_contents(text: Seq<u8>, start: int)
    requires
        0 <= start <= text.len(),
    ensures
        start + run_length(text, start) <= text.len(),
        forall|p: int| start <= p < start + run_length(text, start) ==> text[p] == SENTINEL,
        start + run_length(text, start) < text.len() ==> text[start + run_length(text, start)]
            != SENTINEL,
    decreases text.len() - start,
{
    if start < text.len() && text[start] == SENTINEL {
        lemma_run_contents(text, start + 1);
    }
}

/// A run of sentinel bytes from `start` up to `end` has no run start behind its first byte.
proof fn lemma_no_start_inside_run(text: Seq<u8>, min_size: nat, start: int, end: int)
    requires
        0 <= start < end <= text.len(),
        forall|p: int| start <= p < end ==> text[p] == SENTINEL,
    ensures
        caves_before(text, min_size, end) == caves_before(text, min_size, start + 1),
    decreases end - start,
{
    if end > start + 1 {
        lemma_no_start_inside_run(text, min_size, start, end - 1);
    }
}

/// What the records before `n` are: the cave starts below `n`, each once, in ascending order.
proof fn lemma_caves_before(text: Seq<u8>, min_size: nat, n: int)
    requires
        0 <= n <= text.len() <= usize::MAX,
    ensures
        forall|k: int|
            0 <= k < caves_before(text, min_size, n).len() ==> {
                let c = #[trigger] caves_before(text, min_size, n)[k];
                &&& c.start_offset < n
                &&& is_cave_start(text, min_size, c.start_offset as int)
                &&& c.length == run_length(text, c.start_offset as int)
            },
        forall|j: int, k: int|
            0 <= j < k < caves_before(text, min_size, n).len() ==> (#[trigger] caves_before(
                text,
                min_size,
                n,
            )[j]).start_offset < (#[trigger] caves_before(text, min_size, n)[k]).start_offset,
        forall|s: int|
            0 <= s < n && #[trigger] is_cave_start(text, min_size, s) ==> exists|k: int|
                0 <= k < caves_before(text, min_size, n).len() && (#[trigger] caves_before(
                    text,
                    min_size,
                    n,
                )[k]).start_offset == s,
    decreases n,
{
    if n > 0 {
        lemma_caves_before(text, min_size, n - 1);
        lemma_run_contents(text, n - 1);
        let prev = caves_before(text, min_size, n - 1);
        let cur = caves_before(text, min_size, n);
        assert forall|s: int| 0 <= s < n && #[trigger] is_cave_start(text, min_size, s) implies exists|
            k: int,
        |
            0 <= k < cur.len() && (#[trigger] cur[k]).start_offset == s by {
            if s == n - 1 {
                assert(cur[prev.len() as int].start_offset == s);
            } else {
                let k = choose|k: int| 0 <= k < prev.len() && (#[trigger] prev[k]).start_offset == s;
                assert(cur[k].start_offset == s);
            }
        }
    }
}

/// Every record is a maximal run: it begins where a run begins, its length is
/// the full length of that run, and that length is at least `min_size`.
pub proof fn lemma_caves_are_maximal_runs(text: Seq<u8>, min_size: nat)
    requires
        text.len() <= usize::MAX,
    ensures
        forall|k: int|
            0 <= k < caves(text, min_size).len() ==> {
                let c = #[trigger] caves(text, min_size)[k];
                &&& is_run_start(text, c.start_offset as int)
                &&& c.length == run_length(text, c.start_offset as int)
                &&& c.length >= min_size
            },
{
    lemma_caves_before(text, min_size, text.len() as int);
}

/// The records come in ascending order of offset and do not overlap: each
/// ends before the next begins, with at least one other byte between them.
pub proof fn lemma_caves_ascending_and_disjoint(text: Seq<u8>, min_size: nat)
    requires
        text.len() <= usize::MAX,
    ensures
        forall|j: int, k: int|
            0 <= j < k < caves(text, min_size).len() ==> (#[trigger] caves(
                text,
                min_size,
            )[j]).start_offset + caves(text, min_size)[j].length < (#[trigger] caves(
                text,
                min_size,
            )[k]).start_offset,
{
    let all = caves(text, min_size);
    lemma_caves_before(text, min_size, text.len() as int);
    assert forall|j: int, k: int| 0 <= j < k < all.len() implies (#[trigger] all[j]).start_offset
        + all[j].length < (#[trigger] all[k]).start_offset by {
        let first = all[j].start_offset as int;
        let next = all[k].start_offset as int;
        lemma_run_contents(text, first);
        if next <= first + run_length(text, first) {
            if next < first + run_length(text, first) {
                assert(text[next - 1] == SENTINEL);
            }
        }
    }
}

/// The records cover exactly the sentinel bytes that belong to a maximal run
/// of at least `min_size` bytes: nothing else is reported and no such run is missed.
pub proof fn lemma_caves_cover(text: Seq<u8>, min_size: nat)
    requires
        text.len() <= usize::MAX,
    ensures
        forall|p: int| covered(caves(text, min_size), p) <==> in_cave(text, min_size, p),
{
    let all = caves(text, min_size);
    lemma_caves_before(text, min_size, text.len() as int);
    assert forall|p: int| covered(all, p) implies in_cave(text, min_size, p) by {
        let k = choose|k: int|
            0 <= k < all.len() && (#[trigger] all[k]).start_offset <= p < all[k].start_offset
                + all[k].length;
        assert(is_cave_start(text, min_size, all[k].start_offset as int));
    }
    assert forall|p: int| in_cave(text, min_size, p) implies covered(all, p) by {
        let s = choose|s: int| #[trigger]
            is_cave_start(text, min_size, s) && s <= p < s + run_length(text, s);
        let k = choose|k: int| 0 <= k < all.len() && (#[trigger] all[k]).start_offset == s;
        assert(all[k].start_offset <= p < all[k].start_offset + all[k].length);
    }
}

/// `records` lists the caves of `text`: every record is a maximal run of at
/// least `min_size` bytes, the records stand in ascending order of offset,
/// and no such run is missing.
pub open spec fn is_cave_list(text: Seq<u8>, min_size: nat, records: Seq<CaveRecord>) -> bool {
    &&& forall|k: int|
        0 <= k < records.len() ==> {
            let c = #[trigger] records[k];
            &&& is_cave_start(text, min_size, c.start_offset as int)
            &&& c.length == run_length(text, c.start_offset as int)
        }
    &&& forall|j: int, k: int|
        0 <= j < k < records.len() ==> (#[trigger] records[j]).start_offset < (
        #[trigger] records[k]).start_offset
    &&& forall|s: int| #[trigger]
        is_cave_start(text, min_size, s) ==> exists|k: int|
            0 <= k < records.len() && (#[trigger] records[k]).start_offset == s
}

/// The caves of a text are a cave list of it.
pub proof fn lemma_caves_are_a_cave_list(text: Seq<u8>, min_size: nat)
    requires
        text.len() <= usize::MAX,
    ensures
        is_cave_list(text, min_size, caves(text, min_size)),
{
    lemma_caves_before(text, min_size, text.len() as int);
}

/// How many of the records begin before position `n`: that many leading
/// records are exactly the caves before `n`.
proof fn lemma_cave_list_prefix(text: Seq<u8>, min_size: nat, records: Seq<CaveRecord>, n: int) -> (m:
    int)
    requires
        0 <= n <= text.len() <= usize::MAX,
        is_cave_list(text, min_size, records),
    ensures
        0 <= m <= records.len(),
        records.take(m) == caves_before(text, min_size, n),
        forall|k: int| 0 <= k < m ==> (#[trigger] records[k]).start_offset < n,
        forall|k: int| m <= k < records.len() ==> (#[trigger] records[k]).start_offset >= n,
    decreases n,
{
    if n == 0 {
        assert(records.take(0) == Seq::<CaveRecord>::empty());
        0
    } else {
        let m = lemma_cave_list_prefix(text, min_size, records, n - 1);
        if is_cave_start(text, min_size, n - 1) {
            let k = choose|k: int|
                0 <= k < records.len() && (#[trigger] records[k]).start_offset == n - 1;
            if k > m {
                assert(records[m].start_offset < records[k].start_offset);
            }
            assert(k == m);
            assert(records[m] == cave_at(text, n - 1));
            assert(records.take(m + 1) == records.take(m).push(records[m]));
            assert forall|j: int| m + 1 <= j < records.len() implies (
            #[trigger] records[j]).start_offset >= n by {
                assert(records[m].start_offset < records[j].start_offset);
            }
            m + 1
        } else {
            assert forall|j: int| m <= j < records.len() implies (
            #[trigger] records[j]).start_offset >= n by {
                assert(is_cave_start(text, min_size, records[j].start_offset as int));
            }
            m
        }
    }
}

/// A text has one cave list only: what is sound, ascending and complete is
/// the list of its caves.
pub proof fn lemma_cave_list_unique(text: Seq<u8>, min_size: nat, records: Seq<CaveRecord>)
    requires
        text.len() <= usize::MAX,
        is_cave_list(text, min_size, records),
    ensures
        records == caves(text, min_size),
{
    let m = lemma_cave_list_prefix(text, min_size, records, text.len() as int);
    if m < records.len() {
        assert(is_cave_start(text, min_size, records[m].start_offset as int));
    }
    assert(records.take(m) == records);
}

/// Scanning is repeatable: two scans of the same bytes with the same minimum
/// give the same records. Whatever two lists are cave lists of one text are
/// the same list.
pub proof fn lemma_scan_repeatable(
    text: Seq<u8>,
    min_size: nat,
    first: Seq<CaveRecord>,
    second: Seq<CaveRecord>,
)
    requires
        text.len() <= usize::MAX,
        is_cave_list(text, min_size, first),
        is_cave_list(text, min_size, second),
    ensures
        first == second,
{
    lemma_cave_list_unique(text, min_size, first);
    lemma_cave_list_unique(text, min_size, second);
}

/// A text of sentinel bytes only is one run: with its own length as the
/// minimum it is reported whole, and with any larger minimum nothing is.
pub proof fn lemma_all_sentinel(text: Seq<u8>)
    requires
        1 <= text.len() <= usize::MAX,
        forall|i: int| 0 <= i < text.len() ==> text[i] == SENTINEL,
    ensures
        caves(text, text.len()) == seq![
            CaveRecord { start_offset: 0, length: text.len() as u64 },
        ],
        caves(text, text.len() + 1) == Seq::<CaveRecord>::empty(),
{
    let whole = text.len() as int;
    lemma_whole_run(text, 0);
    lemma_no_start_inside_run(text, text.len(), 0, whole);
    lemma_no_start_inside_run(text, text.len() + 1, 0, whole);
    assert(caves_before(text, text.len(), 0) == Seq::<CaveRecord>::empty());
    assert(caves_before(text, text.len() + 1, 0) == Seq::<CaveRecord>::empty());
    assert(caves_before(text, text.len(), 1) == seq![cave_at(text, 0)]);
}

/// In a text that ends in sentinel bytes from `start` on, the run at `start` reaches the end.
proof fn lemma_whole_run(text: Seq<u8>, start: int)
    requires
        0 <= start <= text.len(),
        forall|i: int| start <= i < text.len() ==> text[i] == SENTINEL,
    ensures
        run_length(text, start) == text.len() - start,
    decreases text.len() - start,
{
    if start < text.len() {
        lemma_whole_run(text, start + 1);
    }
}

/// An empty text has no caves, whatever the minimum.
pub proof fn lemma_empty_text_has_no_caves(min_size: nat)
    ensures
        caves(Seq::<u8>::empty(), min_size) == Seq::<CaveRecord>::empty(),
{
}

/// A scan in progress: the text, the minimum, how far the scan has come and
/// what it has found so far.
///
/// One call of [`Scanner::advance`] consumes one maximal run of sentinel bytes
/// or one other byte, so a caller can report progress between calls.
pub struct Scanner<'a> {
    text: &'a [u8],
    min_size: u64,
    cursor: usize,
    found: Vec<CaveRecord>,
}

impl<'a> Scanner<'a> {
    /// The bytes under scan.
    pub closed spec fn text(&self) -> Seq<u8> {
        self.text@
    }

    /// The minimum length of a run that is reported.
    pub closed spec fn min_size(&self) -> u64 {
        self.min_size
    }

    /// Number of bytes consumed so far.
    pub closed spec fn position(&self) -> int {
        self.cursor as int
    }

    /// The records found so far.
    pub closed spec fn found(&self) -> Seq<CaveRecord> {
        self.found@
    }

    /// The scan stands between two runs and holds exactly the caves that begin
    /// before its position.
    pub open spec fn wf(&self) -> bool {
        &&& 0 <= self.position() <= self.text().len()
        &&& at_run_boundary(self.text(), self.position())
        &&& self.found() == caves_before(self.text(), self.min_size() as nat, self.position())
    }

    /// A scan of `text` that has consumed nothing yet.
    pub fn new(text: &'a [u8], min_size: u64) -> (scanner: Self)
        ensures
            scanner.wf(),
            scanner.text() == text@,
            scanner.min_size() == min_size,
            scanner.position() == 0,
            scanner.found() == Seq::<CaveRecord>::empty(),
    {
        Scanner { text, min_size, cursor: 0, found: Vec::new() }
    }

    /// Whether the whole text has been consumed.
    pub fn is_done(&self) -> (done: bool)
        requires
            self.wf(),
        ensures
            done == (self.position() == self.text().len()),
    {
        self.cursor >= self.text.len()
    }

    /// Consumes the run of sentinel bytes at the current position, or one byte
    /// if there is no such run, and returns the number of bytes consumed.
    ///
    /// A run of at least the minimum length is added to the records. Once the
    /// scan is done, nothing is consumed and nothing changes.
    pub fn advance(&mut self) -> (consumed: usize)
        requires
            old(self).wf(),
        ensures
            final(self).wf(),
            final(self).text() == old(self).text(),
            final(self).min_size() == old(self).min_size(),
            final(self).position() == old(self).position() + consumed,
            consumed == if old(self).position() == old(self).text().len() {
                0
            } else if run_length(old(self).text(), old(self).position()) == 0 {
                1
            } else {
                run_length(old(self).text(), old(self).position())
            },
            final(self).found() == if is_cave_start(
                old(self).text(),
                old(self).min_size() as nat,
                old(self).position(),
            ) {
                old(self).found().push(cave_at(old(self).text(), old(self).position()))
            } else {
                old(self).found()
            },
    {
        let start: usize = self.cursor;
        if start >= self.text.len() {
            return 0;
        }
        let length: usize = measure_run(self.text, start);
        if length == 0 {
            self.cursor = start + 1;
            return 1;
        }
        proof {
            lemma_run_contents(self.text@, start as int);
            lemma_no_start_inside_run(
                self.text@,
                self.min_size as nat,
                start as int,
                start + length,
            );
        }
        if length as u64 >= self.min_size {
            self.found.push(CaveRecord { start_offset: start, length: length as u64 });
        }
        self.cursor = start + length;
        length
    }

    /// Ends the scan and hands out the records found so far: every cave of the
    /// text once the scan is done.
    pub fn finish(self) -> (records: Vec<CaveRecord>)
        requires
            self.wf(),
        ensures
            records@ == caves_before(self.text(), self.min_size() as nat, self.position()),
            self.position() == self.text().len() ==> records@ == caves(
                self.text(),
                self.min_size() as nat,
            ),
    {
        self.found
    }
}

/// Length of the run of sentinel bytes that begins at `start`; `0` where
/// `start` lies behind the end of `text`.
pub fn measure_run(text: &[u8], start: usize) -> (length: usize)
    ensures
        length == run_length(text@, start as int),
        length > 0 ==> start + length <= text.len(),
{
    let mut end: usize = start;
    while end < text.len() && text[end] == SENTINEL
        invariant
            start <= end,
            end <= text.len() || end == start,
            run_length(text@, start as int) == (end - start) + run_length(text@, end as int),
        decreases text.len() - end,
    {
        end += 1;
    }
    end - start
}

/// Finds every cave of `text`: each maximal run of at least `min_size`
/// sentinel bytes, in ascending order of offset.
pub fn scan_caves(text: &[u8], min_size: u64) -> (found: Vec<CaveRecord>)
    ensures
        found@ == caves(text@, min_size as nat),
        is_cave_list(text@, min_size as nat, found@),
        forall|k: int|
            0 <= k < found.len() ==> {
                let c = #[trigger] found[k];
                &&& is_run_start(text@, c.start_offset as int)
                &&& c.length == run_length(text@, c.start_offset as int)
                &&& c.length >= min_size
                &&& c.start_offset + c.length <= text.len()
            },
        forall|j: int, k: int|
            0 <= j < k < found.len() ==> (#[trigger] found[j]).start_offset + found[j].length < (
            #[trigger] found[k]).start_offset,
        forall|p: int| covered(found@, p) <==> in_cave(text@, min_size as nat, p),
        text.len() == 0 ==> found.len() == 0,
{
    let mut scanner = Scanner::new(text, min_size);
    while !scanner.is_done()
        invariant
            scanner.wf(),
            scanner.text() == text@,
            scanner.min_size() == min_size,
        decreases text.len() - scanner.position(),
    {
        scanner.advance();
    }
    let found = scanner.finish();
    proof {
        lemma_caves_are_a_cave_list(text@, min_size as nat);
        lemma_caves_are_maximal_runs(text@, min_size as nat);
        lemma_caves_ascending_and_disjoint(text@, min_size as nat);
        lemma_caves_cover(text@, min_size as nat);
        assert forall|k: int| 0 <= k < found.len() implies (#[trigger] found[k]).start_offset
            + found[k].length <= text.len() by {
            lemma_run_contents(text@, found[k].start_offset as int);
        }
    }
    found
}

} // verus!
