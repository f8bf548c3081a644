use vstd::prelude::*;

verus! {

/// The number of pieces, each a hole followed by data, that an assembler can keep apart.
pub const MAX_PIECES: usize = 4;

/// The map with the positions from `offset` on, `size` in number, marked as present, as far
/// as they are on the map.
pub open spec fn marked(map: Seq<bool>, offset: int, size: int) -> Seq<bool> {
    Seq::new(map.len(), |i: int| map[i] || offset <= i < offset + size)
}

/// The number of positions at the front that are present, up to the first hole.
pub open spec fn front(map: Seq<bool>) -> nat
    decreases map.len(),
{
    if map.len() == 0 || !map[0] {
        0
    } else {
        1 + front(map.skip(1))
    }
}

/// The map seen from `n` positions further on.
pub open spec fn advanced(map: Seq<bool>, n: int) -> Seq<bool> {
    Seq::new(map.len(), |i: int| i + n < map.len() && map[i + n])
}

/// Whether nothing on the map is present.
pub open spec fn vacant(map: Seq<bool>) -> bool {
    forall|i: int| 0 <= i < map.len() ==> !#[trigger] map[i]
}

/// Whether a stretch of present positions starts at `i`.
pub open spec fn run_starts(map: Seq<bool>, i: int) -> bool {
    map[i] && (i == 0 || !map[i - 1])
}

/// The number of stretches of present positions.
pub open spec fn runs(map: Seq<bool>) -> nat
    decreases map.len(),
{
    if map.len() == 0 {
        0
    } else {
        runs(map.drop_last()) + if run_starts(map, map.len() - 1) {
            1nat
        } else {
            0nat
        }
    }
}

/// The number of pieces of the map: one for each stretch of present positions together with
/// the hole before it, and one for the hole at the end, if there is one.
pub open spec fn pieces(map: Seq<bool>) -> nat {
    runs(map) + if map.len() > 0 && !map.last() {
        1nat
    } else {
        0nat
    }
}

/// What the length of the front is.
pub proof fn lemma_front(map: Seq<bool>)
    ensures
        front(map) <= map.len(),
        forall|i: int| 0 <= i < front(map) ==> map[i],
        front(map) < map.len() ==> !map[front(map) as int],
    decreases map.len(),
{
    if map.len() > 0 && map[0] {
        let rest = map.skip(1);
        lemma_front(rest);
        assert forall|i: int| 0 <= i < front(map) implies map[i] by {
            if i > 0 {
                assert(rest[i - 1]);
            }
        }
    }
}

/// Only one length of the front fits.
pub proof fn lemma_front_is(map: Seq<bool>, n: int)
    requires
        0 <= n <= map.len(),
        forall|i: int| 0 <= i < n ==> map[i],
        n < map.len() ==> !map[n],
    ensures
        front(map) == n,
{
    lemma_front(map);
    if front(map) < n {
        assert(map[front(map) as int]);
    }
    if n < front(map) {
        assert(map[n]);
    }
}

/// Positions that are absent add no stretch.
proof fn lemma_runs_hole(map: Seq<bool>, start: int, end: int)
    requires
        0 <= start <= end <= map.len(),
        forall|i: int| start <= i < end ==> !map[i],
    ensures
        runs(map.take(end)) == runs(map.take(start)),
    decreases end - start,
{
    if start < end {
        lemma_runs_hole(map, start, end - 1);
        assert(map.take(end).drop_last() =~= map.take(end - 1));
    }
}

/// A stretch of present positions adds one.
proof fn lemma_runs_data(map: Seq<bool>, start: int, end: int)
    requires
        0 <= start < end <= map.len(),
        forall|i: int| start <= i < end ==> map[i],
        start == 0 || !map[start - 1],
    ensures
        runs(map.take(end)) == runs(map.take(start)) + 1,
    decreases end - start,
{
    assert(map.take(end).drop_last() =~= map.take(end - 1));
    if start < end - 1 {
        lemma_runs_data(map, start, end - 1);
        assert(map[end - 2]);
    }
}

/// A stretch of present positions, from `start` up to `end`.
#[derive(Debug, Clone, Copy)]
struct Run {
    start: usize,
    end: usize,
}

/// Whether some run covers position `i`.
spec fn covered(list: Seq<Run>, i: int) -> bool {
    exists|k: int| 0 <= k < list.len() && (#[trigger] list[k]).start <= i < list[k].end
}

/// Whether the runs are not empty, in order, and apart from each other.
spec fn apart(list: Seq<Run>) -> bool {
    &&& forall|k: int| 0 <= k < list.len() ==> (#[trigger] list[k]).start < list[k].end
    &&& forall|k: int, l: int|
        0 <= k < l < list.len() ==> (#[trigger] list[k]).end < (#[trigger] list[l]).start
}

/// The map that the runs draw.
spec fn drawn(list: Seq<Run>, size: int) -> Seq<bool> {
    Seq::new(size as nat, |i: int| covered(list, i))
}

/// The number of pieces that the runs make.
spec fn piece_count(list: Seq<Run>, size: int) -> int {
    list.len() + if size > 0 && (list.len() == 0 || list.last().end < size) {
        1int
    } else {
        0int
    }
}

/// Runs that are apart are the stretches of the map that they draw.
proof fn lemma_runs(list: Seq<Run>, size: int, n: int)
    requires
        apart(list),
        list.len() > 0 ==> list.last().end <= size,
        0 <= n <= list.len(),
    ensures
        n > 0 ==> runs(drawn(list, size).take(list[n - 1].end as int)) == n,
    decreases n,
{
    let map = drawn(list, size);
    if n > 0 {
        lemma_runs(list, size, n - 1);
        let run = list[n - 1];
        let before: int = if n > 1 {
            list[n - 2].end as int
        } else {
            0
        };
        assert(run.end <= list.last().end);
        assert forall|i: int| before <= i < run.start implies !map[i] by {
            if covered(list, i) {
                let k = choose|k: int|
                    0 <= k < list.len() && (#[trigger] list[k]).start <= i < list[k].end;
                assert(k < n - 1 ==> list[k].end <= before);
                assert(k > n - 1 ==> run.end < list[k].start);
            }
        }
        assert forall|i: int| run.start <= i < run.end implies map[i] by {
            assert(covered(list, i));
        }
        lemma_runs_hole(map, before, run.start as int);
        if n == 1 {
            assert(map.take(0) =~= Seq::empty());
        }
        lemma_runs_data(map, run.start as int, run.end as int);
    }
}

/// The pieces of the map that runs draw.
proof fn lemma_pieces(list: Seq<Run>, size: int)
    requires
        apart(list),
        0 <= size,
        list.len() > 0 ==> list.last().end <= size,
    ensures
        pieces(drawn(list, size)) == piece_count(list, size),
{
    let map = drawn(list, size);
    let end: int = if list.len() > 0 {
        list.last().end as int
    } else {
        0
    };
    lemma_runs(list, size, list.len() as int);
    assert forall|i: int| end <= i < size implies !map[i] by {
        if covered(list, i) {
            let k = choose|k: int|
                0 <= k < list.len() && (#[trigger] list[k]).start <= i < list[k].end;
            assert(k < list.len() - 1 ==> list[k].end <= list.last().start);
        }
    }
    lemma_runs_hole(map, end, size);
    assert(map.take(size) =~= map);
    if list.len() == 0 {
        assert(map.take(0) =~= Seq::empty());
    } else if end == size {
        assert(covered(list, size - 1)) by {
            assert(list[list.len() - 1].start <= size - 1);
        }
    }
}

/// Add the positions from `start` up to `end` to the runs.
fn merge(list: &Vec<Run>, start: usize, end: usize, size: usize) -> (out: Vec<Run>)
    requires
        apart(list@),
        start < end <= size,
        list@.len() > 0 ==> list@.last().end <= size,
    ensures
        apart(out@),
        out@.len() > 0,
        out@.last().end <= size,
        forall|x: int| #[trigger] covered(out@, x) <==> covered(list@, x) || start <= x < end,
{
    // The runs that end before the new positions stay as they are.
    let mut out: Vec<Run> = Vec::new();
    let mut i: usize = 0;
    while i < list.len() && list[i].end < start
        invariant
            i <= list@.len(),
            out@ == list@.take(i as int),
            forall|k: int| 0 <= k < i ==> (#[trigger] list@[k]).end < start,
        decreases list@.len() - i,
    {
        out.push(list[i]);
        i = i + 1;
    }
    // Those that overlap or touch them become one with them.
    let mut lo: usize = start;
    let mut hi: usize = end;
    let mut j: usize = i;
    while j < list.len() && list[j].start <= hi
        invariant
            i <= j <= list@.len(),
            apart(list@),
            i < list@.len() ==> list@[i as int].end >= start,
            list@.len() > 0 ==> list@.last().end <= size,
            lo <= start < end <= hi <= size,
            forall|k: int| 0 <= k < i ==> (#[trigger] list@[k]).end < lo,
            forall|k: int| i <= k < j ==> lo <= (#[trigger] list@[k]).start && list@[k].end <= hi,
            forall|x: int| lo <= x < hi ==> start <= x < end || #[trigger] covered(list@, x),
        decreases list@.len() - j,
    {
        let run = list[j];
        assert(run.end >= start) by {
            assert(j > i ==> list@[i as int].end < run.start);
        }
        assert(run.end <= size) by {
            assert(j < list@.len() - 1 ==> run.end < list@.last().start);
        }
        assert forall|x: int| run.start <= x < run.end implies #[trigger] covered(list@, x) by {
            assert(list@[j as int] == run);
        }
        if run.start < lo {
            lo = run.start;
        }
        if run.end > hi {
            hi = run.end;
        }
        j = j + 1;
    }
    out.push(Run { start: lo, end: hi });
    // The rest start after them.
    let ghost middle = out@;
    let mut l: usize = j;
    while l < list.len()
        invariant
            j <= l <= list@.len(),
            out@ == middle + list@.subrange(j as int, l as int),
        decreases list@.len() - l,
    {
        out.push(list[l]);
        l = l + 1;
    }
    proof {
        let merged = Run { start: lo, end: hi };
        assert(out@ =~= list@.take(i as int) + seq![merged] + list@.skip(j as int));
        assert(j < list@.len() ==> out@.last() == list@.last());
        assert forall|x: int| #[trigger]
            covered(out@, x) <==> covered(list@, x) || start <= x < end by {
            if covered(out@, x) {
                let k = choose|k: int|
                    0 <= k < out@.len() && (#[trigger] out@[k]).start <= x < out@[k].end;
                if k < i {
                    assert(list@[k] == out@[k]);
                } else if k > i {
                    assert(list@[k - i - 1 + j] == out@[k]);
                }
            }
            if covered(list@, x) {
                let k = choose|k: int|
                    0 <= k < list@.len() && (#[trigger] list@[k]).start <= x < list@[k].end;
                if k < i {
                    assert(out@[k] == list@[k]);
                } else if k < j {
                    assert(out@[i as int] == merged);
                } else {
                    assert(out@[k - j + i + 1] == list@[k]);
                }
            }
            if start <= x < end {
                assert(out@[i as int] == merged);
            }
        }
        assert forall|k: int, l: int| 0 <= k < l < out@.len() implies (#[trigger] out@[k]).end
            < (#[trigger] out@[l]).start by {
            if l > i {
                assert(out@[l] == list@[l - i - 1 + j]);
                if k > i {
                    assert(out@[k] == list@[k - i - 1 + j]);
                } else if k < i {
                    assert(out@[k] == list@[k]);
                } else if l > i + 1 {
                    assert(list@[j as int].start < list@[l - i - 1 + j].start);
                }
            } else {
                assert(out@[k] == list@[k]);
            }
        }
    }
    out
}

/// An assembler: it records which octets of the free part of a buffer have been filled in
/// ahead of those in front of them.
#[derive(Debug)]
pub struct Assembler {
    size: usize,
    list: Vec<Run>,
}

impl View for Assembler {
    type V = Seq<bool>;

    closed spec fn view(&self) -> Seq<bool> {
        drawn(self.list@, self.size as int)
    }
}

impl Assembler {
    /// The assembler's invariant: the runs are apart, on the map, and not too many.
    pub closed spec fn wf(&self) -> bool {
        &&& apart(self.list@)
        &&& self.list@.len() > 0 ==> self.list@.last().end <= self.size
        &&& piece_count(self.list@, self.size as int) <= MAX_PIECES
    }

    /// What the invariant means for the map.
    pub proof fn lemma_wf(&self)
        requires
            self.wf(),
        ensures
            pieces(self@) <= MAX_PIECES,
            self@.len() <= usize::MAX,
    {
        lemma_pieces(self.list@, self.size as int);
    }

    /// Create an assembler for a buffer of the given size, with nothing filled in.
    pub fn new(size: usize) -> (assembler: Assembler)
        ensures
            assembler.wf(),
            assembler@ == Seq::new(size as nat, |i: int| false),
    {
        let assembler = Assembler { size, list: Vec::new() };
        assert(assembler@ =~= Seq::new(size as nat, |i: int| false));
        assembler
    }

    /// Return the size of the buffer.
    pub fn total_size(&self) -> (size: usize)
        ensures
            size == self@.len(),
    {
        self.size
    }

    /// Query whether nothing is filled in.
    pub fn is_empty(&self) -> (yes: bool)
        requires
            self.wf(),
        ensures
            yes == vacant(self@),
    {
        let yes = self.list.len() == 0;
        proof {
            if !yes {
                let run = self.list@[0];
                assert(run.end <= self.list@.last().end);
                assert(covered(self.list@, run.start as int));
                assert(self@[run.start as int]);
            }
        }
        yes
    }

    /// Record that `size` octets from `offset` on have been filled in.
    ///
    /// The assembler can only keep a limited number of pieces apart. If there would be more,
    /// it records nothing and returns an error.
    pub fn add(&mut self, offset: usize, size: usize) -> (result: core::result::Result<(), ()>)
        requires
            old(self).wf(),
        ensures
            final(self).wf(),
            result is Ok <==> pieces(marked(old(self)@, offset as int, size as int)) <= MAX_PIECES,
            final(self)@ == if result is Ok {
                marked(old(self)@, offset as int, size as int)
            } else {
                old(self)@
            },
    {
        let ghost target = marked(self@, offset as int, size as int);
        if size == 0 || offset >= self.size {
            assert(target =~= self@);
            proof {
                self.lemma_wf();
            }
            return Ok(());
        }
        let end: usize = if size < self.size - offset {
            offset + size
        } else {
            self.size
        };
        let list = merge(&self.list, offset, end, self.size);
        assert(drawn(list@, self.size as int) =~= target) by {
            assert forall|i: int| 0 <= i < self.size implies drawn(list@, self.size as int)[i]
                == target[i] by {
                assert(covered(list@, i) <==> covered(self.list@, i) || offset <= i < end);
            }
        }
        proof {
            lemma_pieces(list@, self.size as int);
        }
        let count: usize = if list[list.len() - 1].end < self.size {
            list.len()
        } else {
            list.len() - 1
        };
        if count >= MAX_PIECES {
            return Err(());
        }
        self.list = list;
        Ok(())
    }

    /// If the octets at the front have been filled in, advance past all those up to the first
    /// hole and return their number.
    pub fn remove_front(&mut self) -> (count: Option<usize>)
        requires
            old(self).wf(),
        ensures
            final(self).wf(),
            count is Some <==> front(old(self)@) > 0,
            count matches Some(n) ==> n == front(old(self)@),
            final(self)@ == advanced(old(self)@, front(old(self)@) as int),
    {
        proof {
            lemma_front(self@);
        }
        if self.list.len() == 0 || self.list[0].start > 0 {
            proof {
                if self@.len() > 0 && covered(self.list@, 0) {
                    let k = choose|k: int|
                        0 <= k < self.list@.len() && (#[trigger] self.list@[k]).start <= 0
                            < self.list@[k].end;
                    assert(self.list@[0].end < self.list@[k].start || k == 0);
                }
                assert(advanced(self@, 0) =~= self@);
            }
            return None;
        }
        let count: usize = self.list[0].end;
        proof {
            assert(count <= self.list@.last().end);
            assert forall|i: int| 0 <= i < count implies self@[i] by {
                assert(self.list@[0].start <= i < self.list@[0].end);
            }
            if count < self@.len() && covered(self.list@, count as int) {
                let k = choose|k: int|
                    0 <= k < self.list@.len() && (#[trigger] self.list@[k]).start <= count
                        < self.list@[k].end;
                assert(k > 0 ==> self.list@[0].end < self.list@[k].start);
            }
            lemma_front_is(self@, count as int);
        }
        let mut list: Vec<Run> = Vec::new();
        let mut i: usize = 1;
        while i < self.list.len()
            invariant
                1 <= i <= self.list@.len(),
                apart(self.list@),
                count == self.list@[0].end,
                list@.len() == i - 1,
                forall|k: int|
                    0 <= k < i - 1 ==> {
                        &&& (#[trigger] list@[k]).start == self.list@[k + 1].start - count
                        &&& list@[k].end == self.list@[k + 1].end - count
                    },
            decreases self.list@.len() - i,
        {
            let run = self.list[i];
            assert(self.list@[0].end < run.start);
            list.push(Run { start: run.start - count, end: run.end - count });
            i = i + 1;
        }
        let ghost target = advanced(self@, count as int);
        proof {
            assert forall|x: int| 0 <= x < self.size implies drawn(list@, self.size as int)[x]
                == target[x] by {
                if covered(list@, x) {
                    let k = choose|k: int|
                        0 <= k < list@.len() && (#[trigger] list@[k]).start <= x < list@[k].end;
                    assert(self.list@[k + 1].start <= x + count < self.list@[k + 1].end);
                    assert(self.list@[k + 1].end <= self.list@.last().end);
                }
                if x + count < self.size && covered(self.list@, x + count) {
                    let k = choose|k: int|
                        0 <= k < self.list@.len() && (#[trigger] self.list@[k]).start <= x + count
                            < self.list@[k].end;
                    assert(list@[k - 1].start <= x < list@[k - 1].end);
                }
            }
            assert(drawn(list@, self.size as int) =~= target);
            assert(list@.len() > 0 ==> list@.last().end == self.list@.last().end - count);
        }
        self.list = list;
        Some(count)
    }
}

/// The order in which octets are filled in does not matter.
pub proof fn law_order_does_not_matter(
    map: Seq<bool>,
    offset: int,
    size: int,
    other_offset: int,
    other_size: int,
)
    ensures
        marked(marked(map, offset, size), other_offset, other_size) == marked(
            marked(map, other_offset, other_size),
            offset,
            size,
        ),
{
    assert(marked(marked(map, offset, size), other_offset, other_size) =~= marked(
        marked(map, other_offset, other_size),
        offset,
        size,
    ));
}

/// What is filled in at the front can be passed on.
pub proof fn law_front_is_passed_on(map: Seq<bool>, size: int)
    requires
        0 <= size <= map.len(),
    ensures
        size <= front(marked(map, 0, size)) <= map.len(),
{
    let after = marked(map, 0, size);
    lemma_front(after);
    if front(after) < size {
        assert(after[front(after) as int]);
    }
}

/// Where nothing is missing, what is filled in at the front always fits, and nothing is left.
pub proof fn law_in_order_always_fits(map: Seq<bool>, size: int)
    requires
        vacant(map),
        0 <= size <= map.len(),
    ensures
        pieces(marked(map, 0, size)) <= MAX_PIECES,
        front(marked(map, 0, size)) == size,
        vacant(advanced(marked(map, 0, size), size)),
{
    let after = marked(map, 0, size);
    lemma_front_is(after, size);
    assert(after.take(0) =~= Seq::empty());
    if size > 0 {
        lemma_runs_data(after, 0, size);
    }
    lemma_runs_hole(after, size, after.len() as int);
    assert(after.take(after.len() as int) =~= after);
}

/// Where the stretches of present positions begin.
pub open spec fn beginnings(map: Seq<bool>) -> Set<int> {
    Set::new(|i: int| 0 <= i < map.len() && map[i] && (i > 0 ==> !map[i - 1]))
}

/// There are as many pieces as there are stretches of present positions, and one more if the map
/// ends with a hole.
pub proof fn law_pieces_are_counted(map: Seq<bool>)
    ensures
        beginnings(map).finite(),
        map.len() > 0 && !map[map.len() - 1] ==> pieces(map) == beginnings(map).len() + 1,
        map.len() == 0 || map[map.len() - 1] ==> pieces(map) == beginnings(map).len(),
{
    lemma_beginnings(map);
}

/// Each stretch of present positions has a beginning.
proof fn lemma_beginnings(map: Seq<bool>)
    ensures
        beginnings(map).finite(),
        runs(map) == beginnings(map).len(),
    decreases map.len(),
{
    if map.len() == 0 {
        assert(beginnings(map) =~= Set::empty());
    } else {
        let rest = map.drop_last();
        let last = map.len() - 1;
        lemma_beginnings(rest);
        if run_starts(map, last) {
            assert(beginnings(map) =~= beginnings(rest).insert(last));
        } else {
            assert(beginnings(map) =~= beginnings(rest));
        }
    }
}

/// What the operations on a map do to a position: filling in makes those in the range present and
/// no others, and passing on moves all of them to the front, with holes behind.
pub proof fn law_positions(map: Seq<bool>, offset: int, size: int, n: int, i: int)
    requires
        0 <= i < map.len(),
        0 <= n,
    ensures
        marked(map, offset, size).len() == map.len(),
        marked(map, offset, size)[i] <==> map[i] || offset <= i < offset + size,
        advanced(map, n).len() == map.len(),
        advanced(map, n)[i] <==> i + n < map.len() && map[i + n],
        vacant(map) ==> !map[i],
        (forall|j: int| 0 <= j < map.len() ==> !#[trigger] map[j]) ==> vacant(map),
{
}

/// The front ends at the first hole.
pub proof fn law_front_ends_at_a_hole(map: Seq<bool>, i: int)
    ensures
        front(map) <= map.len(),
        0 <= i < front(map) ==> map[i],
        front(map) < map.len() ==> !map[front(map) as int],
{
    lemma_front(map);
}

/// No more than four pieces are kept.
pub proof fn law_four_pieces(assembler: Assembler)
    requires
        assembler.wf(),
    ensures
        pieces(assembler@) <= 4,
        MAX_PIECES == 4,
{
    assembler.lemma_wf();
}

} // verus!
