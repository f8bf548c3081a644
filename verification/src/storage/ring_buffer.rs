use vstd::math::min;
use vstd::prelude::*;

verus! {

/// What a ring buffer holds.
///
/// The storage of the buffer is a circle. Starting at `head` and going around once, it holds
/// the `contents`, in the order in which they were enqueued, and then the `free` elements,
/// in the order in which they will be enqueued.
#[verifier::ext_equal]
pub struct Ring<T> {
    pub contents: Seq<T>,
    pub free: Seq<T>,
    pub head: int,
}

/// The sequence with `data` written over it from `offset` on, as far as there is room.
pub open spec fn overwritten<T>(s: Seq<T>, offset: int, data: Seq<T>) -> Seq<T> {
    Seq::new(
        s.len(),
        |i: int|
            if offset <= i < offset + data.len() {
                data[i - offset]
            } else {
                s[i]
            },
    )
}

impl<T> Ring<T> {
    pub open spec fn capacity(self) -> int {
        (self.contents.len() + self.free.len()) as int
    }

    pub open spec fn wf(self) -> bool {
        &&& self.capacity() <= usize::MAX
        &&& 0 <= self.head
        &&& self.head < self.capacity() || (self.head == 0 && self.capacity() == 0)
    }

    /// The place in storage that is reached from the head after `n` steps.
    pub open spec fn place(self, n: int) -> int {
        if self.head + n < self.capacity() {
            self.head + n
        } else {
            self.head + n - self.capacity()
        }
    }

    /// How many elements can be reached from the place `n` steps past the head, that one
    /// included, before the storage ends.
    pub open spec fn until_end(self, n: int) -> int {
        self.capacity() - self.place(n)
    }

    /// The longest part of the contents that starts at `offset`, is no longer than `size`,
    /// and lies in storage in one piece.
    pub open spec fn piece(self, offset: int, size: int) -> Seq<T> {
        if offset > self.contents.len() {
            Seq::empty()
        } else {
            self.contents.subrange(
                offset,
                offset + min(size, min(self.contents.len() - offset, self.until_end(offset))),
            )
        }
    }

    /// The length of the longest part of the free space that starts right after the contents,
    /// is no longer than `size`, and lies in storage in one piece.
    pub open spec fn free_piece_len(self, size: int) -> int {
        min(size, min(self.free.len() as int, self.until_end(self.contents.len() as int)))
    }

    /// Turn the first `n` free elements into the last of the contents.
    pub open spec fn enqueued(self, n: int) -> Ring<T> {
        Ring { contents: self.contents + self.free.take(n), free: self.free.skip(n), ..self }
    }

    /// Enqueue the given elements, in place of as many free ones.
    pub open spec fn appended(self, data: Seq<T>) -> Ring<T> {
        Ring {
            contents: self.contents + data,
            free: self.free.skip(data.len() as int),
            ..self
        }
    }

    /// Turn the first `n` elements of the contents into the last of the free ones.
    pub open spec fn dequeued(self, n: int) -> Ring<T> {
        Ring {
            contents: self.contents.skip(n),
            free: self.free + self.contents.take(n),
            head: self.place(n),
        }
    }

    /// Write over the free elements, starting at the one that is `offset` past the contents.
    pub open spec fn written(self, offset: int, data: Seq<T>) -> Ring<T> {
        Ring { free: overwritten(self.free, offset, data), ..self }
    }

    /// Free everything, and start over at the beginning of the storage.
    pub open spec fn cleared(self) -> Ring<T> {
        let all = self.contents + self.free;
        let split = self.capacity() - self.head;
        Ring { contents: Seq::empty(), free: all.skip(split) + all.take(split), head: 0 }
    }
}

/// A ring buffer: a queue of fixed capacity, whose elements are accessible in place.
///
/// The elements beyond the end of the queue are accessible too: they can be written ahead
/// of time, out of order, and enqueued when those in front of them have arrived.
#[derive(Debug)]
pub struct RingBuffer<T> {
    storage: Vec<T>,
    head: usize,
    length: usize,
}

impl<T> View for RingBuffer<T> {
    type V = Ring<T>;

    closed spec fn view(&self) -> Ring<T> {
        laid_out(self.storage@, self.head as int, self.length as int)
    }
}

/// The place in a circular storage that is reached from the head after `n` steps.
spec fn around(size: int, head: int, n: int) -> int {
    if head + n < size {
        head + n
    } else {
        head + n - size
    }
}

/// The ring with the given storage.
spec fn laid_out<T>(storage: Seq<T>, head: int, length: int) -> Ring<T> {
    let size = storage.len() as int;
    Ring {
        contents: Seq::new(length as nat, |i: int| storage[around(size, head, i)]),
        free: Seq::new((size - length) as nat, |i: int| storage[around(size, head, length + i)]),
        head,
    }
}

/// Filling the storage in one piece, right after the contents, and enqueueing that piece is
/// appending to the contents.
proof fn lemma_filled<T>(storage: Seq<T>, head: int, length: int, data: Seq<T>)
    requires
        0 <= length <= storage.len(),
        0 <= head < storage.len() || (head == 0 && storage.len() == 0),
        data.len() <= storage.len() - length,
        around(storage.len() as int, head, length) + data.len() <= storage.len(),
    ensures
        ({
            let start = around(storage.len() as int, head, length);
            let filled = storage.take(start) + data + storage.skip(start + data.len());
            laid_out(filled, head, length + data.len()) == laid_out(storage, head, length).appended(
                data,
            )
        }),
{
    let start = around(storage.len() as int, head, length);
    let filled = storage.take(start) + data + storage.skip(start + data.len());
    let before = laid_out(storage, head, length);
    let after = laid_out(filled, head, length + data.len());
    assert(after =~= before.appended(data));
}

/// Give access to a range of a vector, in place.
///
/// Stands for indexing a vector by a range to get a mutable slice, an operation of the
/// standard library. Claimed of it: the slice holds the elements of the range, it keeps its
/// length for as long as it lives, and what is written through it ends up in the range, with
/// all other elements of the vector left alone.
#[verifier::external_body]
fn range_mut<T>(v: &mut Vec<T>, start: usize, end: usize) -> (slice: &mut [T])
    requires
        start <= end <= old(v)@.len(),
    ensures
        slice@ == old(v)@.subrange(start as int, end as int),
        final(slice)@.len() == end - start,
        final(v)@ == old(v)@.take(start as int) + final(slice)@ + old(v)@.skip(end as int),
{
    &mut v[start..end]
}

impl<T> RingBuffer<T> {
    /// The buffer's invariant: the queue fits into the storage and starts inside of it.
    pub closed spec fn wf(&self) -> bool {
        &&& self.length <= self.storage@.len()
        &&& self.head < self.storage@.len() || (self.head == 0 && self.storage@.len() == 0)
    }

    /// What the invariant means for the model.
    pub proof fn lemma_wf(&self)
        requires
            self.wf(),
        ensures
            self@.wf(),
    {
        assert(self.storage.len() <= usize::MAX);
    }

    /// Create a ring buffer with the given storage.
    pub fn new(storage: Vec<T>) -> (ring: RingBuffer<T>)
        ensures
            ring.wf(),
            ring@ == (Ring { contents: Seq::empty(), free: storage@, head: 0 }),
    {
        RingBuffer { storage, head: 0, length: 0 }
    }

    /// Free all elements.
    pub fn clear(&mut self)
        requires
            old(self).wf(),
        ensures
            final(self).wf(),
            final(self)@ == old(self)@.cleared(),
    {
        self.head = 0;
        self.length = 0;
        assert(self@ =~= old(self)@.cleared());
    }

    /// Return the maximum number of elements in the queue.
    pub fn capacity(&self) -> (capacity: usize)
        requires
            self.wf(),
        ensures
            capacity == self@.capacity(),
    {
        self.storage.len()
    }

    /// Return the number of elements in the queue.
    pub fn len(&self) -> (len: usize)
        requires
            self.wf(),
        ensures
            len == self@.contents.len(),
    {
        self.length
    }

    /// Return the number of elements that can be added to the queue.
    pub fn window(&self) -> (window: usize)
        requires
            self.wf(),
        ensures
            window == self@.free.len(),
    {
        self.storage.len() - self.length
    }

    /// Query whether the queue is empty.
    pub fn is_empty(&self) -> (yes: bool)
        requires
            self.wf(),
        ensures
            yes == (self@.contents.len() == 0),
    {
        self.length == 0
    }

    /// Query whether the queue is full.
    pub fn is_full(&self) -> (yes: bool)
        requires
            self.wf(),
        ensures
            yes == (self@.free.len() == 0),
    {
        self.storage.len() == self.length
    }

    /// Return the place in storage that is `i` steps past the head.
    fn index(&self, i: usize) -> (place: usize)
        requires
            self.wf(),
            i <= self.storage@.len(),
        ensures
            place == around(self.storage@.len() as int, self.head as int, i as int),
    {
        let until_end: usize = self.storage.len() - self.head;
        if i < until_end {
            self.head + i
        } else {
            i - until_end
        }
    }

    /// Return the longest part of the queue that starts at `offset`, is no longer than `size`,
    /// and lies in storage in one piece.
    pub fn get_allocated(&self, offset: usize, size: usize) -> (slice: &[T])
        requires
            self.wf(),
        ensures
            slice@ == self@.piece(offset as int, size as int),
    {
        if offset > self.length {
            return &self.storage.as_slice()[0..0];
        }
        let start: usize = self.index(offset);
        let mut len: usize = self.length - offset;
        let until_end: usize = self.storage.len() - start;
        if until_end < len {
            len = until_end;
        }
        if size < len {
            len = size;
        }
        let slice = &self.storage.as_slice()[start..start + len];
        assert(slice@ =~= self@.piece(offset as int, size as int));
        slice
    }

    /// Remove `count` elements from the front of the queue.
    pub fn dequeue_allocated(&mut self, count: usize)
        requires
            old(self).wf(),
            count <= old(self)@.contents.len(),
        ensures
            final(self).wf(),
            final(self)@ == old(self)@.dequeued(count as int),
    {
        self.head = self.index(count);
        self.length = self.length - count;
        assert(self@ =~= old(self)@.dequeued(count as int));
    }

    /// Add the first `count` free elements to the back of the queue.
    pub fn enqueue_unallocated(&mut self, count: usize)
        requires
            old(self).wf(),
            count <= old(self)@.free.len(),
        ensures
            final(self).wf(),
            final(self)@ == old(self)@.enqueued(count as int),
    {
        proof {
            self.lemma_wf();
        }
        self.length = self.length + count;
        assert(self@ =~= old(self)@.enqueued(count as int));
    }

    /// Remove the longest part of the front of the queue that is no longer than `size` and
    /// lies in storage in one piece, and return it.
    pub fn dequeue_many(&mut self, size: usize) -> (slice: &[T])
        requires
            old(self).wf(),
        ensures
            final(self).wf(),
            slice@ == old(self)@.piece(0, size as int),
            final(self)@ == old(self)@.dequeued(slice@.len() as int),
    {
        proof {
            self.lemma_wf();
        }
        let start: usize = self.head;
        let len: usize = self.get_allocated(0, size).len();
        self.head = self.index(len);
        self.length = self.length - len;
        assert(self@ =~= old(self)@.dequeued(len as int));
        let slice = &self.storage.as_slice()[start..start + len];
        assert(slice@ =~= old(self)@.piece(0, size as int));
        slice
    }

    /// Add to the back of the queue the longest part of the free space that is no longer than
    /// `size` and lies in storage in one piece, and return it for the caller to fill.
    pub fn enqueue_many(&mut self, size: usize) -> (slice: &mut [T])
        requires
            old(self).wf(),
        ensures
            final(self).wf(),
            slice@ == old(self)@.free.take(old(self)@.free_piece_len(size as int)),
            final(slice)@.len() == slice@.len(),
            final(self)@ == old(self)@.appended(final(slice)@),
    {
        let start: usize = self.index(self.length);
        let mut len: usize = self.window();
        let until_end: usize = self.storage.len() - start;
        if until_end < len {
            len = until_end;
        }
        if size < len {
            len = size;
        }
        proof {
            self.lemma_wf();
        }
        self.length = self.length + len;
        let slice = range_mut(&mut self.storage, start, start + len);
        proof {
            lemma_filled(
                old(self).storage@,
                old(self).head as int,
                old(self).length as int,
                final(slice)@,
            );
        }
        slice
    }
}

impl<T: Copy> RingBuffer<T> {
    /// Copy the front of the queue into a slice, as far as there are elements and as far as
    /// the slice has room, and return the number of elements copied.
    pub fn copy_front(&self, data: &mut [T]) -> (count: usize)
        requires
            self.wf(),
        ensures
            count == min(self@.contents.len() as int, old(data)@.len() as int),
            final(data)@ == overwritten(old(data)@, 0, self@.contents.take(count as int)),
    {
        let mut count: usize = self.length;
        if data.len() < count {
            count = data.len();
        }
        let mut i: usize = 0;
        while i < count
            invariant
                self.wf(),
                i <= count <= data@.len(),
                count <= self@.contents.len(),
                data@ =~= overwritten(old(data)@, 0, self@.contents.take(i as int)),
            decreases count - i,
        {
            data[i] = self.storage[self.index(i)];
            i = i + 1;
        }
        count
    }

    /// Write over the free elements, starting at the one that is `offset` past the queue,
    /// as far as there is room, and return the number of elements written.
    pub fn write_unallocated(&mut self, offset: usize, data: &[T]) -> (count: usize)
        requires
            old(self).wf(),
        ensures
            final(self).wf(),
            final(self)@ == old(self)@.written(offset as int, data@),
            count == if offset > old(self)@.free.len() {
                0
            } else {
                min(old(self)@.free.len() - offset, data@.len() as int)
            },
    {
        let window: usize = self.window();
        let mut count: usize = 0;
        if offset < window {
            count = window - offset;
        }
        if data.len() < count {
            count = data.len();
        }
        let mut i: usize = 0;
        while i < count
            invariant
                self.wf(),
                i <= count <= data@.len(),
                i < count ==> offset + count <= self@.free.len(),
                self.length == old(self).length,
                self.head == old(self).head,
                self.storage@.len() == old(self).storage@.len(),
                self@ =~= old(self)@.written(offset as int, data@.take(i as int)),
            decreases count - i,
        {
            proof {
                self.lemma_wf();
            }
            let place: usize = self.index(self.length + (offset + i));
            let ghost before = self@;
            self.storage[place] = data[i];
            assert(self@.contents =~= before.contents);
            assert(self@.free =~= before.free.update(offset + i, data@[i as int]));
            i = i + 1;
        }
        assert(self@ =~= old(self)@.written(offset as int, data@));
        count
    }

    /// Add as many of the given elements to the back of the queue as there is room for, and
    /// return their number.
    pub fn enqueue_slice(&mut self, data: &[T]) -> (count: usize)
        requires
            old(self).wf(),
        ensures
            final(self).wf(),
            count == min(old(self)@.free.len() as int, data@.len() as int),
            final(self)@ == old(self)@.appended(data@.take(count as int)),
    {
        let count: usize = self.write_unallocated(0, data);
        self.enqueue_unallocated(count);
        assert(self@ =~= old(self)@.appended(data@.take(count as int)));
        count
    }

    /// Remove as many elements from the front of the queue as the slice has room for, copy
    /// them into it, and return their number.
    pub fn dequeue_slice(&mut self, data: &mut [T]) -> (count: usize)
        requires
            old(self).wf(),
        ensures
            final(self).wf(),
            count == min(old(self)@.contents.len() as int, old(data)@.len() as int),
            final(data)@ == overwritten(old(data)@, 0, old(self)@.contents.take(count as int)),
            final(self)@ == old(self)@.dequeued(count as int),
    {
        let count: usize = self.copy_front(data);
        self.dequeue_allocated(count);
        count
    }
}

/// The capacity of a ring buffer never changes.
pub proof fn law_capacity_is_kept<T>(ring: Ring<T>, n: int, offset: int, data: Seq<T>)
    requires
        ring.wf(),
    ensures
        0 <= n <= ring.free.len() ==> ring.enqueued(n).capacity() == ring.capacity(),
        0 <= n <= ring.contents.len() ==> ring.dequeued(n).capacity() == ring.capacity(),
        data.len() <= ring.free.len() ==> ring.appended(data).capacity() == ring.capacity(),
        ring.written(offset, data).capacity() == ring.capacity(),
        ring.cleared().capacity() == ring.capacity(),
{
}

/// What goes in first comes out first.
pub proof fn law_first_in_first_out<T>(ring: Ring<T>, data: Seq<T>)
    requires
        data.len() <= ring.free.len(),
    ensures
        ring.appended(data).contents.take(ring.contents.len() as int) == ring.contents,
        ring.appended(data).dequeued(ring.contents.len() as int).contents == data,
{
    let after = ring.appended(data);
    assert(after.contents.take(ring.contents.len() as int) =~= ring.contents);
    assert(after.contents.skip(ring.contents.len() as int) =~= data);
}

/// What is written ahead of time, and enqueued when what belongs before it has been written too,
/// is the same as what is appended in order.
pub proof fn law_written_ahead<T>(ring: Ring<T>, first: Seq<T>, second: Seq<T>)
    requires
        first.len() + second.len() <= ring.free.len(),
    ensures
        ring.written(first.len() as int, second).written(0, first).enqueued(
            (first.len() + second.len()) as int,
        ) == ring.appended(first + second),
{
    let written = ring.written(first.len() as int, second).written(0, first);
    let after = written.enqueued((first.len() + second.len()) as int);
    assert(after =~= ring.appended(first + second));
}

/// Taking out of the front leaves the rest in order, and adds what was taken to the end of the free
/// space; the head moves on, around the end of the storage.
pub proof fn law_taken_from_the_front<T>(ring: Ring<T>, n: int)
    requires
        ring.wf(),
        0 <= n <= ring.contents.len(),
    ensures
        ({
            let after = ring.dequeued(n);
            let size = ring.contents.len() + ring.free.len();
            &&& ring.contents.take(n) + after.contents == ring.contents
            &&& after.free == ring.free + ring.contents.take(n)
            &&& after.head == ring.head + n || after.head == ring.head + n - size
            &&& after.wf()
        }),
{
    assert(ring.contents.take(n) + ring.contents.skip(n) =~= ring.contents);
}

/// Putting in at the end leaves what was there in order, and takes up as much of the free space.
pub proof fn law_put_in_at_the_end<T>(ring: Ring<T>, data: Seq<T>, n: int)
    requires
        ring.wf(),
        data.len() <= ring.free.len(),
        0 <= n <= ring.free.len(),
    ensures
        ({
            let after = ring.appended(data);
            &&& after.contents == ring.contents + data
            &&& after.free.len() == ring.free.len() - data.len()
            &&& ring.free.take(data.len() as int) + after.free == ring.free
            &&& after.head == ring.head
            &&& after.wf()
        }),
        ring.enqueued(n) == ring.appended(ring.free.take(n)),
{
    assert(ring.free.take(data.len() as int) + ring.free.skip(data.len() as int) =~= ring.free);
}

/// Writing ahead changes the free space at the given place and nothing else, and never beyond it.
pub proof fn law_written_in_place<T>(ring: Ring<T>, offset: int, data: Seq<T>, i: int)
    requires
        0 <= offset,
        0 <= i < ring.free.len(),
    ensures
        ({
            let after = ring.written(offset, data);
            &&& after.contents == ring.contents
            &&& after.head == ring.head
            &&& after.free.len() == ring.free.len()
            &&& offset <= i < offset + data.len() ==> after.free[i] == data[i - offset]
            &&& i < offset || offset + data.len() <= i ==> after.free[i] == ring.free[i]
        }),
{
}

/// Copying over a sequence changes as much of it as there is to copy, and keeps the rest and the
/// length.
pub proof fn law_overwritten_in_place<T>(s: Seq<T>, offset: int, data: Seq<T>, i: int)
    requires
        0 <= i < s.len(),
    ensures
        overwritten(s, offset, data).len() == s.len(),
        offset <= i < offset + data.len() ==> overwritten(s, offset, data)[i] == data[i - offset],
        !(offset <= i < offset + data.len()) ==> overwritten(s, offset, data)[i] == s[i],
{
}

/// Clearing a buffer leaves nothing in it, makes all of it free, and starts over at the beginning
/// of the storage.
pub proof fn law_cleared_is_empty<T>(ring: Ring<T>)
    requires
        ring.wf(),
    ensures
        ring.cleared().contents.len() == 0,
        ring.cleared().free.len() == ring.contents.len() + ring.free.len(),
        ring.cleared().head == 0,
        ring.cleared().wf(),
        ring.capacity() == ring.contents.len() + ring.free.len(),
{
}

/// A piece of the contents starts at the given place, and goes as far as it may: to the given size,
/// to the end of the contents, or to the end of the storage.
pub proof fn law_pieces_are_maximal<T>(ring: Ring<T>, offset: int, size: int)
    requires
        ring.wf(),
        0 <= offset,
        0 <= size,
    ensures
        ({
            let piece = ring.piece(offset, size);
            let end = offset + piece.len();
            let all = ring.contents.len() + ring.free.len();
            &&& offset > ring.contents.len() ==> piece.len() == 0
            &&& offset <= ring.contents.len() ==> {
                &&& end <= ring.contents.len()
                &&& piece == ring.contents.subrange(offset, end)
                &&& piece.len() <= size
                &&& piece.len() == size || end == ring.contents.len() || ring.head + end == all
                    || ring.head + end == 2 * all
                &&& size > 0 && offset < ring.contents.len() ==> piece.len() > 0
            }
        }),
{
}

/// A piece of the free space starts at the end of the contents, and goes as far as it may: to the
/// given size, to the end of the free space, or to the end of the storage.
pub proof fn law_free_pieces_are_maximal<T>(ring: Ring<T>, size: int)
    requires
        ring.wf(),
        0 <= size,
    ensures
        ({
            let len = ring.free_piece_len(size);
            let end = ring.contents.len() + len;
            let all = ring.contents.len() + ring.free.len();
            &&& 0 <= len <= size
            &&& len <= ring.free.len()
            &&& len == size || len == ring.free.len() || ring.head + end == all || ring.head + end
                == 2 * all
            &&& size > 0 && ring.free.len() > 0 ==> len > 0
        }),
{
}

} // verus!
