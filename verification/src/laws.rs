//! What holds of readers and writers over many steps.
//!
//! The functions of a reader and of a writer each state one step. The proofs
//! here put steps together: writes that stay in the buffer, the progress that
//! every answer of a stream brings, the way of elements from a writer through
//! a store to a reader, and whole runs against a stream that takes or gives a
//! little at a time.

use crate::read::{ReadView, Refill};
use crate::store::least;
use crate::write::{EndOfFile, Step, WriteView};
use either::Either;
use vstd::prelude::*;

verus! {

/// The elements of `chunks`, one chunk after the other.
pub open spec fn joined<T>(chunks: Seq<Seq<T>>) -> Seq<T>
    decreases chunks.len(),
{
    if chunks.len() == 0 {
        Seq::empty()
    } else {
        joined(chunks.drop_last()) + chunks.last()
    }
}

/// The writer after a write of each of `chunks` was begun, one after the
/// other, and none was taken further than that.
pub open spec fn after_writes<T, W>(w: WriteView<T, W>, chunks: Seq<Seq<T>>) -> WriteView<T, W>
    decreases chunks.len(),
{
    if chunks.len() == 0 {
        w
    } else {
        after_writes(w, chunks.drop_last()).begin_write(chunks.last()).0
    }
}

/// Writes that together fit the room of the buffer do not reach the stream.
///
/// Each of them in its turn is done when it begins, with the length of its
/// chunk, and asks for no vectored write; in the end the buffer holds the old
/// backlog and behind it all the chunks in their order.
pub proof fn law_writes_within_capacity_stay_buffered<T, W>(
    w: WriteView<T, W>,
    chunks: Seq<Seq<T>>,
)
    requires
        w.wf(),
        w.backlog.len() + joined(chunks).len() <= w.capacity,
    ensures
        forall|i: int|
            0 <= i < chunks.len() ==> (#[trigger] after_writes(w, chunks.take(i))).begin_write(
                chunks[i],
            ).1 == Step::Done(chunks[i].len() as usize),
        after_writes(w, chunks) == w.appended(joined(chunks)),
        after_writes(w, chunks).wf(),
    decreases chunks.len(),
{
    if chunks.len() == 0 {
        assert(w.backlog + Seq::<T>::empty() == w.backlog);
    } else {
        let front = chunks.drop_last();
        let last = chunks.last();
        law_writes_within_capacity_stay_buffered(w, front);
        let before = after_writes(w, front);
        assert(before.fits(last));
        assert(w.backlog + joined(front) + last == w.backlog + (joined(front) + last));
        assert forall|i: int| 0 <= i < chunks.len() implies (#[trigger] after_writes(
            w,
            chunks.take(i),
        )).begin_write(chunks[i]).1 == Step::Done(chunks[i].len() as usize) by {
            if i < front.len() {
                assert(chunks.take(i) == front.take(i));
                assert(chunks[i] == front[i]);
            } else {
                assert(chunks.take(i) == front);
            }
        }
    }
}

/// A stream that accepts nothing ends the operation at once.
///
/// Whatever is buffered and whatever is to be written, the answer 0 to a
/// vectored write makes a write and a flush fail with `EndOfFile`, with the
/// backlog as it was: neither asks for another vectored write.
pub proof fn law_nothing_accepted_is_end_of_file<T, W, E>(w: WriteView<T, W>, src: Seq<T>)
    ensures
        w.write_buffer_and::<E>(Ok(0)) == (w, Err::<usize, Either<E, EndOfFile>>(Either::Right(EndOfFile))),
        w.write::<E>(src, Some(Ok(0))) == (w, Err::<Step, Either<E, EndOfFile>>(Either::Right(EndOfFile))),
        w.flush_buffer::<E>(Some(Ok(0))) == (w, Err::<Step, Either<E, EndOfFile>>(Either::Right(EndOfFile))),
{
}

/// An error of the stream ends the operation at once, with the backlog as it
/// was, and is handed on as it came.
pub proof fn law_stream_error_is_handed_on<T, W, E>(w: WriteView<T, W>, src: Seq<T>, e: E)
    ensures
        w.write_buffer_and::<E>(Err(e)) == (w, Err::<usize, Either<E, EndOfFile>>(Either::Left(e))),
        w.write::<E>(src, Some(Err(e))) == (w, Err::<Step, Either<E, EndOfFile>>(Either::Left(e))),
        w.flush_buffer::<E>(Some(Err(e))) == (w, Err::<Step, Either<E, EndOfFile>>(Either::Left(e))),
{
}

/// What a stream accepts is owed no longer, and nothing else changes.
///
/// Of a vectored write of the backlog followed by `src`, let the stream accept
/// `n` elements. Then what the stream accepted, what stays buffered and what
/// of `src` the caller still holds are, in this order, the backlog followed
/// by `src`. The buffer stays within its capacity.
pub proof fn law_drain_keeps_order<T, W>(w: WriteView<T, W>, src: Seq<T>, n: nat)
    requires
        w.wf(),
        n <= w.backlog.len() + src.len(),
    ensures
        w.drained(n).wf(),
        w.drained(n).capacity == w.capacity,
        w.passed(n) <= src.len(),
        (w.backlog + src).take(n as int) + w.drained(n).backlog + src.skip(w.passed(n) as int)
            == w.backlog + src,
        w.drained(n).backlog.len() + (src.len() - w.passed(n)) + n == w.backlog.len() + src.len(),
{
    let l = w.backlog.len();
    if n <= l {
        assert((w.backlog + src).take(n as int) == w.backlog.take(n as int));
        assert(src.skip(0) == src);
        assert(w.backlog.take(n as int) + w.backlog.skip(n as int) == w.backlog);
    } else {
        assert((w.backlog + src).take(n as int) == w.backlog + src.take(n - l));
        assert(w.backlog.skip(l as int) == Seq::<T>::empty());
        assert(src.take(n - l) + src.skip(n - l) == src);
        assert(w.backlog + src.take(n - l) + Seq::<T>::empty() + src.skip(n - l) == w.backlog
            + src);
    }
}

/// A write asks for few vectored writes.
///
/// When the stream accepted something, the write either is done or asks for
/// another vectored write with a backlog that is shorter than before. So a
/// write that began with `b` elements buffered is done after `b + 1` answers
/// at the latest, if none of them is 0 or an error.
pub proof fn law_write_comes_to_an_end<T, W, E>(w: WriteView<T, W>, src: Seq<T>, n: usize)
    requires
        w.wf(),
        n > 0,
    ensures
        w.write::<E>(src, Some(Ok(n))).0.wf(),
        w.write::<E>(src, Some(Ok(n))).1 is Ok,
        w.write::<E>(src, Some(Ok(n))).1 == Ok::<Step, Either<E, EndOfFile>>(Step::Drain)
            ==> w.write::<E>(src, Some(Ok(n))).0.backlog.len() < w.backlog.len(),
{
}

/// A flush asks for few vectored writes.
///
/// When the stream accepted something, the flush either is done or asks for
/// another vectored write with a backlog that is shorter than before. A flush
/// that is done with the count 0 has left nothing in the buffer.
pub proof fn law_flush_comes_to_an_end<T, W, E>(w: WriteView<T, W>, n: usize)
    requires
        w.wf(),
        n > 0,
    ensures
        w.flush_buffer::<E>(Some(Ok(n))).0.wf(),
        w.flush_buffer::<E>(Some(Ok(n))).1 is Ok,
        w.flush_buffer::<E>(Some(Ok(n))).1 == Ok::<Step, Either<E, EndOfFile>>(Step::Drain)
            ==> w.flush_buffer::<E>(Some(Ok(n))).0.backlog.len() < w.backlog.len(),
        w.flush_buffer::<E>(Some(Ok(n))).1 == Ok::<Step, Either<E, EndOfFile>>(Step::Done(0))
            ==> w.flush_buffer::<E>(Some(Ok(n))).0.backlog.len() == 0,
        w.flush_buffer::<E>(None).1 == Ok::<Step, Either<E, EndOfFile>>(Step::Done(0))
            <==> w.backlog.len() == 0,
{
}

/// A read from the buffer hands out the oldest unread elements and keeps the
/// rest: what is served and what is then unread are, in this order, what was
/// unread before.
pub proof fn law_read_keeps_order<T, R>(r: ReadView<T, R>, room: nat)
    requires
        r.wf(),
    ensures
        r.advanced(room).wf(),
        r.unread().take(r.served(room) as int) + r.advanced(room).unread() == r.unread(),
        r.advanced(room).unread().len() + r.served(room) == r.unread().len(),
{
    let s = r.served(room) as int;
    assert(r.advanced(room).unread() == r.unread().skip(s));
    assert(r.unread().take(s) + r.unread().skip(s) == r.unread());
}

/// The lower bound of a reader's hint is the number of its unread elements,
/// whatever its stream hints at; right after a refill of `data` that is the
/// length of `data`.
pub proof fn law_hint_counts_unread<T, R>(
    r: ReadView<T, R>,
    inner: (usize, Option<usize>),
    data: Seq<T>,
)
    requires
        r.wf(),
        data.len() <= r.capacity,
    ensures
        r.size_hint(inner).0 == r.unread().len(),
        r.filled(data).size_hint(inner).0 == data.len(),
{
    assert(data.skip(0) == data);
}

/// A writer and a reader at the two ends of one store, with an account of the
/// elements that went in and of those that came out.
pub struct Exchange<T, W, R> {
    /// The writer.
    pub writer: WriteView<T, W>,
    /// The reader.
    pub reader: ReadView<T, R>,
    /// The elements that writes were reported to have taken, in order.
    pub written: Seq<T>,
    /// The store: the elements that the writer's stream accepted, in order.
    pub store: Seq<T>,
    /// The number of elements of the store that the reader's stream has
    /// delivered.
    pub fetched: nat,
    /// The elements that reads handed to their caller, in order.
    pub read: Seq<T>,
}

impl<T, W, R> Exchange<T, W, R> {
    /// Nothing is lost, doubled or out of order: the store and behind it the
    /// writer's backlog are what was written, and what was read and behind it
    /// the reader's unread elements are what was fetched from the store.
    pub open spec fn balanced(self) -> bool {
        &&& self.writer.wf()
        &&& self.reader.wf()
        &&& self.fetched <= self.store.len()
        &&& self.store + self.writer.backlog == self.written
        &&& self.read + self.reader.unread() == self.store.take(self.fetched as int)
    }

    /// A writer and a reader that have done nothing yet, at an empty store.
    pub open spec fn begun(self) -> bool {
        &&& self.writer.wf()
        &&& self.reader.wf()
        &&& self.writer.backlog.len() == 0
        &&& self.reader.buffered.len() == 0
        &&& self.written.len() == 0
        &&& self.store.len() == 0
        &&& self.fetched == 0
        &&& self.read.len() == 0
    }

    /// A write of `src` that the buffer takes as a whole.
    pub open spec fn buffer(self, src: Seq<T>) -> Self {
        Exchange {
            writer: self.writer.appended(src),
            written: self.written + src,
            ..self
        }
    }

    /// A vectored write of the backlog followed by `src`, of which the stream
    /// accepts `n` elements: they join the store, and the write is reported to
    /// have taken those elements of `src` that were among them.
    pub open spec fn drain(self, src: Seq<T>, n: nat) -> Self {
        Exchange {
            writer: self.writer.drained(n),
            written: self.written + src.take(self.writer.passed(n) as int),
            store: self.store + (self.writer.backlog + src).take(n as int),
            ..self
        }
    }

    /// A read into `room` places that the buffer serves.
    pub open spec fn serve(self, room: nat) -> Self {
        Exchange {
            reader: self.reader.advanced(room),
            read: self.read + self.reader.unread().take(self.reader.served(room) as int),
            ..self
        }
    }

    /// The next `n` elements of the store.
    pub open spec fn next(self, n: nat) -> Seq<T> {
        self.store.subrange(self.fetched as int, (self.fetched + n) as int)
    }

    /// A read into `room` places for which the buffer, given the capacity
    /// `capacity`, is refilled with the next `n` elements of the store.
    pub open spec fn refill(self, capacity: nat, n: nat, room: nat) -> Self {
        Exchange {
            reader: self.reader.emptied(capacity).filled(self.next(n)).advanced(room),
            fetched: self.fetched + n,
            read: self.read + self.next(n).take(
                self.reader.emptied(capacity).filled(self.next(n)).served(room) as int,
            ),
            ..self
        }
    }

    /// A read that goes past the buffer, given the capacity `capacity`: the
    /// stream hands the next `n` elements of the store to the caller.
    pub open spec fn bypass(self, capacity: nat, n: nat) -> Self {
        Exchange {
            reader: self.reader.emptied(capacity),
            fetched: self.fetched + n,
            read: self.read + self.next(n),
            ..self
        }
    }
}

/// Every step of a writer keeps the account balanced: a write that is
/// buffered, and a vectored write of which the stream accepts no more than it
/// was offered.
pub proof fn law_writer_steps_keep_balance<T, W, R>(x: Exchange<T, W, R>, src: Seq<T>, n: nat)
    requires
        x.balanced(),
    ensures
        x.writer.fits(src) ==> x.buffer(src).balanced(),
        n <= x.writer.backlog.len() + src.len() ==> x.drain(src, n).balanced(),
{
    if x.writer.fits(src) {
        assert(x.store + (x.writer.backlog + src) == x.store + x.writer.backlog + src);
    }
    if n <= x.writer.backlog.len() + src.len() {
        law_drain_keeps_order(x.writer, src, n);
        let after = x.drain(src, n);
        let went = (x.writer.backlog + src).take(n as int);
        let l = x.writer.backlog.len();
        if n <= l {
            assert(src.take(0) == Seq::<T>::empty());
            assert(went == x.writer.backlog.take(n as int));
            assert(x.writer.backlog.take(n as int) + x.writer.backlog.skip(n as int)
                == x.writer.backlog);
            assert(after.store + after.writer.backlog == x.store + (x.writer.backlog.take(
                n as int,
            ) + x.writer.backlog.skip(n as int)));
            assert(after.written == x.written + Seq::<T>::empty());
            assert(after.written == x.written);
        } else {
            assert(went == x.writer.backlog + src.take(n - l));
            assert(after.writer.backlog == Seq::<T>::empty());
            assert(after.store + after.writer.backlog == x.store + x.writer.backlog + src.take(
                n - l,
            ));
        }
        assert(after.store.take(after.fetched as int) == x.store.take(x.fetched as int));
    }
}

/// Every step of a reader keeps the account balanced: a read that the buffer
/// serves, and, once nothing is unread, a refill or a bypass with elements
/// that the store holds and that have not been fetched.
pub proof fn law_reader_steps_keep_balance<T, W, R>(
    x: Exchange<T, W, R>,
    capacity: nat,
    n: nat,
    room: nat,
)
    requires
        x.balanced(),
    ensures
        x.serve(room).balanced(),
        x.reader.exhausted() && x.fetched + n <= x.store.len() && n <= capacity <= usize::MAX
            ==> x.refill(capacity, n, room).balanced(),
        x.reader.exhausted() && x.fetched + n <= x.store.len() && capacity <= usize::MAX
            ==> x.bypass(capacity, n).balanced(),
{
    law_read_keeps_order(x.reader, room);
    let s = x.reader.served(room) as int;
    assert(x.read + x.reader.unread().take(s) + x.reader.advanced(room).unread() == x.read + (
    x.reader.unread().take(s) + x.reader.advanced(room).unread()));
    if x.reader.exhausted() && x.fetched + n <= x.store.len() && capacity <= usize::MAX {
        assert(x.reader.unread() == Seq::<T>::empty());
        assert(x.read + Seq::<T>::empty() == x.read);
        let data = x.next(n);
        assert(x.store.take(x.fetched as int) + data == x.store.take((x.fetched + n) as int));
        assert(x.reader.emptied(capacity).unread() == Seq::<T>::empty());
        assert(x.read + data + Seq::<T>::empty() == x.read + data);
        if n <= capacity {
            let full = x.reader.emptied(capacity).filled(data);
            assert(full.wf());
            assert(full.unread() == data) by {
                assert(data.skip(0) == data);
            }
            law_read_keeps_order(full, room);
            let t = full.served(room) as int;
            assert(x.read + data.take(t) + full.advanced(room).unread() == x.read + (data.take(t)
                + full.advanced(room).unread()));
        }
    }
}

/// What was written comes back as it went in.
///
/// Let a writer and a reader at the two ends of a store keep their account
/// balanced, as every step of theirs does. Once the writer's buffer is empty,
/// as a flush leaves it, and the reader has fetched all of the store and
/// served all that it fetched, the elements that were read are the elements
/// that were written, in order.
pub proof fn law_round_trip<T, W, R>(x: Exchange<T, W, R>)
    requires
        x.balanced(),
        x.writer.backlog.len() == 0,
        x.fetched == x.store.len(),
        x.reader.exhausted(),
    ensures
        x.read == x.written,
{
    assert(x.writer.backlog == Seq::<T>::empty());
    assert(x.store + Seq::<T>::empty() == x.store);
    assert(x.reader.unread() == Seq::<T>::empty());
    assert(x.read + Seq::<T>::empty() == x.read);
    assert(x.store.take(x.store.len() as int) == x.store);
}

/// A writer and a reader that have done nothing yet keep a balanced account.
pub proof fn law_begun_is_balanced<T, W, R>(x: Exchange<T, W, R>)
    requires
        x.begun(),
    ensures
        x.balanced(),
{
    assert(x.store + x.writer.backlog == x.written);
    assert(x.read + x.reader.unread() == x.store.take(0));
}

/// Where a write of `src` ends, and what reaches the stream on the way, when
/// the stream accepts up to `k` elements of every vectored write: the writer
/// afterwards, the elements that the stream accepted, in order, and the count
/// that the write gives.
pub open spec fn write_to_end<T, W>(w: WriteView<T, W>, src: Seq<T>, k: nat) -> (
    WriteView<T, W>,
    Seq<T>,
    usize,
)
    decreases w.backlog.len(),
    when w.wf() && k > 0
    via write_to_end_decreases::<T, W>
{
    match w.begin_write(src).1 {
        Step::Done(count) => (w.begin_write(src).0, Seq::empty(), count),
        Step::Drain => {
            let n = least(k, w.backlog.len() + src.len());
            let sent = (w.backlog + src).take(n as int);
            if w.passed(n) > 0 {
                (w.drained(n), sent, w.passed(n) as usize)
            } else {
                (
                    write_to_end(w.drained(n), src, k).0,
                    sent + write_to_end(w.drained(n), src, k).1,
                    write_to_end(w.drained(n), src, k).2,
                )
            }
        },
    }
}

#[via_fn]
proof fn write_to_end_decreases<T, W>(w: WriteView<T, W>, src: Seq<T>, k: nat) {
}

/// Where a flush ends, and what reaches the stream on the way, when the
/// stream accepts up to `k` elements of every vectored write.
pub open spec fn flush_to_end<T, W>(w: WriteView<T, W>, k: nat) -> (WriteView<T, W>, Seq<T>)
    decreases w.backlog.len(),
    when w.wf() && k > 0
    via flush_to_end_decreases::<T, W>
{
    if w.backlog.len() == 0 {
        (w, Seq::empty())
    } else {
        let n = least(k, w.backlog.len());
        (flush_to_end(w.drained(n), k).0, w.backlog.take(n as int) + flush_to_end(w.drained(n), k).1)
    }
}

#[via_fn]
proof fn flush_to_end_decreases<T, W>(w: WriteView<T, W>, k: nat) {
}

/// Where the writes end that hand all of `src` to the writer, each write
/// beginning with what the one before did not take, and what reaches the
/// stream on the way.
pub open spec fn write_all_to_end<T, W>(w: WriteView<T, W>, src: Seq<T>, k: nat) -> (
    WriteView<T, W>,
    Seq<T>,
)
    decreases src.len(),
    when w.wf() && k > 0 && src.len() <= usize::MAX
    via write_all_to_end_decreases::<T, W>
{
    if src.len() == 0 {
        (w, Seq::empty())
    } else {
        let once = write_to_end(w, src, k);
        (
            write_all_to_end(once.0, src.skip(once.2 as int), k).0,
            once.1 + write_all_to_end(once.0, src.skip(once.2 as int), k).1,
        )
    }
}

#[via_fn]
proof fn write_all_to_end_decreases<T, W>(w: WriteView<T, W>, src: Seq<T>, k: nat) {
    if src.len() > 0 {
        law_write_ends(w, src, k);
    }
}

/// A write ends, however little the stream accepts at a time, as long as it
/// accepts something.
///
/// The buffer stays within its capacity. The write takes some of `src`, if
/// there is any, and no more than there is. What reached the stream and what
/// is then buffered are, in this order, what was buffered before and what the
/// write took.
pub proof fn law_write_ends<T, W>(w: WriteView<T, W>, src: Seq<T>, k: nat)
    requires
        w.wf(),
        k > 0,
        src.len() <= usize::MAX,
    ensures
        write_to_end(w, src, k).0.wf(),
        write_to_end(w, src, k).0.capacity == w.capacity,
        write_to_end(w, src, k).2 <= src.len(),
        src.len() > 0 ==> write_to_end(w, src, k).2 > 0,
        write_to_end(w, src, k).1 + write_to_end(w, src, k).0.backlog == w.backlog + src.take(
            write_to_end(w, src, k).2 as int,
        ),
    decreases w.backlog.len(),
{
    if w.fits(src) {
        assert(src.take(src.len() as int) == src);
        assert(Seq::<T>::empty() + (w.backlog + src) == w.backlog + src);
    } else {
        let n = least(k, w.backlog.len() + src.len());
        law_drain_keeps_order(w, src, n);
        let sent = (w.backlog + src).take(n as int);
        let l = w.backlog.len();
        if w.passed(n) > 0 {
            assert(sent == w.backlog + src.take(n - l));
            assert(w.drained(n).backlog == Seq::<T>::empty());
            assert(sent + Seq::<T>::empty() == sent);
        } else {
            let rest = w.drained(n);
            law_write_ends(rest, src, k);
            let end = write_to_end(rest, src, k);
            assert(sent == w.backlog.take(n as int));
            assert(w.backlog.take(n as int) + rest.backlog == w.backlog);
            assert(sent + end.1 + end.0.backlog == sent + (end.1 + end.0.backlog));
            assert(sent + (rest.backlog + src.take(end.2 as int)) == sent + rest.backlog
                + src.take(end.2 as int));
        }
    }
}

/// A flush ends, however little the stream accepts at a time, as long as it
/// accepts something: the buffer is then empty, and what reached the stream
/// is what was buffered.
pub proof fn law_flush_ends<T, W>(w: WriteView<T, W>, k: nat)
    requires
        w.wf(),
        k > 0,
    ensures
        flush_to_end(w, k).0.wf(),
        flush_to_end(w, k).0.capacity == w.capacity,
        flush_to_end(w, k).0.backlog.len() == 0,
        flush_to_end(w, k).1 == w.backlog,
    decreases w.backlog.len(),
{
    if w.backlog.len() == 0 {
        assert(w.backlog == Seq::<T>::empty());
    } else {
        let n = least(k, w.backlog.len());
        law_flush_ends(w.drained(n), k);
        assert(w.backlog.take(n as int) + w.backlog.skip(n as int) == w.backlog);
    }
}

/// A stream that accepts little gets everything in the end.
///
/// Let the stream accept up to `k` elements of every vectored write, and at
/// least one. Then writes that begin again with what is left of `src` until
/// nothing is left, followed by a flush, bring to the stream what was buffered
/// before and behind it all of `src`, in order; the buffer never exceeds its
/// capacity, and is empty in the end.
pub proof fn law_everything_reaches_the_stream<T, W>(w: WriteView<T, W>, src: Seq<T>, k: nat)
    requires
        w.wf(),
        k > 0,
        src.len() <= usize::MAX,
    ensures
        write_all_to_end(w, src, k).0.wf(),
        write_all_to_end(w, src, k).0.capacity == w.capacity,
        write_all_to_end(w, src, k).1 + write_all_to_end(w, src, k).0.backlog == w.backlog + src,
        flush_to_end(write_all_to_end(w, src, k).0, k).0.backlog.len() == 0,
        write_all_to_end(w, src, k).1 + flush_to_end(write_all_to_end(w, src, k).0, k).1
            == w.backlog + src,
    decreases src.len(),
{
    if src.len() == 0 {
        assert(Seq::<T>::empty() + w.backlog == w.backlog + src);
    } else {
        law_write_ends(w, src, k);
        let once = write_to_end(w, src, k);
        let left = src.skip(once.2 as int);
        law_everything_reaches_the_stream(once.0, left, k);
        let all = write_all_to_end(once.0, left, k);
        assert(src.take(once.2 as int) + left == src);
        assert(once.1 + all.1 + all.0.backlog == once.1 + (all.1 + all.0.backlog));
        assert(once.1 + (once.0.backlog + left) == once.1 + once.0.backlog + left);
        assert(w.backlog + src.take(once.2 as int) + left == w.backlog + (src.take(
            once.2 as int,
        ) + left));
    }
    law_flush_ends(write_all_to_end(w, src, k).0, k);
}

/// Where the writes end that hand each of `chunks` to the writer in full, one
/// chunk after the other, and what reaches the stream on the way.
pub open spec fn write_chunks_to_end<T, W>(w: WriteView<T, W>, chunks: Seq<Seq<T>>, k: nat) -> (
    WriteView<T, W>,
    Seq<T>,
)
    decreases chunks.len(),
{
    if chunks.len() == 0 {
        (w, Seq::empty())
    } else {
        let before = write_chunks_to_end(w, chunks.drop_last(), k);
        (
            write_all_to_end(before.0, chunks.last(), k).0,
            before.1 + write_all_to_end(before.0, chunks.last(), k).1,
        )
    }
}

/// What comes to the stream is what was written, whatever the chunks are in
/// which it was written: what reached the stream and what is then buffered
/// are, in this order, what was buffered before and all the chunks.
pub proof fn law_chunks_reach_the_stream<T, W>(w: WriteView<T, W>, chunks: Seq<Seq<T>>, k: nat)
    requires
        w.wf(),
        k > 0,
        forall|i: int| 0 <= i < chunks.len() ==> (#[trigger] chunks[i]).len() <= usize::MAX,
    ensures
        write_chunks_to_end(w, chunks, k).0.wf(),
        write_chunks_to_end(w, chunks, k).0.capacity == w.capacity,
        write_chunks_to_end(w, chunks, k).1 + write_chunks_to_end(w, chunks, k).0.backlog
            == w.backlog + joined(chunks),
    decreases chunks.len(),
{
    if chunks.len() == 0 {
        assert(Seq::<T>::empty() + w.backlog == w.backlog + Seq::<T>::empty());
    } else {
        let front = chunks.drop_last();
        let last = chunks.last();
        assert forall|i: int| 0 <= i < front.len() implies (#[trigger] front[i]).len()
            <= usize::MAX by {
            assert(front[i] == chunks[i]);
        }
        law_chunks_reach_the_stream(w, front, k);
        let before = write_chunks_to_end(w, front, k);
        law_everything_reaches_the_stream(before.0, last, k);
        let end = write_all_to_end(before.0, last, k);
        assert(before.1 + end.1 + end.0.backlog == before.1 + (end.1 + end.0.backlog));
        assert(before.1 + (before.0.backlog + last) == before.1 + before.0.backlog + last);
        assert(w.backlog + joined(front) + last == w.backlog + (joined(front) + last));
    }
}

/// What a reader hands out over reads into `room` places each, one after the
/// other until one of them gets nothing, when its stream still holds `left`,
/// delivers up to `d` elements at a time, and hints at nothing.
pub open spec fn read_to_end<T, R>(r: ReadView<T, R>, left: Seq<T>, d: nat, room: nat) -> Seq<T>
    decreases r.unread().len() + left.len(),
    when r.wf() && d > 0 && room > 0
    via read_to_end_decreases::<T, R>
{
    if !r.exhausted() {
        r.unread().take(r.served(room) as int) + read_to_end(r.advanced(room), left, d, room)
    } else if left.len() == 0 {
        Seq::empty()
    } else if r.emptied(r.capacity).plan(room) is Bypass {
        left.take(least(d, least(room, left.len())) as int) + read_to_end(
            r.emptied(r.capacity),
            left.skip(least(d, least(room, left.len())) as int),
            d,
            room,
        )
    } else {
        refilled(r, left, d).unread().take(refilled(r, left, d).served(room) as int) + read_to_end(
            refilled(r, left, d).advanced(room),
            left.skip(least(d, least(r.capacity, left.len())) as int),
            d,
            room,
        )
    }
}

/// The reader after a refill through the buffer from a stream that holds
/// `left` and delivers up to `d` elements at a time.
pub open spec fn refilled<T, R>(r: ReadView<T, R>, left: Seq<T>, d: nat) -> ReadView<T, R> {
    r.emptied(r.capacity).filled(left.take(least(d, least(r.capacity, left.len())) as int))
}

#[via_fn]
proof fn read_to_end_decreases<T, R>(r: ReadView<T, R>, left: Seq<T>, d: nat, room: nat) {
    if r.exhausted() && left.len() > 0 {
        assert(r.emptied(r.capacity).unread().len() == 0);
        let full = refilled(r, left, d);
        assert(full.unread() == full.buffered) by {
            assert(full.buffered.skip(0) == full.buffered);
        }
    }
}

/// A reader hands out what it holds and then what its stream holds, in order
/// and to the end, however little the stream delivers at a time and however
/// small the destinations are, as long as neither is nothing.
pub proof fn law_everything_is_read<T, R>(r: ReadView<T, R>, left: Seq<T>, d: nat, room: nat)
    requires
        r.wf(),
        d > 0,
        room > 0,
    ensures
        read_to_end(r, left, d, room) == r.unread() + left,
    decreases r.unread().len() + left.len(),
{
    if !r.exhausted() {
        law_read_keeps_order(r, room);
        law_everything_is_read(r.advanced(room), left, d, room);
        let s = r.served(room) as int;
        assert(r.unread().take(s) + (r.advanced(room).unread() + left) == r.unread().take(s)
            + r.advanced(room).unread() + left);
    } else if left.len() == 0 {
        assert(r.unread() + left == Seq::<T>::empty());
    } else {
        assert(r.unread() == Seq::<T>::empty());
        assert(r.unread() + left == left);
        let empty = r.emptied(r.capacity);
        assert(empty.unread() == Seq::<T>::empty());
        if empty.plan(room) is Bypass {
            let n = least(d, least(room, left.len())) as int;
            law_everything_is_read(empty, left.skip(n), d, room);
            assert(empty.unread() + left.skip(n) == left.skip(n));
            assert(left.take(n) + left.skip(n) == left);
        } else {
            let n = least(d, least(r.capacity, left.len())) as int;
            let full = refilled(r, left, d);
            assert(full.unread() == left.take(n)) by {
                assert(left.take(n).skip(0) == left.take(n));
            }
            law_read_keeps_order(full, room);
            law_everything_is_read(full.advanced(room), left.skip(n), d, room);
            let s = full.served(room) as int;
            assert(full.unread().take(s) + (full.advanced(room).unread() + left.skip(n))
                == full.unread().take(s) + full.advanced(room).unread() + left.skip(n));
            assert(left.take(n) + left.skip(n) == left);
        }
    }
}

/// What was written is read back as it was.
///
/// Let a writer with an empty buffer take `chunks`, one after the other and
/// each in full, and then be flushed, over a stream that keeps what it accepts
/// and accepts up to `k` elements at a time. Let a reader with an empty buffer
/// then read what the stream kept, delivered up to `d` elements at a time,
/// into destinations of `room` places, until a read gets nothing. What the
/// reads hand out is the chunks, joined in their order.
pub proof fn law_written_is_read_back<T, W, R>(
    w: WriteView<T, W>,
    r: ReadView<T, R>,
    chunks: Seq<Seq<T>>,
    k: nat,
    d: nat,
    room: nat,
)
    requires
        w.wf(),
        r.wf(),
        w.backlog.len() == 0,
        r.buffered.len() == 0,
        k > 0,
        d > 0,
        room > 0,
        forall|i: int| 0 <= i < chunks.len() ==> (#[trigger] chunks[i]).len() <= usize::MAX,
    ensures
        read_to_end(
            r,
            write_chunks_to_end(w, chunks, k).1 + flush_to_end(
                write_chunks_to_end(w, chunks, k).0,
                k,
            ).1,
            d,
            room,
        ) == joined(chunks),
{
    law_chunks_reach_the_stream(w, chunks, k);
    let written = write_chunks_to_end(w, chunks, k);
    law_flush_ends(written.0, k);
    let kept = written.1 + flush_to_end(written.0, k).1;
    assert(w.backlog + joined(chunks) == joined(chunks));
    law_everything_is_read(r, kept, d, room);
    assert(r.unread() + kept == kept);
}

} // verus!
