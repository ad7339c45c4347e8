//! The buffered writer.
//!
//! A writer gathers the caller's elements in a buffer of fixed capacity. When
//! new elements no longer fit, one vectored write is due: the buffer first, the
//! new elements after it. The writer does not make that write. It says that the
//! write is due, hands out what is to be written, and is told what the stream
//! answered.

use crate::store::{append_slice, drain_front, least};
use either::Either;
use vstd::prelude::*;

verus! {

/// `either::Either`, the sum of two types in which a writer reports why it
/// failed: `Left` holds the error of the stream, `Right` the writer's own.
/// Nothing is claimed of it: Verus reads its two variants from the crate.
#[verifier::external_type_specification]
#[verifier::reject_recursive_types(L)]
#[verifier::reject_recursive_types(R)]
pub struct ExEither<L, R>(Either<L, R>);

/// The stream accepted nothing of a vectored write: its other end is taken to
/// be closed.
#[derive(Clone, Copy, Debug, PartialEq, Eq)]
pub struct EndOfFile;

/// What is left to do for an operation of a writer.
#[derive(Clone, Copy, Debug, PartialEq, Eq)]
pub enum Step {
    /// Nothing: the operation has ended and gives this count.
    Done(usize),
    /// One vectored write to the stream: the buffer first, then the elements
    /// that the caller wants written (none, for a flush). The operation is then
    /// called again with what the stream answered.
    Drain,
}

/// A buffer in front of a stream that is written to.
#[derive(Debug, PartialEq, Eq, PartialOrd, Ord, Hash)]
pub struct Write<T, W> {
    w: W,
    buf: Vec<T>,
    cap: usize,
}

/// A writer as contracts see it.
pub struct WriteView<T, W> {
    /// The stream.
    pub stream: W,
    /// The elements taken from the caller that the stream has not accepted
    /// yet, oldest first.
    pub backlog: Seq<T>,
    /// The number of elements that the buffer holds at most.
    pub capacity: nat,
}

impl<T, W> WriteView<T, W> {
    /// The buffer holds no more than its capacity, which a machine can count.
    pub open spec fn wf(self) -> bool {
        self.backlog.len() <= self.capacity <= usize::MAX
    }

    /// The number of elements that the buffer can still take.
    pub open spec fn room(self) -> nat {
        (self.capacity - self.backlog.len()) as nat
    }

    /// Whether `src` can join the buffer as a whole.
    pub open spec fn fits(self, src: Seq<T>) -> bool {
        src.len() <= self.room()
    }

    /// The writer with `src` behind its backlog.
    pub open spec fn appended(self, src: Seq<T>) -> Self {
        WriteView { stream: self.stream, backlog: self.backlog + src, capacity: self.capacity }
    }

    /// The writer after the stream accepted `n` elements of a vectored write
    /// that began with the backlog: as many as were accepted have left the
    /// front of the backlog.
    pub open spec fn drained(self, n: nat) -> Self {
        WriteView {
            stream: self.stream,
            backlog: self.backlog.skip(least(n, self.backlog.len()) as int),
            capacity: self.capacity,
        }
    }

    /// Of `n` elements that the stream accepted, the number that came from
    /// behind the backlog: from the caller's own elements.
    pub open spec fn passed(self, n: nat) -> nat {
        if n > self.backlog.len() {
            (n - self.backlog.len()) as nat
        } else {
            0
        }
    }

    /// One vectored write accounted for: the writer afterwards, and the count
    /// or the failure that the write comes to.
    pub open spec fn write_buffer_and<E>(self, written: Result<usize, E>) -> (
        Self,
        Result<usize, Either<E, EndOfFile>>,
    ) {
        match written {
            Err(e) => (self, Err(Either::Left(e))),
            Ok(n) => if n == 0 {
                (self, Err(Either::Right(EndOfFile)))
            } else {
                (self.drained(n as nat), Ok(self.passed(n as nat) as usize))
            },
        }
    }

    /// Where a write of `src` stands before the stream is asked: buffered as a
    /// whole, or waiting for a vectored write.
    pub open spec fn begin_write(self, src: Seq<T>) -> (Self, Step) {
        if self.fits(src) {
            (self.appended(src), Step::Done(src.len() as usize))
        } else {
            (self, Step::Drain)
        }
    }

    /// One step of a write of `src`. `written` is `None` when the write
    /// begins, and afterwards what the stream answered to the vectored write
    /// that the step before asked for.
    pub open spec fn write<E>(self, src: Seq<T>, written: Option<Result<usize, E>>) -> (
        Self,
        Result<Step, Either<E, EndOfFile>>,
    ) {
        match written {
            None => (self.begin_write(src).0, Ok(self.begin_write(src).1)),
            Some(answer) => match self.write_buffer_and(answer).1 {
                Err(e) => (self, Err(e)),
                Ok(k) => {
                    let rest = self.write_buffer_and(answer).0;
                    if k > 0 {
                        (rest, Ok(Step::Done(k)))
                    } else {
                        (rest.begin_write(src).0, Ok(rest.begin_write(src).1))
                    }
                },
            },
        }
    }

    /// Where a flush of the buffer stands before the stream is asked.
    pub open spec fn begin_flush(self) -> Step {
        if self.backlog.len() == 0 {
            Step::Done(0)
        } else {
            Step::Drain
        }
    }

    /// One step of a flush of the buffer, with `written` as in `write`.
    pub open spec fn flush_buffer<E>(self, written: Option<Result<usize, E>>) -> (
        Self,
        Result<Step, Either<E, EndOfFile>>,
    ) {
        match written {
            None => (self, Ok(self.begin_flush())),
            Some(answer) => match self.write_buffer_and(answer).1 {
                Err(e) => (self, Err(e)),
                Ok(k) => {
                    let rest = self.write_buffer_and(answer).0;
                    if k > 0 {
                        (rest, Ok(Step::Done(k)))
                    } else {
                        (rest, Ok(rest.begin_flush()))
                    }
                },
            },
        }
    }
}

impl<T, W> View for Write<T, W> {
    type V = WriteView<T, W>;

    closed spec fn view(&self) -> WriteView<T, W> {
        WriteView { stream: self.w, backlog: self.buf@, capacity: self.cap as nat }
    }
}

impl<T, W> Write<T, W> {
    /// A writer to `w` whose buffer takes `cap` elements, with the room for
    /// them reserved in `a`, whose own elements are dropped. `None` when the
    /// room could not be reserved; a buffer that takes no element needs no
    /// room, so that it is always made.
    pub fn with_capacity_in(a: Vec<T>, w: W, cap: usize) -> (out: Option<Self>)
        ensures
            cap == 0 ==> out is Some,
            out matches Some(made) ==> made@.wf() && made@ == (WriteView {
                stream: w,
                backlog: Seq::<T>::empty(),
                capacity: cap as nat,
            }),
    {
        let mut buf = a;
        buf.clear();
        let reserved: bool = cap == 0 || buf.try_reserve(cap).is_ok();
        Self::from_reserved(buf, w, cap, reserved)
    }

    /// A writer to `w` whose buffer takes `cap` elements and is kept in
    /// `store`, whose own elements are dropped, if the room for them was
    /// `reserved` there; else nothing.
    pub fn from_reserved(store: Vec<T>, w: W, cap: usize, reserved: bool) -> (out: Option<Self>)
        ensures
            out is Some <==> reserved,
            out matches Some(made) ==> made@.wf() && made@ == (WriteView {
                stream: w,
                backlog: Seq::<T>::empty(),
                capacity: cap as nat,
            }),
    {
        if reserved {
            let mut buf = store;
            buf.clear();
            Some(Write { w, buf, cap })
        } else {
            None
        }
    }

    /// A writer to `w` whose buffer is `raw`: it takes as many elements as
    /// `raw` holds, and starts empty.
    pub fn from_raw(w: W, raw: Vec<T>) -> (out: Self)
        ensures
            out@.wf(),
            out@ == (WriteView {
                stream: w,
                backlog: Seq::<T>::empty(),
                capacity: raw@.len(),
            }),
    {
        let cap: usize = raw.len();
        let mut buf = raw;
        buf.clear();
        Write { w, buf, cap }
    }

    /// The stream.
    pub fn as_ref(&self) -> (out: &W)
        ensures
            *out == self@.stream,
    {
        &self.w
    }

    /// The stream, to call it or to change it. The buffer is out of reach.
    pub fn as_mut(&mut self) -> (out: &mut W)
        ensures
            *out == old(self)@.stream,
            final(self)@ == (WriteView {
                stream: *final(out),
                backlog: old(self)@.backlog,
                capacity: old(self)@.capacity,
            }),
    {
        &mut self.w
    }

    /// The number of elements that the buffer holds at most.
    pub fn capacity(&self) -> (out: usize)
        ensures
            out == self@.capacity,
    {
        self.cap
    }

    /// The backlog: the first part of the next vectored write.
    pub fn pending(&self) -> (out: &[T])
        ensures
            out@ == self@.backlog,
    {
        self.buf.as_slice()
    }

    /// The stream and the backlog at once, as a vectored write needs them.
    pub fn parts(&mut self) -> (out: (&mut W, &[T]))
        ensures
            *out.0 == old(self)@.stream,
            out.1@ == old(self)@.backlog,
            final(self)@ == (WriteView {
                stream: *final(out.0),
                backlog: old(self)@.backlog,
                capacity: old(self)@.capacity,
            }),
    {
        (&mut self.w, self.buf.as_slice())
    }
}

impl<T: Copy, W> Write<T, W> {
    /// Accounts for one vectored write of the backlog followed by the caller's
    /// elements, of which `written` is what the stream answered.
    ///
    /// An error of the stream is handed on in `Left`. A count of zero is the
    /// failure `Right(EndOfFile)`. Either way the backlog stays as it is. Any
    /// other count leaves the front of the backlog, as far as the backlog
    /// goes; what is over came from the caller's elements and is returned.
    pub fn write_buffer_and<E>(&mut self, written: Result<usize, E>) -> (out: Result<
        usize,
        Either<E, EndOfFile>,
    >)
        requires
            old(self)@.wf(),
        ensures
            final(self)@.wf(),
            (final(self)@, out) == old(self)@.write_buffer_and(written),
    {
        match written {
            Err(e) => Err(Either::Left(e)),
            Ok(n) => {
                if n == 0 {
                    return Err(Either::Right(EndOfFile));
                }
                let l: usize = self.buf.len();
                if n > l {
                    self.buf.clear();
                    assert(self.buf@ == old(self).buf@.skip(l as int));
                    Ok(n - l)
                } else {
                    drain_front(&mut self.buf, n);
                    Ok(0)
                }
            },
        }
    }

    /// One step of writing `src`.
    ///
    /// Called with `None` to begin. Where `src` fits the room that is left it
    /// joins the buffer, and the write is done with the length of `src`: the
    /// stream is not needed. Where it does not fit, the step is `Drain`: the
    /// caller makes one vectored write of the backlog followed by `src`, and
    /// calls again with `src` and the stream's answer. That answer is accounted
    /// for as in `write_buffer_and`. If the stream took some of `src` itself,
    /// the write is done with that count; if it took backlog only, the write
    /// stands where it began, with a shorter backlog.
    pub fn write<E>(&mut self, src: &[T], written: Option<Result<usize, E>>) -> (out: Result<
        Step,
        Either<E, EndOfFile>,
    >)
        requires
            old(self)@.wf(),
        ensures
            final(self)@.wf(),
            (final(self)@, out) == old(self)@.write(src@, written),
    {
        match written {
            None => {},
            Some(answer) => {
                match self.write_buffer_and(answer) {
                    Err(e) => {
                        return Err(e);
                    },
                    Ok(k) => {
                        if k > 0 {
                            return Ok(Step::Done(k));
                        }
                    },
                }
            },
        }
        if self.cap - self.buf.len() >= src.len() {
            append_slice(&mut self.buf, src);
            Ok(Step::Done(src.len()))
        } else {
            Ok(Step::Drain)
        }
    }

    /// One step of emptying the buffer into the stream.
    ///
    /// Called with `None` to begin. With an empty buffer the flush is done,
    /// with the count 0. Otherwise the step is `Drain`: the caller makes one
    /// vectored write of the backlog followed by nothing, and calls again with
    /// the stream's answer, which is accounted for as in `write_buffer_and`. A
    /// stream that claims more than the backlog ends the flush with the excess
    /// as the count.
    pub fn flush_buffer<E>(&mut self, written: Option<Result<usize, E>>) -> (out: Result<
        Step,
        Either<E, EndOfFile>,
    >)
        requires
            old(self)@.wf(),
        ensures
            final(self)@.wf(),
            (final(self)@, out) == old(self)@.flush_buffer(written),
    {
        match written {
            None => {},
            Some(answer) => {
                match self.write_buffer_and(answer) {
                    Err(e) => {
                        return Err(e);
                    },
                    Ok(k) => {
                        if k > 0 {
                            return Ok(Step::Done(k));
                        }
                    },
                }
            },
        }
        if self.buf.len() == 0 {
            Ok(Step::Done(0))
        } else {
            Ok(Step::Drain)
        }
    }
}

} // verus!
