//! The buffered reader.
//!
//! A reader keeps what its stream delivered and serves the caller from it.
//! When nothing unread is left it is refilled, unless the caller's destination
//! is so large that the stream may as well read into it directly. The reader
//! does not call its stream. It says what is due and is told what the stream
//! answered.

use crate::store::{append_slice, copy_out, least};
use vstd::prelude::*;

verus! {

/// How a reader with nothing left to serve gets the caller's elements.
#[derive(Clone, Copy, Debug, PartialEq, Eq)]
pub enum Refill {
    /// The stream reads into the caller's destination, once, and what it
    /// answers is the answer of the read. The buffer is not used.
    Bypass,
    /// The stream reads into the buffer, once, and the reader is told what
    /// came.
    Fill,
}

/// A buffer behind a stream that is read from.
#[derive(Debug, PartialEq, Eq, PartialOrd, Ord, Hash)]
pub struct Read<T, R> {
    r: R,
    k: usize,
    buf: Vec<T>,
    cap: usize,
}

/// A reader as contracts see it.
pub struct ReadView<T, R> {
    /// The stream.
    pub stream: R,
    /// The elements of the last refill, in the order in which they came.
    pub buffered: Seq<T>,
    /// The number of elements of `buffered` that the caller has had.
    pub cursor: nat,
    /// The number of elements that the buffer holds at most.
    pub capacity: nat,
}

/// The room that a hint of a stream asks for: its upper bound where it has one,
/// else its lower bound.
pub open spec fn asked(hint: (usize, Option<usize>)) -> nat {
    match hint.1 {
        Some(upper) => upper as nat,
        None => hint.0 as nat,
    }
}

/// The capacity of a buffer of capacity `cap` after room for `want` elements
/// was asked for: `want`, where that is more and the room was `granted`.
pub open spec fn reserved(cap: nat, want: nat, granted: bool) -> nat {
    if granted && want > cap {
        want
    } else {
        cap
    }
}

impl<T, R> ReadView<T, R> {
    /// The cursor is within the buffer, the buffer within its capacity, and
    /// the capacity within what a machine can count.
    pub open spec fn wf(self) -> bool {
        self.cursor <= self.buffered.len() <= self.capacity <= usize::MAX
    }

    /// The elements that the caller has not had yet.
    pub open spec fn unread(self) -> Seq<T> {
        self.buffered.skip(self.cursor as int)
    }

    /// Whether nothing is left to serve.
    pub open spec fn exhausted(self) -> bool {
        self.cursor == self.buffered.len()
    }

    /// The number of elements that a read into `room` places gets from the
    /// buffer.
    pub open spec fn served(self, room: nat) -> nat {
        least(self.unread().len(), room)
    }

    /// The reader after a read into `room` places was served from the buffer.
    pub open spec fn advanced(self, room: nat) -> Self {
        ReadView {
            stream: self.stream,
            buffered: self.buffered,
            cursor: self.cursor + self.served(room),
            capacity: self.capacity,
        }
    }

    /// A destination after a read was served from the buffer: the elements
    /// served in front, the rest as it was.
    pub open spec fn delivered(self, dest: Seq<T>) -> Seq<T> {
        self.unread().take(self.served(dest.len()) as int) + dest.skip(
            self.served(dest.len()) as int,
        )
    }

    /// The reader with an empty buffer of capacity `capacity`.
    pub open spec fn emptied(self, capacity: nat) -> Self {
        ReadView { stream: self.stream, buffered: Seq::empty(), cursor: 0, capacity }
    }

    /// The reader with `data` as its buffer, all of it unread.
    pub open spec fn filled(self, data: Seq<T>) -> Self {
        ReadView { stream: self.stream, buffered: data, cursor: 0, capacity: self.capacity }
    }

    /// How a refill goes on for a destination of `room` places.
    pub open spec fn plan(self, room: nat) -> Refill {
        if room >= self.capacity {
            Refill::Bypass
        } else {
            Refill::Fill
        }
    }

    /// The hint of the reader over a stream whose own hint is `inner`: what is
    /// unread is there for certain, and comes on top of what the stream
    /// promises at most, as far as a machine can count.
    pub open spec fn size_hint(self, inner: (usize, Option<usize>)) -> (usize, Option<usize>) {
        (
            self.unread().len() as usize,
            match inner.1 {
                Some(upper) => if self.unread().len() + upper <= usize::MAX {
                    Some((self.unread().len() + upper) as usize)
                } else {
                    None
                },
                None => None,
            },
        )
    }
}

impl<T, R> View for Read<T, R> {
    type V = ReadView<T, R>;

    closed spec fn view(&self) -> ReadView<T, R> {
        ReadView {
            stream: self.r,
            buffered: self.buf@,
            cursor: self.k as nat,
            capacity: self.cap as nat,
        }
    }
}

impl<T, R> Read<T, R> {
    /// A reader of `r` whose buffer takes `cap` elements. `None` when the room
    /// for them could not be reserved; a buffer that takes no element needs no
    /// room, so that it is always made.
    pub fn with_capacity(r: R, cap: usize) -> (out: Option<Self>)
        ensures
            cap == 0 ==> out is Some,
            out matches Some(made) ==> made@.wf() && made@ == (ReadView {
                stream: r,
                buffered: Seq::<T>::empty(),
                cursor: 0,
                capacity: cap as nat,
            }),
    {
        Self::with_capacity_in(Vec::new(), r, cap)
    }

    /// A reader of `r` whose buffer takes `cap` elements, with the room for
    /// them reserved in `a`, whose own elements are dropped. `None` when the
    /// room could not be reserved; a buffer that takes no element needs no
    /// room, so that it is always made.
    pub fn with_capacity_in(a: Vec<T>, r: R, cap: usize) -> (out: Option<Self>)
        ensures
            cap == 0 ==> out is Some,
            out matches Some(made) ==> made@.wf() && made@ == (ReadView {
                stream: r,
                buffered: Seq::<T>::empty(),
                cursor: 0,
                capacity: cap as nat,
            }),
    {
        let mut buf = a;
        buf.clear();
        let reserved: bool = cap == 0 || buf.try_reserve(cap).is_ok();
        Self::from_reserved(buf, r, cap, reserved)
    }

    /// A reader of `r` whose buffer takes `cap` elements and is kept in
    /// `store`, whose own elements are dropped, if the room for them was
    /// `reserved` there; else nothing.
    pub fn from_reserved(store: Vec<T>, r: R, cap: usize, reserved: bool) -> (out: Option<Self>)
        ensures
            out is Some <==> reserved,
            out matches Some(made) ==> made@.wf() && made@ == (ReadView {
                stream: r,
                buffered: Seq::<T>::empty(),
                cursor: 0,
                capacity: cap as nat,
            }),
    {
        if reserved {
            let mut buf = store;
            buf.clear();
            Some(Read { r, k: 0, buf, cap })
        } else {
            None
        }
    }

    /// A reader of `r` whose buffer is `raw`: it takes as many elements as
    /// `raw` holds, and starts empty.
    pub fn from_raw(r: R, raw: Vec<T>) -> (out: Self)
        ensures
            out@.wf(),
            out@ == (ReadView {
                stream: r,
                buffered: Seq::<T>::empty(),
                cursor: 0,
                capacity: raw@.len(),
            }),
    {
        let cap: usize = raw.len();
        let mut buf = raw;
        buf.clear();
        Read { r, k: 0, buf, cap }
    }

    /// The stream.
    pub fn as_ref(&self) -> (out: &R)
        ensures
            *out == self@.stream,
    {
        &self.r
    }

    /// The stream, to call it or to change it. The buffer is out of reach.
    pub fn as_mut(&mut self) -> (out: &mut R)
        ensures
            *out == old(self)@.stream,
            final(self)@ == (ReadView {
                stream: *final(out),
                buffered: old(self)@.buffered,
                cursor: old(self)@.cursor,
                capacity: old(self)@.capacity,
            }),
    {
        &mut self.r
    }

    /// The number of elements that the buffer holds at most.
    pub fn capacity(&self) -> (out: usize)
        ensures
            out == self@.capacity,
    {
        self.cap
    }

    /// Whether nothing is left to serve, so that the next read needs the
    /// stream.
    pub fn exhausted(&self) -> (out: bool)
        requires
            self@.wf(),
        ensures
            out == self@.exhausted(),
    {
        self.k == self.buf.len()
    }

    /// The hint of the reader, from the hint `inner` of its stream: the lower
    /// bound is the number of unread elements, the upper bound that number on
    /// top of the stream's own upper bound, where the stream has one and the
    /// sum can be counted.
    pub fn size_hint(&self, inner: (usize, Option<usize>)) -> (out: (usize, Option<usize>))
        requires
            self@.wf(),
        ensures
            out == self@.size_hint(inner),
            out.0 == self@.unread().len(),
    {
        let l: usize = self.buf.len() - self.k;
        let upper = match inner.1 {
            Some(n) => l.checked_add(n),
            None => None,
        };
        (l, upper)
    }
}

impl<T: Copy, R> Read<T, R> {
    /// Serves a read from the buffer.
    ///
    /// With nothing unread the result is `None` and nothing changes: the
    /// stream is needed, see `begin_refill`. Otherwise as many unread elements
    /// as `dest` has room for are copied to its front, oldest first, the cursor
    /// moves past them, and their number is returned.
    pub fn read(&mut self, dest: &mut [T]) -> (out: Option<usize>)
        requires
            old(self)@.wf(),
        ensures
            final(self)@.wf(),
            old(self)@.exhausted() ==> out.is_none() && final(self)@ == old(self)@ && final(dest)@
                == old(dest)@,
            !old(self)@.exhausted() ==> out == Some(old(self)@.served(old(dest)@.len()) as usize)
                && final(self)@ == old(self)@.advanced(old(dest)@.len()) && final(dest)@ == old(
                self,
            )@.delivered(old(dest)@),
    {
        if self.k == self.buf.len() {
            return None;
        }
        let n: usize = copy_out(dest, &self.buf, self.k);
        proof {
            let unread = self.buf@.skip(self.k as int);
            assert(unread.take(n as int) == self.buf@.subrange(self.k as int, self.k + n));
        }
        self.k = self.k + n;
        Some(n)
    }

    /// Begins a refill for a destination of `room` places, with `hint` as the
    /// stream's own hint.
    ///
    /// The buffer is emptied, and room is asked for as `hint` says (see
    /// `asked`): where that is more than the capacity and can be had, it is the
    /// new capacity; else the capacity stays. A destination at least as large
    /// as the capacity is then read into directly (`Bypass`); a smaller one is
    /// served through the buffer (`Fill`).
    pub fn begin_refill(&mut self, hint: (usize, Option<usize>), room: usize) -> (out: Refill)
        requires
            old(self)@.wf(),
        ensures
            final(self)@.wf(),
            exists|granted: bool|
                final(self)@ == old(self)@.emptied(
                    reserved(old(self)@.capacity, asked(hint), granted),
                ),
            out == final(self)@.plan(room as nat),
            out is Bypass <==> room >= final(self)@.capacity,
    {
        self.k = 0;
        self.buf.clear();
        let want: usize = match hint.1 {
            Some(upper) => upper,
            None => hint.0,
        };
        let granted: bool = want > self.cap && self.buf.try_reserve(want).is_ok();
        if granted {
            self.cap = want;
        }
        assert(self@ == old(self)@.emptied(reserved(old(self)@.capacity, asked(hint), granted)));
        if room >= self.cap {
            Refill::Bypass
        } else {
            Refill::Fill
        }
    }

    /// Ends a refill through the buffer, with `got` as what the stream
    /// answered: an error, or the elements that it delivered.
    ///
    /// An error is handed on and nothing changes. Elements become the buffer,
    /// and the read is served from them at once: with none delivered that is a
    /// read of 0 elements, the end of the stream.
    pub fn end_refill<E>(&mut self, got: Result<&[T], E>, dest: &mut [T]) -> (out: Result<
        usize,
        E,
    >)
        requires
            old(self)@.wf(),
            got matches Ok(data) ==> data@.len() <= old(self)@.capacity,
        ensures
            final(self)@.wf(),
            match got {
                Err(e) => out == Err::<usize, E>(e) && final(self)@ == old(self)@ && final(dest)@
                    == old(dest)@,
                Ok(data) => out == Ok::<usize, E>(
                    old(self)@.filled(data@).served(old(dest)@.len()) as usize,
                ) && final(self)@ == old(self)@.filled(data@).advanced(old(dest)@.len())
                    && final(dest)@ == old(self)@.filled(data@).delivered(old(dest)@),
            },
    {
        match got {
            Err(e) => Err(e),
            Ok(data) => {
                self.k = 0;
                self.buf.clear();
                append_slice(&mut self.buf, data);
                let n: usize = copy_out(dest, &self.buf, 0);
                proof {
                    assert(self.buf@ == data@);
                    assert(data@.skip(0) == data@);
                    assert(data@.take(n as int) == data@.subrange(0, n as int));
                }
                self.k = n;
                Ok(n)
            },
        }
    }
}

} // verus!
