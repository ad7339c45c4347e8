//! Copies between slices and vectors, element by element.

use vstd::prelude::*;

verus! {

/// The smaller of two counts.
pub open spec fn least(a: nat, b: nat) -> nat {
    if a <= b {
        a
    } else {
        b
    }
}

/// Appends a copy of every element of `src` to `buf`, in order.
pub(crate) fn append_slice<T: Copy>(buf: &mut Vec<T>, src: &[T])
    ensures
        final(buf)@ == old(buf)@ + src@,
{
    let n: usize = src.len();
    let mut i: usize = 0;
    while i < n
        invariant
            i <= n,
            n == src@.len(),
            buf@ == old(buf)@ + src@.take(i as int),
        decreases n - i,
    {
        buf.push(src[i]);
        i = i + 1;
        assert(src@.take(i as int) == src@.take(i - 1).push(src@[i - 1]));
    }
    assert(src@.take(n as int) == src@);
}

/// Removes the first `n` elements of `buf` and moves the rest to the front.
pub(crate) fn drain_front<T: Copy>(buf: &mut Vec<T>, n: usize)
    requires
        n <= old(buf)@.len(),
    ensures
        final(buf)@ == old(buf)@.skip(n as int),
{
    let len: usize = buf.len();
    let rest: usize = len - n;
    let mut i: usize = 0;
    while i < rest
        invariant
            i <= rest,
            rest + n == len,
            len == old(buf)@.len(),
            buf@.len() == len,
            forall|j: int| 0 <= j < i ==> buf@[j] == old(buf)@[j + n],
            forall|j: int| i <= j < len ==> buf@[j] == old(buf)@[j],
        decreases rest - i,
    {
        let x: T = buf[i + n];
        buf[i] = x;
        i = i + 1;
    }
    buf.truncate(rest);
}

/// Copies as many elements of `buf`, from position `k` on, as `dest` has room
/// for, to the front of `dest`, and returns how many.
pub(crate) fn copy_out<T: Copy>(dest: &mut [T], buf: &Vec<T>, k: usize) -> (n: usize)
    requires
        k <= buf@.len(),
    ensures
        n == least((buf@.len() - k) as nat, old(dest)@.len()),
        final(dest)@ == buf@.subrange(k as int, k + n) + old(dest)@.skip(n as int),
{
    let avail: usize = buf.len() - k;
    let n: usize = if avail <= dest.len() {
        avail
    } else {
        dest.len()
    };
    let mut i: usize = 0;
    while i < n
        invariant
            i <= n,
            n <= dest@.len(),
            k + n <= buf.len(),
            dest@.len() == old(dest)@.len(),
            dest@ == buf@.subrange(k as int, k + i) + old(dest)@.skip(i as int),
        decreases n - i,
    {
        dest[i] = buf[k + i];
        i = i + 1;
    }
    n
}

} // verus!
