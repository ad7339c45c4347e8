use buf::{EndOfFile, Read, Refill, Step, Write};
use either::Either;

/// A store that a writer fills and a reader empties. It accepts at most
/// `accept` elements of a vectored write and delivers at most `deliver`
/// elements to a read.
struct Store {
    data: Vec<u32>,
    at: usize,
    accept: usize,
    deliver: usize,
}

impl Store {
    fn writev(&mut self, first: &[u32], second: &[u32]) -> Result<usize, ()> {
        let mut taken = 0;
        for x in first.iter().chain(second.iter()) {
            if taken == self.accept {
                break;
            }
            self.data.push(*x);
            taken += 1;
        }
        Ok(taken)
    }

    fn read(&mut self, dest: &mut [u32]) -> Result<usize, ()> {
        let left = self.data.len() - self.at;
        let n = left.min(dest.len()).min(self.deliver);
        dest[..n].copy_from_slice(&self.data[self.at..self.at + n]);
        self.at += n;
        Ok(n)
    }
}

fn write(w: &mut Write<u32, Store>, src: &[u32]) -> Result<usize, Either<(), EndOfFile>> {
    let mut step = w.write::<()>(src, None)?;
    loop {
        match step {
            Step::Done(n) => return Ok(n),
            Step::Drain => {
                let answer = {
                    let (stream, pending) = w.parts();
                    stream.writev(pending, src)
                };
                step = w.write(src, Some(answer))?;
            }
        }
    }
}

fn flush(w: &mut Write<u32, Store>) -> Result<(), Either<(), EndOfFile>> {
    let mut step = w.flush_buffer::<()>(None)?;
    loop {
        match step {
            Step::Done(_) => return Ok(()),
            Step::Drain => {
                let answer = {
                    let (stream, pending) = w.parts();
                    stream.writev(pending, &[])
                };
                step = w.flush_buffer(Some(answer))?;
            }
        }
    }
}

fn read(rd: &mut Read<u32, Store>, dest: &mut [u32]) -> Result<usize, ()> {
    if let Some(n) = rd.read(dest) {
        return Ok(n);
    }
    match rd.begin_refill((0, None), dest.len()) {
        Refill::Bypass => rd.as_mut().read(dest),
        Refill::Fill => {
            let mut room = vec![0u32; rd.capacity()];
            let got = rd.as_mut().read(&mut room);
            rd.end_refill(got.map(|n| &room[..n]), dest)
        }
    }
}

fn round_trip(data: &[u32], chunk: usize, wcap: usize, rcap: usize, accept: usize, deliver: usize, room: usize) -> Vec<u32> {
    let store = Store { data: Vec::new(), at: 0, accept, deliver };
    let mut w = Write::with_capacity_in(Vec::new(), store, wcap).expect("room for the buffer");
    for piece in data.chunks(chunk) {
        let mut rest = piece;
        while !rest.is_empty() {
            let n = write(&mut w, rest).expect("the store takes something");
            rest = &rest[n..];
        }
    }
    flush(&mut w).expect("the store takes something");
    assert!(w.pending().is_empty());
    let store = Store { data: w.as_ref().data.clone(), at: 0, accept, deliver };
    let mut rd = Read::with_capacity(store, rcap).expect("room for the buffer");
    let mut back = Vec::new();
    loop {
        let mut dest = vec![0u32; room];
        let n = read(&mut rd, &mut dest).expect("the store does not fail");
        if n == 0 {
            break;
        }
        back.extend_from_slice(&dest[..n]);
    }
    back
}

#[test]
fn what_was_written_is_read_back() {
    let data: Vec<u32> = (100..137).collect();
    for chunk in [1, 3, 8, 40] {
        for wcap in [0, 1, 4, 64] {
            for rcap in [0, 1, 5, 64] {
                for accept in [1, 2, 7] {
                    for deliver in [1, 3, 50] {
                        for room in [1, 4, 9] {
                            let back = round_trip(&data, chunk, wcap, rcap, accept, deliver, room);
                            assert_eq!(back, data);
                        }
                    }
                }
            }
        }
    }
}

#[test]
fn nothing_written_is_nothing_read() {
    assert_eq!(round_trip(&[], 4, 4, 4, 1, 1, 1), Vec::<u32>::new());
}

#[test]
fn without_a_flush_the_store_misses_the_backlog() {
    let store = Store { data: Vec::new(), at: 0, accept: 8, deliver: 8 };
    let mut w = Write::with_capacity_in(Vec::new(), store, 4).expect("room for the buffer");
    assert_eq!(write(&mut w, &[1, 2, 3]), Ok(3));
    assert!(w.as_ref().data.is_empty());
    assert_eq!(write(&mut w, &[4, 5]), Ok(2));
    assert_eq!(w.as_ref().data, vec![1, 2, 3, 4, 5]);
    assert_eq!(write(&mut w, &[6]), Ok(1));
    assert_eq!(w.as_ref().data, vec![1, 2, 3, 4, 5]);
    assert_eq!(w.pending(), &[6]);
}
