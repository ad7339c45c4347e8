use buf::{Read, Refill};

/// A stream that hands out its elements, at most `per_call` of them at each
/// read, and counts the reads and where they went.
struct Source {
    data: Vec<u8>,
    at: usize,
    per_call: usize,
    reads: usize,
    hint: (usize, Option<usize>),
}

impl Source {
    fn new(data: &[u8], per_call: usize) -> Source {
        Source { data: data.to_vec(), at: 0, per_call, reads: 0, hint: (0, None) }
    }

    fn read(&mut self, dest: &mut [u8]) -> Result<usize, String> {
        self.reads += 1;
        let left = self.data.len() - self.at;
        let n = left.min(dest.len()).min(self.per_call);
        dest[..n].copy_from_slice(&self.data[self.at..self.at + n]);
        self.at += n;
        Ok(n)
    }
}

/// A read of the reader over its stream. The second part of the result says
/// whether the stream read into the destination directly.
fn read(rd: &mut Read<u8, Source>, dest: &mut [u8]) -> (Result<usize, String>, bool) {
    if let Some(n) = rd.read(dest) {
        return (Ok(n), false);
    }
    let hint = rd.as_ref().hint;
    match rd.begin_refill(hint, dest.len()) {
        Refill::Bypass => (rd.as_mut().read(dest), true),
        Refill::Fill => {
            let mut room = vec![0u8; rd.capacity()];
            let got = rd.as_mut().read(&mut room);
            (rd.end_refill(got.map(|n| &room[..n]), dest), false)
        }
    }
}

fn reader(data: &[u8], per_call: usize, cap: usize) -> Read<u8, Source> {
    Read::with_capacity(Source::new(data, per_call), cap).expect("room for the buffer")
}

#[test]
fn new_reader_has_nothing_to_serve() {
    let mut rd = reader(&[1, 2, 3], 8, 4);
    assert_eq!(rd.capacity(), 4);
    assert!(rd.exhausted());
    let mut dest = [0u8; 2];
    assert_eq!(rd.read(&mut dest), None);
    assert_eq!(dest, [0, 0]);
    assert_eq!(rd.as_ref().reads, 0);
}

#[test]
fn reader_from_raw_takes_its_capacity_from_the_storage() {
    let rd: Read<u8, Source> = Read::from_raw(Source::new(&[], 1), vec![7, 7, 7, 7, 7]);
    assert_eq!(rd.capacity(), 5);
    assert!(rd.exhausted());
    assert_eq!(rd.size_hint((0, Some(0))), (0, Some(0)));
}

#[test]
fn reader_with_capacity_in_drops_what_the_storage_held() {
    let mut rd: Read<u8, Source> =
        Read::with_capacity_in(vec![1, 2, 3], Source::new(&[], 1), 2).expect("room for the buffer");
    assert_eq!(rd.capacity(), 2);
    assert!(rd.exhausted());
    let mut dest = [0u8; 4];
    assert_eq!(rd.read(&mut dest), None);
}

#[test]
fn reader_as_mut_reaches_the_stream_only() {
    let mut rd = reader(&[1, 2, 3], 8, 4);
    let mut dest = [0u8; 1];
    assert_eq!(read(&mut rd, &mut dest), (Ok(1), false));
    rd.as_mut().per_call = 1;
    assert_eq!(rd.as_ref().per_call, 1);
    assert_eq!(rd.capacity(), 4);
    assert_eq!(rd.size_hint((0, None)), (2, None));
}

#[test]
fn a_small_read_is_served_through_the_buffer() {
    let mut rd = reader(&[1, 2, 3, 4, 5, 6], 8, 4);
    let mut dest = [0u8; 3];
    assert_eq!(read(&mut rd, &mut dest), (Ok(3), false));
    assert_eq!(dest, [1, 2, 3]);
    assert_eq!(rd.as_ref().reads, 1);
    assert_eq!(read(&mut rd, &mut dest), (Ok(1), false));
    assert_eq!(dest, [4, 2, 3]);
    assert_eq!(rd.as_ref().reads, 1);
    assert!(rd.exhausted());
    assert_eq!(read(&mut rd, &mut dest), (Ok(2), false));
    assert_eq!(dest, [5, 6, 3]);
    assert_eq!(rd.as_ref().reads, 2);
    assert_eq!(read(&mut rd, &mut dest), (Ok(0), false));
    assert_eq!(dest, [5, 6, 3]);
    assert_eq!(rd.as_ref().reads, 3);
}

#[test]
fn a_large_read_goes_past_the_buffer() {
    let mut rd = reader(&[1, 2, 3, 4, 5, 6, 7, 8, 9], 8, 4);
    let mut dest = [0u8; 4];
    assert_eq!(read(&mut rd, &mut dest), (Ok(4), true));
    assert_eq!(dest, [1, 2, 3, 4]);
    assert_eq!(rd.as_ref().reads, 1);
    assert!(rd.exhausted());
    let mut large = [0u8; 6];
    assert_eq!(read(&mut rd, &mut large), (Ok(5), true));
    assert_eq!(large, [5, 6, 7, 8, 9, 0]);
    assert_eq!(rd.as_ref().reads, 2);
    assert_eq!(rd.size_hint((0, None)), (0, None));
}

#[test]
fn a_large_read_is_served_from_the_buffer_while_it_holds_something() {
    let mut rd = reader(&[1, 2, 3, 4, 5, 6], 8, 4);
    let mut small = [0u8; 1];
    assert_eq!(read(&mut rd, &mut small), (Ok(1), false));
    let mut large = [0u8; 8];
    assert_eq!(read(&mut rd, &mut large), (Ok(3), false));
    assert_eq!(large, [2, 3, 4, 0, 0, 0, 0, 0]);
    assert_eq!(rd.as_ref().reads, 1);
    assert_eq!(read(&mut rd, &mut large), (Ok(2), true));
    assert_eq!(large, [5, 6, 4, 0, 0, 0, 0, 0]);
    assert_eq!(rd.as_ref().reads, 2);
}

#[test]
fn begin_refill_chooses_by_the_capacity() {
    let mut rd = reader(&[], 8, 4);
    assert_eq!(rd.begin_refill((0, None), 3), Refill::Fill);
    assert_eq!(rd.begin_refill((0, None), 4), Refill::Bypass);
    assert_eq!(rd.begin_refill((0, None), 5), Refill::Bypass);
    assert_eq!(rd.begin_refill((4, Some(4)), 3), Refill::Fill);
    assert_eq!(rd.begin_refill((9, Some(2)), 0), Refill::Fill);
    assert_eq!(rd.capacity(), 4);
    let mut none = reader(&[], 8, 0);
    assert_eq!(none.begin_refill((0, None), 0), Refill::Bypass);
}

#[test]
fn begin_refill_empties_the_buffer() {
    let mut rd = reader(&[], 8, 4);
    let mut dest = [0u8; 1];
    assert_eq!(rd.end_refill::<String>(Ok(&[1, 2, 3]), &mut dest), Ok(1));
    assert_eq!(rd.size_hint((0, None)), (2, None));
    assert_eq!(rd.begin_refill((0, None), 1), Refill::Fill);
    assert!(rd.exhausted());
    assert_eq!(rd.size_hint((0, None)), (0, None));
    assert_eq!(rd.read(&mut dest), None);
}

#[test]
fn begin_refill_asks_for_the_room_that_the_hint_names() {
    let mut rd = reader(&[], 8, 4);
    let plan = rd.begin_refill((2, Some(16)), 8);
    let cap = rd.capacity();
    assert!(cap == 4 || cap == 16);
    assert_eq!(plan, if cap == 4 { Refill::Bypass } else { Refill::Fill });
    let mut rd = reader(&[], 8, 4);
    let plan = rd.begin_refill((12, None), 8);
    let cap = rd.capacity();
    assert!(cap == 4 || cap == 12);
    assert_eq!(plan, if cap == 4 { Refill::Bypass } else { Refill::Fill });
    let mut rd = reader(&[], 8, 4);
    assert_eq!(rd.begin_refill((usize::MAX, None), 5), Refill::Bypass);
    assert_eq!(rd.capacity(), 4);
}

#[test]
fn end_refill_serves_at_once() {
    let mut rd = reader(&[], 8, 4);
    let mut dest = [0u8; 2];
    assert_eq!(rd.end_refill::<String>(Ok(&[1, 2, 3, 4]), &mut dest), Ok(2));
    assert_eq!(dest, [1, 2]);
    assert_eq!(rd.size_hint((0, None)).0, 2);
    assert_eq!(rd.read(&mut dest), Some(2));
    assert_eq!(dest, [3, 4]);
    assert!(rd.exhausted());
    let mut none = [0u8; 0];
    assert_eq!(rd.end_refill::<String>(Ok(&[5]), &mut none), Ok(0));
    assert_eq!(rd.size_hint((0, None)).0, 1);
    assert_eq!(rd.read(&mut none), Some(0));
    assert_eq!(rd.read(&mut dest), Some(1));
    assert_eq!(dest, [5, 4]);
}

#[test]
fn end_refill_hands_on_the_end_and_the_error_of_the_stream() {
    let mut rd = reader(&[], 8, 4);
    let mut dest = [9u8; 2];
    assert_eq!(rd.end_refill::<String>(Ok(&[]), &mut dest), Ok(0));
    assert_eq!(dest, [9, 9]);
    assert!(rd.exhausted());
    assert_eq!(rd.end_refill::<String>(Ok(&[1, 2, 3]), &mut dest), Ok(2));
    assert_eq!(
        rd.end_refill(Err(String::from("broken")), &mut dest),
        Err(String::from("broken"))
    );
    assert_eq!(dest, [1, 2]);
    assert_eq!(rd.size_hint((0, None)).0, 1);
}

#[test]
fn size_hint_counts_what_is_unread() {
    let mut rd = reader(&[1, 2, 3, 4, 5], 8, 4);
    assert_eq!(rd.size_hint((5, Some(5))), (0, Some(5)));
    let mut dest = [0u8; 1];
    assert_eq!(read(&mut rd, &mut dest), (Ok(1), false));
    assert_eq!(rd.size_hint((1, Some(1))), (3, Some(4)));
    assert_eq!(rd.size_hint((1, None)), (3, None));
    assert_eq!(rd.size_hint((0, Some(usize::MAX - 3))), (3, Some(usize::MAX)));
    assert_eq!(rd.size_hint((0, Some(usize::MAX - 2))), (3, None));
    assert_eq!(read(&mut rd, &mut dest), (Ok(1), false));
    assert_eq!(rd.size_hint((1, Some(1))), (2, Some(3)));
}

#[test]
fn a_stream_that_delivers_little_is_read_to_its_end() {
    for per_call in 1..5 {
        for cap in 0..6 {
            for room in 1..7 {
                let data: Vec<u8> = (0..23).collect();
                let mut rd = reader(&data, per_call, cap);
                let mut back = Vec::new();
                loop {
                    let mut dest = vec![0u8; room];
                    let (got, direct) = read(&mut rd, &mut dest);
                    let n = got.expect("the stream does not fail");
                    assert_eq!(direct && n > 0, room >= cap && n > 0);
                    if n == 0 {
                        break;
                    }
                    back.extend_from_slice(&dest[..n]);
                }
                assert_eq!(back, data);
            }
        }
    }
}

#[test]
fn a_reader_without_room_is_always_made() {
    let mut rd: Read<u8, Source> =
        Read::with_capacity(Source::new(&[1, 2], 8), 0).expect("no room is needed");
    assert_eq!(rd.capacity(), 0);
    assert!(rd.exhausted());
    let mut none = [0u8; 0];
    assert_eq!(read(&mut rd, &mut none), (Ok(0), true));
    let rd: Read<u8, Source> =
        Read::with_capacity_in(vec![5, 6], Source::new(&[], 8), 0).expect("no room is needed");
    assert_eq!(rd.capacity(), 0);
    assert!(rd.exhausted());
}

#[test]
fn reader_from_reserved_goes_by_what_it_is_told() {
    let made: Option<Read<u8, Source>> =
        Read::from_reserved(vec![1, 2, 3], Source::new(&[], 8), 7, true);
    let rd = made.expect("the room was reserved");
    assert_eq!(rd.capacity(), 7);
    assert!(rd.exhausted());
    assert_eq!(rd.size_hint((0, Some(1))), (0, Some(1)));
    assert_eq!(rd.as_ref().per_call, 8);
    let made: Option<Read<u8, Source>> =
        Read::from_reserved(vec![1, 2, 3], Source::new(&[], 8), 7, false);
    assert!(made.is_none());
    let made: Option<Read<u8, Source>> =
        Read::from_reserved(Vec::new(), Source::new(&[], 8), 0, false);
    assert!(made.is_none());
}
