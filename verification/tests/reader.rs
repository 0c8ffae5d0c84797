use acc_reader::buffer::MAX_CAPACITY;
use acc_reader::protocol::{Pending, Reply, Step};
use acc_reader::reader::AccReader;

/// A source that plays back a fixed list of replies and counts its calls.
struct Script {
    replies: Vec<Reply<String>>,
    calls: usize,
}

fn script(replies: Vec<Reply<String>>) -> Script {
    Script { replies, calls: 0 }
}

fn next_reply(source: &mut Script, want: usize) -> Reply<String> {
    assert!(!source.replies.is_empty(), "the source was asked once too often");
    source.calls += 1;
    let reply = source.replies.remove(0);
    if let Reply::Bytes(bytes) = &reply {
        assert!(bytes.len() <= want);
    }
    reply
}

/// Carries out the reads that the reader asks for until the operation ends.
fn drive(reader: &mut AccReader, source: &mut Script, first: Step<String>) -> Result<usize, String> {
    let mut step = first;
    loop {
        match step {
            Step::Done(result) => return result,
            Step::Read { want } => {
                let reply = next_reply(source, want);
                step = reader.supply(reply);
            }
        }
    }
}

fn read_up_to(reader: &mut AccReader, source: &mut Script, n: usize) -> Result<usize, String> {
    assert!(reader.len() <= MAX_CAPACITY - n);
    let first = reader.read_up_to(n);
    drive(reader, source, first)
}

fn fill_buf(reader: &mut AccReader, source: &mut Script) -> Result<usize, String> {
    let first = reader.fill_buf();
    drive(reader, source, first)
}

fn in_bounds(reader: &AccReader) -> bool {
    reader.pos() <= reader.len() && reader.len() <= reader.capacity()
}

#[test]
fn fresh_reader_is_empty() {
    let reader = AccReader::new(8);
    assert_eq!(reader.len(), 0);
    assert_eq!(reader.pos(), 0);
    assert_eq!(reader.capacity(), 0);
    assert_eq!(reader.inc(), 8);
    assert_eq!(reader.pending(), Pending::Idle);
    assert!(reader.data().is_empty());
    assert!(reader.buffer().is_empty());
}

#[test]
fn read_up_to_with_interruption_between_chunks() {
    let mut reader = AccReader::new(4);
    let mut source = script(vec![
        Reply::Bytes(vec![10, 11, 12]),
        Reply::Interrupted,
        Reply::Bytes(vec![13, 14]),
        Reply::Bytes(vec![]),
    ]);
    let result = read_up_to(&mut reader, &mut source, 5);
    assert_eq!(result, Ok(5));
    assert_eq!(reader.len(), 5);
    assert_eq!(reader.data(), &[10, 11, 12, 13, 14]);
    // The read was satisfied before the end of the stream was ever asked for.
    assert_eq!(source.calls, 3);
    assert_eq!(source.replies, vec![Reply::Bytes(vec![])]);
    assert_eq!(reader.pending(), Pending::Idle);
}

#[test]
fn read_up_to_short_read_is_not_a_failure() {
    let mut reader = AccReader::new(4);
    let mut source = script(vec![Reply::Bytes(vec![1, 2, 3, 4]), Reply::Bytes(vec![])]);
    let result = read_up_to(&mut reader, &mut source, 10);
    assert_eq!(result, Ok(4));
    assert_eq!(reader.len(), 4);
    assert_eq!(reader.data(), &[1, 2, 3, 4]);
    assert_eq!(source.calls, 2);
    assert!(reader.capacity() >= 10);
}

#[test]
fn read_up_to_steps_ask_for_what_is_missing() {
    let mut reader = AccReader::new(4);
    let step: Step<String> = reader.read_up_to(5);
    assert_eq!(step, Step::Read { want: 5 });
    assert_eq!(reader.pending(), Pending::Reading { wanted: 5, done: 0 });
    // Room is reserved, but none of it counts as data.
    assert_eq!(reader.len(), 0);
    assert_eq!(reader.capacity(), 5);
    assert_eq!(reader.supply(Reply::Bytes(vec![7, 8, 9])), Step::<String>::Read { want: 2 });
    assert_eq!(reader.pending(), Pending::Reading { wanted: 5, done: 3 });
    assert_eq!(reader.len(), 3);
    assert_eq!(reader.supply(Reply::Interrupted), Step::<String>::Read { want: 2 });
    assert_eq!(reader.len(), 3);
    assert_eq!(reader.supply(Reply::Bytes(vec![1, 2])), Step::<String>::Done(Ok(5)));
    assert_eq!(reader.data(), &[7, 8, 9, 1, 2]);
    assert_eq!(reader.capacity(), 5);
}

#[test]
fn read_up_to_nothing_asks_nothing() {
    let mut reader = AccReader::new(4);
    let mut source = script(vec![]);
    assert_eq!(read_up_to(&mut reader, &mut source, 0), Ok(0));
    assert_eq!(source.calls, 0);
    assert_eq!(reader.len(), 0);
    assert_eq!(reader.pending(), Pending::Idle);
}

#[test]
fn read_up_to_at_end_of_stream_gives_zero() {
    let mut reader = AccReader::new(4);
    let mut source = script(vec![Reply::Bytes(vec![])]);
    assert_eq!(read_up_to(&mut reader, &mut source, 6), Ok(0));
    assert_eq!(reader.len(), 0);
    assert_eq!(source.calls, 1);
}

#[test]
fn chunking_does_not_change_the_buffer() {
    let stream: Vec<u8> = vec![5, 4, 3, 2, 1, 0];

    let mut whole = AccReader::new(4);
    let mut one_call = script(vec![Reply::Bytes(stream.clone())]);
    assert_eq!(read_up_to(&mut whole, &mut one_call, 6), Ok(6));

    let mut bytewise = AccReader::new(4);
    let mut replies = Vec::new();
    for byte in &stream {
        replies.push(Reply::Interrupted);
        replies.push(Reply::Bytes(vec![*byte]));
    }
    let mut single_bytes = script(replies);
    assert_eq!(read_up_to(&mut bytewise, &mut single_bytes, 6), Ok(6));
    assert_eq!(single_bytes.calls, 12);

    let mut uneven = AccReader::new(4);
    let mut chunks = script(vec![
        Reply::Bytes(vec![5, 4]),
        Reply::Interrupted,
        Reply::Interrupted,
        Reply::Bytes(vec![3]),
        Reply::Bytes(vec![2, 1, 0]),
    ]);
    assert_eq!(read_up_to(&mut uneven, &mut chunks, 6), Ok(6));

    assert_eq!(whole.data(), &stream[..]);
    assert_eq!(bytewise.data(), whole.data());
    assert_eq!(uneven.data(), whole.data());
    assert_eq!(bytewise.len(), whole.len());
    assert_eq!(bytewise.capacity(), whole.capacity());
}

#[test]
fn read_up_to_appends_to_earlier_data() {
    let mut reader = AccReader::new(4);
    let mut source = script(vec![
        Reply::Bytes(vec![1, 2]),
        Reply::Bytes(vec![3]),
        Reply::Bytes(vec![4, 5]),
        Reply::Bytes(vec![]),
    ]);
    assert_eq!(read_up_to(&mut reader, &mut source, 3), Ok(3));
    assert_eq!(reader.data(), &[1, 2, 3]);
    assert_eq!(read_up_to(&mut reader, &mut source, 4), Ok(2));
    assert_eq!(reader.data(), &[1, 2, 3, 4, 5]);
    assert_eq!(reader.len(), 5);
    assert_eq!(reader.pos(), 0);
}

#[test]
fn failure_keeps_the_bytes_that_came_before() {
    let mut reader = AccReader::new(4);
    let mut source = script(vec![
        Reply::Bytes(vec![1, 2, 3]),
        Reply::Interrupted,
        Reply::Failed(String::from("broken pipe")),
        Reply::Bytes(vec![4]),
    ]);
    let result = read_up_to(&mut reader, &mut source, 8);
    assert_eq!(result, Err(String::from("broken pipe")));
    assert_eq!(reader.len(), 3);
    assert_eq!(reader.data(), &[1, 2, 3]);
    assert_eq!(reader.pending(), Pending::Idle);
    assert_eq!(source.calls, 3);
}

#[test]
fn fill_buf_reads_once_when_exhausted() {
    let mut reader = AccReader::new(4);
    let mut source = script(vec![Reply::Bytes(vec![1, 2, 3]), Reply::Bytes(vec![9])]);
    assert_eq!(fill_buf(&mut reader, &mut source), Ok(3));
    assert_eq!(source.calls, 1);
    assert_eq!(reader.buffer(), &[1, 2, 3]);
    assert_eq!(reader.pos(), 0);
    assert_eq!(reader.len(), 3);
    assert_eq!(reader.capacity(), 4);
}

#[test]
fn fill_buf_twice_gives_the_same_bytes() {
    let mut reader = AccReader::new(4);
    let mut source = script(vec![Reply::Bytes(vec![1, 2, 3]), Reply::Bytes(vec![9])]);
    assert_eq!(fill_buf(&mut reader, &mut source), Ok(3));
    let first: Vec<u8> = reader.buffer().to_vec();
    assert_eq!(fill_buf(&mut reader, &mut source), Ok(3));
    let second: Vec<u8> = reader.buffer().to_vec();
    assert_eq!(first, second);
    assert_eq!(first, vec![1, 2, 3]);
    assert_eq!(source.calls, 1);
    assert_eq!(reader.capacity(), 4);
}

#[test]
fn fill_buf_with_bytes_available_asks_nothing() {
    let mut reader = AccReader::new(4);
    let mut source = script(vec![Reply::Bytes(vec![1, 2, 3, 4])]);
    assert_eq!(fill_buf(&mut reader, &mut source), Ok(4));
    reader.consume(1);
    let step: Step<String> = reader.fill_buf();
    assert_eq!(step, Step::Done(Ok(3)));
    assert_eq!(reader.buffer(), &[2, 3, 4]);
    assert_eq!(reader.pending(), Pending::Idle);
}

#[test]
fn fill_buf_retries_an_interrupted_read() {
    let mut reader = AccReader::new(4);
    let step: Step<String> = reader.fill_buf();
    assert_eq!(step, Step::Read { want: 4 });
    assert_eq!(reader.pending(), Pending::Filling);
    assert_eq!(reader.supply(Reply::Interrupted), Step::<String>::Read { want: 4 });
    assert_eq!(reader.pending(), Pending::Filling);
    assert_eq!(reader.supply(Reply::Bytes(vec![6, 7])), Step::<String>::Done(Ok(2)));
    assert_eq!(reader.buffer(), &[6, 7]);
}

#[test]
fn fill_buf_at_end_of_stream_gives_no_bytes() {
    let mut reader = AccReader::new(4);
    let mut source = script(vec![Reply::Bytes(vec![]), Reply::Bytes(vec![])]);
    assert_eq!(fill_buf(&mut reader, &mut source), Ok(0));
    assert!(reader.buffer().is_empty());
    assert_eq!(source.calls, 1);
    // Nothing is available, so the next refill asks the source again.
    assert_eq!(fill_buf(&mut reader, &mut source), Ok(0));
    assert_eq!(source.calls, 2);
}

#[test]
fn fill_buf_failure_is_handed_on() {
    let mut reader = AccReader::new(4);
    let mut source = script(vec![Reply::Failed(String::from("reset"))]);
    assert_eq!(fill_buf(&mut reader, &mut source), Err(String::from("reset")));
    assert_eq!(reader.len(), 0);
    assert!(reader.buffer().is_empty());
    assert_eq!(reader.pending(), Pending::Idle);
}

#[test]
fn consume_moves_the_cursor() {
    let mut reader = AccReader::new(8);
    let mut source = script(vec![Reply::Bytes(vec![1, 2, 3, 4, 5])]);
    assert_eq!(fill_buf(&mut reader, &mut source), Ok(5));
    reader.consume(2);
    assert_eq!(reader.pos(), 2);
    assert_eq!(reader.buffer(), &[3, 4, 5]);
    reader.consume(0);
    assert_eq!(reader.pos(), 2);
    reader.consume(3);
    assert_eq!(reader.pos(), 5);
    assert!(reader.buffer().is_empty());
    assert_eq!(reader.data(), &[1, 2, 3, 4, 5]);
}

#[test]
fn consume_beyond_the_data_stops_at_the_length() {
    let mut reader = AccReader::new(8);
    let mut source = script(vec![Reply::Bytes(vec![1, 2, 3]), Reply::Bytes(vec![4, 5])]);
    assert_eq!(fill_buf(&mut reader, &mut source), Ok(3));
    reader.consume(100);
    assert_eq!(reader.pos(), 3);
    assert_eq!(reader.pos(), reader.len());
    reader.consume(usize::MAX);
    assert_eq!(reader.pos(), 3);
    // The refill that follows makes exactly one new read.
    assert_eq!(fill_buf(&mut reader, &mut source), Ok(2));
    assert_eq!(source.calls, 2);
    assert_eq!(reader.buffer(), &[4, 5]);
    assert_eq!(reader.pos(), 3);
    assert_eq!(reader.len(), 5);
}

#[test]
fn bounds_hold_after_every_operation() {
    let mut reader = AccReader::new(3);
    assert!(in_bounds(&reader));
    let mut source = script(vec![
        Reply::Bytes(vec![1, 2]),
        Reply::Interrupted,
        Reply::Bytes(vec![3, 4, 5]),
        Reply::Bytes(vec![6]),
        Reply::Failed(String::from("gone")),
    ]);
    let mut step: Step<String> = reader.read_up_to(5);
    assert!(in_bounds(&reader));
    while let Step::Read { want } = step {
        let reply = next_reply(&mut source, want);
        step = reader.supply(reply);
        assert!(in_bounds(&reader));
    }
    assert_eq!(step, Step::Done(Ok(5)));
    reader.consume(4);
    assert!(in_bounds(&reader));
    reader.consume(4);
    assert!(in_bounds(&reader));
    assert_eq!(fill_buf(&mut reader, &mut source), Ok(1));
    assert!(in_bounds(&reader));
    reader.compact();
    assert!(in_bounds(&reader));
    reader.consume(1);
    assert_eq!(fill_buf(&mut reader, &mut source), Err(String::from("gone")));
    assert!(in_bounds(&reader));
}

#[test]
fn capacity_doubles_or_takes_what_is_needed() {
    let mut reader = AccReader::new(4);
    let mut source = script(vec![
        Reply::Bytes(vec![0; 5]),
        Reply::Bytes(vec![0; 4]),
        Reply::Bytes(vec![0; 1]),
        Reply::Bytes(vec![0; 4]),
    ]);
    assert_eq!(read_up_to(&mut reader, &mut source, 5), Ok(5));
    assert_eq!(reader.capacity(), 5);
    reader.consume(5);
    // Four more than five is within twice five: the storage doubles.
    assert_eq!(fill_buf(&mut reader, &mut source), Ok(4));
    assert_eq!(reader.capacity(), 10);
    // One more than nine fits as it is.
    assert_eq!(read_up_to(&mut reader, &mut source, 1), Ok(1));
    assert_eq!(reader.capacity(), 10);
    // Thirty more than ten is beyond twice ten: the storage takes what is needed.
    let step: Step<String> = reader.read_up_to(30);
    assert_eq!(step, Step::Read { want: 30 });
    assert_eq!(reader.capacity(), 40);
    assert_eq!(reader.len(), 10);
}

#[test]
fn a_new_operation_drops_the_open_request() {
    let mut reader = AccReader::new(4);
    let step: Step<String> = reader.read_up_to(6);
    assert_eq!(step, Step::Read { want: 6 });
    assert_eq!(reader.supply(Reply::Bytes(vec![1, 2])), Step::<String>::Read { want: 4 });
    let step: Step<String> = reader.fill_buf();
    assert_eq!(step, Step::Done(Ok(2)));
    assert_eq!(reader.pending(), Pending::Idle);
    assert_eq!(reader.data(), &[1, 2]);
    let step: Step<String> = reader.read_up_to(3);
    assert_eq!(step, Step::Read { want: 3 });
    assert_eq!(reader.pending(), Pending::Reading { wanted: 3, done: 0 });
}

#[test]
fn compact_drops_what_was_consumed() {
    let mut reader = AccReader::new(8);
    let mut source = script(vec![Reply::Bytes(vec![1, 2, 3, 4, 5]), Reply::Bytes(vec![6, 7])]);
    assert_eq!(fill_buf(&mut reader, &mut source), Ok(5));
    reader.consume(3);
    let capacity = reader.capacity();
    reader.compact();
    assert_eq!(reader.pos(), 0);
    assert_eq!(reader.len(), 2);
    assert_eq!(reader.data(), &[4, 5]);
    assert_eq!(reader.buffer(), &[4, 5]);
    assert_eq!(reader.capacity(), capacity);
    assert_eq!(read_up_to(&mut reader, &mut source, 2), Ok(2));
    assert_eq!(reader.data(), &[4, 5, 6, 7]);
    reader.consume(9);
    reader.compact();
    assert_eq!(reader.len(), 0);
    assert_eq!(reader.pos(), 0);
}

#[test]
fn a_refill_of_no_bytes_asks_for_an_empty_region() {
    let mut reader = AccReader::new(0);
    let step: Step<String> = reader.fill_buf();
    assert_eq!(step, Step::Read { want: 0 });
    assert_eq!(reader.supply(Reply::Bytes(vec![])), Step::<String>::Done(Ok(0)));
    assert!(reader.buffer().is_empty());
}
