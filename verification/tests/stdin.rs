use kv::client::messenger::SetInsert;
use kv::client::stdin::{Delivery, StdinReaderServer};

fn reader(sep: &[u8]) -> StdinReaderServer {
    StdinReaderServer::new("set".to_string(), sep.to_vec())
}

fn drain(reader: &mut StdinReaderServer) -> Vec<Vec<u8>> {
    let mut chunks = vec![];
    let mut delivery = Delivery::Begin;
    while let Some(insert) = reader.flush_chunks(delivery) {
        assert_eq!(insert.name, "set");
        chunks.push(insert.value);
        delivery = Delivery::Accepted;
    }
    chunks
}

#[test]
fn newline_separated_input_is_cut_into_its_lines() {
    let mut r = reader(b"\n");
    r.parse_chunks(b"a\nb\nc\n");
    assert_eq!(drain(&mut r), vec![b"a".to_vec(), b"b".to_vec(), b"c".to_vec()]);
    assert!(r.current_chunk().is_empty());
}

#[test]
fn separators_alone_give_no_chunks() {
    let mut r = reader(b"\n");
    r.parse_chunks(b"\n\n");
    assert_eq!(r.pending_len(), 0);
    assert!(drain(&mut r).is_empty());
    assert!(r.current_chunk().is_empty());
}

#[test]
fn empty_separator_keeps_every_byte_and_gives_no_chunks() {
    let mut r = reader(b"");
    r.parse_chunks(b"a\nb\n");
    r.parse_chunks(b"");
    r.parse_chunks(&[0, 255, 10]);
    assert_eq!(r.pending_len(), 0);
    assert_eq!(r.current_chunk().as_slice(), &[b'a', b'\n', b'b', b'\n', 0, 255, 10][..]);
}

#[test]
fn unfinished_chunk_waits_for_its_separator() {
    let mut r = reader(b"\n");
    r.parse_chunks(b"ab");
    assert_eq!(r.pending_len(), 0);
    assert_eq!(r.current_chunk().as_slice(), b"ab");
    r.parse_chunks(b"c\nd");
    assert_eq!(r.pending_len(), 1);
    assert_eq!(r.current_chunk().as_slice(), b"d");
    assert_eq!(drain(&mut r), vec![b"abc".to_vec()]);
}

#[test]
fn separator_of_several_bytes_may_span_two_reads() {
    let mut r = reader(b"--");
    r.parse_chunks(b"one-");
    r.parse_chunks(b"-two--");
    assert_eq!(drain(&mut r), vec![b"one".to_vec(), b"two".to_vec()]);
}

#[test]
fn reading_in_pieces_is_reading_at_once() {
    let input = b"alpha;;beta;gamma;;;;delta;;";
    let mut whole = reader(b";;");
    whole.parse_chunks(input);
    for cut in 0..=input.len() {
        let mut pieces = reader(b";;");
        pieces.parse_chunks(&input[..cut]);
        pieces.parse_chunks(&input[cut..]);
        assert_eq!(pieces.current_chunk(), whole.current_chunk());
        assert_eq!(pieces.pending_len(), whole.pending_len());
    }
    // The lone ";" after "beta" starts a match that "g" breaks: it is in no chunk.
    assert_eq!(
        drain(&mut whole),
        vec![b"alpha".to_vec(), b"betagamma".to_vec(), b"delta".to_vec()]
    );
}

#[test]
fn scan_does_not_look_back() {
    // The first "a" starts a match, the second completes it, the third
    // starts another that never ends.
    let mut r = reader(b"aa");
    r.parse_chunks(b"xaaa");
    assert_eq!(r.pending_len(), 1);
    assert!(r.current_chunk().is_empty());
    assert_eq!(drain(&mut r), vec![b"x".to_vec()]);

    // The byte that breaks a match is data; the bytes that matched are not.
    let mut r = reader(b"ab");
    r.parse_chunks(b"1a2ab");
    assert_eq!(drain(&mut r), vec![b"12".to_vec()]);

    // The byte that breaks a match is not tried as the start of another.
    let mut r = reader(b"ab");
    r.parse_chunks(b"1aab2");
    assert_eq!(r.pending_len(), 0);
    assert_eq!(r.current_chunk().as_slice(), b"1ab2");
}

#[test]
fn rejected_chunk_goes_back_to_the_front() {
    let mut r = reader(b"\n");
    r.parse_chunks(b"a\nb\nc\n");
    let first = r.flush_chunks(Delivery::Begin).unwrap();
    assert_eq!(first.value, b"a");
    assert_eq!(r.pending_len(), 2);
    assert!(r.flush_chunks(Delivery::Rejected(first)).is_none());
    assert_eq!(r.pending_len(), 3);
    assert_eq!(drain(&mut r), vec![b"a".to_vec(), b"b".to_vec(), b"c".to_vec()]);
}

#[test]
fn backpressure_preserves_order_and_data() {
    for n in 0..5 {
        let mut r = reader(b"\n");
        r.parse_chunks(b"a\nb\nc\nd\n");
        // n ticks on which the transport turns the first offer down
        for _ in 0..n {
            let offer = r.flush_chunks(Delivery::Begin).unwrap();
            assert_eq!(offer.value, b"a");
            assert!(r.flush_chunks(Delivery::Rejected(offer)).is_none());
        }
        assert_eq!(
            drain(&mut r),
            vec![b"a".to_vec(), b"b".to_vec(), b"c".to_vec(), b"d".to_vec()]
        );
        assert_eq!(r.pending_len(), 0);
        assert!(r.flush_chunks(Delivery::Begin).is_none());
    }
}

#[test]
fn rejection_in_the_middle_keeps_the_rest_in_order() {
    let mut r = reader(b",");
    r.parse_chunks(b"1,2,3,");
    let one = r.flush_chunks(Delivery::Begin).unwrap();
    assert_eq!(one.value, b"1");
    let two = r.flush_chunks(Delivery::Accepted).unwrap();
    assert_eq!(two.value, b"2");
    assert!(r.flush_chunks(Delivery::Rejected(two)).is_none());
    r.parse_chunks(b"4,");
    assert_eq!(drain(&mut r), vec![b"2".to_vec(), b"3".to_vec(), b"4".to_vec()]);
}

#[test]
fn flush_of_an_empty_queue_is_over_at_once() {
    let mut r = reader(b"\n");
    assert!(r.flush_chunks(Delivery::Begin).is_none());
    assert!(r.flush_chunks(Delivery::Accepted).is_none());
}

#[test]
fn insert_frame_carries_name_and_value() {
    let frame = SetInsert { name: "a".to_string(), value: vec![1] }.encode(7);
    assert_eq!(frame, vec![0x08, 0x07, 0x12, 0x06, 0x0a, 0x01, 0x61, 0x12, 0x01, 0x01]);
}
