use distributed_state_machine::framing::{FrameBuffer, Received, Scan, Step};

const PROPOSAL: &[u8] =
    br#"{"sender_id":1,"message_type":"Proposal","proposed_state":"Running","proposal_id":"abc"}"#;
const COMMIT: &[u8] =
    br#"{"sender_id":1,"message_type":"Commit","proposed_state":"Running","proposal_id":"abc"}"#;

#[test]
fn new_buffer_is_empty() {
    let buffer = FrameBuffer::new();
    assert_eq!(buffer.pending_len(), 0);
}

#[test]
fn extend_appends_bytes() {
    let mut buffer = FrameBuffer::new();
    buffer.extend(b"{\"a\"");
    assert_eq!(buffer.pending_len(), 4);
    buffer.extend(b":1");
    assert_eq!(buffer.pending_len(), 6);
    buffer.extend(b"");
    assert_eq!(buffer.pending_len(), 6);
}

#[test]
fn whole_message_in_one_read_is_one_frame() {
    let mut buffer = FrameBuffer::new();
    let received = buffer.feed(PROPOSAL);
    assert_eq!(
        received,
        Received { frames: vec![PROPOSAL.to_vec()], dropped: 0 }
    );
    assert_eq!(buffer.pending_len(), 0);
}

#[test]
fn empty_read_yields_nothing() {
    let mut buffer = FrameBuffer::new();
    let received = buffer.feed(b"");
    assert_eq!(received, Received { frames: vec![], dropped: 0 });
    assert_eq!(buffer.pending_len(), 0);
}

#[test]
fn message_split_over_two_reads_is_buffered_until_whole() {
    let mut buffer = FrameBuffer::new();
    let (head, tail) = PROPOSAL.split_at(30);
    let first = buffer.feed(head);
    assert_eq!(first, Received { frames: vec![], dropped: 0 });
    assert_eq!(buffer.pending_len(), 30);
    let second = buffer.feed(tail);
    assert_eq!(
        second,
        Received { frames: vec![PROPOSAL.to_vec()], dropped: 0 }
    );
    assert_eq!(buffer.pending_len(), 0);
}

#[test]
fn message_split_at_every_byte_is_reassembled() {
    for cut in 1..PROPOSAL.len() {
        let mut buffer = FrameBuffer::new();
        let (head, tail) = PROPOSAL.split_at(cut);
        let first = buffer.feed(head);
        assert_eq!(first, Received { frames: vec![], dropped: 0 });
        assert_eq!(buffer.pending_len(), cut);
        let second = buffer.feed(tail);
        assert_eq!(
            second,
            Received { frames: vec![PROPOSAL.to_vec()], dropped: 0 }
        );
        assert_eq!(buffer.pending_len(), 0);
    }
}

#[test]
fn message_delivered_byte_by_byte_is_reassembled() {
    let mut buffer = FrameBuffer::new();
    for (i, byte) in COMMIT.iter().enumerate() {
        let received = buffer.feed(&[*byte]);
        if i + 1 < COMMIT.len() {
            assert_eq!(received, Received { frames: vec![], dropped: 0 });
        } else {
            assert_eq!(
                received,
                Received { frames: vec![COMMIT.to_vec()], dropped: 0 }
            );
        }
    }
    assert_eq!(buffer.pending_len(), 0);
}

#[test]
fn two_messages_in_one_read_are_two_frames_in_order() {
    let mut buffer = FrameBuffer::new();
    let mut bytes = PROPOSAL.to_vec();
    bytes.extend_from_slice(COMMIT);
    let received = buffer.feed(&bytes);
    assert_eq!(
        received,
        Received { frames: vec![PROPOSAL.to_vec(), COMMIT.to_vec()], dropped: 0 }
    );
    assert_eq!(buffer.pending_len(), 0);
}

#[test]
fn a_whole_message_and_the_start_of_the_next() {
    let mut buffer = FrameBuffer::new();
    let mut bytes = PROPOSAL.to_vec();
    bytes.extend_from_slice(&COMMIT[..10]);
    let first = buffer.feed(&bytes);
    assert_eq!(
        first,
        Received { frames: vec![PROPOSAL.to_vec()], dropped: 0 }
    );
    assert_eq!(buffer.pending_len(), 10);
    let second = buffer.feed(&COMMIT[10..]);
    assert_eq!(
        second,
        Received { frames: vec![COMMIT.to_vec()], dropped: 0 }
    );
    assert_eq!(buffer.pending_len(), 0);
}

#[test]
fn white_space_between_messages_is_tolerated() {
    let mut buffer = FrameBuffer::new();
    let received = buffer.feed(b"{\"a\":1}\n {\"b\":2}\n");
    assert_eq!(
        received,
        Received {
            frames: vec![b"{\"a\":1}".to_vec(), b"\n {\"b\":2}".to_vec()],
            dropped: 0,
        }
    );
    assert_eq!(buffer.pending_len(), 0);
}

#[test]
fn white_space_alone_is_discarded() {
    let mut buffer = FrameBuffer::new();
    let received = buffer.feed(b" \n\t\r ");
    assert_eq!(received, Received { frames: vec![], dropped: 0 });
    assert_eq!(buffer.pending_len(), 0);
}

#[test]
fn bytes_that_are_no_json_are_dropped() {
    let mut buffer = FrameBuffer::new();
    let received = buffer.feed(b"hello");
    assert_eq!(received, Received { frames: vec![], dropped: 5 });
    assert_eq!(buffer.pending_len(), 0);
}

#[test]
fn garbage_after_a_message_is_dropped_and_the_message_kept() {
    let mut buffer = FrameBuffer::new();
    let received = buffer.feed(b"{\"a\":1}garbage");
    assert_eq!(
        received,
        Received { frames: vec![b"{\"a\":1}".to_vec()], dropped: 7 }
    );
    assert_eq!(buffer.pending_len(), 0);
}

#[test]
fn buffer_works_again_after_a_drop() {
    let mut buffer = FrameBuffer::new();
    assert_eq!(buffer.feed(b"}{").dropped, 2);
    let received = buffer.feed(PROPOSAL);
    assert_eq!(
        received,
        Received { frames: vec![PROPOSAL.to_vec()], dropped: 0 }
    );
}

#[test]
fn braces_inside_strings_do_not_end_a_message() {
    let mut buffer = FrameBuffer::new();
    let text: &[u8] = br#"{"proposal_id":"}{\"}","sender_id":3}"#;
    let (head, tail) = text.split_at(20);
    assert_eq!(buffer.feed(head), Received { frames: vec![], dropped: 0 });
    assert_eq!(
        buffer.feed(tail),
        Received { frames: vec![text.to_vec()], dropped: 0 }
    );
}

#[test]
fn nested_values_are_one_frame() {
    let mut buffer = FrameBuffer::new();
    let text: &[u8] = br#"{"a":{"b":[1,{"c":null}]},"d":[[],{}]}"#;
    assert_eq!(
        buffer.feed(text),
        Received { frames: vec![text.to_vec()], dropped: 0 }
    );
}

#[test]
fn next_frame_takes_one_value_at_a_time() {
    let mut buffer = FrameBuffer::new();
    buffer.extend(b"{\"a\":1}[2]{\"c\"");
    assert_eq!(buffer.next_frame(), Step::Frame(b"{\"a\":1}".to_vec()));
    assert_eq!(buffer.pending_len(), 7);
    assert_eq!(buffer.next_frame(), Step::Frame(b"[2]".to_vec()));
    assert_eq!(buffer.pending_len(), 4);
    assert_eq!(buffer.next_frame(), Step::NeedMore);
    assert_eq!(buffer.pending_len(), 4);
}

#[test]
fn next_frame_on_an_empty_buffer_needs_more() {
    let mut buffer = FrameBuffer::new();
    assert_eq!(buffer.next_frame(), Step::NeedMore);
    assert_eq!(buffer.pending_len(), 0);
}

#[test]
fn next_frame_reports_dropped_bytes() {
    let mut buffer = FrameBuffer::new();
    buffer.extend(b"{\"a\" 1}");
    assert_eq!(buffer.next_frame(), Step::Dropped(7));
    assert_eq!(buffer.pending_len(), 0);
}

#[test]
fn take_complete_splits_the_buffer_at_the_offset() {
    let mut buffer = FrameBuffer::new();
    buffer.extend(b"abcdef");
    assert_eq!(buffer.take(Scan::Complete(2)), Step::Frame(b"ab".to_vec()));
    assert_eq!(buffer.pending_len(), 4);
    assert_eq!(buffer.take(Scan::Complete(4)), Step::Frame(b"cdef".to_vec()));
    assert_eq!(buffer.pending_len(), 0);
}

#[test]
fn take_complete_outside_the_buffer_drops_it() {
    let mut buffer = FrameBuffer::new();
    buffer.extend(b"abc");
    assert_eq!(buffer.take(Scan::Complete(4)), Step::Dropped(3));
    assert_eq!(buffer.pending_len(), 0);
    buffer.extend(b"abc");
    assert_eq!(buffer.take(Scan::Complete(0)), Step::Dropped(3));
    assert_eq!(buffer.pending_len(), 0);
}

#[test]
fn take_partial_keeps_the_buffer() {
    let mut buffer = FrameBuffer::new();
    buffer.extend(b"abc");
    assert_eq!(buffer.take(Scan::Partial), Step::NeedMore);
    assert_eq!(buffer.pending_len(), 3);
}

#[test]
fn take_blank_clears_the_buffer() {
    let mut buffer = FrameBuffer::new();
    buffer.extend(b"   ");
    assert_eq!(buffer.take(Scan::Blank), Step::NeedMore);
    assert_eq!(buffer.pending_len(), 0);
}

#[test]
fn take_malformed_drops_the_buffer() {
    let mut buffer = FrameBuffer::new();
    buffer.extend(b"abcd");
    assert_eq!(buffer.take(Scan::Malformed), Step::Dropped(4));
    assert_eq!(buffer.pending_len(), 0);
}

/// The bytes that `serde_json` writes for a message with these fields.
fn serialized(sender: u64, kind: &str, state: &str, id: &str) -> Vec<u8> {
    let mut object = serde_json::Map::new();
    object.insert("sender_id".to_string(), serde_json::Value::from(sender));
    object.insert("message_type".to_string(), serde_json::Value::from(kind));
    object.insert("proposed_state".to_string(), serde_json::Value::from(state));
    object.insert("proposal_id".to_string(), serde_json::Value::from(id));
    serde_json::to_vec(&serde_json::Value::Object(object)).unwrap()
}

#[test]
fn serialized_messages_come_out_as_they_went_in() {
    let first = serialized(1, "Proposal", "Running", "6f9619ff-8b86-4011-b42d-00c04fc964ff");
    let second = serialized(2, "Acknowledgment", "Running", "6f9619ff-8b86-4011-b42d-00c04fc964ff");
    let third = serialized(u64::MAX, "Commit", "Stopped", "");
    let mut stream = Vec::new();
    stream.extend_from_slice(&first);
    stream.extend_from_slice(&second);
    stream.extend_from_slice(&third);

    let mut buffer = FrameBuffer::new();
    let received = buffer.feed(&stream);
    assert_eq!(received, Received { frames: vec![first, second, third], dropped: 0 });
    assert_eq!(buffer.pending_len(), 0);
}

#[test]
fn ids_with_quotes_braces_and_line_breaks_stay_inside_their_frame() {
    let odd = serialized(7, "Proposal", "Init", "}\"{\\\n[\u{1F980}]\u{0000}");
    let plain = serialized(8, "Commit", "Init", "x");
    let mut stream = odd.clone();
    stream.extend_from_slice(&plain);

    for cut in 0..=stream.len() {
        let mut buffer = FrameBuffer::new();
        let mut frames = Vec::new();
        let head = buffer.feed(&stream[..cut]);
        assert_eq!(head.dropped, 0);
        frames.extend(head.frames);
        let tail = buffer.feed(&stream[cut..]);
        assert_eq!(tail.dropped, 0);
        frames.extend(tail.frames);
        assert_eq!(frames, vec![odd.clone(), plain.clone()]);
        assert_eq!(buffer.pending_len(), 0);
    }
}
