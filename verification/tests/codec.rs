use comm_handler::framing::drain_buffer;
use comm_handler::record::Record;
use comm_handler::record::RecordParser;
use comm_handler::framing::extract_frame;
use comm_handler::framing::LineParser;
use comm_handler::traits::PacketParser;
use comm_handler::Passthrough;

fn drain_parser(parser: &mut LineParser) -> Vec<Vec<u8>> {
    let mut out = Vec::new();
    while let Some(v) = parser.parse_from_bytes(&[]) {
        out.push(v);
    }
    out
}

#[test]
fn passthrough_round_trip() {
    let mut codec = Passthrough::new();
    let value = b"hello world".to_vec();
    let wire = codec.parse_to_bytes(&value);
    assert_eq!(codec.parse_from_bytes(&wire), Some(value));
}

#[test]
fn passthrough_keeps_chunks_as_they_are() {
    let mut codec = Passthrough::new();
    assert_eq!(codec.parse_from_bytes(b"abc"), Some(b"abc".to_vec()));
    assert_eq!(codec.parse_from_bytes(b""), Some(Vec::new()));
}

#[test]
fn line_round_trip() {
    let mut codec = LineParser::new();
    let value = b"a well-formed line".to_vec();
    let wire = codec.parse_to_bytes(&value);
    assert_eq!(wire, b"a well-formed line\n".to_vec());
    assert_eq!(codec.parse_from_bytes(&wire), Some(value));
    assert_eq!(codec.parse_from_bytes(&[]), None);
}

#[test]
fn line_partial_frames_accumulate() {
    let mut codec = LineParser::new();
    assert_eq!(codec.parse_from_bytes(b"he"), None);
    assert_eq!(codec.parse_from_bytes(b"llo"), None);
    assert_eq!(codec.parse_from_bytes(b"\n"), Some(b"hello".to_vec()));
}

#[test]
fn line_two_frames_in_one_chunk() {
    let mut codec = LineParser::new();
    assert_eq!(
        codec.parse_from_bytes(b"first\nsecond\n"),
        Some(b"first".to_vec())
    );
    assert_eq!(codec.parse_from_bytes(&[]), Some(b"second".to_vec()));
    assert_eq!(codec.parse_from_bytes(&[]), None);
}

#[test]
fn line_empty_frames_are_discarded() {
    let mut codec = LineParser::new();
    assert_eq!(codec.parse_from_bytes(b"\r\n\r\n"), None);
    assert_eq!(codec.parse_from_bytes(b"abc\r\n"), Some(b"abc".to_vec()));
}

#[test]
fn line_trailing_bytes_stay_buffered() {
    let mut codec = LineParser::new();
    assert_eq!(codec.parse_from_bytes(b"one\ntwo"), Some(b"one".to_vec()));
    assert_eq!(codec.parse_from_bytes(&[]), None);
    assert_eq!(codec.parse_from_bytes(b"\n"), Some(b"two".to_vec()));
}

#[test]
fn split_invariance_across_boundaries() {
    let stream: &[u8] = b"alpha\nbeta\r\ngamma\ndelta";
    let mut whole = LineParser::new();
    let mut expected = Vec::new();
    if let Some(v) = whole.parse_from_bytes(stream) {
        expected.push(v);
    }
    expected.append(&mut drain_parser(&mut whole));

    for split in 0..stream.len() {
        let mut codec = LineParser::new();
        let mut got = Vec::new();
        if let Some(v) = codec.parse_from_bytes(&stream[..split]) {
            got.push(v);
        }
        if let Some(v) = codec.parse_from_bytes(&stream[split..]) {
            got.push(v);
        }
        got.append(&mut drain_parser(&mut codec));
        assert_eq!(got, expected);
    }
}

#[test]
fn split_invariance_byte_by_byte() {
    let stream: &[u8] = b"ab\ncd\n\ref\n";
    let mut codec = LineParser::new();
    let mut got = Vec::new();
    for b in stream {
        if let Some(v) = codec.parse_from_bytes(&[*b]) {
            got.push(v);
        }
    }
    got.append(&mut drain_parser(&mut codec));
    assert_eq!(got, vec![b"ab".to_vec(), b"cd".to_vec(), b"ef".to_vec()]);
}

#[test]
fn extract_frame_cuts_at_first_delimiter() {
    let mut buf = b"head\ntail".to_vec();
    assert_eq!(extract_frame(&mut buf), Some(b"head".to_vec()));
    assert_eq!(buf, b"tail".to_vec());
    assert_eq!(extract_frame(&mut buf), None);
    assert_eq!(buf, b"tail".to_vec());
}

#[test]
fn drain_buffer_yields_every_complete_frame() {
    let mut buf = b"one\ntwo\nthree".to_vec();
    let frames = drain_buffer(&mut buf);
    assert_eq!(frames, vec![b"one".to_vec(), b"two".to_vec()]);
}

#[test]
fn record_wire_layout() {
    let mut codec = RecordParser::new();
    let record = Record::new(7, vec![1, 2, 3]);
    let wire = codec.parse_to_bytes(&record);
    assert_eq!(wire, vec![7, 3, 0, 0, 0, 1, 2, 3]);
}

#[test]
fn record_round_trip() {
    let mut codec = RecordParser::new();
    let record = Record::new(42, b"payload".to_vec());
    let wire = codec.parse_to_bytes(&record);
    let back = codec.parse_from_bytes(&wire).unwrap();
    assert_eq!(back, Record::new(42, b"payload".to_vec()));
}

#[test]
fn record_partial_header_and_payload() {
    let mut codec = RecordParser::new();
    assert_eq!(codec.parse_from_bytes(&[9, 4, 0]), None);
    assert_eq!(codec.parse_from_bytes(&[0, 0, b'a', b'b']), None);
    let record = codec.parse_from_bytes(&[b'c', b'd']).unwrap();
    assert_eq!(record, Record::new(9, b"abcd".to_vec()));
}

#[test]
fn record_second_frame_stays_buffered() {
    let mut codec = RecordParser::new();
    let mut wire = codec.parse_to_bytes(&Record::new(1, vec![0xaa]));
    wire.extend_from_slice(&codec.parse_to_bytes(&Record::new(2, vec![0xbb])));
    assert_eq!(codec.parse_from_bytes(&wire), Some(Record::new(1, vec![0xaa])));
    assert_eq!(codec.parse_from_bytes(&[]), Some(Record::new(2, vec![0xbb])));
    assert_eq!(codec.parse_from_bytes(&[]), None);
}

#[test]
fn record_empty_payload() {
    let mut codec = RecordParser::new();
    let wire = codec.parse_to_bytes(&Record::new(5, Vec::new()));
    assert_eq!(wire, vec![5, 0, 0, 0, 0]);
    assert_eq!(codec.parse_from_bytes(&wire), Some(Record::new(5, Vec::new())));
}
