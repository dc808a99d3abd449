use ra2a::model::GetTaskGrpcRequest;
use ra2a::model::Timestamp;
use ra2a::wire::read_frame;
use ra2a::wire::read_get_task;
use ra2a::wire::read_string_payload;
use ra2a::wire::read_timestamp;
use ra2a::wire::read_varint;
use ra2a::wire::write_frame;
use ra2a::wire::write_get_task;
use ra2a::wire::write_string_payload;
use ra2a::wire::write_timestamp;
use ra2a::wire::write_varint;

/// Varints of one and of several bytes round-trip; exact byte forms.
#[test]
fn varint_round_trip() {
    let cases: Vec<u64> = vec![0, 1, 127, 128, 300, 16384, u64::MAX];
    for n in cases {
        let mut out = Vec::new();
        write_varint(n, &mut out);
        let (v, end) = read_varint(&out, 0).unwrap();
        assert_eq!(v, n);
        assert_eq!(end, out.len());
    }
    let mut out = Vec::new();
    write_varint(300, &mut out);
    assert_eq!(out, vec![0xAC, 0x02]);
}

/// A string travels as one varint per character code point.
#[test]
fn string_payload_round_trip() {
    let s = "task/abc-\u{00e9}\u{1F600}";
    let mut out = Vec::new();
    write_string_payload(s, &mut out);
    let back = read_string_payload(&out, 0, out.len()).unwrap();
    assert_eq!(back, s);
}

/// An instant travels as its seconds and nanoseconds, zeroes omitted.
#[test]
fn timestamp_wire_round_trip() {
    let cases = vec![
        Timestamp { seconds: 0, nanos: 0 },
        Timestamp { seconds: 1700000000, nanos: 0 },
        Timestamp { seconds: 0, nanos: 5 },
        Timestamp { seconds: -12345, nanos: 999999999 },
    ];
    for ts in cases {
        let mut out = Vec::new();
        write_timestamp(&ts, &mut out);
        let back = read_timestamp(&out, 0, out.len()).unwrap();
        assert_eq!(back, ts);
    }
    let zero = Timestamp { seconds: 0, nanos: 0 };
    let mut out = Vec::new();
    write_timestamp(&zero, &mut out);
    assert!(out.is_empty());
}

/// A task read request round-trips through its binary form.
#[test]
fn get_task_wire_round_trip() {
    let cases = vec![
        GetTaskGrpcRequest { name: "task/t-1".to_string(), history_length: Some(3) },
        GetTaskGrpcRequest { name: "task/t-1".to_string(), history_length: Some(0) },
        GetTaskGrpcRequest { name: "task/t-1".to_string(), history_length: Some(-1) },
        GetTaskGrpcRequest { name: "task/t-1".to_string(), history_length: None },
        GetTaskGrpcRequest { name: String::new(), history_length: Some(9) },
        GetTaskGrpcRequest { name: String::new(), history_length: None },
    ];
    for q in cases {
        let mut out = Vec::new();
        write_get_task(&q, &mut out);
        let back = read_get_task(&out, 0, out.len()).unwrap();
        assert_eq!(back, q);
    }
}

/// The length-prefixed frame carries a payload back and forth, and two
/// frames sit back to back.
#[test]
fn frame_round_trip() {
    let p1: Vec<u8> = vec![1, 2, 3];
    let p2: Vec<u8> = vec![];
    let mut out = Vec::new();
    write_frame(&p1, &mut out);
    write_frame(&p2, &mut out);
    let (q1, mid) = read_frame(&out, 0).unwrap();
    assert_eq!(q1, p1);
    let (q2, end) = read_frame(&out, mid).unwrap();
    assert_eq!(q2, p2);
    assert_eq!(end, out.len());
    assert_eq!(&out[0..5], &[0, 0, 0, 0, 3]);
}
