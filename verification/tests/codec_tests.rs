use trace::codec::{decode, encode, event, DecodeError, Layout, STACK_ABSENT};

#[test]
fn round_trip_three_field() {
    let e = event { pid: 4242, kernel_stackid: 7, user_stackid: STACK_ABSENT };
    let bytes = encode(&e, Layout::ThreeField);
    assert_eq!(bytes.len(), 12);
    let back = decode(&bytes, Layout::ThreeField).unwrap();
    assert_eq!(back, e);
}

#[test]
fn round_trip_three_field_extremes() {
    let e = event { pid: u32::MAX, kernel_stackid: 0, user_stackid: 1 };
    let bytes = encode(&e, Layout::ThreeField);
    let back = decode(&bytes, Layout::ThreeField).unwrap();
    assert_eq!(back, e);
}

#[test]
fn round_trip_two_field() {
    let e = event { pid: 1, kernel_stackid: 99, user_stackid: STACK_ABSENT };
    let bytes = encode(&e, Layout::TwoField);
    assert_eq!(bytes.len(), 8);
    let back = decode(&bytes, Layout::TwoField).unwrap();
    assert_eq!(back, e);
}

#[test]
fn decode_is_little_endian_in_field_order() {
    // pid 4242 = 0x1092, kernel stack id 7, user stack id absent.
    let bytes = vec![
        0x92, 0x10, 0x00, 0x00, 0x07, 0x00, 0x00, 0x00, 0xff, 0xff, 0xff, 0xff,
    ];
    let e = decode(&bytes, Layout::ThreeField).unwrap();
    assert_eq!(e.pid, 4242);
    assert_eq!(e.kernel_stackid, 7);
    assert_eq!(e.user_stackid, STACK_ABSENT);
}

#[test]
fn two_field_layout_never_reports_a_user_stack() {
    let bytes = vec![0x01, 0x00, 0x00, 0x00, 0x02, 0x00, 0x00, 0x00];
    let e = decode(&bytes, Layout::TwoField).unwrap();
    assert_eq!(e.pid, 1);
    assert_eq!(e.kernel_stackid, 2);
    assert_eq!(e.user_stackid, STACK_ABSENT);
}

#[test]
fn truncated_three_field_fails() {
    for len in [0usize, 1, 4, 8, 11] {
        let bytes = vec![0u8; len];
        assert_eq!(
            decode(&bytes, Layout::ThreeField),
            Err(DecodeError::TruncatedRecord)
        );
    }
}

#[test]
fn truncated_two_field_fails() {
    for len in [0usize, 1, 4, 7] {
        let bytes = vec![0u8; len];
        assert_eq!(
            decode(&bytes, Layout::TwoField),
            Err(DecodeError::TruncatedRecord)
        );
    }
}

#[test]
fn extra_trailing_bytes_are_ignored() {
    let mut bytes = vec![
        0x92, 0x10, 0x00, 0x00, 0x07, 0x00, 0x00, 0x00, 0xff, 0xff, 0xff, 0xff,
    ];
    bytes.push(0xaa);
    bytes.push(0xbb);
    let e = decode(&bytes, Layout::ThreeField).unwrap();
    assert_eq!(e.pid, 4242);
}

#[test]
fn layout_sizes() {
    assert_eq!(Layout::ThreeField.size(), 12);
    assert_eq!(Layout::TwoField.size(), 8);
}
