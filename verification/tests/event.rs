//! The wire format.

use uhid_battery::bytes::{get_u32, put_bytes, put_u16, put_u32};
use uhid_battery::error::ErrorKind;
use uhid_battery::event::{
    create2, decode, destroy, get_report_reply, input2, payload_len, put_str, set_report_reply,
    Event, DATA_MAX, EIO, EVENT_SIZE, OFF_CREATE_BUS, OFF_CREATE_NAME, OFF_CREATE_PHYS,
    OFF_CREATE_PRODUCT, OFF_CREATE_RD_DATA, OFF_CREATE_RD_SIZE, OFF_CREATE_UNIQ,
    OFF_CREATE_VENDOR, OFF_GET_REPLY_DATA, OFF_GET_REPLY_SIZE, OFF_INPUT_DATA, OFF_INPUT_SIZE,
    OFF_REPLY_ERR, OFF_REQUEST_ID, OFF_REQUEST_RNUM, OFF_REQUEST_RTYPE, OFF_TYPE, RD_DATA_MAX,
    RTYPE_INPUT, UHID_CREATE2, UHID_DESTROY, UHID_GET_REPORT, UHID_GET_REPORT_REPLY, UHID_INPUT2,
    UHID_SET_REPORT, UHID_SET_REPORT_REPLY, UHID_START,
};

fn u16_at(event: &[u8], offset: usize) -> u16 {
    u16::from_ne_bytes([event[offset], event[offset + 1]])
}

#[test]
fn the_event_is_as_large_as_the_kernel_structure() {
    // 4 (type) + 128 + 64 + 64 (strings) + 2 + 2 + 4 * 4 + 4096.
    assert_eq!(EVENT_SIZE, 4376);
    assert_eq!(OFF_CREATE_RD_DATA, 280);
}

#[test]
fn create2_is_laid_out_where_the_kernel_expects() {
    let event = create2(
        "Audeze Maxwell",
        "test/0",
        "headset-1",
        0x3329,
        0x4b18,
        &[1, 2, 3],
    )
    .unwrap();
    assert_eq!(get_u32(&event, OFF_TYPE), UHID_CREATE2);
    assert_eq!(
        &event[OFF_CREATE_NAME..OFF_CREATE_NAME + 14],
        b"Audeze Maxwell"
    );
    assert_eq!(event[OFF_CREATE_NAME + 14], 0, "strings stay NUL padded");
    assert_eq!(&event[OFF_CREATE_UNIQ..OFF_CREATE_UNIQ + 9], b"headset-1");
    assert_eq!(event[OFF_CREATE_RD_SIZE], 3);
    assert_eq!(event[OFF_CREATE_BUS], 0x06);
    assert_eq!(get_u32(&event, OFF_CREATE_VENDOR), 0x3329);
    assert_eq!(get_u32(&event, OFF_CREATE_PRODUCT), 0x4b18);
    assert_eq!(
        &event[OFF_CREATE_RD_DATA..OFF_CREATE_RD_DATA + 3],
        [1, 2, 3]
    );
}

#[test]
fn create2_leaves_everything_else_zero() {
    let event = create2("n", "p", "u", 1, 2, &[9]).unwrap();
    let mut expected = [0u8; EVENT_SIZE];
    expected[OFF_TYPE..OFF_TYPE + 4].copy_from_slice(&UHID_CREATE2.to_ne_bytes());
    expected[OFF_CREATE_NAME] = b'n';
    expected[OFF_CREATE_PHYS] = b'p';
    expected[OFF_CREATE_UNIQ] = b'u';
    expected[OFF_CREATE_RD_SIZE..OFF_CREATE_RD_SIZE + 2].copy_from_slice(&1u16.to_ne_bytes());
    expected[OFF_CREATE_BUS..OFF_CREATE_BUS + 2].copy_from_slice(&6u16.to_ne_bytes());
    expected[OFF_CREATE_VENDOR..OFF_CREATE_VENDOR + 4].copy_from_slice(&1u32.to_ne_bytes());
    expected[OFF_CREATE_PRODUCT..OFF_CREATE_PRODUCT + 4].copy_from_slice(&2u32.to_ne_bytes());
    expected[OFF_CREATE_RD_DATA] = 9;
    assert_eq!(event, expected);
}

#[test]
fn an_oversized_descriptor_is_refused() {
    assert!(create2("n", "p", "u", 0, 0, &[0; RD_DATA_MAX + 1]).is_err());
    assert!(create2("n", "p", "u", 0, 0, &[0; RD_DATA_MAX]).is_ok());
}

#[test]
fn the_largest_sizes_fill_the_event() {
    let descriptor = [7u8; RD_DATA_MAX];
    let event = create2("n", "p", "u", 0, 0, &descriptor).unwrap();
    assert_eq!(u16_at(&event, OFF_CREATE_RD_SIZE), 4096);
    assert_eq!(&event[OFF_CREATE_RD_DATA..], &descriptor[..]);

    let error = create2("n", "p", "u", 0, 0, &[0; 65537]).unwrap_err();
    assert_eq!(error.kind, ErrorKind::InvalidInput);
    assert_eq!(
        error.message,
        "report descriptor exceeds HID_MAX_DESCRIPTOR_SIZE"
    );
}

#[test]
fn an_oversized_report_is_refused() {
    assert_eq!(payload_len(&[0; DATA_MAX]).unwrap(), 4096);
    for error in [
        payload_len(&[0; DATA_MAX + 1]).unwrap_err(),
        input2(&[0; DATA_MAX + 1]).unwrap_err(),
        get_report_reply(1, Some(&[0; DATA_MAX + 1])).unwrap_err(),
        // A length that would wrap around in sixteen bits.
        input2(&[0; 65536 + 3]).unwrap_err(),
    ] {
        assert_eq!(error.kind, ErrorKind::InvalidInput);
        assert_eq!(error.message, "report exceeds UHID_DATA_MAX");
    }
    let event = input2(&[5; DATA_MAX]).unwrap();
    assert_eq!(
        &event[OFF_INPUT_DATA..OFF_INPUT_DATA + DATA_MAX],
        &[5u8; DATA_MAX][..]
    );
}

#[test]
fn long_strings_are_truncated_on_a_char_boundary() {
    let mut field = [0u8; 8];
    put_str(&mut field, "ééééééééé");
    assert_eq!(&field, b"\xc3\xa9\xc3\xa9\xc3\xa9\0\0");
}

#[test]
fn a_string_is_cut_where_it_has_to_be() {
    // An exact fit leaves room for one NUL.
    let mut field = [0u8; 4];
    put_str(&mut field, "abc");
    assert_eq!(&field, b"abc\0");
    let mut field = [0u8; 4];
    put_str(&mut field, "abcd");
    assert_eq!(&field, b"abc\0");
    // A character of three and one of four bytes.
    let mut field = [0u8; 6];
    put_str(&mut field, "a\u{20ac}\u{20ac}");
    assert_eq!(&field, b"a\xe2\x82\xac\0\0");
    let mut field = [0u8; 4];
    put_str(&mut field, "\u{1f50b}");
    assert_eq!(&field, b"\0\0\0\0");
    // No room for anything but the NUL.
    let mut field = [0u8; 1];
    put_str(&mut field, "abc");
    assert_eq!(&field, b"\0");
    let mut field = [1u8; 2];
    put_str(&mut field, "");
    assert_eq!(&field, &[1, 1]);
}

#[test]
fn requests_are_decoded() {
    let mut buf = [0u8; EVENT_SIZE];
    put_u32(&mut buf, OFF_TYPE, UHID_GET_REPORT);
    put_u32(&mut buf, OFF_REQUEST_ID, 7);
    buf[OFF_REQUEST_RNUM] = 2;
    buf[OFF_REQUEST_RTYPE] = RTYPE_INPUT;
    assert_eq!(
        decode(&buf),
        Event::GetReport {
            id: 7,
            rnum: 2,
            rtype: RTYPE_INPUT
        }
    );

    put_u32(&mut buf, OFF_TYPE, UHID_START);
    assert_eq!(decode(&buf), Event::Start);
    put_u32(&mut buf, OFF_TYPE, 5); // UHID_CLOSE
    assert_eq!(decode(&buf), Event::Ignored);
    put_u32(&mut buf, OFF_TYPE, 999);
    assert_eq!(decode(&buf), Event::Ignored);
}

#[test]
fn a_request_to_set_a_report_is_decoded() {
    let mut buf = [0u8; EVENT_SIZE];
    put_u32(&mut buf, OFF_TYPE, UHID_SET_REPORT);
    put_u32(&mut buf, OFF_REQUEST_ID, 0x0102_0304);
    assert_eq!(decode(&buf), Event::SetReport { id: 0x0102_0304 });
    // What we send is not a request.
    assert_eq!(decode(&destroy()), Event::Ignored);
}

#[test]
fn replies_carry_the_request_id_and_either_data_or_an_error() {
    let served = get_report_reply(9, Some(&[2, 80, 1])).unwrap();
    assert_eq!(get_u32(&served, OFF_REQUEST_ID), 9);
    assert_eq!(served[OFF_REPLY_ERR], 0);
    assert_eq!(served[OFF_GET_REPLY_SIZE], 3);
    assert_eq!(
        &served[OFF_GET_REPLY_DATA..OFF_GET_REPLY_DATA + 3],
        [2, 80, 1]
    );

    let refused = get_report_reply(9, None).unwrap();
    assert_eq!(u16::from(refused[OFF_REPLY_ERR]), EIO);
    assert_eq!(u16::from(set_report_reply(4)[OFF_REPLY_ERR]), EIO);
}

#[test]
fn every_event_holds_its_type() {
    assert_eq!(get_u32(&destroy(), OFF_TYPE), UHID_DESTROY);
    assert!(destroy()[4..].iter().all(|byte| *byte == 0));
    let pushed = input2(&[1, 50, 0]).unwrap();
    assert_eq!(get_u32(&pushed, OFF_TYPE), UHID_INPUT2);
    assert_eq!(u16_at(&pushed, OFF_INPUT_SIZE), 3);
    assert_eq!(&pushed[OFF_INPUT_DATA..OFF_INPUT_DATA + 4], [1, 50, 0, 0]);
    let refused = get_report_reply(9, None).unwrap();
    assert_eq!(get_u32(&refused, OFF_TYPE), UHID_GET_REPORT_REPLY);
    assert_eq!(get_u32(&refused, OFF_REQUEST_ID), 9);
    assert_eq!(u16_at(&refused, OFF_REPLY_ERR), 5);
    assert_eq!(u16_at(&refused, OFF_GET_REPLY_SIZE), 0);
    let set = set_report_reply(4);
    assert_eq!(get_u32(&set, OFF_TYPE), UHID_SET_REPORT_REPLY);
    assert_eq!(get_u32(&set, OFF_REQUEST_ID), 4);
    assert_eq!(u16_at(&set, OFF_REPLY_ERR), 5);
    assert!(set[OFF_REPLY_ERR + 2..].iter().all(|byte| *byte == 0));
}

#[test]
fn integers_are_written_in_native_order() {
    let mut buf = [0xffu8; 8];
    put_u32(&mut buf, 1, 0x0102_0304);
    assert_eq!(&buf[1..5], &0x0102_0304u32.to_ne_bytes());
    assert_eq!((buf[0], buf[5]), (0xff, 0xff));
    assert_eq!(get_u32(&buf, 1), 0x0102_0304);
    put_u16(&mut buf, 6, 0x0506);
    assert_eq!(&buf[6..], &0x0506u16.to_ne_bytes());
    put_bytes(&mut buf, 0, &[1, 2]);
    assert_eq!((buf[0], buf[1]), (1, 2));
}
