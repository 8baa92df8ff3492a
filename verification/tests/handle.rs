//! Which descriptors to take, and what reads and writes amount to.

use uhid_battery::clock::{Moment, Timeout};
use uhid_battery::error::{ErrorKind, Failure};
use uhid_battery::event::{Event, EVENT_SIZE, OFF_TYPE, UHID_START};
use uhid_battery::handle::{
    check_device, listen_fd_names, listen_fds_count, more_to_drain, passed_fd, received, written,
    ListenVars, ReadError,
};
use uhid_battery::text::{decimal, parse_i32, parse_u32, split, starts_with};
use uhid_battery::DEV_UHID;

#[test]
fn a_descriptor_that_is_not_uhid_is_refused() {
    // /dev/null is a character device, but not the right one.
    let error = check_device(true, rustix::fs::makedev(1, 3)).unwrap_err();
    assert_eq!(error.kind, ErrorKind::InvalidInput);
    assert_eq!(
        error.message,
        "the descriptor is not the uhid character device"
    );
    // A regular file.
    assert!(check_device(false, 0).is_err());
    assert!(check_device(false, rustix::fs::makedev(10, 239)).is_err());
}

#[test]
fn the_uhid_device_is_recognised() {
    assert_eq!(DEV_UHID, "/dev/uhid");
    assert!(check_device(true, rustix::fs::makedev(10, 239)).is_ok());
    assert!(check_device(true, 0xaef).is_ok());
    assert!(check_device(true, rustix::fs::makedev(10, 238)).is_err());
    assert!(check_device(true, rustix::fs::makedev(11, 239)).is_err());
    assert!(check_device(true, 0xaef + (1 << 32)).is_err());
}

#[test]
fn a_write_takes_the_whole_event_or_fails() {
    assert!(written::<u8>(Ok(EVENT_SIZE)).is_ok());
    match written::<u8>(Ok(12)) {
        Err(Failure::Refused(error)) => {
            assert_eq!(error.kind, ErrorKind::WriteZero);
            assert_eq!(error.message, "short write to uhid: 12 of 4376 bytes");
        }
        other => panic!("{other:?}"),
    }
    match written::<u8>(Ok(0)) {
        Err(Failure::Refused(error)) => {
            assert_eq!(error.message, "short write to uhid: 0 of 4376 bytes");
        }
        other => panic!("{other:?}"),
    }
    assert!(matches!(written(Err(7u8)), Err(Failure::Kernel(7))));
}

#[test]
fn a_read_finds_an_event_or_an_empty_queue() {
    let mut buf = [0u8; EVENT_SIZE];
    buf[OFF_TYPE..OFF_TYPE + 4].copy_from_slice(&UHID_START.to_ne_bytes());
    assert_eq!(received::<u8>(Ok(EVENT_SIZE), &buf), Ok(Some(Event::Start)));
    assert_eq!(received::<u8>(Ok(4), &buf), Ok(Some(Event::Start)));
    assert_eq!(received::<u8>(Ok(0), &buf), Ok(None));
    assert_eq!(received::<u8>(Err(ReadError::Again), &buf), Ok(None));
    assert_eq!(received::<u8>(Err(ReadError::Interrupted), &buf), Ok(None));
    assert_eq!(received(Err(ReadError::Other(5u8)), &buf), Err(5));

    assert!(more_to_drain::<u8>(&Ok(Some(Event::Ignored))));
    assert!(!more_to_drain::<u8>(&Ok(None)));
    assert!(!more_to_drain::<u8>(&Err(1)));
}

#[test]
fn descriptors_are_taken_only_when_they_are_ours() {
    assert_eq!(listen_fds_count(Some("42"), 42, Some("2")), Some(2));
    assert_eq!(listen_fds_count(Some("+42"), 42, Some("+2")), Some(2));
    // Meant for a parent of ours.
    assert_eq!(listen_fds_count(Some("41"), 42, Some("2")), None);
    assert_eq!(listen_fds_count(None, 42, Some("2")), None);
    assert_eq!(listen_fds_count(Some("42"), 42, None), None);
    assert_eq!(listen_fds_count(Some("42"), 42, Some("0")), None);
    assert_eq!(listen_fds_count(Some("42"), 42, Some("-1")), None);
    assert_eq!(listen_fds_count(Some("42"), 42, Some("2147483648")), None);
    assert_eq!(
        listen_fds_count(Some("42"), 42, Some("2147483647")),
        Some(2147483647)
    );
    assert_eq!(listen_fds_count(Some(" 42"), 42, Some("2")), None);
    assert_eq!(listen_fds_count(Some("4294967338"), 42, Some("2")), None);
}

#[test]
fn descriptors_are_matched_with_their_names() {
    let names = listen_fd_names(Some("uhid:http:uhid2"));
    let seen: Vec<(i32, String, bool)> = (0..4)
        .map(|offset| {
            let passed = passed_fd(&names, offset, "uhid");
            (passed.fd, passed.name, passed.wanted)
        })
        .collect();
    assert_eq!(
        seen,
        [
            (3, String::from("uhid"), true),
            (4, String::from("http"), false),
            (5, String::from("uhid2"), true),
            // More descriptors than names.
            (6, String::new(), false),
        ]
    );
    let names = listen_fd_names(None);
    assert!(!passed_fd(&names, 0, "uhid").wanted);
    assert!(passed_fd(&names, 0, "").wanted);
    assert_eq!(passed_fd(&names, i32::MAX - 3, "").fd, i32::MAX);
}

#[test]
fn strings_split_like_the_standard_library_does() {
    for text in ["", ":", "a", "a:b", ":a::b:", "é:\u{1f50b}", "a:"] {
        let expected: Vec<String> = text.split(':').map(String::from).collect();
        assert_eq!(split(text, ':'), expected, "{text}");
    }
    for (text, prefix) in [("uhid0", "uhid"), ("uhi", "uhid"), ("é", "e"), ("", ""), ("xuhid", "uhid")] {
        assert_eq!(starts_with(text, prefix), text.starts_with(prefix));
    }
}

#[test]
fn numbers_parse_like_the_standard_library_does() {
    for text in [
        "", "+", "-", "0", "-0", "+0", "007", "12", "-12", "+-1", "--1", "1 ", "1a", "\u{661}",
        "4294967295", "4294967296", "2147483647", "2147483648", "-2147483648", "-2147483649",
        "99999999999999999999999", "00000000000000000000000000001",
    ] {
        assert_eq!(parse_u32(text), text.parse::<u32>().ok(), "{text}");
        assert_eq!(parse_i32(text), text.parse::<i32>().ok(), "{text}");
    }
    for n in [0, 7, 10, 99, 100, 4376, usize::MAX] {
        assert_eq!(decimal(n), n.to_string());
    }
}

#[test]
fn a_timeout_is_in_seconds_and_nanoseconds() {
    let at = |nanos: u128| Moment { nanos };
    assert_eq!(
        Timeout::until(at(3_500_000_007), at(1_000_000_000)),
        Timeout {
            secs: 2,
            nanos: 500_000_007
        }
    );
    // Past is now.
    assert_eq!(Timeout::until(at(1), at(2)), Timeout { secs: 0, nanos: 0 });
    // Too many seconds for the kernel's structure.
    assert_eq!(
        Timeout::until(at(u128::MAX), at(0)).secs,
        i64::MAX
    );
    assert_eq!(at(5).checked_after(6), Some(at(11)));
    assert_eq!(at(5).checked_after(u128::MAX), None);
    assert_eq!(at(5).min(at(3)), at(3));
    assert_eq!(at(5).after(1), at(6));
}

#[test]
fn descriptors_are_claimed_once() {
    let announced = |pid: Option<&str>| ListenVars {
        pid: pid.map(String::from),
        fds: Some("2".into()),
        names: Some("uhid:http".into()),
    };
    let mut vars = announced(Some("42"));
    let claim = vars.claim(42).unwrap();
    assert_eq!(claim.count, 2);
    assert_eq!(claim.names, ["uhid", "http"]);
    assert_eq!((&vars.pid, &vars.fds, &vars.names), (&None, &None, &None));
    assert!(vars.claim(42).is_none());
    assert!(vars.claim(43).is_none());

    // Meant for another process, or for none: left alone.
    for pid in [Some("41"), None] {
        let mut vars = announced(pid);
        assert!(vars.claim(42).is_none());
        assert_eq!(vars.pid.as_deref(), pid);
        assert_eq!(vars.fds.as_deref(), Some("2"));
        assert_eq!(vars.names.as_deref(), Some("uhid:http"));
    }

    let mut unnamed = ListenVars {
        pid: Some("42".into()),
        fds: Some("1".into()),
        names: None,
    };
    assert_eq!(unnamed.claim(42).unwrap().names, [""]);
}
