//! The life of a battery.

use uhid_battery::battery::{
    create_error_message, CreateStep, PollOutcome, ServeInput, ServeStep, ServiceInput,
    ServiceStep, WaitInput, WaitStep,
};
use uhid_battery::clock::{Moment, Timeout};
use uhid_battery::error::ErrorKind;
use uhid_battery::event::{
    create2, destroy, get_report_reply, input2, set_report_reply, Buffer, Event, RTYPE_INPUT,
};
use uhid_battery::{Battery, Identity, Kind};

const MS: u128 = 1_000_000;
const SECOND: u128 = 1_000_000_000;

fn identity(name: &str, phys: &str, uniq: &str) -> Identity {
    Identity {
        name: name.into(),
        phys: phys.into(),
        uniq: uniq.into(),
        vendor: 0,
        product: 0,
    }
}

fn at(nanos: u128) -> Moment {
    Moment { nanos }
}

/// A battery on a handle that is just a string.
fn battery(kind: Kind, percent: u8, charging: bool) -> Battery<&'static str> {
    let who = identity("Test", "daemon/test", "daemon-test");
    let (creating, _) = Battery::create("handle", &who, kind, percent, charging).unwrap();
    let creating = match creating.written::<u8>(Ok(())) {
        CreateStep::Push { creating, .. } => creating,
        other => panic!("{other:?}"),
    };
    match creating.written::<u8>(Ok(())) {
        CreateStep::Created(battery) => battery,
        other => panic!("{other:?}"),
    }
}

/// A new reading whose write succeeds.
fn publish(
    battery: &mut Battery<&'static str>,
    percent: u8,
    charging: bool,
    now: Moment,
) -> Buffer {
    let event = battery.update(percent, charging, now);
    assert_eq!(battery.written::<u8>(Ok(())), Ok(()));
    event
}

/// One round of servicing in which everything works, at one moment.
fn round(battery: &mut Battery<&'static str>, queue: &[Event], now: Moment) -> Vec<Buffer> {
    let mut queue = queue.iter();
    let mut written = Vec::new();
    let mut input: ServiceInput<u8> = ServiceInput::Begin;
    loop {
        input = match battery.service(input, now) {
            ServiceStep::Read => ServiceInput::Read(Ok(queue.next().copied())),
            ServiceStep::Reply(event) => {
                written.push(event);
                ServiceInput::Replied(Ok(()))
            }
            ServiceStep::Report(event) => {
                written.push(event);
                ServiceInput::Reported(Ok(()))
            }
            ServiceStep::Push(event) => {
                written.push(event);
                ServiceInput::Pushed(Ok(()))
            }
            ServiceStep::Done(result) => {
                assert_eq!(result, Ok(()));
                return written;
            }
        };
    }
}

#[test]
fn an_identity_the_kernel_would_alter_is_refused() {
    assert!(
        identity("Test", "daemon/test", "daemon-test")
            .validate()
            .is_ok()
    );
    assert!(
        identity(&"n".repeat(127), &"p".repeat(63), &"u".repeat(63))
            .validate()
            .is_ok()
    );
    assert!(identity("", "", "u").validate().is_ok());

    assert!(identity(&"n".repeat(128), "p", "u").validate().is_err());
    assert!(identity("n", &"p".repeat(64), "u").validate().is_err());
    assert!(identity("n", "p", &"u".repeat(64)).validate().is_err());
    assert!(identity("n", "p", "").validate().is_err());
    assert!(identity("n", "p", "a/b").validate().is_err());
    assert!(identity("n", "p", "a\0b").validate().is_err());
    assert!(identity("n\0", "p", "u").validate().is_err());
}

#[test]
fn a_refused_identity_says_why() {
    for (who, message) in [
        (
            identity(&"é".repeat(64), "p\0", ""),
            "the name must be under 128 bytes, without NUL",
        ),
        (
            identity("n", "p\0", ""),
            "phys must be under 64 bytes, without NUL",
        ),
        (
            identity("n", "p", "/"),
            "uniq must be 1 to 63 bytes, without NUL or '/'",
        ),
    ] {
        let error = who.validate().unwrap_err();
        assert_eq!(error.kind, ErrorKind::InvalidInput);
        assert_eq!(error.message, message);
    }
    // Bytes count, not characters.
    assert!(identity(&"é".repeat(63), "p", "u").validate().is_ok());
}

#[test]
fn creating_a_battery_writes_the_device_and_then_a_reading() {
    let who = Identity {
        name: "Audeze Maxwell".into(),
        phys: "my-daemon/maxwell".into(),
        uniq: "my-daemon-maxwell".into(),
        vendor: 0x3329,
        product: 0x4b18,
    };
    let (creating, event) = Battery::create("handle", &who, Kind::Headset, 87, true).unwrap();
    assert_eq!(
        event,
        create2(
            "Audeze Maxwell",
            "my-daemon/maxwell",
            "my-daemon-maxwell",
            0x3329,
            0x4b18,
            Kind::Headset.descriptor()
        )
        .unwrap()
    );
    assert_eq!(*creating.handle(), "handle");
    let (event, creating) = match creating.written::<u8>(Ok(())) {
        CreateStep::Push { event, creating } => (event, creating),
        other => panic!("{other:?}"),
    };
    assert_eq!(event, input2(&[1, 87, 1]).unwrap());
    match creating.written::<u8>(Ok(())) {
        CreateStep::Created(battery) => {
            assert_eq!(battery.percent(), 87);
            assert!(battery.charging());
            assert_eq!(battery.next_deadline(), None);
            assert_eq!(*battery.handle(), "handle");
        }
        other => panic!("{other:?}"),
    }
}

#[test]
fn a_failed_creation_gives_the_handle_back() {
    let bad = identity("n", "p", "a/b");
    let error = Battery::create("handle", &bad, Kind::Mouse, 1, false).unwrap_err();
    let (handle, source) = error.into_parts();
    assert_eq!(handle, "handle");
    assert_eq!(source.kind, ErrorKind::InvalidInput);

    // The kernel refuses the device.
    let who = identity("n", "p", "u");
    let (creating, _) = Battery::create("handle", &who, Kind::Mouse, 1, false).unwrap();
    match creating.written(Err(17u8)) {
        CreateStep::Failed(error) => assert_eq!(error.into_parts(), ("handle", 17)),
        other => panic!("{other:?}"),
    }

    // The kernel takes the device and refuses the first reading.
    let (creating, _) = Battery::create("handle", &who, Kind::Mouse, 1, false).unwrap();
    let creating = match creating.written::<u8>(Ok(())) {
        CreateStep::Push { creating, .. } => creating,
        other => panic!("{other:?}"),
    };
    match creating.written(Err(18u8)) {
        CreateStep::Teardown { event, error } => {
            assert_eq!(event, destroy());
            assert_eq!(error.into_parts(), ("handle", 18));
        }
        other => panic!("{other:?}"),
    }
    assert_eq!(
        create_error_message("no such device"),
        "could not create the virtual battery: no such device"
    );
}

#[test]
fn destroying_a_battery_gives_the_handle_back() {
    let (event, handle) = battery(Kind::Generic, 50, false).destroy();
    assert_eq!(event, destroy());
    assert_eq!(handle, "handle");
}

#[test]
fn the_level_is_a_percentage() {
    assert_eq!(battery(Kind::Generic, 255, false).percent(), 100);
    let mut battery = battery(Kind::Mouse, 42, true);
    assert_eq!(battery.report(), [2, 42, 1]);
    let event = publish(&mut battery, 101, false, at(0));
    assert_eq!(battery.percent(), 100);
    assert!(!battery.charging());
    assert_eq!(event, input2(&[2, 100, 0]).unwrap());
    assert_eq!(battery.push(), event);
}

#[test]
fn a_round_answers_every_request_in_order() {
    let mut battery = battery(Kind::Mouse, 80, true);
    let written = round(
        &mut battery,
        &[
            Event::Ignored,
            Event::GetReport {
                id: 7,
                rnum: 2,
                rtype: RTYPE_INPUT,
            },
            Event::SetReport { id: 8 },
            // The pointer's report, and a feature report.
            Event::GetReport {
                id: 9,
                rnum: 1,
                rtype: RTYPE_INPUT,
            },
            Event::GetReport {
                id: 10,
                rnum: 2,
                rtype: 0,
            },
        ],
        at(0),
    );
    assert_eq!(
        written,
        [
            get_report_reply(7, Some(&[2, 80, 1])).unwrap(),
            set_report_reply(8),
            get_report_reply(9, None).unwrap(),
            get_report_reply(10, None).unwrap(),
        ]
    );
}

#[test]
fn the_level_is_pushed_again_after_start() {
    let mut battery = battery(Kind::Generic, 30, false);
    assert!(round(&mut battery, &[Event::Start], at(SECOND)).is_empty());
    assert_eq!(battery.next_deadline(), Some(at(SECOND + 250 * MS)));
    // A second start puts nothing off.
    assert!(round(&mut battery, &[Event::Start], at(SECOND + 100 * MS)).is_empty());
    assert_eq!(battery.next_deadline(), Some(at(SECOND + 250 * MS)));
    assert!(round(&mut battery, &[], at(SECOND + 250 * MS - 1)).is_empty());
    assert_eq!(
        round(&mut battery, &[], at(SECOND + 250 * MS)),
        [input2(&[1, 30, 0]).unwrap()]
    );
    // Nor does the first push do for the second start.
    assert_eq!(battery.next_deadline(), Some(at(SECOND + 350 * MS)));
    assert!(round(&mut battery, &[], at(SECOND + 350 * MS - 1)).is_empty());
    assert_eq!(
        round(&mut battery, &[], at(SECOND + 350 * MS)),
        [input2(&[1, 30, 0]).unwrap()]
    );
    assert_eq!(battery.next_deadline(), None);
    assert!(round(&mut battery, &[], at(SECOND + 351 * MS)).is_empty());
}

#[test]
fn a_charging_flip_is_pushed_again() {
    let mut battery = battery(Kind::Generic, 30, false);
    publish(&mut battery, 30, true, at(5 * SECOND));
    assert_eq!(battery.next_deadline(), Some(at(36 * SECOND)));
    assert!(round(&mut battery, &[], at(36 * SECOND - 1)).is_empty());
    assert_eq!(
        round(&mut battery, &[], at(36 * SECOND)),
        [input2(&[1, 30, 1]).unwrap()]
    );
    assert_eq!(battery.next_deadline(), None);
}

#[test]
fn a_charging_flip_is_pushed_again_after_an_earlier_push() {
    let mut battery = battery(Kind::Generic, 30, false);
    round(&mut battery, &[Event::Start], at(0));
    publish(&mut battery, 30, true, at(100 * MS));
    let pushed = input2(&[1, 30, 1]).unwrap();
    // The push that follows the start comes too early for the flip.
    assert_eq!(battery.next_deadline(), Some(at(250 * MS)));
    assert_eq!(round(&mut battery, &[], at(250 * MS)), [pushed]);
    assert_eq!(battery.next_deadline(), Some(at(31 * SECOND + 100 * MS)));
    assert!(round(&mut battery, &[], at(31 * SECOND)).is_empty());
    assert_eq!(round(&mut battery, &[], at(31 * SECOND + 100 * MS)), [pushed]);
    assert_eq!(battery.next_deadline(), None);
}

#[test]
fn every_charging_flip_is_pushed_again() {
    let mut battery = battery(Kind::Generic, 30, false);
    publish(&mut battery, 30, true, at(0));
    publish(&mut battery, 30, false, at(20 * SECOND));
    // The first plan stands, and the second one outlives it.
    assert_eq!(battery.next_deadline(), Some(at(31 * SECOND)));
    let pushed = input2(&[1, 30, 0]).unwrap();
    assert_eq!(round(&mut battery, &[], at(31 * SECOND)), [pushed]);
    assert_eq!(battery.next_deadline(), Some(at(51 * SECOND)));
    assert_eq!(round(&mut battery, &[], at(51 * SECOND)), [pushed]);
    assert_eq!(battery.next_deadline(), None);

    // One push does for all the plans that are due.
    publish(&mut battery, 30, true, at(100 * SECOND));
    publish(&mut battery, 30, false, at(101 * SECOND));
    round(&mut battery, &[Event::Start], at(102 * SECOND));
    assert_eq!(round(&mut battery, &[], at(200 * SECOND)), [pushed]);
    assert_eq!(battery.next_deadline(), None);
}

#[test]
fn a_reading_that_cannot_be_written_is_not_published() {
    let mut battery = battery(Kind::Mouse, 42, true);
    let event = battery.update(17, false, at(0));
    assert_eq!(event, input2(&[2, 17, 0]).unwrap());
    assert_eq!(battery.written(Err(5u8)), Err(5));
    assert_eq!(battery.percent(), 42);
    assert!(battery.charging());
    // The same reading again, and this time it gets there.
    publish(&mut battery, 17, false, at(SECOND));
    assert_eq!(battery.percent(), 17);
    assert!(!battery.charging());
}

#[test]
fn the_kernel_is_told_the_last_reading_even_if_it_was_not_written() {
    let ask = Event::GetReport {
        id: 7,
        rnum: 2,
        rtype: RTYPE_INPUT,
    };
    let stale = || {
        let mut battery = battery(Kind::Mouse, 42, true);
        battery.update(17, false, at(0));
        assert_eq!(battery.written(Err(5u8)), Err(5));
        battery
    };

    // In a reply, which publishes it.
    let mut battery = stale();
    assert_eq!(
        round(&mut battery, &[ask], at(SECOND)),
        [get_report_reply(7, Some(&[2, 17, 0])).unwrap()]
    );
    assert_eq!((battery.percent(), battery.charging()), (17, false));

    // In a push, which publishes it.
    let mut battery = stale();
    round(&mut battery, &[Event::Start], at(0));
    assert_eq!((battery.percent(), battery.charging()), (42, true));
    assert_eq!(
        round(&mut battery, &[], at(SECOND)),
        [input2(&[2, 17, 0]).unwrap()]
    );
    assert_eq!((battery.percent(), battery.charging()), (17, false));

    // Not by a refusal, nor by a write that fails.
    let mut battery = stale();
    round(&mut battery, &[Event::SetReport { id: 8 }], at(SECOND));
    assert_eq!((battery.percent(), battery.charging()), (42, true));
    battery.service(ServiceInput::Reported(Err(5u8)), at(SECOND));
    battery.service(ServiceInput::Pushed(Err(5u8)), at(SECOND));
    assert_eq!((battery.percent(), battery.charging()), (42, true));

    // A flip is a flip from the last reading, or from what was published.
    let mut battery = stale();
    assert_eq!(battery.next_deadline(), None);
    publish(&mut battery, 17, true, at(SECOND));
    assert_eq!(battery.next_deadline(), Some(at(32 * SECOND)));
    let mut battery = stale();
    publish(&mut battery, 42, false, at(SECOND));
    assert_eq!(battery.next_deadline(), Some(at(32 * SECOND)));
    let mut battery = stale();
    publish(&mut battery, 42, true, at(SECOND));
    assert_eq!(battery.next_deadline(), None);
}

#[test]
fn only_a_flip_at_an_unchanged_level_plans_a_push() {
    let mut battery = battery(Kind::Generic, 100, false);
    publish(&mut battery, 99, true, at(0));
    assert_eq!(battery.next_deadline(), None);
    publish(&mut battery, 99, true, at(0));
    assert_eq!(battery.next_deadline(), None);
    publish(&mut battery, 100, true, at(0));
    // Above a hundred is a hundred, so this is a flip.
    publish(&mut battery, 200, false, at(0));
    assert_eq!(battery.next_deadline(), Some(at(31 * SECOND)));
    // The earliest planned push is the next one.
    round(&mut battery, &[Event::Start], at(SECOND));
    assert_eq!(battery.next_deadline(), Some(at(SECOND + 250 * MS)));
    publish(&mut battery, 200, true, at(SECOND));
    assert_eq!(battery.next_deadline(), Some(at(SECOND + 250 * MS)));
}

#[test]
fn a_failure_ends_the_round() {
    let mut battery = battery(Kind::Generic, 1, false);
    let done = |step: ServiceStep<u8>| match step {
        ServiceStep::Done(result) => result,
        other => panic!("{other:?}"),
    };
    assert_eq!(done(battery.service(ServiceInput::Read(Err(1)), at(0))), Err(1));
    assert_eq!(done(battery.service(ServiceInput::Replied(Err(2)), at(0))), Err(2));
    assert_eq!(done(battery.service(ServiceInput::Reported(Err(4)), at(0))), Err(4));
    assert_eq!(done(battery.service(ServiceInput::Pushed(Err(3)), at(0))), Err(3));
    assert_eq!(done(battery.service(ServiceInput::Pushed(Ok(())), at(0))), Ok(()));
    assert!(matches!(
        battery.service::<u8>(ServiceInput::Replied(Ok(())), at(0)),
        ServiceStep::Read
    ));
    assert!(matches!(
        battery.service::<u8>(ServiceInput::Reported(Ok(())), at(0)),
        ServiceStep::Read
    ));
}

#[test]
fn serving_waits_for_whatever_comes_first() {
    let mut battery = battery(Kind::Generic, 1, false);
    let wait = |battery: &Battery<&'static str>, deadline, now| {
        match battery.serve_until::<u8>(ServeInput::Serviced(Ok(())), deadline, now) {
            ServeStep::Poll(timeout) => timeout,
            other => panic!("{other:?}"),
        }
    };
    assert_eq!(
        wait(&battery, at(60 * SECOND), at(SECOND)),
        Timeout { secs: 59, nanos: 0 }
    );
    round(&mut battery, &[Event::Start], at(SECOND));
    assert_eq!(
        wait(&battery, at(60 * SECOND), at(SECOND)),
        Timeout {
            secs: 0,
            nanos: 250_000_000
        }
    );
    assert_eq!(
        wait(&battery, at(SECOND + 1), at(SECOND)),
        Timeout { secs: 0, nanos: 1 }
    );
    assert_eq!(
        wait(&battery, at(0), at(SECOND)),
        Timeout { secs: 0, nanos: 0 }
    );
}

#[test]
fn serving_ends_at_the_deadline_or_when_woken() {
    let battery = battery(Kind::Generic, 1, false);
    let deadline = at(10);
    let step = |input: ServeInput<u8>, now: u128| battery.serve_until(input, deadline, at(now));
    let ready = |wake| ServeInput::Polled(PollOutcome::Ready { wake });

    assert!(matches!(step(ServeInput::Begin, 0), ServeStep::Service));
    assert!(matches!(step(ready(None), 9), ServeStep::Service));
    assert!(matches!(step(ready(Some(0)), 9), ServeStep::Service));
    assert!(matches!(step(ready(None), 10), ServeStep::LastService));
    // Being woken counts even at the deadline.
    assert!(matches!(step(ready(Some(1)), 10), ServeStep::Done(Ok(true))));
    assert!(matches!(step(ready(Some(0x10)), 0), ServeStep::Done(Ok(true))));
    assert!(matches!(
        step(ServeInput::Polled(PollOutcome::Interrupted), 0),
        ServeStep::Done(Ok(false))
    ));
    assert!(matches!(
        step(ServeInput::Polled(PollOutcome::Failed(4)), 0),
        ServeStep::Done(Err(4))
    ));
    assert!(matches!(
        step(ServeInput::Serviced(Err(5)), 0),
        ServeStep::Done(Err(5))
    ));
    assert!(matches!(
        step(ServeInput::LastServiced(Ok(())), 10),
        ServeStep::Done(Ok(false))
    ));
    assert!(matches!(
        step(ServeInput::LastServiced(Err(6)), 10),
        ServeStep::Done(Err(6))
    ));
}

#[test]
fn waiting_for_the_power_supply_looks_every_twenty_milliseconds() {
    let battery = battery(Kind::Generic, 1, false);
    let step = |input: WaitInput<u8, u8>, deadline: Option<u128>, now: u128| {
        battery.wait_for_power_supply(input, deadline.map(at), at(now))
    };
    assert!(matches!(step(WaitInput::Begin, None, 0), WaitStep::Service));
    assert!(matches!(
        step(WaitInput::Serviced(Ok(())), None, 0),
        WaitStep::Look
    ));
    assert!(matches!(
        step(WaitInput::Serviced(Err(2)), None, 0),
        WaitStep::Done(Err(2))
    ));
    // Found, however late.
    assert!(matches!(
        step(WaitInput::Looked(Some(3)), Some(1), 9),
        WaitStep::Done(Ok(Some(3)))
    ));
    assert!(matches!(
        step(WaitInput::Looked(None), Some(9), 9),
        WaitStep::Done(Ok(None))
    ));
    assert!(matches!(
        step(WaitInput::Looked(None), Some(9), 8),
        WaitStep::Sleep(20_000_000)
    ));
    // No deadline, no end.
    assert!(matches!(
        step(WaitInput::Looked(None), None, u128::MAX),
        WaitStep::Sleep(20_000_000)
    ));
    assert!(matches!(step(WaitInput::Slept, None, 0), WaitStep::Service));
}

#[test]
fn a_battery_finds_its_own_power_supply() {
    let battery = battery(Kind::Generic, 1, false);
    let names: Vec<String> = ["BAT0", "hid-daemon-battery-1", "hid-daemon-test-battery-1"]
        .iter()
        .map(|name| String::from(*name))
        .collect();
    assert_eq!(battery.power_supply(&names), Some(2));
    assert_eq!(battery.power_supply(&names[..2].to_vec()), None);
}
