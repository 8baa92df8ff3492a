//! A live virtual battery.
//!
//! Everything here decides; nothing here touches the device. A caller performs
//! the reads, writes and waits it is told to perform, and hands the outcome
//! back. Handles and kernel errors are carried through untouched, so their
//! types are left to the caller.

use vstd::prelude::*;
use vstd::string::*;

use crate::clock::{Moment, Timeout};
use crate::descriptor::Kind;
use crate::error::{invalid, Error};
use crate::event::{
    create2, destroy, get_report_reply, input2, set_report_reply, Buffer, Event, LEN_NAME,
    LEN_PHYS, LEN_UNIQ, RTYPE_INPUT,
};
use crate::schedule::{Reason, Schedule};
use crate::sysfs::find_power_supply;
use crate::text::contains_char;

verus! {

/// uhid registers the device from a worker, and hid-core drops input reports -
/// silently, the write still succeeds - until the driver has finished probing.
/// `UHID_START` arrives part-way through the probe, so the level is pushed
/// again this many nanoseconds after it. Should that still be too early nothing
/// breaks: the kernel asks for the level (`GET_REPORT`) until a push lands.
pub const START_SETTLE_DELAY: u128 = 250_000_000;

/// `hid-input` rate-limits the uevents it raises for battery reports: a level
/// that did not change is only announced again 30 s after the last
/// announcement. Whether a charging flip at an unchanged level escapes that
/// window depends on the kernel (7.2 announces it at once; older ones update
/// sysfs quietly, so UPower never reads it again). Pushing the same report once
/// the window has closed, this many nanoseconds later, costs one redundant
/// uevent at worst.
pub const CHARGE_FLIP_REPUSH_DELAY: u128 = 31_000_000_000;

/// How often [`Battery::wait_for_power_supply`] looks, in nanoseconds.
pub const REGISTRATION_POLL: u64 = 20_000_000;

/// How the virtual device introduces itself.
#[derive(Debug, Clone, PartialEq, Eq)]
pub struct Identity {
    /// Device name. It reaches UPower as the model, which is the label desktops
    /// show, so make it the product's marketing name.
    pub name: String,
    /// Physical path, free-form. A udev rule can match on it, which is what
    /// [`Kind::udev_rule`] relies on; `<daemon>/<device>` is a good shape.
    pub phys: String,
    /// Unique ID. The kernel names the power supply `hid-<uniq>-battery[-<n>]`,
    /// so it has to be unique on the machine and filesystem-safe: not empty,
    /// and without a `/`. Never put a string that came from the device in here.
    pub uniq: String,
    /// Vendor ID, usually mirrored from the real device.
    pub vendor: u32,
    /// Product ID, usually mirrored from the real device.
    pub product: u32,
}

/// Whether `value` fits a NUL-terminated field of `field` bytes as it is.
pub open spec fn fits_field(value: Seq<char>, field: int) -> bool {
    vstd::utf8::encode_utf8(value).len() < field && !value.contains('\0')
}

fn fits(value: &str, field: usize) -> (yes: bool)
    ensures
        yes == fits_field(value@, field as int),
{
    value.as_bytes().len() < field && !contains_char(value, '\0')
}

impl Identity {
    /// What is wrong with the strings, if the kernel would not take them as they
    /// are or could not name a power supply after them.
    pub open spec fn complaint(self) -> Option<Seq<char>> {
        if !fits_field(self.name@, LEN_NAME as int) {
            Some("the name must be under 128 bytes, without NUL"@)
        } else if !fits_field(self.phys@, LEN_PHYS as int) {
            Some("phys must be under 64 bytes, without NUL"@)
        } else if self.uniq@.len() == 0 || self.uniq@.contains('/') || !fits_field(
            self.uniq@,
            LEN_UNIQ as int,
        ) {
            Some("uniq must be 1 to 63 bytes, without NUL or '/'"@)
        } else {
            None
        }
    }

    /// Checks that the kernel will take the strings as they are.
    ///
    /// Each one lands in a fixed-size, NUL-terminated field. A string that did
    /// not fit would be cut short without a word, and for `uniq` that means a
    /// power supply under a name [`Battery::power_supply`] never looks for.
    pub fn validate(&self) -> (checked: Result<(), Error>)
        ensures
            match checked {
                Ok(()) => self.complaint() is None,
                Err(error) => self.complaint() is Some && error.is_invalid(self.complaint()->0),
            },
    {
        if !fits(self.name.as_str(), LEN_NAME) {
            return Err(invalid("the name must be under 128 bytes, without NUL"));
        }
        if !fits(self.phys.as_str(), LEN_PHYS) {
            return Err(invalid("phys must be under 64 bytes, without NUL"));
        }
        if self.uniq.as_str().is_empty() || contains_char(self.uniq.as_str(), '/') || !fits(
            self.uniq.as_str(),
            LEN_UNIQ,
        ) {
            return Err(invalid("uniq must be 1 to 63 bytes, without NUL or '/'"));
        }
        Ok(())
    }

    /// The event that creates the device of this identity and kind.
    pub open spec fn create_event(self, kind: Kind) -> Seq<u8> {
        crate::event::create2_event(
            self.name@,
            self.phys@,
            self.uniq@,
            self.vendor,
            self.product,
            kind.report_descriptor(),
        )
    }
}

/// A failed [`Battery::create`]. It carries the handle back, because a handle
/// that came from the service manager cannot be opened again.
#[derive(Debug)]
pub struct CreateError<H, E> {
    handle: H,
    source: E,
}

impl<H, E> CreateError<H, E> {
    /// The handle that comes back.
    pub closed spec fn handle(self) -> H {
        self.handle
    }

    /// The underlying error.
    pub closed spec fn source(self) -> E {
        self.source
    }

    /// Recovers the handle and the underlying error.
    #[must_use]
    pub fn into_parts(self) -> (parts: (H, E))
        ensures
            parts == (self.handle(), self.source()),
    {
        (self.handle, self.source)
    }
}

/// What a failed [`Battery::create`] says, given what the underlying error says.
pub fn create_error_message(source: &str) -> (message: String)
    ensures
        message@ == "could not create the virtual battery: "@ + source@,
{
    let mut message: String = "could not create the virtual battery: ".to_owned();
    message.append(source);
    message
}

/// What there is to know about a battery.
pub struct BatteryState {
    /// What the desktop takes the device for.
    pub kind: Kind,
    /// The unique ID of the device.
    pub uniq: Seq<char>,
    /// The level last read, in percent, which is what the kernel is told next.
    pub percent: u8,
    /// Whether the battery was last read as charging.
    pub charging: bool,
    /// The level last published, in percent.
    pub published_percent: u8,
    /// Whether the battery was last published as charging.
    pub published_charging: bool,
    /// When the level is to be pushed again.
    pub repush: Schedule,
}

/// A level in percent, at most 100.
pub open spec fn clamped(percent: u8) -> u8 {
    if percent <= 100 {
        percent
    } else {
        100
    }
}

/// The report of a battery of this kind with this reading: its ID, the level,
/// and the charging bit.
pub open spec fn battery_report(kind: Kind, percent: u8, charging: bool) -> Seq<u8> {
    seq![
        kind.battery_report(),
        percent,
        if charging {
            1u8
        } else {
            0u8
        },
    ]
}

impl BatteryState {
    /// The battery report.
    pub open spec fn report(self) -> Seq<u8> {
        battery_report(self.kind, self.percent, self.charging)
    }

    /// The event that publishes the level.
    pub open spec fn push_event(self) -> Seq<u8> {
        crate::event::input2_event(self.report())
    }

    /// The battery with a push planned for `due`.
    pub open spec fn with_push_at(self, reason: Reason, due: Moment) -> BatteryState {
        BatteryState { repush: self.repush.planned(reason, due), ..self }
    }

    /// Whether this reading flips the charging bit and nothing else, compared
    /// with the last reading or with the one last published.
    pub open spec fn only_flips(self, percent: u8, charging: bool) -> bool {
        ||| charging != self.charging && clamped(percent) == self.percent
        ||| charging != self.published_charging && clamped(percent) == self.published_percent
    }

    /// The battery after a new reading at `now`, before it is published. A flip
    /// has its second push planned.
    pub open spec fn updated(self, percent: u8, charging: bool, now: Moment) -> BatteryState {
        let scheduled = if self.only_flips(percent, charging) {
            self.with_push_at(Reason::Flip, now.plus(CHARGE_FLIP_REPUSH_DELAY))
        } else {
            self
        };
        BatteryState { percent: clamped(percent), charging, ..scheduled }
    }

    /// The battery once the last reading got to the kernel.
    pub open spec fn published(self) -> BatteryState {
        BatteryState {
            published_percent: self.percent,
            published_charging: self.charging,
            ..self
        }
    }

    /// Whether a push is due at `now`.
    pub open spec fn is_due(self, now: Moment) -> bool {
        self.repush.due_at(now)
    }

    /// Whether `event` asks for the battery's input report.
    pub open spec fn is_asked(self, event: Event) -> bool {
        match event {
            Event::GetReport { id, rnum, rtype } => rnum == self.kind.battery_report() && rtype
                == RTYPE_INPUT,
            _ => false,
        }
    }

    /// The event that answers `event`, if it wants an answer: a request for the
    /// battery's input report is served, any other request is refused.
    pub open spec fn answer(self, event: Event) -> Option<Seq<u8>> {
        match event {
            Event::GetReport { id, rnum, rtype } => Some(
                crate::event::get_report_reply_event(
                    id,
                    if self.is_asked(event) {
                        Some(self.report())
                    } else {
                        None
                    },
                ),
            ),
            Event::SetReport { id } => Some(crate::event::set_report_reply_event(id)),
            Event::Start | Event::Ignored => None,
        }
    }

    /// The battery after `event` was received at `now`.
    pub open spec fn notified(self, event: Event, now: Moment) -> BatteryState {
        match event {
            Event::Start => self.with_push_at(Reason::Start, now.plus(START_SETTLE_DELAY)),
            _ => self,
        }
    }

    /// The battery after `event` was received at `now` and its answer, if it
    /// wants one, was written.
    pub open spec fn answered(self, event: Event, now: Moment) -> BatteryState {
        if self.is_asked(event) {
            self.notified(event, now).published()
        } else {
            self.notified(event, now)
        }
    }

    /// The point in time to wait for when the caller waits until `deadline`.
    pub open spec fn wait_until(self, deadline: Moment) -> Moment {
        match self.repush.next_push() {
            Some(due) => due.earlier_of(deadline),
            None => deadline,
        }
    }
}

/// A virtual HID device exposing one battery, on a handle of type `H`.
///
/// The kernel tears the device - and its power supply - down when the handle is
/// closed, so dropping this, or the process dying, is cleanup enough. Use
/// [`Battery::destroy`] to keep the handle for a later device.
///
/// Something has to keep calling [`Battery::service`] while the battery exists:
/// reading the level from sysfs can make the kernel ask *us* for it, and it
/// waits up to five seconds for the answer, holding up whoever was reading.
#[derive(Debug)]
pub struct Battery<H> {
    handle: H,
    kind: Kind,
    uniq: String,
    percent: u8,
    charging: bool,
    published_percent: u8,
    published_charging: bool,
    repush: Schedule,
}

impl<H> View for Battery<H> {
    type V = BatteryState;

    closed spec fn view(&self) -> BatteryState {
        BatteryState {
            kind: self.kind,
            uniq: self.uniq@,
            percent: self.percent,
            charging: self.charging,
            published_percent: self.published_percent,
            published_charging: self.published_charging,
            repush: self.repush,
        }
    }
}

/// A battery whose device is being created.
#[derive(Debug)]
pub struct Creating<H> {
    battery: Battery<H>,
    pushing: bool,
}

/// What to do next to create a battery.
#[derive(Debug)]
pub enum CreateStep<H, E> {
    /// Write the first reading and hand the outcome to [`Creating::written`].
    Push { event: Buffer, creating: Creating<H> },
    /// Write this, whatever comes of it, discard what the kernel queued, and
    /// fail with the error.
    Teardown { event: Buffer, error: CreateError<H, E> },
    /// The device is there.
    Created(Battery<H>),
    /// The device is not there.
    Failed(CreateError<H, E>),
}

/// What came of the last [`ServiceStep`].
#[derive(Debug)]
pub enum ServiceInput<E> {
    /// Nothing was asked for yet.
    Begin,
    /// A read, which found an event or an empty queue.
    Read(Result<Option<Event>, E>),
    /// The write of a reply that carries no report.
    Replied(Result<(), E>),
    /// The write of a reply that carries the battery's report.
    Reported(Result<(), E>),
    /// The write of a reading.
    Pushed(Result<(), E>),
}

/// What to do next to service a battery.
#[derive(Debug)]
pub enum ServiceStep<E> {
    /// Read the next pending event.
    Read,
    /// Write this reply, which carries no report.
    Reply(Buffer),
    /// Write this reply, which carries the battery's report.
    Report(Buffer),
    /// Write this reading.
    Push(Buffer),
    /// Stop.
    Done(Result<(), E>),
}

/// What a [`ServiceStep`] asks for, with the bytes of the event.
pub enum ServiceAction<E> {
    Read,
    Reply(Seq<u8>),
    Report(Seq<u8>),
    Push(Seq<u8>),
    Done(Result<(), E>),
}

impl<E> View for ServiceStep<E> {
    type V = ServiceAction<E>;

    open spec fn view(&self) -> ServiceAction<E> {
        match *self {
            ServiceStep::Read => ServiceAction::Read,
            ServiceStep::Reply(event) => ServiceAction::Reply(event@),
            ServiceStep::Report(event) => ServiceAction::Report(event@),
            ServiceStep::Push(event) => ServiceAction::Push(event@),
            ServiceStep::Done(result) => ServiceAction::Done(result),
        }
    }
}

/// What comes of one input to [`Battery::service`] at `now`: the battery after
/// it, and what to do next.
pub open spec fn serviced<E>(state: BatteryState, input: ServiceInput<E>, now: Moment) -> (
    BatteryState,
    ServiceAction<E>,
) {
    match input {
        ServiceInput::Begin => (state, ServiceAction::Read),
        ServiceInput::Read(Err(error)) => (state, ServiceAction::Done(Err(error))),
        ServiceInput::Read(Ok(Some(event))) => (
            state.notified(event, now),
            match state.answer(event) {
                Some(reply) => if state.is_asked(event) {
                    ServiceAction::Report(reply)
                } else {
                    ServiceAction::Reply(reply)
                },
                None => ServiceAction::Read,
            },
        ),
        ServiceInput::Read(Ok(None)) => if state.is_due(now) {
            (
                BatteryState { repush: state.repush.pushed(now), ..state },
                ServiceAction::Push(state.push_event()),
            )
        } else {
            (state, ServiceAction::Done(Ok(())))
        },
        ServiceInput::Replied(Ok(())) => (state, ServiceAction::Read),
        ServiceInput::Replied(Err(error)) => (state, ServiceAction::Done(Err(error))),
        ServiceInput::Reported(Ok(())) => (state.published(), ServiceAction::Read),
        ServiceInput::Reported(Err(error)) => (state, ServiceAction::Done(Err(error))),
        ServiceInput::Pushed(Ok(())) => (state.published(), ServiceAction::Done(Ok(()))),
        ServiceInput::Pushed(Err(error)) => (state, ServiceAction::Done(Err(error))),
    }
}

/// How a wait for the device, and for the descriptor that wakes the caller, if
/// there is one, ended.
#[derive(Debug)]
pub enum PollOutcome<E> {
    /// It ended in time, with these events on the waking descriptor.
    Ready { wake: Option<u16> },
    /// A signal interrupted it.
    Interrupted,
    /// It failed.
    Failed(E),
}

/// What came of the last [`ServeStep`].
#[derive(Debug)]
pub enum ServeInput<E> {
    /// Nothing was asked for yet.
    Begin,
    /// A round of [`Battery::service`].
    Serviced(Result<(), E>),
    /// A wait.
    Polled(PollOutcome<E>),
    /// The round of [`Battery::service`] at the deadline.
    LastServiced(Result<(), E>),
}

/// What to do next to serve a battery until a deadline.
#[derive(Debug)]
pub enum ServeStep<E> {
    /// Run a round of [`Battery::service`].
    Service,
    /// Wait for the device or the waking descriptor, at most this long.
    Poll(Timeout),
    /// Run a round of [`Battery::service`], the last one.
    LastService,
    /// Return this: whether the wait reported anything about the waking
    /// descriptor.
    Done(Result<bool, E>),
}

/// What comes of one input to [`Battery::serve_until`] at `now`.
pub open spec fn served<E>(
    state: BatteryState,
    input: ServeInput<E>,
    deadline: Moment,
    now: Moment,
) -> ServeStep<E> {
    match input {
        ServeInput::Begin => ServeStep::Service,
        ServeInput::Serviced(Ok(())) => ServeStep::Poll(
            Timeout::of_nanos(state.wait_until(deadline).since(now)),
        ),
        ServeInput::Serviced(Err(error)) => ServeStep::Done(Err(error)),
        ServeInput::Polled(PollOutcome::Interrupted) => ServeStep::Done(Ok(false)),
        ServeInput::Polled(PollOutcome::Failed(error)) => ServeStep::Done(Err(error)),
        ServeInput::Polled(PollOutcome::Ready { wake }) => if wake is Some && wake->0 != 0 {
            ServeStep::Done(Ok(true))
        } else if now.nanos >= deadline.nanos {
            ServeStep::LastService
        } else {
            ServeStep::Service
        },
        ServeInput::LastServiced(Ok(())) => ServeStep::Done(Ok(false)),
        ServeInput::LastServiced(Err(error)) => ServeStep::Done(Err(error)),
    }
}

/// What came of the last [`WaitStep`].
#[derive(Debug)]
pub enum WaitInput<P, E> {
    /// Nothing was asked for yet.
    Begin,
    /// A round of [`Battery::service`].
    Serviced(Result<(), E>),
    /// A look for the power supply.
    Looked(Option<P>),
    /// A pause.
    Slept,
}

/// What to do next to wait for the power supply.
#[derive(Debug)]
pub enum WaitStep<P, E> {
    /// Run a round of [`Battery::service`].
    Service,
    /// Look for the power supply.
    Look,
    /// Pause for this many nanoseconds.
    Sleep(u64),
    /// Return this: where the power supply is, if it showed up in time.
    Done(Result<Option<P>, E>),
}

/// What comes of one input to [`Battery::wait_for_power_supply`] at `now`.
pub open spec fn waited<P, E>(
    input: WaitInput<P, E>,
    deadline: Option<Moment>,
    now: Moment,
) -> WaitStep<P, E> {
    match input {
        WaitInput::Begin => WaitStep::Service,
        WaitInput::Serviced(Ok(())) => WaitStep::Look,
        WaitInput::Serviced(Err(error)) => WaitStep::Done(Err(error)),
        WaitInput::Looked(Some(path)) => WaitStep::Done(Ok(Some(path))),
        WaitInput::Looked(None) => if deadline is Some && now.nanos >= deadline->0.nanos {
            WaitStep::Done(Ok(None))
        } else {
            WaitStep::Sleep(REGISTRATION_POLL)
        },
        WaitInput::Slept => WaitStep::Service,
    }
}

impl<H> Battery<H> {
    #[verifier::type_invariant]
    spec fn level_is_a_percentage(self) -> bool {
        self.percent <= 100 && self.published_percent <= 100
    }

    /// The handle that the device lives on.
    pub closed spec fn held(self) -> H {
        self.handle
    }

    /// Starts to create the virtual device: returns the event to write first,
    /// and what to hand the outcome to.
    ///
    /// The power supply shows up a moment after the device; see
    /// [`Battery::wait_for_power_supply`].
    ///
    /// # Errors
    ///
    /// Fails if `identity` holds a string the kernel would truncate or that
    /// cannot name a power supply. The handle comes back in the error.
    pub fn create(
        handle: H,
        identity: &Identity,
        kind: Kind,
        percent: u8,
        charging: bool,
    ) -> (started: Result<(Creating<H>, Buffer), CreateError<H, Error>>)
        ensures
            match started {
                Ok((creating, event)) => {
                    &&& identity.complaint() is None
                    &&& event@ == identity.create_event(kind)
                    &&& !creating.is_pushing()
                    &&& creating.held() == handle
                    &&& creating@ == (BatteryState {
                        kind,
                        uniq: identity.uniq@,
                        percent: clamped(percent),
                        charging,
                        published_percent: clamped(percent),
                        published_charging: charging,
                        repush: Schedule::empty(),
                    })
                },
                Err(error) => {
                    &&& identity.complaint() is Some
                    &&& error.handle() == handle
                    &&& error.source().is_invalid(identity.complaint()->0)
                },
            },
    {
        match identity.validate() {
            Ok(()) => {},
            Err(source) => return Err(CreateError { handle, source }),
        }
        let event: Buffer = match create2(
            identity.name.as_str(),
            identity.phys.as_str(),
            identity.uniq.as_str(),
            identity.vendor,
            identity.product,
            kind.descriptor(),
        ) {
            Ok(event) => event,
            Err(source) => return Err(CreateError { handle, source }),
        };
        let percent: u8 = if percent <= 100 {
            percent
        } else {
            100
        };
        let battery: Battery<H> = Battery {
            handle,
            kind,
            uniq: identity.uniq.clone(),
            percent,
            charging,
            published_percent: percent,
            published_charging: charging,
            repush: Schedule::new(),
        };
        Ok((Creating { battery, pushing: false }, event))
    }

    /// Takes a new reading and returns the event that publishes it, to be
    /// written and the outcome handed to [`Battery::written`]. Pushing an
    /// unchanged reading is fine, and a good idea now and then: the kernel
    /// rate-limits the resulting uevents itself.
    pub fn update(&mut self, percent: u8, charging: bool, now: Moment) -> (event: Buffer)
        requires
            old(self)@.only_flips(percent, charging) ==> now.nanos + CHARGE_FLIP_REPUSH_DELAY
                <= u128::MAX,
        ensures
            final(self)@ == old(self)@.updated(percent, charging, now),
            final(self).held() == old(self).held(),
            event@ == final(self)@.push_event(),
    {
        let percent: u8 = if percent <= 100 {
            percent
        } else {
            100
        };
        if (charging != self.charging && percent == self.percent) || (charging
            != self.published_charging && percent == self.published_percent) {
            self.schedule_repush(Reason::Flip, now.after(CHARGE_FLIP_REPUSH_DELAY));
        }
        proof {
            use_type_invariant(&*self);
        }
        self.percent = percent;
        self.charging = charging;
        self.push()
    }

    /// Goes on after the event of a new reading was written, or was not. A
    /// reading that could not be written is not published by it, though it is
    /// still the one that the kernel is told when it asks, or when the level is
    /// pushed again.
    pub fn written<E>(&mut self, outcome: Result<(), E>) -> (result: Result<(), E>)
        ensures
            result == outcome,
            final(self)@ == match outcome {
                Ok(()) => old(self)@.published(),
                Err(_) => old(self)@,
            },
            final(self).held() == old(self).held(),
    {
        if outcome.is_ok() {
            self.note_published();
        }
        outcome
    }

    /// Notes that the last reading got to the kernel.
    fn note_published(&mut self)
        ensures
            final(self)@ == old(self)@.published(),
            final(self).held() == old(self).held(),
    {
        proof {
            use_type_invariant(&*self);
        }
        self.published_percent = self.percent;
        self.published_charging = self.charging;
    }

    /// Answers whatever the kernel has asked since the last round, and pushes
    /// the level again if a push is due. One round starts with
    /// [`ServiceInput::Begin`] and goes on, each time with what came of the last
    /// step, until [`ServiceStep::Done`]. It never asks to wait. A push that
    /// cannot be written ends the round and is not tried again.
    ///
    /// `now` is the time at which the input was obtained.
    pub fn service<E>(&mut self, input: ServiceInput<E>, now: Moment) -> (step: ServiceStep<E>)
        requires
            input matches ServiceInput::Read(Ok(Some(Event::Start))) ==> now.nanos
                + START_SETTLE_DELAY <= u128::MAX,
        ensures
            (final(self)@, step@) == serviced(old(self)@, input, now),
            final(self).held() == old(self).held(),
    {
        match input {
            ServiceInput::Begin => ServiceStep::Read,
            ServiceInput::Read(Err(error)) => ServiceStep::Done(Err(error)),
            ServiceInput::Read(Ok(Some(event))) => match event {
                Event::Start => {
                    self.schedule_repush(Reason::Start, now.after(START_SETTLE_DELAY));
                    ServiceStep::Read
                },
                Event::GetReport { id, rnum, rtype } => {
                    let ours: bool = rnum == self.kind.report_id() && rtype == RTYPE_INPUT;
                    let report: [u8; 3] = self.report();
                    if ours {
                        ServiceStep::Report(get_report_reply(id, Some(&report)).unwrap())
                    } else {
                        ServiceStep::Reply(get_report_reply(id, None).unwrap())
                    }
                },
                Event::SetReport { id } => ServiceStep::Reply(set_report_reply(id)),
                Event::Ignored => ServiceStep::Read,
            },
            ServiceInput::Read(Ok(None)) => {
                if self.repush.is_due(now) {
                    proof {
                        use_type_invariant(&*self);
                    }
                    self.repush = self.repush.push(now);
                    ServiceStep::Push(self.push())
                } else {
                    ServiceStep::Done(Ok(()))
                }
            },
            ServiceInput::Replied(Ok(())) => ServiceStep::Read,
            ServiceInput::Replied(Err(error)) => ServiceStep::Done(Err(error)),
            ServiceInput::Reported(Ok(())) => {
                self.note_published();
                ServiceStep::Read
            },
            ServiceInput::Reported(Err(error)) => ServiceStep::Done(Err(error)),
            ServiceInput::Pushed(Ok(())) => {
                self.note_published();
                ServiceStep::Done(Ok(()))
            },
            ServiceInput::Pushed(Err(error)) => ServiceStep::Done(Err(error)),
        }
    }

    /// When [`Battery::service`] next has something to do on its own, if ever.
    ///
    /// For callers running their own `poll()` loop over the handle: wake up no
    /// later than this.
    #[must_use]
    pub fn next_deadline(&self) -> (deadline: Option<Moment>)
        ensures
            deadline == self@.repush.next_push(),
    {
        self.repush.next()
    }

    /// Services the battery until `deadline`. It starts with
    /// [`ServeInput::Begin`] and goes on, each time with what came of the last
    /// step, until [`ServeStep::Done`].
    ///
    /// A descriptor to wake up for may be watched too: the result is `true` as
    /// soon as the wait reports anything about it - that it is readable, or a
    /// hangup or an error, after which a read would not block either - and
    /// `false` at the deadline - or earlier if a
    /// signal interrupts the wait, so the caller gets to look at whatever flag
    /// its handler raised.
    ///
    /// `now` is the time after the last step.
    pub fn serve_until<E>(&self, input: ServeInput<E>, deadline: Moment, now: Moment) -> (step:
        ServeStep<E>)
        ensures
            step == served(self@, input, deadline, now),
    {
        match input {
            ServeInput::Begin => ServeStep::Service,
            ServeInput::Serviced(Ok(())) => {
                let until: Moment = match self.repush.next() {
                    Some(due) => due.min(deadline),
                    None => deadline,
                };
                ServeStep::Poll(Timeout::until(until, now))
            },
            ServeInput::Serviced(Err(error)) => ServeStep::Done(Err(error)),
            ServeInput::Polled(PollOutcome::Interrupted) => ServeStep::Done(Ok(false)),
            ServeInput::Polled(PollOutcome::Failed(error)) => ServeStep::Done(Err(error)),
            ServeInput::Polled(PollOutcome::Ready { wake }) => {
                let woken: bool = match wake {
                    Some(events) => events != 0,
                    None => false,
                };
                if woken {
                    ServeStep::Done(Ok(true))
                } else if now.nanos >= deadline.nanos {
                    ServeStep::LastService
                } else {
                    ServeStep::Service
                }
            },
            ServeInput::LastServiced(Ok(())) => ServeStep::Done(Ok(false)),
            ServeInput::LastServiced(Err(error)) => ServeStep::Done(Err(error)),
        }
    }

    /// Services the battery until the kernel has registered its power supply,
    /// and returns where. `None` means it did not happen before `deadline`; no
    /// deadline at all means waiting for as long as it takes. It starts with
    /// [`WaitInput::Begin`] and goes on, each time with what came of the last
    /// step, until [`WaitStep::Done`].
    ///
    /// Worth checking: the kernel accepts a device it then builds no battery
    /// for without a word (`CONFIG_HID_BATTERY_STRENGTH` missing, say), and the
    /// only evidence is the absence of the sysfs entry.
    ///
    /// `now` is the time after the last step.
    pub fn wait_for_power_supply<P, E>(
        &self,
        input: WaitInput<P, E>,
        deadline: Option<Moment>,
        now: Moment,
    ) -> (step: WaitStep<P, E>)
        ensures
            step == waited(input, deadline, now),
    {
        match input {
            WaitInput::Begin => WaitStep::Service,
            WaitInput::Serviced(Ok(())) => WaitStep::Look,
            WaitInput::Serviced(Err(error)) => WaitStep::Done(Err(error)),
            WaitInput::Looked(Some(path)) => WaitStep::Done(Ok(Some(path))),
            WaitInput::Looked(None) => {
                let late: bool = match deadline {
                    Some(deadline) => now.nanos >= deadline.nanos,
                    None => false,
                };
                if late {
                    WaitStep::Done(Ok(None))
                } else {
                    WaitStep::Sleep(REGISTRATION_POLL)
                }
            },
            WaitInput::Slept => WaitStep::Service,
        }
    }

    /// The power supply the kernel registered for this battery, if it has, among
    /// the names in the power supply class.
    #[must_use]
    pub fn power_supply(&self, names: &Vec<String>) -> (found: Option<usize>)
        ensures
            match found {
                Some(i) => {
                    &&& i < names@.len()
                    &&& crate::sysfs::is_supply_of(names@[i as int]@, self@.uniq)
                    &&& forall|j: int|
                        0 <= j < i ==> !crate::sysfs::is_supply_of(
                            #[trigger] names@[j]@,
                            self@.uniq,
                        )
                },
                None => forall|j: int|
                    0 <= j < names@.len() ==> !crate::sysfs::is_supply_of(
                        #[trigger] names@[j]@,
                        self@.uniq,
                    ),
            },
    {
        find_power_supply(names, self.uniq.as_str())
    }

    /// The level last published, in percent.
    #[must_use]
    pub fn percent(&self) -> (percent: u8)
        ensures
            percent == self@.published_percent,
            percent <= 100,
    {
        proof {
            use_type_invariant(self);
        }
        self.published_percent
    }

    /// Whether the battery was last published as charging.
    #[must_use]
    pub fn charging(&self) -> (charging: bool)
        ensures
            charging == self@.published_charging,
    {
        self.published_charging
    }

    /// The handle that the device lives on.
    #[must_use]
    pub fn handle(&self) -> (handle: &H)
        ensures
            *handle == self.held(),
    {
        &self.handle
    }

    /// Gives up the device: returns the event that removes it from the kernel,
    /// and the handle, ready for a later [`Battery::create`] once the event is
    /// written and what the kernel queued is discarded.
    ///
    /// A failure to write the event is of no consequence: there is nothing to do
    /// about it, and the kernel removes the device anyway once the handle is
    /// closed.
    #[must_use]
    pub fn destroy(self) -> (parts: (Buffer, H))
        ensures
            parts.0@ == crate::event::blank_event(crate::event::UHID_DESTROY),
            parts.1 == self.held(),
    {
        (destroy(), self.handle)
    }

    /// The battery report: its ID, the level, and the charging bit.
    pub fn report(&self) -> (report: [u8; 3])
        ensures
            report@ == self@.report(),
    {
        let report: [u8; 3] = [
            self.kind.report_id(),
            self.percent,
            if self.charging {
                1
            } else {
                0
            },
        ];
        assert(report@ =~= self@.report());
        report
    }

    /// The event that publishes the level.
    pub fn push(&self) -> (event: Buffer)
        ensures
            event@ == self@.push_event(),
    {
        input2(&self.report()).unwrap()
    }

    /// Has the level pushed again at `due`. Pushes planned for earlier stand.
    fn schedule_repush(&mut self, reason: Reason, due: Moment)
        ensures
            final(self)@ == old(self)@.with_push_at(reason, due),
            final(self).held() == old(self).held(),
    {
        proof {
            use_type_invariant(&*self);
        }
        self.repush = self.repush.plan(reason, due);
    }
}

impl<H> View for Creating<H> {
    type V = BatteryState;

    closed spec fn view(&self) -> BatteryState {
        self.battery@
    }
}

impl<H> Creating<H> {
    /// The handle that the device is being created on.
    pub closed spec fn held(self) -> H {
        self.battery.held()
    }

    /// Whether the first reading is being written, as opposed to the event that
    /// creates the device.
    pub closed spec fn is_pushing(self) -> bool {
        self.pushing
    }

    /// The handle that the device is being created on.
    pub fn handle(&self) -> (handle: &H)
        ensures
            *handle == self.held(),
    {
        self.battery.handle()
    }

    /// Goes on after the last event was written, or was not.
    ///
    /// The first reading is most likely dropped - the probe has barely begun -
    /// but harmless, and the push that follows `UHID_START` makes up for it. If
    /// it cannot be written the device is removed again.
    pub fn written<E>(self, outcome: Result<(), E>) -> (step: CreateStep<H, E>)
        ensures
            match (outcome, self.is_pushing()) {
                (Ok(()), false) => step matches CreateStep::Push { event, creating } && {
                    &&& event@ == self@.push_event()
                    &&& creating@ == self@
                    &&& creating.held() == self.held()
                    &&& creating.is_pushing()
                },
                (Err(error), false) => step matches CreateStep::Failed(failed) && {
                    &&& failed.handle() == self.held()
                    &&& failed.source() == error
                },
                (Ok(()), true) => step matches CreateStep::Created(battery) && {
                    &&& battery@ == self@
                    &&& battery.held() == self.held()
                },
                (Err(error), true) => step matches CreateStep::Teardown { event, error: failed }
                    && {
                    &&& event@ == crate::event::blank_event(crate::event::UHID_DESTROY)
                    &&& failed.handle() == self.held()
                    &&& failed.source() == error
                },
            },
    {
        let Creating { battery, pushing } = self;
        match outcome {
            Ok(()) => {
                if pushing {
                    CreateStep::Created(battery)
                } else {
                    let event: Buffer = battery.push();
                    CreateStep::Push { event, creating: Creating { battery, pushing: true } }
                }
            },
            Err(source) => {
                let (event, handle) = battery.destroy();
                if pushing {
                    CreateStep::Teardown { event, error: CreateError { handle, source } }
                } else {
                    CreateStep::Failed(CreateError { handle, source })
                }
            },
        }
    }
}

/// An identity is accepted if, and only if, the kernel finds in the event that
/// creates the device the very strings it holds, and `uniq` can name a power
/// supply.
pub proof fn law_an_accepted_identity_arrives_whole(identity: Identity, kind: Kind)
    ensures
        ({
            let event = identity.create_event(kind);
            let name = event.subrange(4, 132);
            let phys = event.subrange(132, 196);
            let uniq = event.subrange(196, 260);
            identity.complaint() is None <==> {
                &&& crate::event::c_string(name) == vstd::utf8::encode_utf8(identity.name@)
                &&& crate::event::c_string(phys) == vstd::utf8::encode_utf8(identity.phys@)
                &&& crate::event::c_string(uniq) == vstd::utf8::encode_utf8(identity.uniq@)
                &&& identity.uniq@.len() > 0
                &&& !identity.uniq@.contains('/')
            }
        }),
{
    crate::event::law_create2_layout(
        identity.name@,
        identity.phys@,
        identity.uniq@,
        identity.vendor,
        identity.product,
        kind.report_descriptor(),
    );
    crate::event::law_a_string_arrives_whole_iff_it_fits(identity.name@, LEN_NAME as nat);
    crate::event::law_a_string_arrives_whole_iff_it_fits(identity.phys@, LEN_PHYS as nat);
    crate::event::law_a_string_arrives_whole_iff_it_fits(identity.uniq@, LEN_UNIQ as nat);
}

/// The level is a percentage after every reading, and servicing never changes
/// the reading. What was published is what was published before or the last
/// reading.
pub proof fn law_the_level_stays_a_percentage<E>(
    state: BatteryState,
    percent: u8,
    charging: bool,
    input: ServiceInput<E>,
    now: Moment,
)
    ensures
        state.updated(percent, charging, now).percent <= 100,
        percent <= 100 ==> state.updated(percent, charging, now).percent == percent,
        state.updated(percent, charging, now).charging == charging,
        ({
            let after = serviced(state, input, now).0;
            &&& after.percent == state.percent
            &&& after.charging == state.charging
            &&& after.kind == state.kind
            &&& after.uniq == state.uniq
            &&& {
                ||| after.published_percent == state.published_percent && after.published_charging
                    == state.published_charging
                ||| after.published_percent == state.percent && after.published_charging
                    == state.charging
            }
        }),
{
}

/// The kernel finds the level in the byte right after the report ID, whether we
/// push the report or it asks for it.
pub proof fn law_the_level_follows_the_report_id(state: BatteryState, id: u32)
    ensures
        ({
            let pushed = state.push_event();
            let asked = state.answer(
                Event::GetReport { id, rnum: state.kind.battery_report(), rtype: RTYPE_INPUT },
            );
            &&& pushed.subrange(6, 9) == state.report()
            &&& asked is Some
            &&& asked->0.subrange(8, 10) == crate::bytes::ne_u16(0)
            &&& asked->0.subrange(12, 15) == state.report()
            &&& state.report()[0] == state.kind.battery_report()
            &&& state.report()[1] == state.percent
        }),
{
    crate::event::law_input2_layout(state.report());
    crate::event::law_replies_carry_the_request_id(id, state.report());
}

/// A request for anything but the battery's input report, and every request to
/// set a report, is refused with `EIO` under the request's own ID.
pub proof fn law_other_requests_are_refused(state: BatteryState, id: u32, rnum: u8, rtype: u8)
    requires
        rnum != state.kind.battery_report() || rtype != RTYPE_INPUT,
    ensures
        ({
            let get = state.answer(Event::GetReport { id, rnum, rtype });
            let set = state.answer(Event::SetReport { id });
            &&& get is Some
            &&& get->0.subrange(4, 8) == crate::bytes::ne_u32(id)
            &&& get->0.subrange(8, 10) == crate::bytes::ne_u16(crate::event::EIO)
            &&& set is Some
            &&& set->0.subrange(4, 8) == crate::bytes::ne_u32(id)
            &&& set->0.subrange(8, 10) == crate::bytes::ne_u16(crate::event::EIO)
        }),
{
    crate::event::law_replies_carry_the_request_id(id, Seq::empty());
}

/// One round of [`Battery::service`] in which every read and write succeeds:
/// the events found in the queue, each with the time it was read, and the time
/// at which the queue was found empty. What comes of it is the battery
/// afterwards and the events written, in order.
pub open spec fn round(
    state: BatteryState,
    reads: Seq<(Event, Moment)>,
    end: Moment,
) -> (BatteryState, Seq<Seq<u8>>)
    decreases reads.len(),
{
    if reads.len() == 0 {
        match serviced::<()>(state, ServiceInput::Read(Ok(None)), end) {
            (after, ServiceAction::Push(event)) => (
                serviced::<()>(after, ServiceInput::Pushed(Ok(())), end).0,
                seq![event],
            ),
            (after, _) => (after, Seq::empty()),
        }
    } else {
        let (event, now) = reads[0];
        let rest = reads.drop_first();
        match serviced::<()>(state, ServiceInput::Read(Ok(Some(event))), now) {
            (after, ServiceAction::Reply(reply)) => {
                let next = serviced::<()>(after, ServiceInput::Replied(Ok(())), now).0;
                let (last, written) = round(next, rest, end);
                (last, seq![reply] + written)
            },
            (after, ServiceAction::Report(reply)) => {
                let next = serviced::<()>(after, ServiceInput::Reported(Ok(())), now).0;
                let (last, written) = round(next, rest, end);
                (last, seq![reply] + written)
            },
            (after, _) => round(after, rest, end),
        }
    }
}

/// The answers that the events in `reads` want, in order.
pub open spec fn answers(state: BatteryState, reads: Seq<(Event, Moment)>) -> Seq<Seq<u8>>
    decreases reads.len(),
{
    if reads.len() == 0 {
        Seq::empty()
    } else {
        let rest = answers(state, reads.drop_first());
        match state.answer(reads[0].0) {
            Some(reply) => seq![reply] + rest,
            None => rest,
        }
    }
}

/// The battery after all the events in `reads` and their answers.
pub open spec fn answered_all(
    state: BatteryState,
    reads: Seq<(Event, Moment)>,
) -> BatteryState
    decreases reads.len(),
{
    if reads.len() == 0 {
        state
    } else {
        answered_all(state.answered(reads[0].0, reads[0].1), reads.drop_first())
    }
}

proof fn lemma_answers_depend_on_the_reading(
    a: BatteryState,
    b: BatteryState,
    reads: Seq<(Event, Moment)>,
)
    requires
        a.kind == b.kind,
        a.percent == b.percent,
        a.charging == b.charging,
    ensures
        answers(a, reads) == answers(b, reads),
    decreases reads.len(),
{
    if reads.len() > 0 {
        lemma_answers_depend_on_the_reading(a, b, reads.drop_first());
    }
}

/// A round answers every request in the queue, once and in order, and then
/// publishes the level if a push is due - once, however many were planned.
pub proof fn law_a_round_answers_every_request(
    state: BatteryState,
    reads: Seq<(Event, Moment)>,
    end: Moment,
)
    ensures
        ({
            let after = answered_all(state, reads);
            round(state, reads, end) == if after.is_due(end) {
                (
                    BatteryState { repush: after.repush.pushed(end), ..after.published() },
                    answers(state, reads) + seq![state.push_event()],
                )
            } else {
                (after, answers(state, reads))
            }
        }),
    decreases reads.len(),
{
    if reads.len() == 0 {
        assert(answers(state, reads) + seq![state.push_event()] =~= seq![state.push_event()]);
    } else {
        let next = state.answered(reads[0].0, reads[0].1);
        let rest = reads.drop_first();
        law_a_round_answers_every_request(next, rest, end);
        lemma_answers_depend_on_the_reading(state, next, rest);
        match state.answer(reads[0].0) {
            Some(reply) => {
                assert(seq![reply] + (answers(next, rest) + seq![next.push_event()])
                    =~= answers(state, reads) + seq![state.push_event()]);
            },
            None => {},
        }
    }
}

/// A push that is planned is never put off: it stays planned, for then or
/// earlier, until a push is handed out to be written at or after that time. A
/// push that cannot be written is not planned again.
pub proof fn law_a_planned_push_is_kept<E>(
    state: BatteryState,
    input: ServiceInput<E>,
    percent: u8,
    charging: bool,
    now: Moment,
)
    requires
        state.repush.next_push() is Some,
    ensures
        ({
            let due = state.repush.next_push()->0;
            let updated = state.updated(percent, charging, now).repush.next_push();
            let (after, action) = serviced(state, input, now);
            let next = after.repush.next_push();
            &&& updated is Some && updated->0.nanos <= due.nanos
            &&& {
                ||| next is Some && next->0.nanos <= due.nanos
                ||| action == ServiceAction::<E>::Push(state.push_event()) && now.nanos
                    >= due.nanos
            }
        }),
{
}

/// The push planned for a reason outlives every push that comes too early for
/// it: it stays planned, for the same time, until a push is handed out at or
/// after that time, or the same thing happens again and plans a new one.
pub proof fn law_a_plan_outlives_an_earlier_push<E>(
    state: BatteryState,
    reason: Reason,
    input: ServiceInput<E>,
    percent: u8,
    charging: bool,
    now: Moment,
)
    requires
        state.repush.plan_for(reason) is Some,
    ensures
        ({
            let due = state.repush.plan_for(reason)->0;
            let updated = state.updated(percent, charging, now);
            let (after, action) = serviced(state, input, now);
            &&& updated.repush.plan_for(reason) == if reason == Reason::Flip && state.only_flips(
                percent,
                charging,
            ) {
                Some(now.plus(CHARGE_FLIP_REPUSH_DELAY))
            } else {
                Some(due)
            }
            &&& if reason == Reason::Start && input == ServiceInput::<E>::Read(
                Ok(Some(Event::Start)),
            ) {
                after.repush.plan_for(reason) == Some(now.plus(START_SETTLE_DELAY))
            } else {
                ||| after.repush.plan_for(reason) == Some(due)
                ||| action == ServiceAction::<E>::Push(state.push_event()) && now.nanos
                    >= due.nanos
            }
        }),
{
}

/// Once the driver is attached the level is pushed again after the settling
/// delay. A push planned for earlier still comes first, and if none was, none
/// comes before the delay is over.
pub proof fn law_the_level_is_pushed_after_start<E>(
    state: BatteryState,
    now: Moment,
    later: Moment,
)
    requires
        now.nanos + START_SETTLE_DELAY <= u128::MAX,
    ensures
        ({
            let settled = now.plus(START_SETTLE_DELAY);
            let after = serviced::<E>(state, ServiceInput::Read(Ok(Some(Event::Start))), now).0;
            let (end, action) = serviced::<E>(after, ServiceInput::Read(Ok(None)), later);
            &&& settled.nanos == now.nanos + START_SETTLE_DELAY
            &&& after.repush.settle == Some(settled)
            &&& after.repush.next_push() == crate::schedule::earlier_plan(
                state.repush.next_push(),
                Some(settled),
            )
            &&& later.nanos >= settled.nanos ==> action == ServiceAction::<E>::Push(
                after.push_event(),
            )
            &&& later.nanos < settled.nanos ==> end.repush.settle == Some(settled)
            &&& state.repush.next_push() is None && later.nanos < settled.nanos ==> action
                == ServiceAction::<E>::Done(Ok(()))
        }),
{
}

/// A charging flip at an unchanged level is pushed again once the kernel's rate
/// limit of 30 seconds has run out, whatever else was planned. A push planned
/// for earlier still comes first, and if none was, none comes before that time.
pub proof fn law_a_charging_flip_is_pushed_again<E>(
    state: BatteryState,
    percent: u8,
    charging: bool,
    now: Moment,
    later: Moment,
)
    requires
        state.only_flips(percent, charging),
        now.nanos + CHARGE_FLIP_REPUSH_DELAY <= u128::MAX,
    ensures
        ({
            let due = now.plus(CHARGE_FLIP_REPUSH_DELAY);
            let after = state.updated(percent, charging, now);
            let (end, action) = serviced::<E>(after, ServiceInput::Read(Ok(None)), later);
            &&& due.nanos == now.nanos + CHARGE_FLIP_REPUSH_DELAY
            &&& due.nanos > now.nanos + 30_000_000_000
            &&& after.charging == charging
            &&& after.repush.flip == Some(due)
            &&& after.repush.next_push() == crate::schedule::earlier_plan(
                state.repush.next_push(),
                Some(due),
            )
            &&& later.nanos >= due.nanos ==> action == ServiceAction::<E>::Push(after.push_event())
            &&& later.nanos < due.nanos ==> end.repush.flip == Some(due)
            &&& state.repush.next_push() is None && later.nanos < due.nanos ==> action
                == ServiceAction::<E>::Done(Ok(()))
        }),
{
}

/// What a series of rounds writes, round by round. Each round is the events
/// found in the queue and the time at which the queue was found empty.
pub open spec fn rounds(
    state: BatteryState,
    series: Seq<(Seq<(Event, Moment)>, Moment)>,
) -> Seq<Seq<Seq<u8>>>
    decreases series.len(),
{
    if series.len() == 0 {
        Seq::empty()
    } else {
        let (after, written) = round(state, series[0].0, series[0].1);
        seq![written] + rounds(after, series.drop_first())
    }
}

/// Whether these events leave the push planned for `reason` alone: only a start
/// plans anew, and only for its own reason.
pub open spec fn keeps_plan(reason: Reason, reads: Seq<(Event, Moment)>) -> bool {
    reason == Reason::Start ==> forall|i: int|
        0 <= i < reads.len() ==> (#[trigger] reads[i]).0 != Event::Start
}

proof fn lemma_events_leave_the_plan(
    state: BatteryState,
    reason: Reason,
    reads: Seq<(Event, Moment)>,
)
    requires
        keeps_plan(reason, reads),
    ensures
        answered_all(state, reads).repush.plan_for(reason) == state.repush.plan_for(reason),
        answered_all(state, reads).push_event() == state.push_event(),
    decreases reads.len(),
{
    if reads.len() > 0 {
        let rest = reads.drop_first();
        assert forall|i: int| reason == Reason::Start && 0 <= i < rest.len() implies (
        #[trigger] rest[i]).0 != Event::Start by {
            assert(rest[i] == reads[i + 1]);
        }
        lemma_events_leave_the_plan(state.answered(reads[0].0, reads[0].1), reason, rest);
    }
}

/// The round that pushes the reading again once the push planned for `reason` is
/// due.
proof fn lemma_the_plan_is_served(
    state: BatteryState,
    reason: Reason,
    series: Seq<(Seq<(Event, Moment)>, Moment)>,
    due: Moment,
) -> (n: int)
    requires
        state.repush.plan_for(reason) == Some(due),
        series.len() > 0,
        series.last().1.nanos >= due.nanos,
        forall|i: int| 0 <= i < series.len() ==> keeps_plan(reason, (#[trigger] series[i]).0),
    ensures
        rounds(state, series).len() == series.len(),
        0 <= n < series.len(),
        series[n].1.nanos >= due.nanos,
        rounds(state, series)[n].len() > 0,
        rounds(state, series)[n].last() == state.push_event(),
    decreases series.len(),
{
    let (reads, end) = series[0];
    let (after, written) = round(state, reads, end);
    let rest = series.drop_first();
    law_a_round_answers_every_request(state, reads, end);
    assert(keeps_plan(reason, series[0].0));
    lemma_events_leave_the_plan(state, reason, reads);
    lemma_rounds_are_as_many(after, rest);
    if end.nanos >= due.nanos {
        assert(rounds(state, series)[0] == written);
        assert(written.last() == state.push_event());
        0
    } else {
        assert(after.repush.plan_for(reason) == Some(due));
        assert forall|i: int| 0 <= i < rest.len() implies keeps_plan(
            reason,
            (#[trigger] rest[i]).0,
        ) by {
            assert(rest[i] == series[i + 1]);
        }
        let n = lemma_the_plan_is_served(after, reason, rest, due);
        assert(rounds(state, series)[n + 1] == rounds(after, rest)[n]);
        n + 1
    }
}

proof fn lemma_rounds_are_as_many(
    state: BatteryState,
    series: Seq<(Seq<(Event, Moment)>, Moment)>,
)
    ensures
        rounds(state, series).len() == series.len(),
    decreases series.len(),
{
    if series.len() > 0 {
        let after = round(state, series[0].0, series[0].1).0;
        lemma_rounds_are_as_many(after, series.drop_first());
    }
}

/// After a charging flip at an unchanged level, servicing the battery again and
/// again until the delay is over pushes the flipped reading at some time after
/// the kernel's rate limit of 30 seconds has run out - whatever was planned
/// before, and whatever the kernel asks for meanwhile.
pub proof fn law_a_flip_outlasts_the_rate_limit(
    state: BatteryState,
    percent: u8,
    charging: bool,
    now: Moment,
    series: Seq<(Seq<(Event, Moment)>, Moment)>,
)
    requires
        state.only_flips(percent, charging),
        now.nanos + CHARGE_FLIP_REPUSH_DELAY <= u128::MAX,
        series.len() > 0,
        series.last().1.nanos >= now.nanos + CHARGE_FLIP_REPUSH_DELAY,
    ensures
        ({
            let after = state.updated(percent, charging, now);
            exists|n: int|
                0 <= n < series.len() && (#[trigger] series[n]).1.nanos >= now.nanos
                    + 30_000_000_000 && rounds(after, series)[n].contains(after.push_event())
        }),
{
    let after = state.updated(percent, charging, now);
    let due = now.plus(CHARGE_FLIP_REPUSH_DELAY);
    let n = lemma_the_plan_is_served(after, Reason::Flip, series, due);
    let written = rounds(after, series)[n];
    assert(written[written.len() - 1] == after.push_event());
    assert(series[n].1.nanos >= now.nanos + 30_000_000_000);
}

/// After the driver was attached, servicing the battery again and again until
/// the settling delay is over pushes the level at some time after it - whatever
/// was planned before. Should the driver be attached anew meanwhile, that start
/// has a push of its own.
pub proof fn law_a_start_outlasts_the_probe(
    state: BatteryState,
    now: Moment,
    series: Seq<(Seq<(Event, Moment)>, Moment)>,
)
    requires
        now.nanos + START_SETTLE_DELAY <= u128::MAX,
        series.len() > 0,
        series.last().1.nanos >= now.nanos + START_SETTLE_DELAY,
        forall|i: int|
            0 <= i < series.len() ==> keeps_plan(Reason::Start, (#[trigger] series[i]).0),
    ensures
        ({
            let after = state.notified(Event::Start, now);
            exists|n: int|
                0 <= n < series.len() && (#[trigger] series[n]).1.nanos >= now.nanos
                    + START_SETTLE_DELAY && rounds(after, series)[n].contains(after.push_event())
        }),
{
    let after = state.notified(Event::Start, now);
    let due = now.plus(START_SETTLE_DELAY);
    let n = lemma_the_plan_is_served(after, Reason::Start, series, due);
    let written = rounds(after, series)[n];
    assert(written[written.len() - 1] == after.push_event());
    assert(series[n].1.nanos >= now.nanos + START_SETTLE_DELAY);
}

/// A reading counts as published once it got to the kernel, not before. Taking
/// it, and failing to write it, leave what was last published as it was; writing
/// it, pushing it again or handing it out on request publishes it. The kernel is
/// told the last reading all the same.
pub proof fn law_only_what_was_written_is_published<E>(
    state: BatteryState,
    percent: u8,
    charging: bool,
    now: Moment,
    error: E,
    id: u32,
)
    ensures
        ({
            let updated = state.updated(percent, charging, now);
            let reading = battery_report(state.kind, clamped(percent), charging);
            let request = Event::GetReport {
                id,
                rnum: state.kind.battery_report(),
                rtype: RTYPE_INPUT,
            };
            let reported = serviced::<E>(updated, ServiceInput::Reported(Ok(())), now).0;
            let unreported = serviced::<E>(updated, ServiceInput::Reported(Err(error)), now).0;
            let pushed = serviced::<E>(updated, ServiceInput::Pushed(Ok(())), now).0;
            let unpushed = serviced::<E>(updated, ServiceInput::Pushed(Err(error)), now).0;
            &&& updated.published_percent == state.published_percent
            &&& updated.published_charging == state.published_charging
            &&& unreported == updated
            &&& unpushed == updated
            &&& reported == updated.published()
            &&& pushed == updated.published()
            &&& updated.published().published_percent == clamped(percent)
            &&& updated.published().published_charging == charging
            &&& updated.push_event() == crate::event::input2_event(reading)
            &&& updated.answer(request) == Some(
                crate::event::get_report_reply_event(id, Some(reading)),
            )
        }),
{
}

/// A reading that changes the level, or changes nothing, plans no push.
pub proof fn law_only_a_flip_plans_a_push(
    state: BatteryState,
    percent: u8,
    charging: bool,
    now: Moment,
)
    requires
        !state.only_flips(percent, charging),
    ensures
        state.updated(percent, charging, now).repush == state.repush,
{
}

/// The wait never goes past the deadline, nor past the next planned push.
pub proof fn law_the_wait_ends_in_time<E>(state: BatteryState, deadline: Moment, now: Moment)
    ensures
        served::<E>(state, ServeInput::Serviced(Ok(())), deadline, now) matches ServeStep::Poll(
            timeout,
        ) && {
            let wait = timeout.secs * 1_000_000_000 + timeout.nanos;
            &&& 0 <= timeout.nanos < 1_000_000_000
            &&& 0 <= timeout.secs
            &&& wait <= deadline.since(now)
            &&& state.repush.next_push() matches Some(due) ==> wait <= due.since(now)
        },
{
    let nanos = state.wait_until(deadline).since(now);
    assert(nanos == (nanos / 1_000_000_000) * 1_000_000_000 + nanos % 1_000_000_000);
}

/// Serving ends with `true` only when the wait reported something about the
/// waking descriptor - that it is readable, a hangup or an error - and with
/// `false` only after the deadline or when a signal came.
pub proof fn law_serving_ends_for_a_reason<E>(
    state: BatteryState,
    input: ServeInput<E>,
    deadline: Moment,
    now: Moment,
)
    ensures
        served(state, input, deadline, now) == ServeStep::<E>::Done(Ok(true)) ==> (input matches
            ServeInput::Polled(PollOutcome::Ready { wake: Some(events) }) && events != 0),
        served(state, input, deadline, now) == ServeStep::<E>::Done(Ok(false)) ==> (input matches
            ServeInput::Polled(PollOutcome::Interrupted) || input matches
            ServeInput::LastServiced(Ok(()))),
        served(state, input, deadline, now) == ServeStep::<E>::LastService ==> now.nanos
            >= deadline.nanos,
{
}

/// Waiting for the power supply gives up only at the deadline, so never without
/// one, and a power supply that is there is always reported.
pub proof fn law_waiting_gives_up_only_at_the_deadline<P, E>(
    input: WaitInput<P, E>,
    deadline: Option<Moment>,
    now: Moment,
    path: P,
)
    ensures
        waited(input, deadline, now) == WaitStep::<P, E>::Done(Ok(None)) ==> (deadline is Some
            && now.nanos >= deadline->0.nanos),
        waited(WaitInput::<P, E>::Looked(Some(path)), deadline, now) == WaitStep::<P, E>::Done(
            Ok(Some(path)),
        ),
{
}

} // verus!
