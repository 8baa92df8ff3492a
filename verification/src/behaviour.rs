//! What a battery does, in terms of what goes in and what comes out: the bytes
//! that are written, the steps that follow one another, and whole runs of them
//! from the first step to the last.

use vstd::prelude::*;

#[allow(unused_imports)]
use crate::battery::{
    Battery, BatteryState, CreateError, CreateStep, Creating, Identity, PollOutcome, ServeInput,
    ServeStep, ServiceAction, ServiceInput, ServiceStep, WaitInput, WaitStep,
};
use crate::clock::Moment;
#[allow(unused_imports)]
use crate::descriptor::Kind;
#[allow(unused_imports)]
use crate::error::Error;
#[allow(unused_imports)]
use crate::event::{Buffer, Event};

verus! {

/// The event that creates a device hands the kernel what the identity and the
/// kind say: vendor and product, and the report descriptor of that very kind,
/// as many bytes of it as the size says.
pub proof fn law_a_device_is_created_as_asked(identity: Identity, kind: Kind)
    ensures
        ({
            let event = identity.create_event(kind);
            let descriptor = kind.report_descriptor();
            &&& event.len() == 4376
            &&& event.subrange(0, 4) == crate::bytes::ne_u32(11)
            &&& event.subrange(4, 132) == crate::event::str_field(identity.name@, 128)
            &&& event.subrange(132, 196) == crate::event::str_field(identity.phys@, 64)
            &&& event.subrange(196, 260) == crate::event::str_field(identity.uniq@, 64)
            &&& descriptor.len() == if kind == Kind::Mouse {
                83
            } else {
                45int
            }
            &&& event.subrange(260, 262) == crate::bytes::ne_u16(descriptor.len() as u16)
            &&& event.subrange(262, 264) == crate::bytes::ne_u16(6)
            &&& event.subrange(264, 268) == crate::bytes::ne_u32(identity.vendor)
            &&& event.subrange(268, 272) == crate::bytes::ne_u32(identity.product)
            &&& forall|i: int| 272 <= i < 280 ==> #[trigger] event[i] == 0
            &&& event.subrange(280, 280 + descriptor.len() as int) == descriptor
            &&& forall|i: int| 280 + descriptor.len() <= i < 4376 ==> #[trigger] event[i] == 0
        }),
{
    crate::event::law_create2_bytes(
        identity.name@,
        identity.phys@,
        identity.uniq@,
        identity.vendor,
        identity.product,
        kind.report_descriptor(),
    );
}

/// Whether `fields` have a battery in report `id`: the first field of that report
/// is for the level, a byte from 0 to 100, and the field after it is for the
/// charging bit.
pub open spec fn have_a_battery(fields: Seq<crate::hid::Field>, id: int) -> bool {
    exists|i: int|
        0 <= i < fields.len() - 1 && {
            let level = (#[trigger] fields[i]).context;
            let charge = fields[i + 1].context;
            &&& level.report == id && charge.report == id
            &&& level.page == 0x06 && level.usages == seq![0x20int]
            &&& level.minimum == 0 && level.maximum == 100
            &&& level.size == 8 && level.count == 1
            &&& charge.page == 0x85 && charge.usages == seq![0x44int]
            &&& charge.size == 1 && charge.count == 1
        } && forall|j: int| 0 <= j < i ==> (#[trigger] fields[j]).context.report != id
}

proof fn lemma_declared_fields_have_a_battery(kind: Kind)
    ensures
        have_a_battery(crate::hid::declared_fields(kind), kind.battery_report() as int),
{
    let fields = crate::hid::declared_fields(kind);
    let i: int = if kind == Kind::Mouse {
        3
    } else {
        0
    };
    let level = crate::hid::strength(kind.battery_report() as int);
    let charge = crate::hid::charging(kind.battery_report() as int);
    assert(fields[i].context == level);
    assert(fields[i + 1].context == charge);
    assert(level.usages =~= seq![0x20int]);
    assert(charge.usages =~= seq![0x44int]);
}

/// The reports that a battery sends are ones that its device declared: the
/// descriptor in the event that created the device has a battery in the report
/// whose ID is the first byte of what is pushed.
pub proof fn law_what_is_pushed_was_declared(identity: Identity, battery: BatteryState)
    ensures
        ({
            let event = identity.create_event(battery.kind);
            let size = battery.kind.report_descriptor().len() as int;
            let fields = crate::hid::walk(
                event.subrange(280, 280 + size),
                0,
                crate::hid::Context::initial(),
            ).0;
            have_a_battery(fields, battery.push_event()[6] as int)
        }),
{
    let event = identity.create_event(battery.kind);
    let size = battery.kind.report_descriptor().len() as int;
    assert(event.subrange(280, 280 + size) == battery.kind.report_descriptor()) by {
        law_a_device_is_created_as_asked(identity, battery.kind);
    }
    assert(battery.push_event()[6] == battery.kind.battery_report()) by {
        law_what_is_pushed(battery);
    }
    crate::hid::law_declares_the_report_that_is_sent(battery);
    lemma_declared_fields_have_a_battery(battery.kind);
}

/// An identity is refused for the first of its strings that would not arrive
/// whole, or for a `uniq` that cannot name a power supply, and the complaint
/// says which.
pub proof fn law_the_complaint_names_the_string(identity: Identity, kind: Kind)
    ensures
        ({
            let event = identity.create_event(kind);
            let arrives = |from: int, to: int, text: Seq<char>|
                crate::event::c_string(event.subrange(from, to)) == vstd::utf8::encode_utf8(text);
            let name = arrives(4, 132, identity.name@);
            let phys = arrives(132, 196, identity.phys@);
            let uniq = arrives(196, 260, identity.uniq@) && identity.uniq@.len() > 0
                && !identity.uniq@.contains('/');
            &&& !name ==> identity.complaint() == Some(
                "the name must be under 128 bytes, without NUL"@,
            )
            &&& name && !phys ==> identity.complaint() == Some(
                "phys must be under 64 bytes, without NUL"@,
            )
            &&& name && phys && !uniq ==> identity.complaint() == Some(
                "uniq must be 1 to 63 bytes, without NUL or '/'"@,
            )
            &&& name && phys && uniq ==> identity.complaint() is None
        }),
{
    law_a_device_is_created_as_asked(identity, kind);
    crate::event::law_a_string_arrives_whole_iff_it_fits(identity.name@, 128);
    crate::event::law_a_string_arrives_whole_iff_it_fits(identity.phys@, 64);
    crate::event::law_a_string_arrives_whole_iff_it_fits(identity.uniq@, 64);
}

/// What is pushed, byte for byte: the type, the size, the ID of the battery's
/// report, the level last read, and 1 or 0 for charging or not, at every level
/// and for every kind.
pub proof fn law_what_is_pushed(state: BatteryState)
    ensures
        ({
            let event = state.push_event();
            &&& event.len() == 4376
            &&& event.subrange(0, 4) == crate::bytes::ne_u32(12)
            &&& event.subrange(4, 6) == crate::bytes::ne_u16(3)
            &&& event[6] == if state.kind == Kind::Mouse {
                2
            } else {
                1int
            }
            &&& event[7] == state.percent
            &&& state.charging ==> event[8] == 1
            &&& !state.charging ==> event[8] == 0
            &&& forall|i: int| 9 <= i < 4376 ==> #[trigger] event[i] == 0
        }),
{
    crate::event::law_input2_bytes(state.report());
    let event = state.push_event();
    let report = event.subrange(6, 9);
    assert(report[0] == event[6] && report[1] == event[7] && report[2] == event[8]);
}

/// What is answered, byte for byte. A request for the battery's input report
/// gets its ID, no error and the report: the ID of the report, the level last
/// read, and 1 or 0 for charging or not. Every other request gets its ID and
/// `EIO`. A start, and what asks for nothing, gets no answer.
pub proof fn law_what_is_answered(state: BatteryState, id: u32, rnum: u8, rtype: u8)
    ensures
        ({
            let ours = rtype == 2 && rnum == if state.kind == Kind::Mouse {
                2
            } else {
                1int
            };
            let answer = state.answer(Event::GetReport { id, rnum, rtype });
            let event = answer->0;
            &&& answer is Some
            &&& state.is_asked(Event::GetReport { id, rnum, rtype }) == ours
            &&& event.len() == 4376
            &&& event.subrange(0, 4) == crate::bytes::ne_u32(10)
            &&& event.subrange(4, 8) == crate::bytes::ne_u32(id)
            &&& ours ==> {
                &&& event[8] == 0 && event[9] == 0
                &&& event.subrange(10, 12) == crate::bytes::ne_u16(3)
                &&& event[12] == rnum
                &&& event[13] == state.percent
                &&& state.charging ==> event[14] == 1
                &&& !state.charging ==> event[14] == 0
                &&& forall|i: int| 15 <= i < 4376 ==> #[trigger] event[i] == 0
            }
            &&& !ours ==> {
                &&& event.subrange(8, 10) == crate::bytes::ne_u16(5)
                &&& forall|i: int| 10 <= i < 4376 ==> #[trigger] event[i] == 0
            }
        }),
        ({
            let answer = state.answer(Event::SetReport { id });
            let event = answer->0;
            &&& answer is Some
            &&& !state.is_asked(Event::SetReport { id })
            &&& event.len() == 4376
            &&& event.subrange(0, 4) == crate::bytes::ne_u32(14)
            &&& event.subrange(4, 8) == crate::bytes::ne_u32(id)
            &&& event.subrange(8, 10) == crate::bytes::ne_u16(5)
            &&& forall|i: int| 10 <= i < 4376 ==> #[trigger] event[i] == 0
        }),
        state.answer(Event::Start) is None && !state.is_asked(Event::Start),
        state.answer(Event::Ignored) is None && !state.is_asked(Event::Ignored),
{
    crate::event::law_get_report_reply_bytes(id, state.report());
    crate::event::law_set_report_reply_bytes(id);
    let served = crate::event::get_report_reply_event(id, Some(state.report()));
    let report = served.subrange(12, 15);
    assert(report[0] == served[12] && report[1] == served[13] && report[2] == served[14]);
}

/// A reading is kept as it was given, but for a level above a hundred, which is
/// a hundred. Nothing else changes but the plan for a flip, and a flip is a
/// reading that differs in the charging bit and not in the level from the last
/// one, or from the one last published.
pub proof fn law_a_reading_is_kept_as_given(
    state: BatteryState,
    percent: u8,
    charging: bool,
    now: Moment,
)
    requires
        now.nanos + 31_000_000_000 <= u128::MAX,
    ensures
        ({
            let level: int = if percent > 100 {
                100
            } else {
                percent as int
            };
            let flips = (charging != state.charging && level == state.percent) || (charging
                != state.published_charging && level == state.published_percent);
            let after = state.updated(percent, charging, now);
            &&& crate::battery::clamped(percent) == level
            &&& state.only_flips(percent, charging) == flips
            &&& after.percent == level
            &&& after.charging == charging
            &&& after.kind == state.kind
            &&& after.uniq == state.uniq
            &&& after.published_percent == state.published_percent
            &&& after.published_charging == state.published_charging
            &&& after.repush.settle == state.repush.settle
            &&& flips ==> after.repush.flip == Some(
                Moment { nanos: (now.nanos + 31_000_000_000) as u128 },
            )
            &&& flips ==> after.repush.next_push() is Some && {
                let next = after.repush.next_push()->0.nanos;
                &&& next <= now.nanos + 31_000_000_000
                &&& match state.repush.next_push() {
                    Some(planned) => next == planned.nanos || (next == now.nanos + 31_000_000_000
                        && next <= planned.nanos),
                    None => next == now.nanos + 31_000_000_000,
                }
                &&& state.repush.next_push() matches Some(planned) ==> next <= planned.nanos
            }
            &&& !flips ==> after.repush == state.repush
        }),
{
}

/// A reading that got to the kernel is the one last published, and nothing else
/// changes by that.
pub proof fn law_what_got_there_is_published(state: BatteryState)
    ensures
        ({
            let after = state.published();
            &&& after.published_percent == state.percent
            &&& after.published_charging == state.charging
            &&& after.percent == state.percent
            &&& after.charging == state.charging
            &&& after.kind == state.kind
            &&& after.uniq == state.uniq
            &&& after.repush == state.repush
        }),
{
}

/// A step asks for what its name says, with the very bytes it carries.
pub proof fn law_a_step_asks_for_what_it_says<E>(
    step: ServiceStep<E>,
    event: crate::event::Buffer,
    result: Result<(), E>,
)
    ensures
        step == ServiceStep::<E>::Read <==> step@ == ServiceAction::<E>::Read,
        ServiceStep::<E>::Reply(event)@ == ServiceAction::<E>::Reply(event@),
        ServiceStep::<E>::Report(event)@ == ServiceAction::<E>::Report(event@),
        ServiceStep::<E>::Push(event)@ == ServiceAction::<E>::Push(event@),
        ServiceStep::Done(result)@ == ServiceAction::Done(result),
{
}

/// How a round starts, goes on and ends, whatever the battery. It starts with a
/// read, and goes on with one after every reply that was written and every event
/// that wants none; every failure ends it with that failure; and once a push was
/// written it is over.
pub proof fn law_a_round_goes_on_until_the_queue_is_empty<E>(
    state: BatteryState,
    event: Event,
    now: Moment,
    error: E,
)
    ensures
        crate::battery::serviced::<E>(state, ServiceInput::Begin, now) == (state, ServiceAction::<E>::Read),
        crate::battery::serviced::<E>(state, ServiceInput::Replied(Ok(())), now) == (
            state,
            ServiceAction::<E>::Read,
        ),
        crate::battery::serviced::<E>(state, ServiceInput::Reported(Ok(())), now).1 == ServiceAction::<E>::Read,
        crate::battery::serviced::<E>(state, ServiceInput::Read(Ok(Some(event))), now).1 == match event {
            Event::GetReport { id, rnum, rtype } => if rtype == 2 && rnum == (if state.kind
                == Kind::Mouse {
                2
            } else {
                1int
            }) {
                ServiceAction::<E>::Report(state.answer(event)->0)
            } else {
                ServiceAction::<E>::Reply(state.answer(event)->0)
            },
            Event::SetReport { id } => ServiceAction::<E>::Reply(state.answer(event)->0),
            Event::Start | Event::Ignored => ServiceAction::<E>::Read,
        },
        event != Event::Start ==> crate::battery::serviced::<E>(
            state,
            ServiceInput::Read(Ok(Some(event))),
            now,
        ).0 == state,
        crate::battery::serviced(state, ServiceInput::Read(Err(error)), now) == (
            state,
            ServiceAction::Done(Err(error)),
        ),
        crate::battery::serviced(state, ServiceInput::Replied(Err(error)), now) == (
            state,
            ServiceAction::Done(Err(error)),
        ),
        crate::battery::serviced(state, ServiceInput::Reported(Err(error)), now) == (
            state,
            ServiceAction::Done(Err(error)),
        ),
        crate::battery::serviced(state, ServiceInput::Pushed(Err(error)), now) == (
            state,
            ServiceAction::Done(Err(error)),
        ),
        crate::battery::serviced::<E>(state, ServiceInput::Pushed(Ok(())), now).1 == ServiceAction::<E>::Done(
            Ok(()),
        ),
{
}

/// What a round changes. A start plans a push for a quarter of a second later; an
/// empty queue has the level pushed exactly when the time of some plan has come,
/// and takes those plans away; a report or a push that was written is published.
/// Everything else stays.
pub proof fn law_what_a_round_changes<E>(state: BatteryState, now: Moment)
    requires
        now.nanos + 250_000_000 <= u128::MAX,
    ensures
        ({
            let after = crate::battery::serviced::<E>(state, ServiceInput::Read(Ok(Some(Event::Start))), now).0;
            let due = Moment { nanos: (now.nanos + 250_000_000) as u128 };
            &&& after.repush.settle == Some(due)
            &&& after.repush.flip == state.repush.flip
            &&& after.repush.next_push() is Some
            &&& after.repush.next_push()->0.nanos <= due.nanos
            &&& match state.repush.next_push() {
                Some(planned) => after.repush.next_push()->0.nanos <= planned.nanos && (
                after.repush.next_push() == Some(planned) || after.repush.next_push() == Some(
                    due,
                )),
                None => after.repush.next_push() == Some(due),
            }
            &&& after == BatteryState { repush: after.repush, ..state }
        }),
        ({
            let (after, action) = crate::battery::serviced::<E>(state, ServiceInput::Read(Ok(None)), now);
            let due = {
                ||| state.repush.earliest matches Some(plan) && plan.nanos <= now.nanos
                ||| state.repush.settle matches Some(plan) && plan.nanos <= now.nanos
                ||| state.repush.flip matches Some(plan) && plan.nanos <= now.nanos
            };
            &&& due ==> action == ServiceAction::<E>::Push(state.push_event())
            &&& !due ==> action == ServiceAction::<E>::Done(Ok(()))
            &&& !due ==> after == state
            &&& after == BatteryState { repush: after.repush, ..state }
            &&& after.repush.next_push() matches Some(plan) ==> plan.nanos > now.nanos
            &&& state.repush.settle matches Some(plan) ==> plan.nanos > now.nanos
                ==> after.repush.settle == Some(plan)
            &&& state.repush.flip matches Some(plan) ==> plan.nanos > now.nanos
                ==> after.repush.flip == Some(plan)
            &&& state.repush.earliest matches Some(plan) ==> plan.nanos > now.nanos
                ==> after.repush.earliest == Some(plan)
        }),
        ({
            let reported = crate::battery::serviced::<E>(state, ServiceInput::Reported(Ok(())), now).0;
            let pushed = crate::battery::serviced::<E>(state, ServiceInput::Pushed(Ok(())), now).0;
            &&& reported == pushed
            &&& reported == (BatteryState {
                published_percent: state.percent,
                published_charging: state.charging,
                ..state
            })
        }),
{
}

/// What comes of servicing a battery the way a caller does.
#[verifier::ext_equal]
pub struct Run {
    /// The battery afterwards.
    pub state: BatteryState,
    /// What was written, in order.
    pub written: Seq<Seq<u8>>,
    /// The events still in the queue.
    pub unread: Seq<(Event, Moment)>,
    /// Whether the round ended, and without a failure.
    pub done: bool,
}

/// A battery that is handed `input` at `now` and then whatever comes of the step
/// it asks for, again and again, for at most `steps` steps. The kernel's queue
/// holds `queue`, each event with the time at which it is read, `end` is the
/// time at which the queue is found empty, and everything works.
pub open spec fn serve_round(
    state: BatteryState,
    input: ServiceInput<()>,
    now: Moment,
    queue: Seq<(Event, Moment)>,
    end: Moment,
    steps: nat,
) -> Run
    decreases steps,
{
    if steps == 0 {
        Run { state, written: Seq::empty(), unread: queue, done: false }
    } else {
        let left = (steps - 1) as nat;
        let (after, action) = crate::battery::serviced(state, input, now);
        match action {
            ServiceAction::Read => if queue.len() == 0 {
                serve_round(after, ServiceInput::Read(Ok(None)), end, queue, end, left)
            } else {
                serve_round(
                    after,
                    ServiceInput::Read(Ok(Some(queue[0].0))),
                    queue[0].1,
                    queue.drop_first(),
                    end,
                    left,
                )
            },
            ServiceAction::Reply(event) => {
                let run = serve_round(
                    after,
                    ServiceInput::Replied(Ok(())),
                    now,
                    queue,
                    end,
                    left,
                );
                Run { written: seq![event] + run.written, ..run }
            },
            ServiceAction::Report(event) => {
                let run = serve_round(
                    after,
                    ServiceInput::Reported(Ok(())),
                    now,
                    queue,
                    end,
                    left,
                );
                Run { written: seq![event] + run.written, ..run }
            },
            ServiceAction::Push(event) => {
                let run = serve_round(
                    after,
                    ServiceInput::Pushed(Ok(())),
                    now,
                    queue,
                    end,
                    left,
                );
                Run { written: seq![event] + run.written, ..run }
            },
            ServiceAction::Done(result) => Run {
                state: after,
                written: Seq::empty(),
                unread: queue,
                done: result is Ok,
            },
        }
    }
}

/// Whether an event wants an answer.
pub open spec fn wants_answer(event: Event) -> bool {
    event is GetReport || event is SetReport
}

/// How many of the first `n` events want an answer.
pub open spec fn requests(queue: Seq<(Event, Moment)>, n: int) -> int
    decreases n,
{
    if n <= 0 {
        0
    } else {
        requests(queue, n - 1) + if wants_answer(queue[n - 1].0) {
            1int
        } else {
            0
        }
    }
}


proof fn lemma_requests_shift(queue: Seq<(Event, Moment)>, n: int)
    requires
        0 < n <= queue.len(),
    ensures
        requests(queue, n) == requests(queue.drop_first(), n - 1) + if wants_answer(queue[0].0) {
            1int
        } else {
            0
        },
    decreases n,
{
    reveal_with_fuel(requests, 2);
    if n > 1 {
        lemma_requests_shift(queue, n - 1);
        assert(queue.drop_first()[n - 2] == queue[n - 1]);
    }
}

proof fn lemma_requests_grow(queue: Seq<(Event, Moment)>, n: int, m: int)
    requires
        0 <= n <= m <= queue.len(),
    ensures
        0 <= requests(queue, n) <= requests(queue, m),
    decreases m,
{
    if n < m {
        lemma_requests_grow(queue, n, m - 1);
    } else if n > 0 {
        lemma_requests_grow(queue, n - 1, n - 1);
    }
}

/// The answers stand in the order of the requests.
proof fn lemma_answers_in_order(state: BatteryState, queue: Seq<(Event, Moment)>)
    ensures
        crate::battery::answers(state, queue).len() == requests(queue, queue.len() as int),
        forall|i: int|
            0 <= i < queue.len() && wants_answer((#[trigger] queue[i]).0) ==> {
                &&& 0 <= requests(queue, i) < requests(queue, queue.len() as int)
                &&& crate::battery::answers(state, queue)[requests(queue, i)] == state.answer(
                    queue[i].0,
                )->0
            },
    decreases queue.len(),
{
    if queue.len() > 0 {
        let rest = queue.drop_first();
        let answers = crate::battery::answers(state, queue);
        lemma_answers_in_order(state, rest);
        lemma_requests_shift(queue, queue.len() as int);
        assert forall|i: int| 0 <= i < queue.len() && wants_answer((#[trigger] queue[i]).0) implies {
            &&& 0 <= requests(queue, i) < requests(queue, queue.len() as int)
            &&& answers[requests(queue, i)] == state.answer(queue[i].0)->0
        } by {
            if i > 0 {
                lemma_requests_shift(queue, i);
                assert(rest[i - 1] == queue[i]);
            } else {
                lemma_requests_grow(rest, 0, rest.len() as int);
            }
        }
    }
}

/// A caller that follows the steps from any point at which a read is asked for
/// goes through the round to its end.
proof fn lemma_serve_round(
    state: BatteryState,
    input: ServiceInput<()>,
    now: Moment,
    queue: Seq<(Event, Moment)>,
    end: Moment,
    steps: nat,
)
    requires
        crate::battery::serviced(state, input, now).1 == ServiceAction::<()>::Read,
        steps >= 2 * queue.len() + 3,
    ensures
        ({
            let next = crate::battery::serviced(state, input, now).0;
            let (last, written) = crate::battery::round(next, queue, end);
            serve_round(state, input, now, queue, end, steps) == Run {
                state: last,
                written,
                unread: Seq::empty(),
                done: true,
            }
        }),
    decreases queue.len(),
{
    let next = crate::battery::serviced(state, input, now).0;
    let whole = serve_round(state, input, now, queue, end, steps);
    if queue.len() == 0 {
        let none: ServiceInput<()> = ServiceInput::Read(Ok(None));
        let (after, action) = crate::battery::serviced(next, none, end);
        assert(queue =~= Seq::empty());
        assert(whole == serve_round(next, none, end, queue, end, (steps - 1) as nat));
        match action {
            ServiceAction::Push(event) => {
                let pushed: ServiceInput<()> = ServiceInput::Pushed(Ok(()));
                let rest = serve_round(after, pushed, end, queue, end, (steps - 2) as nat);
                assert(rest.written =~= Seq::empty());
                assert(whole.written =~= seq![event]);
            },
            _ => {},
        }
    } else {
        let (event, at) = queue[0];
        let rest = queue.drop_first();
        let read: ServiceInput<()> = ServiceInput::Read(Ok(Some(event)));
        let (after, action) = crate::battery::serviced(next, read, at);
        assert(whole == serve_round(next, read, at, rest, end, (steps - 1) as nat));
        match action {
            ServiceAction::Read => {
                lemma_serve_round(next, read, at, rest, end, (steps - 1) as nat);
            },
            ServiceAction::Reply(_) => {
                let replied: ServiceInput<()> = ServiceInput::Replied(Ok(()));
                lemma_serve_round(after, replied, at, rest, end, (steps - 2) as nat);
            },
            ServiceAction::Report(_) => {
                let reported: ServiceInput<()> = ServiceInput::Reported(Ok(()));
                lemma_serve_round(after, reported, at, rest, end, (steps - 2) as nat);
            },
            _ => {},
        }
    }
}

/// Whether a start among these events calls for a push by `end`.
pub open spec fn start_is_due(queue: Seq<(Event, Moment)>, end: Moment) -> bool {
    exists|i: int|
        0 <= i < queue.len() && (#[trigger] queue[i]).0 == Event::Start && queue[i].1.nanos
            + 250_000_000 <= end.nanos
}

/// Whether some push is planned for `end` or earlier.
pub open spec fn plan_is_due(state: BatteryState, end: Moment) -> bool {
    ||| state.repush.earliest matches Some(plan) && plan.nanos <= end.nanos
    ||| state.repush.settle matches Some(plan) && plan.nanos <= end.nanos
    ||| state.repush.flip matches Some(plan) && plan.nanos <= end.nanos
}

proof fn lemma_due_after_events(state: BatteryState, queue: Seq<(Event, Moment)>, end: Moment)
    requires
        forall|i: int|
            0 <= i < queue.len() ==> (#[trigger] queue[i]).1.nanos + 250_000_000 <= u128::MAX,
    ensures
        crate::battery::answered_all(state, queue).is_due(end) <==> plan_is_due(state, end)
            || start_is_due(queue, end),
    decreases queue.len(),
{
    if queue.len() > 0 {
        let (event, at) = queue[0];
        let rest = queue.drop_first();
        let next = state.answered(event, at);
        assert forall|i: int| 0 <= i < rest.len() implies (#[trigger] rest[i]).1.nanos
            + 250_000_000 <= u128::MAX by {
            assert(rest[i] == queue[i + 1]);
        }
        lemma_due_after_events(next, rest, end);
        if start_is_due(rest, end) {
            let i = choose|i: int|
                0 <= i < rest.len() && (#[trigger] rest[i]).0 == Event::Start && rest[i].1.nanos
                    + 250_000_000 <= end.nanos;
            assert(queue[i + 1] == rest[i]);
        }
        if start_is_due(queue, end) {
            let i = choose|i: int|
                0 <= i < queue.len() && (#[trigger] queue[i]).0 == Event::Start
                    && queue[i].1.nanos + 250_000_000 <= end.nanos;
            if i > 0 {
                assert(rest[i - 1] == queue[i]);
            }
        }
        assert(queue[0].1.nanos + 250_000_000 <= u128::MAX);
    }
}

/// A whole round, from its first step to its last, for a battery of any kind: a
/// caller that does what it is told reads the queue until it is empty and comes
/// to an end, within two steps for each event and four more. It has then written
/// one answer for each request, in order, and after them the level, if some push
/// was planned for that time or earlier or a start was a quarter of a second
/// ago; and nothing else.
pub proof fn law_a_whole_round(
    state: BatteryState,
    begin: Moment,
    queue: Seq<(Event, Moment)>,
    end: Moment,
    steps: nat,
)
    requires
        steps >= 2 * queue.len() + 4,
        forall|i: int|
            0 <= i < queue.len() ==> (#[trigger] queue[i]).1.nanos + 250_000_000 <= u128::MAX,
    ensures
        ({
            let run = serve_round(state, ServiceInput::Begin, begin, queue, end, steps);
            let n = requests(queue, queue.len() as int);
            &&& run.done
            &&& run.unread.len() == 0
            &&& if plan_is_due(state, end) || start_is_due(queue, end) {
                run.written.len() == n + 1 && run.written[n] == state.push_event()
            } else {
                run.written.len() == n
            }
            &&& forall|i: int|
                0 <= i < queue.len() && wants_answer((#[trigger] queue[i]).0) ==> {
                    &&& 0 <= requests(queue, i) < n
                    &&& run.written[requests(queue, i)] == state.answer(queue[i].0)->0
                }
            &&& run.state.percent == state.percent
            &&& run.state.charging == state.charging
            &&& run.state.kind == state.kind
            &&& run.state.uniq == state.uniq
        }),
{
    lemma_serve_round(state, ServiceInput::Begin, begin, queue, end, steps);
    crate::battery::law_a_round_answers_every_request(state, queue, end);
    lemma_answers_in_order(state, queue);
    lemma_requests_grow(queue, 0, queue.len() as int);
    lemma_due_after_events(state, queue, end);
    lemma_events_keep_the_reading(state, queue);
}

proof fn lemma_events_keep_the_reading(state: BatteryState, queue: Seq<(Event, Moment)>)
    ensures
        ({
            let after = crate::battery::answered_all(state, queue);
            &&& after.percent == state.percent
            &&& after.charging == state.charging
            &&& after.kind == state.kind
            &&& after.uniq == state.uniq
        }),
    decreases queue.len(),
{
    if queue.len() > 0 {
        lemma_events_keep_the_reading(
            state.answered(queue[0].0, queue[0].1),
            queue.drop_first(),
        );
    }
}

/// Whoever asks for the level gets it: in a whole round every request for the
/// battery's input report is answered, under its own ID and without an error,
/// with the ID of the report, the level last read, and 1 or 0 for charging or
/// not; and every other request is answered with `EIO` under its own ID.
pub proof fn law_every_request_is_answered(
    state: BatteryState,
    begin: Moment,
    queue: Seq<(Event, Moment)>,
    end: Moment,
    steps: nat,
    i: int,
)
    requires
        steps >= 2 * queue.len() + 4,
        forall|j: int|
            0 <= j < queue.len() ==> (#[trigger] queue[j]).1.nanos + 250_000_000 <= u128::MAX,
        0 <= i < queue.len(),
    ensures
        ({
            let run = serve_round(state, ServiceInput::Begin, begin, queue, end, steps);
            let written = run.written[requests(queue, i)];
            let answered = 0 <= requests(queue, i) < run.written.len();
            &&& queue[i].0 matches Event::GetReport { id, rnum, rtype } ==> {
                let ours = rtype == 2 && rnum == if state.kind == Kind::Mouse {
                    2
                } else {
                    1int
                };
                &&& answered
                &&& written.subrange(0, 4) == crate::bytes::ne_u32(10)
                &&& written.subrange(4, 8) == crate::bytes::ne_u32(id)
                &&& ours ==> written[8] == 0 && written[9] == 0 && written[12] == rnum
                    && written[13] == state.percent
                &&& ours && state.charging ==> written[14] == 1
                &&& ours && !state.charging ==> written[14] == 0
                &&& !ours ==> written.subrange(8, 10) == crate::bytes::ne_u16(5)
            }
            &&& queue[i].0 matches Event::SetReport { id } ==> {
                &&& answered
                &&& written.subrange(0, 4) == crate::bytes::ne_u32(14)
                &&& written.subrange(4, 8) == crate::bytes::ne_u32(id)
                &&& written.subrange(8, 10) == crate::bytes::ne_u16(5)
            }
        }),
{
    law_a_whole_round(state, begin, queue, end, steps);
    match queue[i].0 {
        Event::GetReport { id, rnum, rtype } => {
            law_what_is_answered(state, id, rnum, rtype);
        },
        Event::SetReport { id } => {
            law_what_is_answered(state, id, 0, 0);
        },
        _ => {},
    }
}

/// Being woken ends the serving at once: whenever a wait ended in time and
/// reported anything about the waking descriptor, whatever it was and however
/// far away the deadline, the result is `true`.
pub proof fn law_being_woken_ends_the_serving<E>(
    state: BatteryState,
    events: u16,
    deadline: Moment,
    now: Moment,
)
    requires
        events != 0,
    ensures
        crate::battery::served::<E>(
            state,
            ServeInput::Polled(PollOutcome::Ready { wake: Some(events) }),
            deadline,
            now,
        ) == ServeStep::<E>::Done(Ok(true)),
{
}

/// What serving does otherwise. It starts with a round of servicing, and a round
/// that worked is followed by a wait. A wait that nothing is reported of is
/// followed by another round, the last one at the deadline or after it, which
/// ends the serving with `false`. A signal ends it with `false`, and every
/// failure with that failure.
pub proof fn law_serving_goes_on_until_the_deadline<E>(
    state: BatteryState,
    wake: Option<u16>,
    deadline: Moment,
    now: Moment,
    error: E,
)
    requires
        wake is None || wake == Some(0u16),
    ensures
        ({
            let served = |input: ServeInput<E>|
                crate::battery::served(state, input, deadline, now);
            &&& served(ServeInput::Begin) == ServeStep::<E>::Service
            &&& served(ServeInput::Serviced(Ok(()))) is Poll
            &&& now.nanos < deadline.nanos ==> served(
                ServeInput::Polled(PollOutcome::Ready { wake }),
            ) == ServeStep::<E>::Service
            &&& now.nanos >= deadline.nanos ==> served(
                ServeInput::Polled(PollOutcome::Ready { wake }),
            ) == ServeStep::<E>::LastService
            &&& served(ServeInput::LastServiced(Ok(()))) == ServeStep::<E>::Done(Ok(false))
            &&& served(ServeInput::Polled(PollOutcome::Interrupted)) == ServeStep::<E>::Done(
                Ok(false),
            )
            &&& served(ServeInput::Serviced(Err(error))) == ServeStep::Done(Err(error))
            &&& served(ServeInput::LastServiced(Err(error))) == ServeStep::Done(Err(error))
            &&& served(ServeInput::Polled(PollOutcome::Failed(error))) == ServeStep::Done(
                Err(error),
            )
        }),
{
}

/// The wait is as long as it can be and no longer: it ends when the next planned
/// push is due or the deadline comes, whichever is first, to the nanosecond, and
/// is over at once if that is past.
pub proof fn law_the_wait_is_exact<E>(state: BatteryState, deadline: Moment, now: Moment)
    ensures
        ({
            let until: int = match state.repush.next_push() {
                Some(due) => if due.nanos < deadline.nanos {
                    due.nanos as int
                } else {
                    deadline.nanos as int
                },
                None => deadline.nanos as int,
            };
            let wait: int = if until > now.nanos {
                until - now.nanos
            } else {
                0
            };
            let step = crate::battery::served::<E>(
                state,
                ServeInput::Serviced(Ok(())),
                deadline,
                now,
            );
            let timeout = step->Poll_0;
            &&& step is Poll
            &&& 0 <= timeout.secs && 0 <= timeout.nanos < 1_000_000_000
            &&& wait < (i64::MAX + 1) * 1_000_000_000 ==> timeout.secs * 1_000_000_000
                + timeout.nanos == wait
            &&& wait >= (i64::MAX + 1) * 1_000_000_000 ==> timeout.secs == i64::MAX
        }),
{
    crate::clock::law_a_timeout_is_exact(state.wait_until(deadline).since(now));
}

/// What comes of serving a battery the way a caller does.
pub struct Serving {
    /// What is returned, once it is.
    pub result: Option<bool>,
    /// How many rounds of servicing there were.
    pub rounds: int,
    /// How many waits there were.
    pub waits: int,
}

/// A caller that hands `input` in at `now` and then whatever comes of the step it
/// is told to take, for at most `steps` steps. The waits end as `waits` says,
/// each with the time afterwards, and every round of servicing works.
pub open spec fn serve(
    state: BatteryState,
    input: ServeInput<()>,
    now: Moment,
    waits: Seq<(PollOutcome<()>, Moment)>,
    deadline: Moment,
    steps: nat,
) -> Serving
    decreases steps,
{
    if steps == 0 {
        Serving { result: None, rounds: 0, waits: 0 }
    } else {
        let left = (steps - 1) as nat;
        match crate::battery::served(state, input, deadline, now) {
            ServeStep::Service => {
                let rest = serve(state, ServeInput::Serviced(Ok(())), now, waits, deadline, left);
                Serving { rounds: rest.rounds + 1, ..rest }
            },
            ServeStep::LastService => {
                let rest = serve(
                    state,
                    ServeInput::LastServiced(Ok(())),
                    now,
                    waits,
                    deadline,
                    left,
                );
                Serving { rounds: rest.rounds + 1, ..rest }
            },
            ServeStep::Poll(_) => if waits.len() == 0 {
                Serving { result: None, rounds: 0, waits: 0 }
            } else {
                let (outcome, at) = waits[0];
                let rest = serve(
                    state,
                    ServeInput::Polled(outcome),
                    at,
                    waits.drop_first(),
                    deadline,
                    left,
                );
                Serving { waits: rest.waits + 1, ..rest }
            },
            ServeStep::Done(result) => Serving {
                result: match result {
                    Ok(woken) => Some(woken),
                    Err(_) => None,
                },
                rounds: 0,
                waits: 0,
            },
        }
    }
}

/// Whether a wait ended without news, before the deadline.
pub open spec fn is_uneventful(wait: (PollOutcome<()>, Moment), deadline: Moment) -> bool {
    &&& wait.0 matches PollOutcome::Ready { wake } && (wake is None || wake == Some(0u16))
    &&& wait.1.nanos < deadline.nanos
}

/// Whether a wait reported something about the waking descriptor.
pub open spec fn is_woken(wait: (PollOutcome<()>, Moment)) -> bool {
    wait.0 matches PollOutcome::Ready { wake: Some(events) } && events != 0
}

proof fn lemma_serve(
    state: BatteryState,
    input: ServeInput<()>,
    now: Moment,
    waits: Seq<(PollOutcome<()>, Moment)>,
    deadline: Moment,
    steps: nat,
)
    requires
        crate::battery::served(state, input, deadline, now) == ServeStep::<()>::Service,
        waits.len() > 0,
        steps >= 2 * waits.len() + 3,
        forall|i: int|
            0 <= i < waits.len() - 1 ==> is_uneventful(#[trigger] waits[i], deadline),
        !is_uneventful(waits.last(), deadline),
        waits.last().0 !is Failed,
    ensures
        ({
            let serving = serve(state, input, now, waits, deadline, steps);
            let over = !is_woken(waits.last()) && waits.last().0 is Ready;
            &&& serving.result == Some(is_woken(waits.last()))
            &&& serving.waits == waits.len()
            &&& serving.rounds == waits.len() + if over {
                1int
            } else {
                0
            }
        }),
    decreases waits.len(),
{
    reveal_with_fuel(serve, 6);
    let (outcome, at) = waits[0];
    let rest = waits.drop_first();
    if waits.len() > 1 {
        assert(is_uneventful(waits[0], deadline));
        assert forall|i: int| 0 <= i < rest.len() - 1 implies is_uneventful(
            #[trigger] rest[i],
            deadline,
        ) by {
            assert(rest[i] == waits[i + 1]);
        }
        assert(rest.last() == waits.last());
        lemma_serve(
            state,
            ServeInput::Polled(outcome),
            at,
            rest,
            deadline,
            (steps - 2) as nat,
        );
    } else {
        assert(waits.last() == waits[0]);
    }
}

/// Serving from its first step to its last: a battery is serviced and waited for
/// in turn until the first wait that brings news or ends at the deadline or
/// later. The result is `true` exactly when that wait reported something about
/// the waking descriptor, and a battery whose deadline came is serviced once
/// more.
pub proof fn law_a_whole_serving(
    state: BatteryState,
    begin: Moment,
    waits: Seq<(PollOutcome<()>, Moment)>,
    deadline: Moment,
    steps: nat,
)
    requires
        waits.len() > 0,
        steps >= 2 * waits.len() + 3,
        forall|i: int|
            0 <= i < waits.len() - 1 ==> is_uneventful(#[trigger] waits[i], deadline),
        !is_uneventful(waits.last(), deadline),
        waits.last().0 !is Failed,
    ensures
        ({
            let serving = serve(state, ServeInput::Begin, begin, waits, deadline, steps);
            let over = !is_woken(waits.last()) && waits.last().0 is Ready;
            &&& serving.result == Some(is_woken(waits.last()))
            &&& serving.waits == waits.len()
            &&& serving.rounds == waits.len() + if over {
                1int
            } else {
                0
            }
        }),
{
    lemma_serve(state, ServeInput::Begin, begin, waits, deadline, steps);
}

/// Looking for the power supply. Every look comes after a round of servicing that
/// worked. One that finds the supply ends the wait with it, however late. One
/// that finds nothing ends the wait with nothing at the deadline or any time
/// after it, and before it, or without one, is followed by twenty milliseconds
/// of sleep and another round. A failure ends the wait with that failure.
pub proof fn law_waiting_ends_at_the_deadline<P, E>(
    deadline: Option<Moment>,
    now: Moment,
    path: P,
    error: E,
)
    ensures
        ({
            let waited = |input: WaitInput<P, E>| crate::battery::waited(input, deadline, now);
            let late = deadline matches Some(deadline) && deadline.nanos <= now.nanos;
            &&& waited(WaitInput::Begin) == WaitStep::<P, E>::Service
            &&& waited(WaitInput::Serviced(Ok(()))) == WaitStep::<P, E>::Look
            &&& waited(WaitInput::Serviced(Err(error))) == WaitStep::<P, E>::Done(Err(error))
            &&& waited(WaitInput::Looked(Some(path))) == WaitStep::<P, E>::Done(Ok(Some(path)))
            &&& late ==> waited(WaitInput::Looked(None)) == WaitStep::<P, E>::Done(Ok(None))
            &&& !late ==> waited(WaitInput::Looked(None)) == WaitStep::<P, E>::Sleep(20_000_000)
            &&& waited(WaitInput::Slept) == WaitStep::<P, E>::Service
        }),
{
}

/// What comes of waiting for the power supply the way a caller does.
pub struct Waiting<P> {
    /// What is returned, once it is.
    pub result: Option<Option<P>>,
    /// How many rounds of servicing there were.
    pub rounds: int,
    /// For how many nanoseconds the caller slept.
    pub slept: int,
}

/// A caller that hands `input` in at `now` and then whatever comes of the step it
/// is told to take, for at most `steps` steps. The looks find what `looks` says,
/// each with the time afterwards, and every round of servicing works.
pub open spec fn wait<P>(
    input: WaitInput<P, ()>,
    now: Moment,
    looks: Seq<(Option<P>, Moment)>,
    deadline: Option<Moment>,
    steps: nat,
) -> Waiting<P>
    decreases steps,
{
    if steps == 0 {
        Waiting { result: None, rounds: 0, slept: 0 }
    } else {
        let left = (steps - 1) as nat;
        match crate::battery::waited(input, deadline, now) {
            WaitStep::Service => {
                let rest = wait(WaitInput::Serviced(Ok(())), now, looks, deadline, left);
                Waiting { rounds: rest.rounds + 1, ..rest }
            },
            WaitStep::Look => if looks.len() == 0 {
                Waiting { result: None, rounds: 0, slept: 0 }
            } else {
                let (found, at) = looks[0];
                wait(WaitInput::Looked(found), at, looks.drop_first(), deadline, left)
            },
            WaitStep::Sleep(nanos) => {
                let rest = wait(WaitInput::Slept, now, looks, deadline, left);
                Waiting { slept: rest.slept + nanos, ..rest }
            },
            WaitStep::Done(result) => Waiting {
                result: match result {
                    Ok(found) => Some(found),
                    Err(_) => None,
                },
                rounds: 0,
                slept: 0,
            },
        }
    }
}

/// Whether a look found nothing, before the deadline.
pub open spec fn is_vain<P>(look: (Option<P>, Moment), deadline: Option<Moment>) -> bool {
    look.0 is None && !(deadline matches Some(deadline) && deadline.nanos <= look.1.nanos)
}

proof fn lemma_wait<P>(
    input: WaitInput<P, ()>,
    now: Moment,
    looks: Seq<(Option<P>, Moment)>,
    deadline: Option<Moment>,
    steps: nat,
)
    requires
        crate::battery::waited(input, deadline, now) == WaitStep::<P, ()>::Service,
        looks.len() > 0,
        steps >= 4 * looks.len(),
        forall|i: int| 0 <= i < looks.len() - 1 ==> is_vain(#[trigger] looks[i], deadline),
        !is_vain(looks.last(), deadline),
    ensures
        ({
            let waiting = wait(input, now, looks, deadline, steps);
            &&& waiting.result == Some(looks.last().0)
            &&& waiting.rounds == looks.len()
            &&& waiting.slept == 20_000_000 * (looks.len() - 1)
        }),
    decreases looks.len(),
{
    reveal_with_fuel(wait, 5);
    let (found, at) = looks[0];
    let rest = looks.drop_first();
    if looks.len() > 1 {
        assert(is_vain(looks[0], deadline));
        assert forall|i: int| 0 <= i < rest.len() - 1 implies is_vain(
            #[trigger] rest[i],
            deadline,
        ) by {
            assert(rest[i] == looks[i + 1]);
        }
        assert(rest.last() == looks.last());
        let slept: WaitInput<P, ()> = WaitInput::Slept;
        lemma_wait(slept, at, rest, deadline, (steps - 3) as nat);
    } else {
        assert(looks.last() == looks[0]);
    }
}

/// Waiting for the power supply from the first step to the last: the caller looks
/// after every round of servicing, twenty milliseconds of sleep apart, until the
/// first look that finds the supply or comes at the deadline or later, and
/// returns what that look found.
pub proof fn law_a_whole_wait<P>(
    begin: Moment,
    looks: Seq<(Option<P>, Moment)>,
    deadline: Option<Moment>,
    steps: nat,
)
    requires
        looks.len() > 0,
        steps >= 4 * looks.len(),
        forall|i: int| 0 <= i < looks.len() - 1 ==> is_vain(#[trigger] looks[i], deadline),
        !is_vain(looks.last(), deadline),
    ensures
        ({
            let waiting = wait(WaitInput::Begin, begin, looks, deadline, steps);
            &&& waiting.result == Some(looks.last().0)
            &&& waiting.rounds == looks.len()
            &&& waiting.slept == 20_000_000 * (looks.len() - 1)
        }),
{
    lemma_wait(WaitInput::Begin, begin, looks, deadline, steps);
}

/// Creating a battery from its first step to its last. An identity that would not
/// arrive whole is refused, and every other is accepted. An accepted one has the
/// device written and then the first reading, level and charging bit as they
/// were given; once both were written the battery is there with that reading
/// published and nothing planned. If the device is refused nothing else is
/// written; if the reading is, the device is removed again. The handle is in
/// whatever comes back.
pub proof fn law_a_whole_creation<H, E>(
    handle: H,
    identity: &Identity,
    kind: Kind,
    percent: u8,
    charging: bool,
    started: Result<(Creating<H>, Buffer), CreateError<H, Error>>,
    device: Result<(), E>,
    first: CreateStep<H, E>,
    reading: Result<(), E>,
    second: CreateStep<H, E>,
)
    requires
        call_ensures(
            Battery::<H>::create,
            (handle, identity, kind, percent, charging),
            started,
        ),
        started matches Ok((creating, event)) ==> call_ensures(
            Creating::<H>::written::<E>,
            (creating, device),
            first,
        ),
        first matches CreateStep::Push { event, creating } ==> call_ensures(
            Creating::<H>::written::<E>,
            (creating, reading),
            second,
        ),
    ensures
        started is Ok <==> identity.complaint() is None,
        started matches Err(error) ==> error.handle() == handle && error.source().kind
            == crate::error::ErrorKind::InvalidInput && error.source().message@
            == identity.complaint()->0,
        started matches Ok((creating, event)) ==> event@ == identity.create_event(kind),
        started is Ok && device is Err ==> (first matches CreateStep::Failed(error)
            && error.handle() == handle && error.source() == device->Err_0),
        started is Ok && device is Ok ==> (first matches CreateStep::Push { event, creating } && {
            &&& event@.subrange(0, 4) == crate::bytes::ne_u32(12)
            &&& event@[6] == if kind == Kind::Mouse {
                2
            } else {
                1int
            }
            &&& event@[7] == if percent > 100 {
                100
            } else {
                percent as int
            }
            &&& event@[8] == if charging {
                1
            } else {
                0int
            }
        }),
        started is Ok && device is Ok && reading is Ok ==> (second matches CreateStep::Created(
            battery,
        ) && {
            &&& battery.held() == handle
            &&& battery@.kind == kind
            &&& battery@.uniq == identity.uniq@
            &&& battery@.percent == if percent > 100 {
                100
            } else {
                percent as int
            }
            &&& battery@.published_percent == battery@.percent
            &&& battery@.charging == charging
            &&& battery@.published_charging == charging
            &&& battery@.repush.next_push() is None
        }),
        started is Ok && device is Ok && reading is Err ==> (second matches CreateStep::Teardown {
            event,
            error,
        } && {
            &&& event@.subrange(0, 4) == crate::bytes::ne_u32(1)
            &&& forall|i: int| 4 <= i < 4376 ==> #[trigger] event@[i] == 0
            &&& error.handle() == handle
            &&& error.source() == reading->Err_0
        }),
{
    crate::event::law_blank_bytes(1);
    if let Ok((creating, event)) = started {
        law_what_is_pushed(creating@);
    }
}

/// What a battery says of itself is what was last published and when the next
/// push is planned, and giving it up hands back the event that removes the
/// device and the handle it lives on.
pub proof fn law_what_a_battery_says<H>(
    battery: Battery<H>,
    percent: u8,
    charging: bool,
    deadline: Option<Moment>,
    report: [u8; 3],
    event: Buffer,
    parts: (Buffer, H),
)
    requires
        call_ensures(Battery::<H>::percent, (&battery,), percent),
        call_ensures(Battery::<H>::charging, (&battery,), charging),
        call_ensures(Battery::<H>::next_deadline, (&battery,), deadline),
        call_ensures(Battery::<H>::report, (&battery,), report),
        call_ensures(Battery::<H>::push, (&battery,), event),
        call_ensures(Battery::<H>::destroy, (battery,), parts),
    ensures
        percent == battery@.published_percent,
        charging == battery@.published_charging,
        deadline == battery@.repush.next_push(),
        report@.len() == 3,
        report@[0] == if battery@.kind == Kind::Mouse {
            2
        } else {
            1int
        },
        report@[1] == battery@.percent,
        report@[2] == if battery@.charging {
            1
        } else {
            0int
        },
        event@.subrange(6, 9) == report@,
        parts.0@.subrange(0, 4) == crate::bytes::ne_u32(1),
        forall|i: int| 4 <= i < 4376 ==> #[trigger] parts.0@[i] == 0,
        parts.1 == battery.held(),
{
    crate::event::law_blank_bytes(1);
    crate::event::law_input2_bytes(battery@.report());
}

/// The steps that a battery hands out while it is served or waited for are the
/// ones that the runs above are made of.
pub proof fn law_the_runs_are_those_of_the_battery<H, P, E>(
    battery: Battery<H>,
    serve_input: ServeInput<E>,
    serve_step: ServeStep<E>,
    wait_input: WaitInput<P, E>,
    wait_step: WaitStep<P, E>,
    until: Moment,
    deadline: Option<Moment>,
    now: Moment,
)
    requires
        call_ensures(
            Battery::<H>::serve_until::<E>,
            (&battery, serve_input, until, now),
            serve_step,
        ),
        call_ensures(
            Battery::<H>::wait_for_power_supply::<P, E>,
            (&battery, wait_input, deadline, now),
            wait_step,
        ),
    ensures
        serve_step == crate::battery::served(battery@, serve_input, until, now),
        wait_step == crate::battery::waited(wait_input, deadline, now),
{
}

} // verus!
