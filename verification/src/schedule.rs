//! When the level is to be pushed again.
//!
//! Two things call for a later push, and each has its own time. A push for one
//! of them does nothing for the other if it comes too early, so neither plan
//! takes the place of the other.

use vstd::prelude::*;

use crate::clock::Moment;

verus! {

/// Why the level is to be pushed again.
#[derive(Debug, Clone, Copy, PartialEq, Eq, Structural)]
pub enum Reason {
    /// The driver was being attached and may have dropped earlier reports.
    Start,
    /// The charging bit flipped at an unchanged level, which the kernel may
    /// have kept to itself.
    Flip,
}

/// The pushes that are planned.
#[derive(Debug, Clone, Copy, PartialEq, Eq, Structural)]
pub struct Schedule {
    /// The earliest push planned since the last one went out.
    pub earliest: Option<Moment>,
    /// The push for the last [`Reason::Start`], until it is due.
    pub settle: Option<Moment>,
    /// The push for the last [`Reason::Flip`], until it is due.
    pub flip: Option<Moment>,
}

/// The earlier of two plans.
pub open spec fn earlier_plan(a: Option<Moment>, b: Option<Moment>) -> Option<Moment> {
    match (a, b) {
        (Some(a), Some(b)) => Some(a.earlier_of(b)),
        (Some(a), None) => Some(a),
        (None, b) => b,
    }
}

/// What is left of a plan at `now`: nothing once it is due.
pub open spec fn left_at(plan: Option<Moment>, now: Moment) -> Option<Moment> {
    match plan {
        Some(due) => if now.nanos >= due.nanos {
            None
        } else {
            Some(due)
        },
        None => None,
    }
}

fn earlier(a: Option<Moment>, b: Option<Moment>) -> (plan: Option<Moment>)
    ensures
        plan == earlier_plan(a, b),
{
    match (a, b) {
        (Some(a), Some(b)) => Some(a.min(b)),
        (Some(a), None) => Some(a),
        (None, b) => b,
    }
}

fn left(plan: Option<Moment>, now: Moment) -> (rest: Option<Moment>)
    ensures
        rest == left_at(plan, now),
{
    match plan {
        Some(due) => if now.nanos >= due.nanos {
            None
        } else {
            Some(due)
        },
        None => None,
    }
}

impl Schedule {
    /// A schedule without a push.
    pub open spec fn empty() -> Schedule {
        Schedule { earliest: None, settle: None, flip: None }
    }

    /// When the next push is due, if one is planned.
    pub open spec fn next_push(self) -> Option<Moment> {
        earlier_plan(self.earliest, earlier_plan(self.settle, self.flip))
    }

    /// The schedule with a push planned for `due`. Whatever was planned for
    /// earlier stands.
    pub open spec fn planned(self, reason: Reason, due: Moment) -> Schedule {
        let earliest = earlier_plan(self.next_push(), Some(due));
        match reason {
            Reason::Start => Schedule { earliest, settle: Some(due), ..self },
            Reason::Flip => Schedule { earliest, flip: Some(due), ..self },
        }
    }

    /// The push planned last for `reason`, if it is still to come.
    pub open spec fn plan_for(self, reason: Reason) -> Option<Moment> {
        match reason {
            Reason::Start => self.settle,
            Reason::Flip => self.flip,
        }
    }

    /// Whether a push is due at `now`.
    pub open spec fn due_at(self, now: Moment) -> bool {
        match self.next_push() {
            Some(due) => now.nanos >= due.nanos,
            None => false,
        }
    }

    /// The schedule after a push at `now`, which serves every plan that is due
    /// and no other.
    pub open spec fn pushed(self, now: Moment) -> Schedule {
        Schedule {
            earliest: left_at(self.earliest, now),
            settle: left_at(self.settle, now),
            flip: left_at(self.flip, now),
        }
    }

    /// A schedule without a push.
    pub fn new() -> (schedule: Schedule)
        ensures
            schedule == Schedule::empty(),
    {
        Schedule { earliest: None, settle: None, flip: None }
    }

    /// When the next push is due, if one is planned.
    pub fn next(self) -> (due: Option<Moment>)
        ensures
            due == self.next_push(),
    {
        earlier(self.earliest, earlier(self.settle, self.flip))
    }

    /// Plans a push for `due`.
    pub fn plan(self, reason: Reason, due: Moment) -> (schedule: Schedule)
        ensures
            schedule == self.planned(reason, due),
    {
        let earliest: Option<Moment> = earlier(self.next(), Some(due));
        match reason {
            Reason::Start => Schedule { earliest, settle: Some(due), flip: self.flip },
            Reason::Flip => Schedule { earliest, settle: self.settle, flip: Some(due) },
        }
    }

    /// Whether a push is due at `now`.
    pub fn is_due(self, now: Moment) -> (due: bool)
        ensures
            due == self.due_at(now),
    {
        match self.next() {
            Some(due) => now.nanos >= due.nanos,
            None => false,
        }
    }

    /// Drops the plans that a push at `now` serves.
    pub fn push(self, now: Moment) -> (schedule: Schedule)
        ensures
            schedule == self.pushed(now),
    {
        Schedule {
            earliest: left(self.earliest, now),
            settle: left(self.settle, now),
            flip: left(self.flip, now),
        }
    }
}

/// Planning a push puts no other push off and drops no plan made for the other
/// reason: the next push is the earlier of the one there was and the new one.
pub proof fn law_planning_puts_nothing_off(schedule: Schedule, reason: Reason, due: Moment)
    ensures
        schedule.planned(reason, due).next_push() == earlier_plan(
            schedule.next_push(),
            Some(due),
        ),
        schedule.planned(reason, due).plan_for(reason) == Some(due),
        forall|other: Reason|
            other != reason ==> #[trigger] schedule.planned(reason, due).plan_for(other)
                == schedule.plan_for(other),
{
}

/// A push serves every plan that is due and no other: nothing is due right
/// after it, and a plan for later stands, for whichever reason it was made.
pub proof fn law_a_push_serves_what_is_due(schedule: Schedule, reason: Reason, now: Moment)
    ensures
        !schedule.pushed(now).due_at(now),
        schedule.plan_for(reason) matches Some(due) ==> due.nanos > now.nanos
            ==> schedule.pushed(now).plan_for(reason) == Some(due),
{
}

/// The next push is the earliest of the plans there are: it is one of them, none
/// is earlier, and there is none only when there is no plan.
pub proof fn law_the_next_push_is_the_earliest_plan(schedule: Schedule)
    ensures
        match schedule.next_push() {
            Some(next) => {
                &&& schedule.earliest == Some(next) || schedule.settle == Some(next)
                    || schedule.flip == Some(next)
                &&& schedule.earliest matches Some(plan) ==> next.nanos <= plan.nanos
                &&& schedule.settle matches Some(plan) ==> next.nanos <= plan.nanos
                &&& schedule.flip matches Some(plan) ==> next.nanos <= plan.nanos
            },
            None => schedule.earliest is None && schedule.settle is None && schedule.flip is None,
        },
{
}

/// A push is due exactly when the time of some plan has come.
pub proof fn law_a_push_is_due_when_a_plan_is(schedule: Schedule, now: Moment)
    ensures
        schedule.due_at(now) <==> {
            ||| schedule.earliest matches Some(plan) && plan.nanos <= now.nanos
            ||| schedule.settle matches Some(plan) && plan.nanos <= now.nanos
            ||| schedule.flip matches Some(plan) && plan.nanos <= now.nanos
        },
{
}

/// A push takes away the plans whose time has come and leaves the others as they
/// are.
pub proof fn law_a_push_leaves_later_plans(schedule: Schedule, now: Moment)
    ensures
        ({
            let after = schedule.pushed(now);
            &&& schedule.earliest matches Some(plan) ==> after.earliest == if plan.nanos
                > now.nanos {
                Some(plan)
            } else {
                None
            }
            &&& schedule.settle matches Some(plan) ==> after.settle == if plan.nanos > now.nanos {
                Some(plan)
            } else {
                None
            }
            &&& schedule.flip matches Some(plan) ==> after.flip == if plan.nanos > now.nanos {
                Some(plan)
            } else {
                None
            }
            &&& schedule.earliest is None ==> after.earliest is None
            &&& schedule.settle is None ==> after.settle is None
            &&& schedule.flip is None ==> after.flip is None
        }),
{
}

/// Planning a push adds it to what is planned: its own time is noted, the plan
/// for the other reason stays, and the earliest plan is the earliest of all
/// there were and the new one.
pub proof fn law_planning_adds_a_push(schedule: Schedule, reason: Reason, due: Moment)
    ensures
        ({
            let after = schedule.planned(reason, due);
            &&& reason == Reason::Start ==> after.settle == Some(due) && after.flip
                == schedule.flip
            &&& reason == Reason::Flip ==> after.flip == Some(due) && after.settle
                == schedule.settle
            &&& after.earliest is Some
            &&& after.earliest->0.nanos <= due.nanos
            &&& schedule.earliest matches Some(plan) ==> after.earliest->0.nanos <= plan.nanos
            &&& schedule.settle matches Some(plan) ==> after.earliest->0.nanos <= plan.nanos
            &&& schedule.flip matches Some(plan) ==> after.earliest->0.nanos <= plan.nanos
            &&& after.earliest == Some(due) || after.earliest == schedule.earliest
                || after.earliest == schedule.settle || after.earliest == schedule.flip
        }),
{
}

/// Nothing is planned to begin with.
pub proof fn law_nothing_is_planned_at_first(now: Moment)
    ensures
        Schedule::empty().next_push() is None,
        !Schedule::empty().due_at(now),
{
}

} // verus!
