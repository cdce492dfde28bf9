//! One pass of the scheduler over the events: which reminders go off, which latches
//! move, and how long to sleep until the next pass.

use crate::event::Event;
use crate::moment::Clock;
use crate::notification::{Notification, NotificationMethod, Transition};
use vstd::prelude::*;

verus! {

/// A reminder that a pass found due, for the caller to act on.
///
/// Where `method` is `Push` the caller delivers `title` and `description`, and the
/// pass has set the latch. Where it is another method nothing can be delivered: the
/// pass has left the latch open, and the caller reports the failure.
#[derive(Debug)]
pub struct Delivery {
    pub event_index: usize,
    pub notification_index: usize,
    pub method: NotificationMethod,
    pub title: String,
    pub description: String,
}

/// What one pass over all events found.
#[derive(Debug)]
pub struct TickReport {
    /// The due reminders, by event and then by reminder, in order.
    pub deliveries: Vec<Delivery>,
    /// Whether the pass moved any latch, so that the events are to be saved.
    pub has_to_save: bool,
    /// The indices of the events that could not be checked and were left as they
    /// are, in ascending order.
    pub skipped: Vec<usize>,
}

impl Event {
    /// The transition that a pass under `clock` takes on reminder `j`.
    pub open spec fn transition_at(self, j: int, clock: Clock) -> Transition {
        self.notification_settings@[j].transition(self.is_recurring, self.fire_now(j, clock))
    }

    /// The reminders of the event after a pass under `clock`.
    pub open spec fn stepped_reminders(self, clock: Clock) -> Seq<Notification> {
        Seq::new(
            self.notification_settings@.len(),
            |j: int| self.notification_settings@[j].after(self.transition_at(j, clock)),
        )
    }

    /// `after` is this event once a pass under `clock` has gone over it: the
    /// same event but for the latches of its reminders.
    pub open spec fn passed(self, clock: Clock, after: Event) -> bool {
        &&& after == (Event { notification_settings: after.notification_settings, ..self })
        &&& after.notification_settings@ == self.stepped_reminders(clock)
    }

    /// What the caller is handed for reminder `j` of this event, which stands at
    /// `event_index` among the events.
    pub open spec fn delivery_of(self, event_index: usize, j: int) -> Delivery {
        Delivery {
            event_index,
            notification_index: j as usize,
            method: self.notification_settings@[j].method,
            title: self.title,
            description: self.description,
        }
    }

    /// Whether a pass under `clock` hands out a delivery for reminder `j`:
    /// whether the reminder fires or is refused.
    pub closed spec fn dispatches(self, j: int, clock: Clock) -> bool {
        self.transition_at(j, clock).is_dispatch()
    }

    /// What `dispatches` says, over the transition.
    pub broadcast proof fn dispatches_by_transition(self, j: int, clock: Clock)
        ensures
            #[trigger] self.dispatches(j, clock) == self.transition_at(j, clock).is_dispatch(),
    {
    }

    /// The deliveries that a pass under `clock` yields for the first `k`
    /// reminders.
    pub open spec fn deliveries_upto(self, event_index: usize, clock: Clock, k: nat) -> Seq<
        Delivery,
    >
        decreases k,
    {
        if k == 0 {
            Seq::empty()
        } else {
            let before = self.deliveries_upto(event_index, clock, (k - 1) as nat);
            if self.dispatches(k - 1, clock) {
                before.push(self.delivery_of(event_index, k - 1))
            } else {
                before
            }
        }
    }

    /// The deliveries that a pass under `clock` yields for this event: one for
    /// each reminder that fires or is refused, in the order of the reminders.
    pub open spec fn deliveries(self, event_index: usize, clock: Clock) -> Seq<Delivery> {
        self.deliveries_upto(event_index, clock, self.notification_settings@.len())
    }

    /// Whether a pass under `clock` moves a latch of this event.
    pub open spec fn latch_moves(self, clock: Clock) -> bool {
        exists|j: int|
            0 <= j < self.notification_settings@.len() && (#[trigger] self.transition_at(
                j,
                clock,
            )).changes_latch()
    }

    /// Takes one pass under `clock` over the reminders of this event, which
    /// stands at `event_index`: asks the due check once, then moves each latch by
    /// [`Notification::advance`] and appends what is to be delivered to
    /// `deliveries`. Returns whether a latch moved.
    pub fn run_reminders(
        &mut self,
        event_index: usize,
        clock: &Clock,
        deliveries: &mut Vec<Delivery>,
    ) -> (changed: bool)
        requires
            old(self).checkable(*clock),
        ensures
            old(self).passed(*clock, *final(self)),
            final(deliveries)@ == old(deliveries)@ + old(self).deliveries(event_index, *clock),
            changed == old(self).latch_moves(*clock),
    {
        let flags = self.is_time_to_notify(clock);
        let ghost before = *self;
        let mut changed = false;
        let mut j: usize = 0;
        while j < self.notification_settings.len()
            invariant
                flags@ == before.due_list(*clock),
                j <= before.notification_settings@.len(),
                *self == (Event { notification_settings: self.notification_settings, ..before }),
                self.notification_settings@.len() == before.notification_settings@.len(),
                forall|k: int|
                    0 <= k < j ==> self.notification_settings@[k]
                        == before.notification_settings@[k].after(
                        before.transition_at(k, *clock),
                    ),
                forall|k: int|
                    j <= k < before.notification_settings@.len() ==> self.notification_settings@[k]
                        == before.notification_settings@[k],
                deliveries@ == old(deliveries)@ + before.deliveries_upto(
                    event_index,
                    *clock,
                    j as nat,
                ),
                changed == exists|k: int|
                    0 <= k < j && (#[trigger] before.transition_at(k, *clock)).changes_latch(),
            decreases before.notification_settings@.len() - j,
        {
            let fire_now = flags[j].1;
            let mut reminder = self.notification_settings[j];
            let transition = reminder.advance(self.is_recurring, fire_now);
            self.notification_settings[j] = reminder;
            match transition {
                Transition::Fire | Transition::Refuse => {
                    deliveries.push(
                        Delivery {
                            event_index,
                            notification_index: j,
                            method: reminder.method,
                            title: self.title.clone(),
                            description: self.description.clone(),
                        },
                    );
                },
                _ => {},
            }
            match transition {
                Transition::Fire | Transition::Reset => {
                    changed = true;
                },
                _ => {},
            }
            j += 1;
        }
        assert(self.notification_settings@ =~= before.stepped_reminders(*clock));
        changed
    }
}

/// `after` holds the events of `before` once a pass under `clock` has gone over
/// them: an event that can be checked has been passed over, and one that cannot
/// is what it was.
pub open spec fn ticked(before: Seq<Event>, clock: Clock, after: Seq<Event>) -> bool {
    &&& after.len() == before.len()
    &&& forall|i: int|
        0 <= i < before.len() ==> if (#[trigger] before[i]).checkable(clock) {
            before[i].passed(clock, after[i])
        } else {
            after[i] == before[i]
        }
}

/// The deliveries that a pass under `clock` yields for the first `n` events.
pub open spec fn deliveries_of_first(events: Seq<Event>, clock: Clock, n: nat) -> Seq<Delivery>
    decreases n,
{
    if n == 0 {
        Seq::empty()
    } else {
        let before = deliveries_of_first(events, clock, (n - 1) as nat);
        if events[n - 1].checkable(clock) {
            before + events[n - 1].deliveries((n - 1) as usize, clock)
        } else {
            before
        }
    }
}

/// The deliveries that a pass under `clock` yields: those of each event that
/// can be checked, in the order of the events.
pub open spec fn all_deliveries(events: Seq<Event>, clock: Clock) -> Seq<Delivery> {
    deliveries_of_first(events, clock, events.len())
}

/// Whether a pass under `clock` moves a latch of any event.
pub open spec fn any_latch_moves(events: Seq<Event>, clock: Clock) -> bool {
    exists|i: int|
        0 <= i < events.len() && (#[trigger] events[i]).checkable(clock) && events[i].latch_moves(
            clock,
        )
}

/// The indices among the first `n` events of those that cannot be checked under
/// `clock`, in ascending order.
pub open spec fn skipped_of_first(events: Seq<Event>, clock: Clock, n: nat) -> Seq<usize>
    decreases n,
{
    if n == 0 {
        Seq::empty()
    } else {
        let before = skipped_of_first(events, clock, (n - 1) as nat);
        if events[n - 1].checkable(clock) {
            before
        } else {
            before.push((n - 1) as usize)
        }
    }
}

/// One pass of the scheduler under `clock` over `events`.
///
/// Every reminder is judged against the one moment of the clock and against the
/// event as it was when the pass reached it. A reminder that is due and has not
/// gone off is reported for delivery and latched; one that is due over a method
/// that cannot deliver is reported and left open; the latch of a recurring
/// event's reminder whose occurrence has passed is cleared. An event that cannot
/// be checked (it recurs without a well-formed rule, or the clock cannot be read
/// at one of its lead times) is left as it is and reported as skipped, and the
/// pass goes on to the next. The report says whether any latch moved, that is
/// whether to save.
pub fn tick_events(events: &mut Vec<Event>, clock: &Clock) -> (report: TickReport)
    ensures
        ticked(old(events)@, *clock, final(events)@),
        report.deliveries@ == all_deliveries(old(events)@, *clock),
        report.has_to_save == any_latch_moves(old(events)@, *clock),
        report.skipped@ == skipped_of_first(old(events)@, *clock, old(events)@.len()),
{
    let ghost before = events@;
    let mut deliveries: Vec<Delivery> = Vec::new();
    let mut skipped: Vec<usize> = Vec::new();
    let mut has_to_save = false;
    let mut i: usize = 0;
    while i < events.len()
        invariant
            i <= before.len(),
            events@.len() == before.len(),
            forall|k: int|
                0 <= k < i ==> if (#[trigger] before[k]).checkable(*clock) {
                    before[k].passed(*clock, events@[k])
                } else {
                    events@[k] == before[k]
                },
            forall|k: int| i <= k < before.len() ==> events@[k] == before[k],
            deliveries@ == deliveries_of_first(before, *clock, i as nat),
            skipped@ == skipped_of_first(before, *clock, i as nat),
            has_to_save == exists|k: int|
                0 <= k < i && (#[trigger] before[k]).checkable(*clock) && before[k].latch_moves(
                    *clock,
                ),
        decreases before.len() - i,
    {
        if events[i].can_check_at(clock) {
            let changed = events[i].run_reminders(i, clock, &mut deliveries);
            if changed {
                has_to_save = true;
            }
        } else {
            skipped.push(i);
        }
        i += 1;
    }
    TickReport { deliveries, has_to_save, skipped }
}

/// The period between two passes where the caller configures none: a thousand
/// seconds, in nanoseconds.
pub const DEFAULT_PERIOD_NANOS: u64 = 1_000_000_000_000;

/// The time left to sleep of a period of which `elapsed_nanos` have been spent
/// on the pass itself; a negative measurement counts as nothing spent. `None`
/// where the pass took longer than the period.
pub open spec fn sleep_remainder(period_nanos: u64, elapsed_nanos: i64) -> Option<u64> {
    let spent: int = if elapsed_nanos > 0 {
        elapsed_nanos as int
    } else {
        0
    };
    if spent <= period_nanos {
        Some((period_nanos - spent) as u64)
    } else {
        None
    }
}

/// How long to sleep after a pass so that passes start one period apart.
pub fn remaining_sleep(period_nanos: u64, elapsed_nanos: i64) -> (r: Option<u64>)
    ensures
        r == sleep_remainder(period_nanos, elapsed_nanos),
{
    let spent: u64 = if elapsed_nanos > 0 {
        elapsed_nanos as u64
    } else {
        0
    };
    if spent <= period_nanos {
        Some(period_nanos - spent)
    } else {
        None
    }
}

} // verus!
