//! What holds of the planner as a whole, proved from the definitions of its parts.

use crate::event::Event;
use crate::event_manager::{id_for, id_taken, is_fresh_position, kept_as, StoreModel};
use crate::moment::{Clock, Moment, Weekday};
use crate::notification::{Notification, NotificationMethod, Transition};
use crate::recurrence::{Recurrence, RecurrenceFrequency};
use crate::scheduler::{all_deliveries, any_latch_moves, deliveries_of_first, ticked, Delivery};
use vstd::prelude::*;

verus! {

/// The first pass at which a reminder is due, has not gone off and can be
/// delivered sets its latch, whether the event recurs or not.
pub proof fn law_fire_sets_latch(event: Event, i: int, clock: Clock, after: Event)
    requires
        0 <= i < event.notification_settings@.len(),
        event.fire_now(i, clock),
        !event.notification_settings@[i].has_notified,
        event.notification_settings@[i].method.deliverable(),
        event.passed(clock, after),
    ensures
        event.transition_at(i, clock) == Transition::Fire,
        after.notification_settings@[i].has_notified,
{
}

/// A reminder of an event that does not recur goes off once. From the pass that
/// set its latch on, through any number of further passes at any moments, every
/// due check answers that it is not to fire, and the latch stays set.
///
/// `events[k]` is the event before the pass under `clocks[k]`, and `events[k + 1]` is
/// the event after it.
pub proof fn law_single_fire(events: Seq<Event>, clocks: Seq<Clock>, i: int)
    requires
        events.len() == clocks.len() + 1,
        forall|k: int| 0 <= k < clocks.len() ==> (#[trigger] events[k]).passed(clocks[k], events[k + 1]),
        !events[0].is_recurring,
        0 <= i < events[0].notification_settings@.len(),
        events[0].notification_settings@[i].has_notified,
    ensures
        forall|k: int|
            0 <= k < clocks.len() ==> {
                &&& !(#[trigger] events[k]).fire_now(i, clocks[k])
                &&& events[k].due_list(clocks[k])[i] == (i as usize, false)
                &&& events[k + 1].notification_settings@[i] == events[0].notification_settings@[i]
            },
{
    assert forall|k: int| 0 <= k < clocks.len() implies {
        &&& !(#[trigger] events[k]).fire_now(i, clocks[k])
        &&& events[k].due_list(clocks[k])[i] == (i as usize, false)
        &&& events[k + 1].notification_settings@[i] == events[0].notification_settings@[i]
    } by {
        lemma_latched_reminder_stays(events, clocks, i, k as nat);
        lemma_latched_reminder_stays(events, clocks, i, (k + 1) as nat);
    }
}

/// Through the passes of [`law_single_fire`], the event stays one that does not
/// recur, keeps the number of its reminders, and keeps reminder `i` as it was.
proof fn lemma_latched_reminder_stays(events: Seq<Event>, clocks: Seq<Clock>, i: int, k: nat)
    requires
        events.len() == clocks.len() + 1,
        forall|k: int| 0 <= k < clocks.len() ==> (#[trigger] events[k]).passed(clocks[k], events[k + 1]),
        !events[0].is_recurring,
        0 <= i < events[0].notification_settings@.len(),
        events[0].notification_settings@[i].has_notified,
        k <= clocks.len(),
    ensures
        !events[k as int].is_recurring,
        events[k as int].notification_settings@.len() == events[0].notification_settings@.len(),
        events[k as int].notification_settings@[i] == events[0].notification_settings@[i],
    decreases k,
{
    if k > 0 {
        lemma_latched_reminder_stays(events, clocks, i, (k - 1) as nat);
        let before = events[k - 1];
        assert(before.passed(clocks[k - 1], events[k as int]));
        assert(!before.fire_now(i, clocks[k - 1]));
        assert(before.transition_at(i, clocks[k - 1]) == Transition::Stay);
        assert(before.stepped_reminders(clocks[k - 1])[i] == before.notification_settings@[i]);
    }
}

/// On a rule "every second week on Monday" the predicate holds only on Mondays
/// that lie an even number of whole weeks after the start of the rule: it fails
/// on every other day of the week and on every Monday an odd number of weeks
/// after the start. Where the rule pins neither hour nor minute, it holds at
/// every moment of such a Monday that is in the rule's range.
pub proof fn law_every_second_monday(rule: Recurrence, now: Moment)
    requires
        rule.frequency == RecurrenceFrequency::Weekly,
        rule.interval == 2,
        rule.week_day == Some(Weekday::Mon),
    ensures
        rule.elapsed_units(now) == rule.elapsed_days(now) / 7,
        rule.is_due(now) ==> now.spec_weekday() == Weekday::Mon && rule.elapsed_units(now) % 2
            == 0,
        now.spec_weekday() != Weekday::Mon ==> !rule.is_due(now),
        rule.elapsed_units(now) % 2 == 1 ==> !rule.is_due(now),
        rule.minute is None && rule.hour is None ==> (rule.is_due(now) <==> rule.in_range(now)
            && now.spec_weekday() == Weekday::Mon && rule.elapsed_units(now) % 2 == 0),
{
}

/// A store that takes in the very events that it hands out for saving, in their
/// order, is afterwards the store it was; and so is one that takes in nothing.
/// Whatever writes the events to the file and reads them back, the store adds
/// nothing to them and loses nothing of them.
pub proof fn law_reload_of_own_events(store: StoreModel)
    ensures
        store.reloaded(Some(store.events)) == store,
        store.reloaded(None) == store,
        forall|events: Seq<Event>| (#[trigger] store.reloaded(Some(events))).events == events,
{
}

/// The reminder after the first `k` of the passes whose due checks answered
/// `fires`, for an event that recurs or not as `is_recurring` says.
pub open spec fn latch_after(
    reminder: Notification,
    is_recurring: bool,
    fires: Seq<bool>,
    k: nat,
) -> Notification
    decreases k,
{
    if k == 0 {
        reminder
    } else {
        latch_after(reminder, is_recurring, fires, (k - 1) as nat).stepped(
            is_recurring,
            fires[k - 1],
        )
    }
}

/// The transition that pass `k` of those passes takes.
pub open spec fn transition_in(
    reminder: Notification,
    is_recurring: bool,
    fires: Seq<bool>,
    k: nat,
) -> Transition {
    latch_after(reminder, is_recurring, fires, k).transition(is_recurring, fires[k as int])
}

/// One pass on a reminder of a recurring event, by latch and predicate: a set
/// latch is cleared when the predicate is false and kept, without firing, while
/// it is true; an open latch of a reminder that can be delivered is set, and the
/// reminder fires, when the predicate is true, and nothing happens while it is
/// false.
pub proof fn law_recurring_step(reminder: Notification, fire_now: bool)
    ensures
        reminder.has_notified && !fire_now ==> reminder.transition(true, fire_now)
            == Transition::Reset && !reminder.stepped(true, fire_now).has_notified,
        reminder.has_notified && fire_now ==> reminder.transition(true, fire_now)
            == Transition::Stay && reminder.stepped(true, fire_now).has_notified,
        !reminder.has_notified && fire_now && reminder.method.deliverable()
            ==> reminder.transition(true, fire_now) == Transition::Fire && reminder.stepped(
            true,
            fire_now,
        ).has_notified,
        !reminder.has_notified && !fire_now ==> reminder.transition(true, fire_now)
            == Transition::Stay && !reminder.stepped(true, fire_now).has_notified,
{
}

/// Fire, reset, fire: a reminder of a recurring event that can be delivered and
/// has not gone off fires when the predicate holds, is reset when the predicate
/// fails, and fires again when the predicate holds once more.
pub proof fn law_fire_reset_fire(reminder: Notification)
    requires
        !reminder.has_notified,
        reminder.method.deliverable(),
    ensures
        transition_in(reminder, true, seq![true, false, true], 0) == Transition::Fire,
        transition_in(reminder, true, seq![true, false, true], 1) == Transition::Reset,
        transition_in(reminder, true, seq![true, false, true], 2) == Transition::Fire,
{
    let fires = seq![true, false, true];
    reveal_with_fuel(latch_after, 3);
    assert(fires[0] && !fires[1] && fires[2]);
}

/// Never fire, fire: between two passes at which a reminder of a recurring event
/// fires lies a pass at which the predicate failed and the reminder was reset.
pub proof fn law_no_fire_without_reset(reminder: Notification, fires: Seq<bool>, a: nat, b: nat)
    requires
        a < b < fires.len(),
        transition_in(reminder, true, fires, a) == Transition::Fire,
        transition_in(reminder, true, fires, b) == Transition::Fire,
    ensures
        exists|c: nat|
            a < c < b && !fires[c as int] && transition_in(reminder, true, fires, c)
                == Transition::Reset,
    decreases b - a,
{
    // After the fire at `a` the latch is set. It is still open before `b` fires.
    assert(latch_after(reminder, true, fires, a + 1).has_notified);
    assert(!latch_after(reminder, true, fires, b).has_notified);
    lemma_latch_cleared_by_reset(reminder, fires, a + 1, b);
}

/// A latch that is set before pass `from` and open before pass `to` was cleared
/// by a reset in between, at a pass whose predicate failed.
proof fn lemma_latch_cleared_by_reset(reminder: Notification, fires: Seq<bool>, from: nat, to: nat)
    requires
        from <= to <= fires.len(),
        latch_after(reminder, true, fires, from).has_notified,
        !latch_after(reminder, true, fires, to).has_notified,
    ensures
        exists|c: nat|
            from <= c < to && !fires[c as int] && transition_in(reminder, true, fires, c)
                == Transition::Reset,
    decreases to - from,
{
    if from == to {
    } else {
        let before = latch_after(reminder, true, fires, (to - 1) as nat);
        if before.has_notified {
            let c = (to - 1) as nat;
            assert(transition_in(reminder, true, fires, c) == Transition::Reset);
            assert(from <= c < to && !fires[c as int]);
        } else {
            lemma_latch_cleared_by_reset(reminder, fires, from, (to - 1) as nat);
        }
    }
}

/// A pass that reports nothing to save has changed nothing: every reminder of
/// every event is after the pass what it was before.
pub proof fn law_quiet_pass_changes_nothing(before: Seq<Event>, clock: Clock, after: Seq<Event>)
    requires
        ticked(before, clock, after),
        !any_latch_moves(before, clock),
    ensures
        forall|i: int|
            0 <= i < before.len() ==> (#[trigger] after[i]).notification_settings@
                == before[i].notification_settings@,
{
    assert forall|i: int| 0 <= i < before.len() implies (#[trigger] after[i]).notification_settings@
        == before[i].notification_settings@ by {
        let event = before[i];
        if event.checkable(clock) {
            assert(event.passed(clock, after[i]));
            assert(!event.latch_moves(clock));
            assert forall|j: int| 0 <= j < event.notification_settings@.len() implies after[i].notification_settings@[j]
                == event.notification_settings@[j] by {
                assert(!event.transition_at(j, clock).changes_latch());
            }
            assert(after[i].notification_settings@ =~= event.notification_settings@);
        }
    }
}

/// A pass is not repeated by a second pass at the same moment: after a pass
/// under `clock`, another pass under `clock` fires no reminder and resets none,
/// so that it moves no latch and has nothing to save. What it still reports are
/// the reminders that are due over a method that cannot deliver.
pub proof fn law_repeated_pass_is_quiet(before: Seq<Event>, clock: Clock, after: Seq<Event>)
    requires
        ticked(before, clock, after),
    ensures
        !any_latch_moves(after, clock),
        forall|i: int, j: int|
            0 <= i < after.len() && after[i].checkable(clock) && 0 <= j
                < after[i].notification_settings@.len() ==> {
                let again = (#[trigger] after[i].transition_at(j, clock));
                again == Transition::Stay || again == Transition::Refuse
            },
{
    assert forall|i: int, j: int|
        0 <= i < after.len() && after[i].checkable(clock) && 0 <= j
            < after[i].notification_settings@.len() implies {
        let again = (#[trigger] after[i].transition_at(j, clock));
        again == Transition::Stay || again == Transition::Refuse
    } by {
        if before[i].checkable(clock) {
            lemma_second_pass_on_reminder(before[i], clock, after[i], j);
        }
    }
    assert forall|i: int| 0 <= i < after.len() && (#[trigger] after[i]).checkable(
        clock,
    ) implies !after[i].latch_moves(clock) by {
        assert forall|j: int| 0 <= j < after[i].notification_settings@.len() implies !(
        #[trigger] after[i].transition_at(j, clock)).changes_latch() by {
            if before[i].checkable(clock) {
                lemma_second_pass_on_reminder(before[i], clock, after[i], j);
            }
        }
    }
}

/// The second of two passes at one moment over one reminder neither fires nor
/// resets it.
proof fn lemma_second_pass_on_reminder(event: Event, clock: Clock, after: Event, j: int)
    requires
        event.passed(clock, after),
        0 <= j < after.notification_settings@.len(),
    ensures
        after.transition_at(j, clock) == Transition::Stay || after.transition_at(j, clock)
            == Transition::Refuse,
{
    let first = event.transition_at(j, clock);
    let reminder = event.notification_settings@[j];
    assert(after.notification_settings@[j] == reminder.after(first));
    assert(after.is_recurring == event.is_recurring);
    assert(after.recurrence == event.recurrence);
    assert(after.start_time == event.start_time);
    if event.is_recurring {
        assert(after.fire_now(j, clock) == event.fire_now(j, clock));
    }
}

/// No two of `events` go by the same identifier.
pub open spec fn distinct_ids(events: Seq<Event>) -> bool {
    forall|i: int, j: int|
        0 <= i < j < events.len() ==> (#[trigger] events[i]).event_id@ != (
        #[trigger] events[j]).event_id@
}

/// The store gives an event that comes without identifier one that none of its
/// events goes by: identifiers that were different from each other stay so
/// when such an event is added. There is one fresh position and no other, and
/// in a store without events it is the first.
pub proof fn law_fresh_identifier(event: Event, events: Seq<Event>, kept: Event)
    requires
        event.event_id@.len() == 0,
        kept_as(event, events, kept),
    ensures
        !id_taken(events, kept.event_id@),
        distinct_ids(events) ==> distinct_ids(events.push(kept)),
        forall|a: nat, b: nat|
            is_fresh_position(events, a) && is_fresh_position(events, b) ==> a == b,
        events.len() == 0 ==> kept.event_id@ == id_for(1),
{
    let position = choose|position: nat|
        is_fresh_position(events, position) && kept.event_id@ == #[trigger] id_for(position);
    assert forall|a: nat, b: nat|
        is_fresh_position(events, a) && is_fresh_position(events, b) implies a == b by {
        if a < b {
            assert(id_taken(events, id_for(a)));
        } else if b < a {
            assert(id_taken(events, id_for(b)));
        }
    }
    if distinct_ids(events) {
        let longer = events.push(kept);
        assert forall|i: int, j: int| 0 <= i < j < longer.len() implies (
        #[trigger] longer[i]).event_id@ != (#[trigger] longer[j]).event_id@ by {
            if j == events.len() {
                assert(longer[i] == events[i]);
                assert(events[i].event_id@ != id_for(position));
            } else {
                assert(longer[i] == events[i] && longer[j] == events[j]);
            }
        }
    }
    if events.len() == 0 {
        assert(!id_taken(events, id_for(1)));
        assert(is_fresh_position(events, 1));
    }
}

/// Whether `delivery` is for reminder `i` of the event at index `k`.
pub open spec fn is_for(delivery: Delivery, k: int, i: int) -> bool {
    delivery.event_index == k && delivery.notification_index == i
}

/// Whether `delivery` stands before `other` in the order of a report: by event,
/// and for one event by reminder.
pub open spec fn reported_before(delivery: Delivery, other: Delivery) -> bool {
    delivery.event_index < other.event_index || (delivery.event_index == other.event_index
        && delivery.notification_index < other.notification_index)
}

/// `delivery` is what a pass under `clock` hands out for one of the reminders of
/// `events` that fires or is refused.
pub open spec fn is_due_delivery(events: Seq<Event>, clock: Clock, delivery: Delivery) -> bool {
    let event = events[delivery.event_index as int];
    &&& delivery.event_index < events.len()
    &&& event.checkable(clock)
    &&& delivery.notification_index < event.notification_settings@.len()
    &&& event.transition_at(delivery.notification_index as int, clock).is_dispatch()
    &&& delivery == event.delivery_of(delivery.event_index, delivery.notification_index as int)
}

/// As `is_due_delivery`, over `dispatches`.
spec fn is_listed_delivery(events: Seq<Event>, clock: Clock, delivery: Delivery) -> bool {
    let event = events[delivery.event_index as int];
    &&& delivery.event_index < events.len()
    &&& event.checkable(clock)
    &&& delivery.notification_index < event.notification_settings@.len()
    &&& event.dispatches(delivery.notification_index as int, clock)
    &&& delivery == event.delivery_of(delivery.event_index, delivery.notification_index as int)
}

/// `list` holds the deliveries for the first `m` reminders of `event`: each is
/// the delivery of a reminder that fires or is refused, they stand in the order
/// of the reminders, and none is missing.
spec fn lists_event(event: Event, index: usize, clock: Clock, m: nat, list: Seq<Delivery>) -> bool {
    &&& forall|q: int|
        0 <= q < list.len() ==> {
            let delivery = #[trigger] list[q];
            &&& delivery.event_index == index
            &&& delivery.notification_index < m
            &&& event.dispatches(delivery.notification_index as int, clock)
            &&& delivery == event.delivery_of(index, delivery.notification_index as int)
        }
    &&& forall|q: int, r: int|
        0 <= q < r < list.len() ==> (#[trigger] list[q]).notification_index < (
        #[trigger] list[r]).notification_index
    &&& forall|j: int|
        0 <= j < m && #[trigger] event.dispatches(j, clock) ==> exists|q: int|
            0 <= q < list.len() && (#[trigger] list[q]).notification_index == j
}

/// `list` holds the deliveries for the first `n` of `events`: each is the
/// delivery of a reminder that fires or is refused, they stand in the order of
/// the events and for one event in the order of its reminders, and none is
/// missing.
spec fn lists_events(events: Seq<Event>, clock: Clock, n: nat, list: Seq<Delivery>) -> bool {
    &&& forall|q: int|
        0 <= q < list.len() ==> (#[trigger] list[q]).event_index < n && is_listed_delivery(
            events,
            clock,
            list[q],
        )
    &&& forall|q: int, r: int|
        0 <= q < r < list.len() ==> reported_before(#[trigger] list[q], #[trigger] list[r])
    &&& forall|k: int, i: int|
        0 <= k < n && events[k].checkable(clock) && 0 <= i
            < events[k].notification_settings@.len() && #[trigger] events[k].dispatches(i, clock)
            ==> exists|q: int|
            0 <= q < list.len() && is_for(#[trigger] list[q], k, i)
}

/// One more reminder: the list for the first `m` reminders from that for one
/// reminder less.
proof fn lemma_lists_one_more(
    event: Event,
    index: usize,
    clock: Clock,
    m: nat,
    before: Seq<Delivery>,
    all: Seq<Delivery>,
)
    requires
        0 < m <= event.notification_settings@.len() <= usize::MAX,
        lists_event(event, index, clock, (m - 1) as nat, before),
        all == if event.dispatches(m - 1, clock) {
            before.push(event.delivery_of(index, m - 1))
        } else {
            before
        },
    ensures
        lists_event(event, index, clock, m, all),
{
    if event.dispatches(m - 1, clock) {
        let last = event.delivery_of(index, m - 1);
        assert(last.notification_index == m - 1);
        assert forall|q: int| 0 <= q < all.len() implies {
            let delivery = #[trigger] all[q];
            &&& delivery.event_index == index
            &&& delivery.notification_index < m
            &&& event.dispatches(delivery.notification_index as int, clock)
            &&& delivery == event.delivery_of(index, delivery.notification_index as int)
        } by {
            if q < before.len() {
                assert(all[q] == before[q]);
            }
        }
        assert forall|q: int, r: int| 0 <= q < r < all.len() implies (
        #[trigger] all[q]).notification_index < (#[trigger] all[r]).notification_index by {
            assert(all[q] == before[q]);
            if r < before.len() {
                assert(all[r] == before[r]);
            }
        }
        assert forall|j: int|
            0 <= j < m && #[trigger] event.dispatches(j, clock) implies exists|
            q: int,
        |
            0 <= q < all.len() && (#[trigger] all[q]).notification_index == j by {
            if j == m - 1 {
                assert(all[before.len() as int] == last);
            } else {
                let q = choose|q: int|
                    0 <= q < before.len() && (#[trigger] before[q]).notification_index == j;
                assert(all[q] == before[q]);
            }
        }
    }
}

proof fn lemma_deliveries_of_event(event: Event, index: usize, clock: Clock, m: nat)
    requires
        m <= event.notification_settings@.len() <= usize::MAX,
    ensures
        lists_event(event, index, clock, m, event.deliveries_upto(index, clock, m)),
    decreases m,
{
    if m > 0 {
        lemma_deliveries_of_event(event, index, clock, (m - 1) as nat);
        lemma_lists_one_more(
            event,
            index,
            clock,
            m,
            event.deliveries_upto(index, clock, (m - 1) as nat),
            event.deliveries_upto(index, clock, m),
        );
    }
}

/// One more event: the list for the first `n` events from that for one event
/// less and that of the event.
proof fn lemma_lists_one_more_event(
    events: Seq<Event>,
    clock: Clock,
    n: nat,
    before: Seq<Delivery>,
    added: Seq<Delivery>,
)
    requires
        0 < n <= events.len() <= usize::MAX,
        events[n - 1].checkable(clock),
        lists_events(events, clock, (n - 1) as nat, before),
        lists_event(
            events[n - 1],
            (n - 1) as usize,
            clock,
            events[n - 1].notification_settings@.len(),
            added,
        ),
    ensures
        lists_events(events, clock, n, before + added),
{
    let all = before + added;
    let event = events[n - 1];
    assert forall|q: int| 0 <= q < all.len() implies (#[trigger] all[q]).event_index < n
        && is_listed_delivery(events, clock, all[q]) by {
        if q < before.len() {
            assert(all[q] == before[q]);
        } else {
            assert(all[q] == added[q - before.len()]);
        }
    }
    assert forall|q: int, r: int| 0 <= q < r < all.len() implies reported_before(
        #[trigger] all[q],
        #[trigger] all[r],
    ) by {
        if r < before.len() {
            assert(all[q] == before[q] && all[r] == before[r]);
        } else if q < before.len() {
            assert(all[q] == before[q]);
            assert(all[r] == added[r - before.len()]);
        } else {
            assert(all[q] == added[q - before.len()]);
            assert(all[r] == added[r - before.len()]);
        }
    }
    assert forall|k: int, i: int|
        0 <= k < n && events[k].checkable(clock) && 0 <= i
            < events[k].notification_settings@.len() && #[trigger] events[k].dispatches(
            i,
            clock,
        ) implies exists|q: int| 0 <= q < all.len() && is_for(#[trigger] all[q], k, i) by {
        if k < n - 1 {
            let q = choose|q: int| 0 <= q < before.len() && is_for(#[trigger] before[q], k, i);
            assert(all[q] == before[q]);
        } else {
            let q = choose|q: int|
                0 <= q < added.len() && (#[trigger] added[q]).notification_index == i;
            assert(all[before.len() + q] == added[q]);
            assert(is_for(all[before.len() + q], k, i));
        }
    }
}

proof fn lemma_deliveries_of_events(events: Seq<Event>, clock: Clock, n: nat)
    requires
        n <= events.len() <= usize::MAX,
        forall|k: int| 0 <= k < events.len() ==> (#[trigger] events[k]).notification_settings@.len()
            <= usize::MAX,
    ensures
        lists_events(events, clock, n, deliveries_of_first(events, clock, n)),
    decreases n,
{
    if n > 0 {
        lemma_deliveries_of_events(events, clock, (n - 1) as nat);
        let event = events[n - 1];
        let before = deliveries_of_first(events, clock, (n - 1) as nat);
        if event.checkable(clock) {
            lemma_deliveries_of_event(
                event,
                (n - 1) as usize,
                clock,
                event.notification_settings@.len(),
            );
            lemma_lists_one_more_event(
                events,
                clock,
                n,
                before,
                event.deliveries((n - 1) as usize, clock),
            );
        } else {
            lemma_lists_skipped_event(events, clock, n, before);
        }
    }
}

/// One more event that cannot be checked: the list stays what it is.
proof fn lemma_lists_skipped_event(events: Seq<Event>, clock: Clock, n: nat, list: Seq<Delivery>)
    requires
        0 < n <= events.len(),
        !events[n - 1].checkable(clock),
        lists_events(events, clock, (n - 1) as nat, list),
    ensures
        lists_events(events, clock, n, list),
{
    assert forall|k: int, i: int|
        0 <= k < n && events[k].checkable(clock) && 0 <= i
            < events[k].notification_settings@.len() && #[trigger] events[k].dispatches(
            i,
            clock,
        ) implies exists|q: int| 0 <= q < list.len() && is_for(#[trigger] list[q], k, i) by {
        assert(k < n - 1);
    }
}

/// The report of a pass holds one delivery for each reminder that fires or is
/// refused, with the title and the description of its event and its method, and
/// none for any other reminder, nor for a reminder of an event that cannot be
/// checked; and it holds nothing else.
pub proof fn law_one_delivery_for_each_due_reminder(
    events: Seq<Event>,
    clock: Clock,
    k: int,
    i: int,
)
    requires
        events.len() <= usize::MAX,
        forall|k: int| 0 <= k < events.len() ==> (#[trigger] events[k]).notification_settings@.len()
            <= usize::MAX,
        0 <= k < events.len(),
        0 <= i < events[k].notification_settings@.len(),
    ensures
        events[k].checkable(clock) && events[k].transition_at(i, clock).is_dispatch()
            ==> exists|q: int|
            {
                &&& 0 <= q < all_deliveries(events, clock).len()
                &&& #[trigger] all_deliveries(events, clock)[q] == (Delivery {
                    event_index: k as usize,
                    notification_index: i as usize,
                    method: events[k].notification_settings@[i].method,
                    title: events[k].title,
                    description: events[k].description,
                })
                &&& forall|r: int|
                    0 <= r < all_deliveries(events, clock).len() && is_for(
                        #[trigger] all_deliveries(events, clock)[r],
                        k,
                        i,
                    ) ==> r == q
            },
        !(events[k].checkable(clock) && events[k].transition_at(i, clock).is_dispatch())
            ==> forall|r: int|
            0 <= r < all_deliveries(events, clock).len() ==> !is_for(
                #[trigger] all_deliveries(events, clock)[r],
                k,
                i,
            ),
        forall|r: int|
            0 <= r < all_deliveries(events, clock).len() ==> is_due_delivery(
                events,
                clock,
                #[trigger] all_deliveries(events, clock)[r],
            ),
{
    lemma_deliveries_of_events(events, clock, events.len());
    let all = all_deliveries(events, clock);
    events[k].dispatches_by_transition(i, clock);
    assert forall|r: int| 0 <= r < all.len() implies is_due_delivery(
        events,
        clock,
        #[trigger] all[r],
    ) by {
        assert(is_listed_delivery(events, clock, all[r]));
        events[all[r].event_index as int].dispatches_by_transition(
            all[r].notification_index as int,
            clock,
        );
    }
    if events[k].checkable(clock) && events[k].transition_at(i, clock).is_dispatch() {
        let q = choose|q: int| 0 <= q < all.len() && is_for(#[trigger] all[q], k, i);
        assert(is_listed_delivery(events, clock, all[q]));
        assert(all[q] == events[k].delivery_of(k as usize, i));
        assert forall|r: int| 0 <= r < all.len() && is_for(#[trigger] all[r], k, i) implies r
            == q by {
            if r < q {
                assert(reported_before(all[r], all[q]));
            } else if q < r {
                assert(reported_before(all[q], all[r]));
            }
        }
    } else {
        assert forall|r: int| 0 <= r < all.len() implies !is_for(#[trigger] all[r], k, i) by {
            if is_for(all[r], k, i) {
                assert(is_due_delivery(events, clock, all[r]));
            }
        }
    }
}

/// The reset at a pass: where a reminder of a recurring event has gone off and
/// its rule is not active at the lead time, the pass opens the latch again,
/// hands out no delivery for the reminder, and asks for the events to be saved.
pub proof fn law_pass_resets(before: Seq<Event>, clock: Clock, after: Seq<Event>, k: int, i: int)
    requires
        before.len() <= usize::MAX,
        forall|k: int| 0 <= k < before.len() ==> (#[trigger] before[k]).notification_settings@.len()
            <= usize::MAX,
        ticked(before, clock, after),
        0 <= k < before.len(),
        0 <= i < before[k].notification_settings@.len(),
        before[k].checkable(clock),
        before[k].is_recurring,
        before[k].notification_settings@[i].has_notified,
        !before[k].recurrence.unwrap().is_due(
            clock.at_lead(before[k].notification_settings@[i].notify_before as int),
        ),
    ensures
        !after[k].notification_settings@[i].has_notified,
        any_latch_moves(before, clock),
        forall|r: int|
            0 <= r < all_deliveries(before, clock).len() ==> !is_for(
                #[trigger] all_deliveries(before, clock)[r],
                k,
                i,
            ),
{
    assert(before[k].passed(clock, after[k]));
    assert(before[k].transition_at(i, clock) == Transition::Reset);
    assert(before[k].latch_moves(clock));
    law_one_delivery_for_each_due_reminder(before, clock, k, i);
}

/// The fire at a pass: where a reminder of a recurring event can be delivered,
/// has not gone off (be it after a reset) and its rule is active at the lead
/// time, the pass sets the latch, hands out one delivery for the reminder, with
/// the title and the description of the event, and asks for the events to be
/// saved.
pub proof fn law_pass_fires(before: Seq<Event>, clock: Clock, after: Seq<Event>, k: int, i: int)
    requires
        before.len() <= usize::MAX,
        forall|k: int| 0 <= k < before.len() ==> (#[trigger] before[k]).notification_settings@.len()
            <= usize::MAX,
        ticked(before, clock, after),
        0 <= k < before.len(),
        0 <= i < before[k].notification_settings@.len(),
        before[k].checkable(clock),
        before[k].is_recurring,
        !before[k].notification_settings@[i].has_notified,
        before[k].notification_settings@[i].method == NotificationMethod::Push,
        before[k].recurrence.unwrap().is_due(
            clock.at_lead(before[k].notification_settings@[i].notify_before as int),
        ),
    ensures
        after[k].notification_settings@[i].has_notified,
        any_latch_moves(before, clock),
        exists|q: int|
            {
                &&& 0 <= q < all_deliveries(before, clock).len()
                &&& #[trigger] all_deliveries(before, clock)[q] == (Delivery {
                    event_index: k as usize,
                    notification_index: i as usize,
                    method: NotificationMethod::Push,
                    title: before[k].title,
                    description: before[k].description,
                })
                &&& forall|r: int|
                    0 <= r < all_deliveries(before, clock).len() && is_for(
                        #[trigger] all_deliveries(before, clock)[r],
                        k,
                        i,
                    ) ==> r == q
            },
{
    assert(before[k].passed(clock, after[k]));
    assert(before[k].transition_at(i, clock) == Transition::Fire);
    assert(before[k].latch_moves(clock));
    law_one_delivery_for_each_due_reminder(before, clock, k, i);
}

/// An event that cannot be checked is passed over: the pass leaves it as it is
/// and hands out nothing for it.
pub proof fn law_pass_skips(before: Seq<Event>, clock: Clock, after: Seq<Event>, k: int)
    requires
        before.len() <= usize::MAX,
        forall|k: int| 0 <= k < before.len() ==> (#[trigger] before[k]).notification_settings@.len()
            <= usize::MAX,
        ticked(before, clock, after),
        0 <= k < before.len(),
        !before[k].checkable(clock),
    ensures
        after[k] == before[k],
        forall|r: int|
            0 <= r < all_deliveries(before, clock).len() ==> (
            #[trigger] all_deliveries(before, clock)[r]).event_index != k,
{
    lemma_deliveries_of_events(before, clock, before.len());
    let all = all_deliveries(before, clock);
    assert forall|r: int| 0 <= r < all.len() implies (#[trigger] all[r]).event_index != k by {
        assert(is_listed_delivery(before, clock, all[r]));
    }
}

} // verus!
