//! Calendar events and the check that tells which of an event's reminders are due.

use crate::moment::{timestamp_in_range, Clock, Moment};
use crate::notification::Notification;
use crate::recurrence::Recurrence;
use crate::text::{push_text, string_of};
use vstd::prelude::*;

verus! {

/// Someone who takes part in an event.
#[derive(Clone, Debug)]
pub struct Attendee {
    pub attendee_id: String,
    pub name: String,
    pub email: String,
}

impl Attendee {
    /// The attendee in words: name and address.
    pub open spec fn text(self) -> Seq<char> {
        "Name: "@ + self.name@ + ", Email: "@ + self.email@
    }

    /// The attendee in words, for showing them to the user.
    pub fn to_text(&self) -> (r: String)
        ensures
            r@ == self.text(),
    {
        let mut out: Vec<char> = Vec::new();
        push_text(&mut out, "Name: ");
        push_text(&mut out, self.name.as_str());
        push_text(&mut out, ", Email: ");
        push_text(&mut out, self.email.as_str());
        string_of(&out)
    }
}

/// A calendar event.
///
/// `event_id` is given by the store when the event is added without one. A
/// recurring event carries its rule in `recurrence`. `updated_at` is the moment of
/// the last change made through one of the `update_`, `add_` and `remove_` methods.
#[derive(Clone, Debug)]
pub struct Event {
    pub event_id: String,
    pub title: String,
    pub description: String,
    pub location: String,
    pub start_time: Moment,
    pub end_time: Moment,
    pub is_recurring: bool,
    pub recurrence: Option<Recurrence>,
    pub attendees: Vec<Attendee>,
    pub created_at: Moment,
    pub updated_at: Moment,
    pub notification_settings: Vec<Notification>,
    pub is_all_day: bool,
    pub categories: Vec<String>,
}

/// Seconds in the hour that a new event lasts.
pub const DEFAULT_DURATION_SECONDS: i64 = 3600;

impl Event {
    /// A recurring event carries its rule, and the rule is well formed.
    pub open spec fn well_formed(self) -> bool {
        self.is_recurring ==> self.recurrence is Some && self.recurrence.unwrap().well_formed()
    }

    /// Whether the event is recurring and its rule is well formed, or not recurring.
    pub fn is_well_formed(&self) -> (r: bool)
        ensures
            r == self.well_formed(),
    {
        if self.is_recurring {
            match self.recurrence {
                Some(rule) => rule.interval >= 1,
                None => false,
            }
        } else {
            true
        }
    }

    /// An empty event that starts at `now` and ends an hour later, read under the
    /// offset of `now`, created and last updated at `now`: no texts, no rule,
    /// nobody attending, no reminders.
    pub fn new(now: Moment) -> (r: Event)
        requires
            timestamp_in_range(now.spec_timestamp() + DEFAULT_DURATION_SECONDS),
        ensures
            r.event_id@.len() == 0,
            r.title@.len() == 0,
            r.description@.len() == 0,
            r.location@.len() == 0,
            r.start_time == now,
            r.end_time == now.moved_by(DEFAULT_DURATION_SECONDS as int),
            !r.is_recurring,
            r.recurrence is None,
            r.attendees@.len() == 0,
            r.created_at == now,
            r.updated_at == now,
            r.notification_settings@.len() == 0,
            !r.is_all_day,
            r.categories@.len() == 0,
            r.well_formed(),
    {
        let end_time = now.plus_seconds(DEFAULT_DURATION_SECONDS).unwrap();
        Event {
            event_id: String::new(),
            title: String::new(),
            description: String::new(),
            location: String::new(),
            start_time: now,
            end_time,
            is_recurring: false,
            recurrence: None,
            attendees: Vec::new(),
            created_at: now,
            updated_at: now,
            notification_settings: Vec::new(),
            is_all_day: false,
            categories: Vec::new(),
        }
    }

    /// The event under the identifier `event_id`.
    pub fn set_event_id(self, event_id: String) -> (r: Event)
        ensures
            r == (Event { event_id, ..self }),
    {
        let mut event = self;
        event.event_id = event_id;
        event
    }

    /// The event under the title `title`.
    pub fn set_title(self, title: String) -> (r: Event)
        ensures
            r == (Event { title, ..self }),
    {
        let mut event = self;
        event.title = title;
        event
    }

    /// The event with the description `description`.
    pub fn set_description(self, description: String) -> (r: Event)
        ensures
            r == (Event { description, ..self }),
    {
        let mut event = self;
        event.description = description;
        event
    }

    /// The event at the location `location`.
    pub fn set_location(self, location: String) -> (r: Event)
        ensures
            r == (Event { location, ..self }),
    {
        let mut event = self;
        event.location = location;
        event
    }

    /// The event with its start at `start_time`.
    pub fn set_start_time(self, start_time: Moment) -> (r: Event)
        ensures
            r == (Event { start_time, ..self }),
    {
        let mut event = self;
        event.start_time = start_time;
        event
    }

    /// The event with its end at `end_time`.
    pub fn set_end_time(self, end_time: Moment) -> (r: Event)
        ensures
            r == (Event { end_time, ..self }),
    {
        let mut event = self;
        event.end_time = end_time;
        event
    }

    /// The event marked as recurring or not.
    pub fn set_is_recurring(self, is_recurring: bool) -> (r: Event)
        ensures
            r == (Event { is_recurring, ..self }),
    {
        let mut event = self;
        event.is_recurring = is_recurring;
        event
    }

    /// The event with the rule `recurrence`, or without one.
    pub fn set_recurrence(self, recurrence: Option<Recurrence>) -> (r: Event)
        ensures
            r == (Event { recurrence, ..self }),
    {
        let mut event = self;
        event.recurrence = recurrence;
        event
    }

    /// The event under the rule `rule`, and recurring, or without a rule, and not
    /// recurring.
    pub fn with_rule(self, rule: Option<Recurrence>) -> (r: Event)
        ensures
            r == (Event { is_recurring: rule is Some, recurrence: rule, ..self }),
    {
        let mut event = self;
        event.is_recurring = rule.is_some();
        event.recurrence = rule;
        event
    }

    /// The event with `attendees` in place of those it had.
    pub fn set_attendees(self, attendees: Vec<Attendee>) -> (r: Event)
        ensures
            r == (Event { attendees, ..self }),
    {
        let mut event = self;
        event.attendees = attendees;
        event
    }

    /// The event with `notification_settings` in place of the reminders it had.
    pub fn set_notification_settings(self, notification_settings: Vec<Notification>) -> (r: Event)
        ensures
            r == (Event { notification_settings, ..self }),
    {
        let mut event = self;
        event.notification_settings = notification_settings;
        event
    }

    /// Gives the event a new title at `now`.
    pub fn update_title(&mut self, new_title: String, now: Moment)
        ensures
            *final(self) == (Event { title: new_title, updated_at: now, ..*old(self) }),
    {
        self.title = new_title;
        self.updated_at = now;
    }

    /// Gives the event a new description at `now`.
    pub fn update_description(&mut self, new_description: String, now: Moment)
        ensures
            *final(self) == (Event {
                description: new_description,
                updated_at: now,
                ..*old(self)
            }),
    {
        self.description = new_description;
        self.updated_at = now;
    }

    /// Gives the event a new location at `now`.
    pub fn update_location(&mut self, new_location: String, now: Moment)
        ensures
            *final(self) == (Event { location: new_location, updated_at: now, ..*old(self) }),
    {
        self.location = new_location;
        self.updated_at = now;
    }

    /// Gives the event a new start at `now`.
    pub fn update_start_time(&mut self, new_start_time: Moment, now: Moment)
        ensures
            *final(self) == (Event {
                start_time: new_start_time,
                updated_at: now,
                ..*old(self)
            }),
    {
        self.start_time = new_start_time;
        self.updated_at = now;
    }

    /// Gives the event a new end at `now`.
    pub fn update_end_time(&mut self, new_end_time: Moment, now: Moment)
        ensures
            *final(self) == (Event { end_time: new_end_time, updated_at: now, ..*old(self) }),
    {
        self.end_time = new_end_time;
        self.updated_at = now;
    }

    /// Says at `now` whether the event recurs.
    pub fn update_is_recurring(&mut self, is_recurring: bool, now: Moment)
        ensures
            *final(self) == (Event { is_recurring, updated_at: now, ..*old(self) }),
    {
        self.is_recurring = is_recurring;
        self.updated_at = now;
    }

    /// Gives the event a new rule, or none, at `now`.
    pub fn update_recurrence(&mut self, new_recurrence: Option<Recurrence>, now: Moment)
        ensures
            *final(self) == (Event {
                recurrence: new_recurrence,
                updated_at: now,
                ..*old(self)
            }),
    {
        self.recurrence = new_recurrence;
        self.updated_at = now;
    }
    /// Adds someone to the event at `now`.
    pub fn add_attendee(&mut self, attendee: Attendee, now: Moment)
        ensures
            *final(self) == (Event {
                attendees: final(self).attendees,
                updated_at: now,
                ..*old(self)
            }),
            final(self).attendees@ == old(self).attendees@.push(attendee),
    {
        self.attendees.push(attendee);
        self.updated_at = now;
    }

    /// Takes the attendee at `index` off the event at `now` and hands them back.
    /// Where there is no such attendee, nothing changes and `None` comes back.
    pub fn remove_attendee(&mut self, index: usize, now: Moment) -> (r: Option<Attendee>)
        ensures
            index < old(self).attendees@.len() ==> {
                &&& r == Some(old(self).attendees@[index as int])
                &&& final(self).attendees@ == old(self).attendees@.remove(index as int)
                &&& *final(self) == (Event {
                    attendees: final(self).attendees,
                    updated_at: now,
                    ..*old(self)
                })
            },
            index >= old(self).attendees@.len() ==> r is None && *final(self) == *old(self),
    {
        if index < self.attendees.len() {
            self.updated_at = now;
            Some(self.attendees.remove(index))
        } else {
            None
        }
    }

    /// Adds a reminder to the event at `now`.
    pub fn add_notification(&mut self, notification: Notification, now: Moment)
        ensures
            *final(self) == (Event {
                notification_settings: final(self).notification_settings,
                updated_at: now,
                ..*old(self)
            }),
            final(self).notification_settings@ == old(self).notification_settings@.push(
                notification,
            ),
    {
        self.notification_settings.push(notification);
        self.updated_at = now;
    }

    /// Takes the reminder at `index` off the event at `now` and hands it back.
    /// Where there is no such reminder, nothing changes and `None` comes back.
    pub fn remove_notification(&mut self, index: usize, now: Moment) -> (r: Option<Notification>)
        ensures
            index < old(self).notification_settings@.len() ==> {
                &&& r == Some(old(self).notification_settings@[index as int])
                &&& final(self).notification_settings@ == old(
                    self,
                ).notification_settings@.remove(index as int)
                &&& *final(self) == (Event {
                    notification_settings: final(self).notification_settings,
                    updated_at: now,
                    ..*old(self)
                })
            },
            index >= old(self).notification_settings@.len() ==> r is None && *final(self)
                == *old(self),
    {
        if index < self.notification_settings.len() {
            self.updated_at = now;
            Some(self.notification_settings.remove(index))
        } else {
            None
        }
    }

    /// Gives an event without reminders the default one; an event that has
    /// reminders keeps them as they are.
    pub fn ensure_notification(&mut self)
        ensures
            *final(self) == (Event {
                notification_settings: final(self).notification_settings,
                ..*old(self)
            }),
            final(self).notification_settings@ == if old(self).notification_settings@.len()
                == 0 {
                seq![
                    Notification {
                        notify_before: 0,
                        method: crate::notification::NotificationMethod::Push,
                        has_notified: false,
                    },
                ]
            } else {
                old(self).notification_settings@
            },
    {
        if self.notification_settings.len() == 0 {
            self.notification_settings.push(Notification::default());
        }
    }

    /// Whether the event can be asked for its due reminders under `clock`: it is
    /// well formed, and where it recurs the clock can be read at the lead time of
    /// each of its reminders.
    pub open spec fn checkable(self, clock: Clock) -> bool {
        &&& self.well_formed()
        &&& self.is_recurring ==> forall|i: int|
            0 <= i < self.notification_settings@.len() ==> clock.reads(
                (#[trigger] self.notification_settings@[i]).notify_before as int,
            )
    }

    /// Whether reminder `i` is to fire at the moment of `clock`.
    ///
    /// For an event that does not recur: the moment has come within the lead time
    /// of the start, and the reminder has not gone off yet. For a recurring event:
    /// the rule is active at the moment that lies the lead time after the moment
    /// of the clock, read under the zone offset that holds then, whatever the
    /// latch says.
    pub open spec fn fire_now(self, i: int, clock: Clock) -> bool {
        let reminder = self.notification_settings@[i];
        if self.is_recurring {
            self.recurrence.unwrap().is_due(clock.at_lead(reminder.notify_before as int))
        } else {
            self.start_time.lead_reached(reminder.notify_before as int, clock.now)
                && !reminder.has_notified
        }
    }

    /// One entry for each reminder, in order: its index and whether it is to fire.
    pub open spec fn due_list(self, clock: Clock) -> Seq<(usize, bool)> {
        Seq::new(
            self.notification_settings@.len(),
            |i: int| (i as usize, self.fire_now(i, clock)),
        )
    }

    /// Whether [`Event::is_time_to_notify`] can be asked about this event under
    /// `clock`.
    pub fn can_check_at(&self, clock: &Clock) -> (r: bool)
        ensures
            r == self.checkable(*clock),
    {
        if !self.is_well_formed() {
            return false;
        }
        if !self.is_recurring {
            return true;
        }
        let mut i: usize = 0;
        while i < self.notification_settings.len()
            invariant
                self.is_recurring,
                self.well_formed(),
                i <= self.notification_settings@.len(),
                forall|j: int|
                    0 <= j < i ==> clock.reads(
                        (#[trigger] self.notification_settings@[j]).notify_before as int,
                    ),
            decreases self.notification_settings@.len() - i,
        {
            if clock.moment_at_lead(self.notification_settings[i].notify_before).is_none() {
                assert(!clock.reads(self.notification_settings@[i as int].notify_before as int));
                return false;
            }
            i += 1;
        }
        true
    }

    /// Tells for each reminder of the event whether it is to fire at the moment
    /// of `clock`.
    pub fn is_time_to_notify(&self, clock: &Clock) -> (r: Vec<(usize, bool)>)
        requires
            self.checkable(*clock),
        ensures
            r@ == self.due_list(*clock),
    {
        let mut notifications: Vec<(usize, bool)> = Vec::new();
        let mut i: usize = 0;
        while i < self.notification_settings.len()
            invariant
                self.checkable(*clock),
                i <= self.notification_settings@.len(),
                notifications@.len() == i,
                forall|j: int|
                    0 <= j < i ==> notifications@[j] == (j as usize, self.fire_now(j, *clock)),
            decreases self.notification_settings@.len() - i,
        {
            let reminder = self.notification_settings[i];
            let fire = if self.is_recurring {
                assert(clock.reads(self.notification_settings@[i as int].notify_before as int));
                let at = clock.moment_at_lead(reminder.notify_before).unwrap();
                self.recurrence.unwrap().is_now(at)
            } else {
                self.start_time.reached_within(reminder.notify_before, &clock.now)
                    && !reminder.has_notified
            };
            notifications.push((i, fire));
            i += 1;
        }
        notifications
    }
}

} // verus!
