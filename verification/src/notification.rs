//! Reminders attached to an event, and the latch that keeps each of them from
//! going off twice for one occurrence.

use crate::text::{
    lowercase, push_signed_decimal, push_text, same_text, signed_decimal, string_of, to_lowercase,
};
use vstd::prelude::*;

verus! {

/// The channel over which a reminder is to reach the user. Only `Push` can be
/// delivered; the other two are declared and have no delivery behind them.
#[derive(Clone, Copy, Debug, PartialEq, Eq, Structural)]
pub enum NotificationMethod {
    Email,
    Sms,
    Push,
}

impl NotificationMethod {
    /// Whether a reminder over this channel can be delivered at all.
    pub open spec fn deliverable(self) -> bool {
        self == NotificationMethod::Push
    }

    /// The method that a name in lower case stands for; a name that stands for none
    /// is taken as `Push`.
    pub open spec fn of_lowercase(name: Seq<char>) -> NotificationMethod {
        if name == "email"@ {
            NotificationMethod::Email
        } else if name == "sms"@ {
            NotificationMethod::Sms
        } else {
            NotificationMethod::Push
        }
    }

    /// The method that `name`, which is in lower case, stands for.
    pub fn from_lowercase(name: &str) -> (r: NotificationMethod)
        ensures
            r == Self::of_lowercase(name@),
    {
        if same_text(name, "email") {
            NotificationMethod::Email
        } else if same_text(name, "sms") {
            NotificationMethod::Sms
        } else {
            NotificationMethod::Push
        }
    }

    /// The method that `name` stands for, in whatever case it is written.
    pub fn from_name(name: &str) -> (r: NotificationMethod)
        ensures
            r == Self::of_lowercase(lowercase(name@)),
    {
        let lower = to_lowercase(name);
        Self::from_lowercase(lower.as_str())
    }

    /// The method's name as it is shown to the user.
    pub fn label(&self) -> (r: &'static str)
        ensures
            r@ == match self {
                NotificationMethod::Email => "Email"@,
                NotificationMethod::Sms => "SMS"@,
                NotificationMethod::Push => "Push"@,
            },
    {
        match self {
            NotificationMethod::Email => "Email",
            NotificationMethod::Sms => "SMS",
            NotificationMethod::Push => "Push",
        }
    }

    /// Whether a reminder over this channel can be delivered at all.
    pub fn is_deliverable(&self) -> (r: bool)
        ensures
            r == self.deliverable(),
    {
        match self {
            NotificationMethod::Push => true,
            _ => false,
        }
    }
}

/// One reminder of an event.
///
/// `notify_before` is the lead time in minutes; zero or less means at or after the
/// start. `has_notified` is the latch: set when the reminder has gone off, and for
/// a recurring event cleared again once the occurrence has passed.
#[derive(Clone, Copy, Debug)]
pub struct Notification {
    pub notify_before: i64,
    pub method: NotificationMethod,
    pub has_notified: bool,
}

impl Default for Notification {
    /// A push reminder at the start of the event that has not gone off.
    fn default() -> (r: Self)
        ensures
            r == (Notification {
                notify_before: 0,
                method: NotificationMethod::Push,
                has_notified: false,
            }),
    {
        Notification { notify_before: 0, method: NotificationMethod::Push, has_notified: false }
    }
}

/// What one pass of the scheduler does with one reminder.
#[derive(Clone, Copy, Debug, PartialEq, Eq, Structural)]
pub enum Transition {
    /// Nothing changes.
    Stay,
    /// The reminder goes off: it is delivered and its latch is set.
    Fire,
    /// The reminder is due over a channel that cannot deliver. The latch stays
    /// open, and the caller has to report the failure.
    Refuse,
    /// The occurrence has passed: the latch of a recurring event's reminder is
    /// cleared, so that the next occurrence can set it again.
    Reset,
}

impl Transition {
    /// Whether the transition changes the latch.
    pub open spec fn changes_latch(self) -> bool {
        self == Transition::Fire || self == Transition::Reset
    }

    /// Whether the transition asks the caller to act: to deliver or to report.
    pub open spec fn is_dispatch(self) -> bool {
        self == Transition::Fire || self == Transition::Refuse
    }
}

impl Notification {
    /// The reminder in words: its lead time and its method.
    pub open spec fn text(self) -> Seq<char> {
        "Notify Before: "@ + signed_decimal(self.notify_before as int) + ", Method: "@
            + match self.method {
            NotificationMethod::Email => "Email"@,
            NotificationMethod::Sms => "SMS"@,
            NotificationMethod::Push => "Push"@,
        }
    }

    /// The reminder in words, for showing it to the user.
    pub fn to_text(&self) -> (r: String)
        ensures
            r@ == self.text(),
    {
        let mut out: Vec<char> = Vec::new();
        push_text(&mut out, "Notify Before: ");
        push_signed_decimal(&mut out, self.notify_before);
        push_text(&mut out, ", Method: ");
        push_text(&mut out, self.method.label());
        string_of(&out)
    }

    /// The transition that a pass takes on this reminder, given whether its event
    /// recurs and whether the due check said to fire now.
    pub open spec fn transition(self, is_recurring: bool, fire_now: bool) -> Transition {
        if fire_now && !self.has_notified {
            if self.method.deliverable() {
                Transition::Fire
            } else {
                Transition::Refuse
            }
        } else if is_recurring && self.has_notified && !fire_now {
            Transition::Reset
        } else {
            Transition::Stay
        }
    }

    /// The reminder after `transition` has been taken.
    pub open spec fn after(self, transition: Transition) -> Notification {
        match transition {
            Transition::Fire => Notification { has_notified: true, ..self },
            Transition::Reset => Notification { has_notified: false, ..self },
            _ => self,
        }
    }

    /// The reminder after one pass.
    pub open spec fn stepped(self, is_recurring: bool, fire_now: bool) -> Notification {
        self.after(self.transition(is_recurring, fire_now))
    }

    /// Takes one pass over this reminder: decides the transition from the latch and
    /// the two inputs alone, and moves the latch accordingly.
    pub fn advance(&mut self, is_recurring: bool, fire_now: bool) -> (t: Transition)
        ensures
            t == old(self).transition(is_recurring, fire_now),
            *final(self) == old(self).stepped(is_recurring, fire_now),
    {
        if fire_now && !self.has_notified {
            if self.method.is_deliverable() {
                self.has_notified = true;
                Transition::Fire
            } else {
                Transition::Refuse
            }
        } else if is_recurring && self.has_notified && !fire_now {
            self.has_notified = false;
            Transition::Reset
        } else {
            Transition::Stay
        }
    }
}

} // verus!
