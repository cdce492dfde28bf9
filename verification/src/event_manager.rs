//! The store that owns the events: who may change it, what each change does to
//! it, and when a change is to be written out.

use crate::event::Event;
use crate::moment::Clock;
use crate::scheduler::{
    all_deliveries, any_latch_moves, skipped_of_first, tick_events, ticked, TickReport,
};
use crate::text::{
    contains_text, decimal, lemma_decimal_injective, lemma_text_le_total,
    lemma_text_le_transitive, occurs_in, push_decimal, same_text, string_of,
    text_before_or_same, text_le,
};
use vstd::prelude::*;

verus! {

/// What a search among the events looks at.
#[derive(Clone, Copy, Debug, PartialEq, Eq, Structural)]
pub enum SearchType {
    Title,
    Description,
    Location,
    Category,
    Attendee,
    Date,
    FullText,
}

impl SearchType {
    /// The kind of search that `name` stands for; a name that stands for none is
    /// taken as a search by title.
    pub open spec fn named(name: Seq<char>) -> SearchType {
        if name == "title"@ {
            SearchType::Title
        } else if name == "description"@ {
            SearchType::Description
        } else if name == "location"@ {
            SearchType::Location
        } else if name == "category"@ {
            SearchType::Category
        } else if name == "attendee"@ {
            SearchType::Attendee
        } else if name == "date"@ {
            SearchType::Date
        } else if name == "fulltext"@ {
            SearchType::FullText
        } else {
            SearchType::Title
        }
    }

    /// The kind of search that `s` stands for.
    pub fn from(s: &str) -> (r: SearchType)
        ensures
            r == Self::named(s@),
    {
        if same_text(s, "title") {
            SearchType::Title
        } else if same_text(s, "description") {
            SearchType::Description
        } else if same_text(s, "location") {
            SearchType::Location
        } else if same_text(s, "category") {
            SearchType::Category
        } else if same_text(s, "attendee") {
            SearchType::Attendee
        } else if same_text(s, "date") {
            SearchType::Date
        } else if same_text(s, "fulltext") {
            SearchType::FullText
        } else {
            SearchType::Title
        }
    }
}

/// What a store is for.
#[derive(Clone, Copy, Debug, PartialEq, Eq, Structural)]
pub enum EventManagerMode {
    /// The store manages the events: it may add, remove, replace and clear them.
    Active,
    /// The store mirrors a file that another process manages, and reminds.
    Passive,
}

/// Why a store could not be made.
#[derive(Clone, Copy, Debug, PartialEq, Eq, Structural)]
pub enum StoreError {
    /// A passive store was asked for, and the file that it is to mirror is missing.
    NothingToMirror,
}

/// What happened to the file behind the store.
#[derive(Clone, Copy, Debug, PartialEq, Eq, Structural)]
pub enum FileChange {
    Access,
    Create,
    Modify,
    Remove,
    Other,
}

/// The result of a call that may change the store, with the word on whether the
/// caller is now to write the events out.
#[derive(Debug)]
pub struct Change<T> {
    pub value: T,
    pub persist: bool,
}

/// What a store is, to its users.
pub struct StoreModel {
    pub file_path: Seq<char>,
    pub auto_save: bool,
    pub events: Seq<Event>,
    pub mode: EventManagerMode,
}

impl StoreModel {
    /// The store after it has taken in what was read from its file: the events
    /// that were read in place of all it held, or itself where nothing was read.
    pub open spec fn reloaded(self, loaded: Option<Seq<Event>>) -> StoreModel {
        match loaded {
            Some(events) => StoreModel { events, ..self },
            None => self,
        }
    }
}

/// The events of one user, in the order in which they were added. The place of an
/// event in that order is its index; it changes when an earlier event is removed.
#[derive(Debug)]
pub struct EventManager {
    file_path: String,
    auto_save: bool,
    events: Vec<Event>,
    mode: EventManagerMode,
}

impl View for EventManager {
    type V = StoreModel;

    closed spec fn view(&self) -> StoreModel {
        StoreModel {
            file_path: self.file_path@,
            auto_save: self.auto_save,
            events: self.events@,
            mode: self.mode,
        }
    }
}

/// The identifier that stands for `position`: a hash sign and the position in
/// decimal.
pub open spec fn id_for(position: nat) -> Seq<char> {
    seq!['#'] + decimal(position)
}

/// Whether one of `events` goes by the identifier `id`.
pub open spec fn id_taken(events: Seq<Event>, id: Seq<char>) -> bool {
    exists|j: int| 0 <= j < events.len() && (#[trigger] events[j]).event_id@ == id
}

/// `position` is the position whose identifier a store that holds `events` gives
/// to the next event: the first from the place behind the last event on, counted
/// from one, whose identifier none of `events` goes by.
pub open spec fn is_fresh_position(events: Seq<Event>, position: nat) -> bool {
    &&& position > events.len()
    &&& !id_taken(events, id_for(position))
    &&& forall|earlier: nat|
        events.len() < earlier < position ==> id_taken(events, #[trigger] id_for(earlier))
}

/// `kept` is what a store that holds `events` keeps of `event` when it adds it:
/// the event itself, under the identifier of the fresh position where it came
/// without one.
pub open spec fn kept_as(event: Event, events: Seq<Event>, kept: Event) -> bool {
    if event.event_id@.len() == 0 {
        &&& kept == (Event { event_id: kept.event_id, ..event })
        &&& exists|position: nat|
            is_fresh_position(events, position) && kept.event_id@ == #[trigger] id_for(position)
    } else {
        kept == event
    }
}

/// Two positions with the same identifier are the same position.
pub proof fn lemma_id_for_injective(a: nat, b: nat)
    requires
        id_for(a) == id_for(b),
    ensures
        a == b,
{
    assert(id_for(a).skip(1) =~= decimal(a));
    assert(id_for(b).skip(1) =~= decimal(b));
    lemma_decimal_injective(a, b);
}

/// A sequence of different numbers below `bound` and not below zero is no longer
/// than `bound`.
proof fn lemma_distinct_below(numbers: Seq<int>, bound: nat)
    requires
        numbers.no_duplicates(),
        forall|t: int| 0 <= t < numbers.len() ==> 0 <= #[trigger] numbers[t] < bound,
    ensures
        numbers.len() <= bound,
{
    numbers.unique_seq_to_set();
    vstd::set_lib::lemma_int_range(0, bound as int);
    assert(numbers.to_set().subset_of(vstd::set_lib::set_int_range(0, bound as int))) by {
        assert forall|x: int| numbers.to_set().contains(x) implies vstd::set_lib::set_int_range(
            0,
            bound as int,
        ).contains(x) by {
            let t = choose|t: int| 0 <= t < numbers.len() && numbers[t] == x;
            assert(0 <= numbers[t] < bound);
        }
    }
    vstd::set_lib::lemma_len_subset(
        numbers.to_set(),
        vstd::set_lib::set_int_range(0, bound as int),
    );
}

impl EventManager {
    /// A store without events for the file at `file_path`. A passive store needs
    /// the file to be there: `file_exists` says whether it is.
    pub fn new(file_path: String, auto_save: bool, mode: EventManagerMode, file_exists: bool) -> (r:
        Result<EventManager, StoreError>)
        ensures
            r is Err <==> mode == EventManagerMode::Passive && !file_exists,
            r matches Err(e) ==> e == StoreError::NothingToMirror,
            r matches Ok(store) ==> store@ == (StoreModel {
                file_path: file_path@,
                auto_save,
                events: Seq::empty(),
                mode,
            }),
    {
        if mode == EventManagerMode::Passive && !file_exists {
            return Err(StoreError::NothingToMirror);
        }
        Ok(EventManager { file_path, auto_save, events: Vec::new(), mode })
    }

    /// The path of the file behind the store.
    pub fn file_path(&self) -> (r: &String)
        ensures
            r@ == self@.file_path,
    {
        &self.file_path
    }

    /// Whether every change asks for the events to be written out.
    pub fn auto_save(&self) -> (r: bool)
        ensures
            r == self@.auto_save,
    {
        self.auto_save
    }

    /// What the store is for.
    pub fn mode(&self) -> (r: EventManagerMode)
        ensures
            r == self@.mode,
    {
        self.mode
    }

    /// The number of events.
    pub fn len(&self) -> (r: usize)
        ensures
            r == self@.events.len(),
    {
        self.events.len()
    }

    /// Whether the store is to reload its file after `change`: after the file was
    /// modified, and after nothing else.
    pub fn reloads_on(change: FileChange) -> (r: bool)
        ensures
            r == (change == FileChange::Modify),
    {
        match change {
            FileChange::Modify => true,
            _ => false,
        }
    }

    /// Takes in what was read from the file. Events that were read replace all
    /// that the store held. Where nothing could be read (no file, or content that
    /// is no list of events) the store stays as it is.
    pub fn read_events_from_file(&mut self, loaded: Option<Vec<Event>>)
        ensures
            final(self)@ == old(self)@.reloaded(
                match loaded {
                    Some(events) => Some(events@),
                    None => None,
                },
            ),
    {
        match loaded {
            Some(events) => {
                self.events = events;
            },
            None => {},
        }
    }

    /// Removes every event from an active store. A passive store stays as it is,
    /// and the answer is `false`.
    pub fn clear(&mut self) -> (r: Change<bool>)
        ensures
            r.value == (old(self)@.mode == EventManagerMode::Active),
            r.persist == (r.value && old(self)@.auto_save),
            final(self)@ == (StoreModel {
                events: if r.value {
                    Seq::empty()
                } else {
                    old(self)@.events
                },
                ..old(self)@
            }),
    {
        if self.mode == EventManagerMode::Active {
            self.events.clear();
            Change { value: true, persist: self.auto_save }
        } else {
            Change { value: false, persist: false }
        }
    }

    /// The event at index `x`, if there is one.
    pub fn get_event(&self, x: usize) -> (r: Option<&Event>)
        ensures
            x < self@.events.len() ==> r == Some(&self@.events[x as int]),
            x >= self@.events.len() ==> r is None,
    {
        if x < self.events.len() {
            Some(&self.events[x])
        } else {
            None
        }
    }

    /// The event at index `x`, if there is one, for the caller to change in place.
    pub fn get_event_mut(&mut self, x: usize) -> (r: Option<&mut Event>)
        ensures
            x < old(self)@.events.len() ==> {
                &&& r is Some
                &&& *r.unwrap() == old(self)@.events[x as int]
                &&& final(self)@ == (StoreModel {
                    events: old(self)@.events.update(x as int, *final(r.unwrap())),
                    ..old(self)@
                })
            },
            x >= old(self)@.events.len() ==> r is None && final(self)@ == old(self)@,
    {
        if x < self.events.len() {
            Some(&mut self.events[x])
        } else {
            None
        }
    }

    /// The events, in order.
    pub fn iter_events(&self) -> (r: &Vec<Event>)
        ensures
            r@ == self@.events,
    {
        &self.events
    }

    /// The events, in order, for the caller to change in place; their number
    /// stays what it is.
    pub fn iter_events_mut(&mut self) -> (r: &mut [Event])
        ensures
            r@ == old(self)@.events,
            final(self)@ == (StoreModel { events: final(r)@, ..old(self)@ }),
    {
        self.events.as_mut_slice()
    }

    /// Whether an event of the store goes by the identifier `id`.
    pub fn holds_id(&self, id: &str) -> (r: bool)
        ensures
            r == id_taken(self@.events, id@),
    {
        let mut j: usize = 0;
        while j < self.events.len()
            invariant
                j <= self.events@.len(),
                forall|k: int| 0 <= k < j ==> (#[trigger] self.events@[k]).event_id@ != id@,
            decreases self.events@.len() - j,
        {
            if same_text(self.events[j].event_id.as_str(), id) {
                return true;
            }
            j += 1;
        }
        false
    }

    /// The identifier for the next event that comes without one: that of the
    /// fresh position.
    fn fresh_id(&self) -> (r: String)
        requires
            self.events@.len() < isize::MAX,
        ensures
            exists|position: nat|
                is_fresh_position(self.events@, position) && r@ == #[trigger] id_for(position),
    {
        let count: usize = self.events.len();
        let mut position: usize = count + 1;
        // For each position that was tried, the index of an event that goes by
        // its identifier.
        let ghost holders: Seq<int> = Seq::empty();
        loop
            invariant
                count == self.events@.len(),
                count < isize::MAX,
                count < position <= 2 * count + 1,
                holders.len() == position - count - 1,
                holders.no_duplicates(),
                forall|t: int|
                    0 <= t < holders.len() ==> 0 <= #[trigger] holders[t] < count
                        && self.events@[holders[t]].event_id@ == id_for((count + 1 + t) as nat),
            decreases 2 * count + 2 - position,
        {
            let mut id: Vec<char> = Vec::new();
            id.push('#');
            push_decimal(&mut id, position as u64);
            let text = string_of(&id);
            assert(text@ =~= id_for(position as nat));
            if !self.holds_id(text.as_str()) {
                proof {
                    assert forall|earlier: nat| count < earlier < position implies id_taken(
                        self.events@,
                        #[trigger] id_for(earlier),
                    ) by {
                        let t = earlier - count - 1;
                        assert(self.events@[holders[t]].event_id@ == id_for(earlier));
                    }
                    assert(is_fresh_position(self.events@, position as nat));
                }
                return text;
            }
            proof {
                let holder = choose|j: int|
                    0 <= j < self.events@.len() && (#[trigger] self.events@[j]).event_id@
                        == id_for(position as nat);
                let longer = holders.push(holder);
                assert forall|t: int, u: int|
                    0 <= t < longer.len() && 0 <= u < longer.len() && t != u implies longer[t]
                    != longer[u] by {
                    if longer[t] == longer[u] {
                        lemma_id_for_injective((count + 1 + t) as nat, (count + 1 + u) as nat);
                    }
                }
                lemma_distinct_below(longer, count as nat);
                holders = longer;
            }
            position += 1;
        }
    }

    /// Adds `event` to the end of an active store and answers its index. An event
    /// without identifier gets `#` and a position, counted from one: that of the
    /// place it takes, or the next one behind it whose identifier no event of
    /// the store goes by. A passive store stays as it is, and the answer is -1.
    pub fn add_event(&mut self, event: Event) -> (r: Change<isize>)
        requires
            old(self)@.mode == EventManagerMode::Active ==> old(self)@.events.len() < isize::MAX,
        ensures
            old(self)@.mode == EventManagerMode::Passive ==> {
                &&& final(self)@ == old(self)@
                &&& r.value == -1
                &&& !r.persist
            },
            old(self)@.mode == EventManagerMode::Active ==> {
                &&& final(self)@ == (StoreModel {
                    events: old(self)@.events.push(final(self)@.events.last()),
                    ..old(self)@
                })
                &&& kept_as(event, old(self)@.events, final(self)@.events.last())
                &&& r.value == old(self)@.events.len()
                &&& r.persist == old(self)@.auto_save
            },
    {
        if self.mode == EventManagerMode::Active {
            let mut event = event;
            if event.event_id.as_str().is_empty() {
                event.event_id = self.fresh_id();
            }
            self.events.push(event);
            Change { value: (self.events.len() - 1) as isize, persist: self.auto_save }
        } else {
            Change { value: -1, persist: false }
        }
    }

    /// Takes the event at index `x` out of an active store and hands it back; the
    /// events behind it move up by one. Where there is no such event, or the store
    /// is passive, the store stays as it is and `None` comes back.
    pub fn remove_event(&mut self, x: usize) -> (r: Change<Option<Event>>)
        ensures
            r.value is Some <==> old(self)@.mode == EventManagerMode::Active && x < old(
                self,
            )@.events.len(),
            r.value matches Some(event) ==> event == old(self)@.events[x as int],
            r.persist == (r.value is Some && old(self)@.auto_save),
            final(self)@ == (StoreModel {
                events: if r.value is Some {
                    old(self)@.events.remove(x as int)
                } else {
                    old(self)@.events
                },
                ..old(self)@
            }),
    {
        if self.mode == EventManagerMode::Active && x < self.events.len() {
            let event = self.events.remove(x);
            Change { value: Some(event), persist: self.auto_save }
        } else {
            Change { value: None, persist: false }
        }
    }

    /// Puts `event` in the place of the event at index `x` of an active store and
    /// hands the old one back. Where there is no such event, or the store is
    /// passive, the store stays as it is and `None` comes back.
    pub fn replace_event(&mut self, x: usize, event: Event) -> (r: Change<Option<Event>>)
        ensures
            r.value is Some <==> old(self)@.mode == EventManagerMode::Active && x < old(
                self,
            )@.events.len(),
            r.value matches Some(previous) ==> previous == old(self)@.events[x as int],
            r.persist == (r.value is Some && old(self)@.auto_save),
            final(self)@ == (StoreModel {
                events: if r.value is Some {
                    old(self)@.events.update(x as int, event)
                } else {
                    old(self)@.events
                },
                ..old(self)@
            }),
    {
        if self.mode == EventManagerMode::Active && x < self.events.len() {
            let mut event = event;
            core::mem::swap(&mut self.events[x], &mut event);
            Change { value: Some(event), persist: self.auto_save }
        } else {
            Change { value: None, persist: false }
        }
    }

    /// Whether a search of the kind `search_type` for `needle` finds `event`,
    /// whose rendering for a search in the full text is `rendered`.
    ///
    /// A search by title looks into the title, a search by date into the start
    /// as [`Moment::to_search_text`] writes it, a search in the full text into
    /// `rendered`.
    pub open spec fn finds(
        search_type: SearchType,
        needle: Seq<char>,
        event: Event,
        rendered: Seq<char>,
    ) -> bool {
        match search_type {
            SearchType::Title => occurs_in(needle, event.title@),
            SearchType::Date => occurs_in(needle, event.start_time.search_text()),
            _ => occurs_in(needle, rendered),
        }
    }

    /// Whether events can be searched by `search_type`.
    pub open spec fn searchable(search_type: SearchType) -> bool {
        search_type == SearchType::Title || search_type == SearchType::Date || search_type
            == SearchType::FullText
    }

    /// The indices of the events that a search for `search_string` finds, in
    /// ascending order. `rendered` holds for each event the text that a search
    /// in the full text looks into.
    pub fn search_event(
        &self,
        search_string: &str,
        search_type: SearchType,
        rendered: &Vec<String>,
    ) -> (r: Vec<usize>)
        requires
            Self::searchable(search_type),
            rendered@.len() == self@.events.len(),
        ensures
            forall|k: int| 0 <= k < r@.len() ==> r@[k] < self@.events.len(),
            forall|k: int, l: int| 0 <= k < l < r@.len() ==> r@[k] < r@[l],
            forall|i: int|
                0 <= i < self@.events.len() ==> (r@.contains(i as usize) <==> Self::finds(
                    search_type,
                    search_string@,
                    self@.events[i],
                    rendered@[i]@,
                )),
    {
        let mut result: Vec<usize> = Vec::new();
        let mut i: usize = 0;
        while i < self.events.len()
            invariant
                i <= self.events@.len(),
                rendered@.len() == self.events@.len(),
                forall|k: int| 0 <= k < result@.len() ==> result@[k] < i,
                forall|k: int, l: int| 0 <= k < l < result@.len() ==> result@[k] < result@[l],
                forall|j: int|
                    0 <= j < i ==> (result@.contains(j as usize) <==> Self::finds(
                        search_type,
                        search_string@,
                        self.events@[j],
                        rendered@[j]@,
                    )),
            decreases self.events@.len() - i,
        {
            let found = match search_type {
                SearchType::Title => contains_text(self.events[i].title.as_str(), search_string),
                SearchType::Date => {
                    let written = self.events[i].start_time.to_search_text();
                    contains_text(written.as_str(), search_string)
                },
                _ => contains_text(rendered[i].as_str(), search_string),
            };
            let ghost before = result@;
            if found {
                result.push(i);
                assert(result@[before.len() as int] == i);
            }
            assert forall|j: int| 0 <= j < i + 1 implies (result@.contains(j as usize)
                <==> Self::finds(
                search_type,
                search_string@,
                self.events@[j],
                rendered@[j]@,
            )) by {
                if j < i {
                    if before.contains(j as usize) {
                        let k = choose|k: int| 0 <= k < before.len() && before[k] == j as usize;
                        assert(result@[k] == j as usize);
                    }
                    if result@.contains(j as usize) {
                        let k = choose|k: int| 0 <= k < result@.len() && result@[k] == j as usize;
                        assert(k < before.len());
                        assert(before[k] == j as usize);
                    }
                } else {
                    if result@.contains(j as usize) {
                        let k = choose|k: int| 0 <= k < result@.len() && result@[k] == j as usize;
                        assert(k == before.len());
                    }
                }
            }
            i += 1;
        }
        result
    }

    /// Whether events can be put in order by `sort_by`.
    pub open spec fn sortable(sort_by: SearchType) -> bool {
        sort_by == SearchType::Title || sort_by == SearchType::Date || sort_by
            == SearchType::Location
    }

    /// Whether `a` stands before `b`, or level with it, in the order by `sort_by`:
    /// the order of the dictionary for titles and locations, the order of the
    /// instants at which the events start for dates.
    pub open spec fn sorts_before(sort_by: SearchType, a: Event, b: Event) -> bool {
        match sort_by {
            SearchType::Title => text_le(a.title@, b.title@),
            SearchType::Location => text_le(a.location@, b.location@),
            _ => a.start_time.instant() <= b.start_time.instant(),
        }
    }

    /// `order` lists the indices of the first `count` of `events`, each once, in
    /// the order by `sort_by`, and those that stand level in the order of the
    /// indices.
    pub open spec fn in_order(
        sort_by: SearchType,
        events: Seq<Event>,
        order: Seq<usize>,
        count: int,
    ) -> bool {
        &&& order.len() == count
        &&& forall|k: int| 0 <= k < order.len() ==> #[trigger] order[k] < count
        &&& forall|k: int, l: int| 0 <= k < l < order.len() ==> order[k] != order[l]
        &&& forall|k: int, l: int|
            0 <= k < l < order.len() ==> Self::sorts_before(
                sort_by,
                events[order[k] as int],
                events[order[l] as int],
            )
        &&& forall|k: int, l: int|
            0 <= k < l < order.len() && Self::sorts_before(
                sort_by,
                events[order[l] as int],
                events[order[k] as int],
            ) ==> order[k] < order[l]
    }

    proof fn lemma_order_total(sort_by: SearchType, a: Event, b: Event)
        ensures
            Self::sorts_before(sort_by, a, b) || Self::sorts_before(sort_by, b, a),
    {
        lemma_text_le_total(a.title@, b.title@);
        lemma_text_le_total(a.location@, b.location@);
    }

    proof fn lemma_order_transitive(sort_by: SearchType, a: Event, b: Event, c: Event)
        requires
            Self::sorts_before(sort_by, a, b),
            Self::sorts_before(sort_by, b, c),
        ensures
            Self::sorts_before(sort_by, a, c),
    {
        match sort_by {
            SearchType::Title => lemma_text_le_transitive(a.title@, b.title@, c.title@),
            SearchType::Location => lemma_text_le_transitive(
                a.location@,
                b.location@,
                c.location@,
            ),
            _ => {},
        }
    }

    fn stands_before(&self, sort_by: SearchType, a: usize, b: usize) -> (r: bool)
        requires
            a < self.events@.len(),
            b < self.events@.len(),
        ensures
            r == Self::sorts_before(sort_by, self.events@[a as int], self.events@[b as int]),
    {
        match sort_by {
            SearchType::Title => text_before_or_same(
                self.events[a].title.as_str(),
                self.events[b].title.as_str(),
            ),
            SearchType::Location => text_before_or_same(
                self.events[a].location.as_str(),
                self.events[b].location.as_str(),
            ),
            _ => self.events[a].start_time.not_after(&self.events[b].start_time),
        }
    }

    /// The indices of the events in the order by `sort_by`. Events that stand
    /// level keep the order in which the store holds them.
    pub fn sort_events_by(&self, sort_by: SearchType) -> (r: Vec<usize>)
        requires
            Self::sortable(sort_by),
        ensures
            Self::in_order(sort_by, self@.events, r@, self@.events.len() as int),
    {
        let mut order: Vec<usize> = Vec::new();
        let mut i: usize = 0;
        while i < self.events.len()
            invariant
                i <= self.events@.len(),
                Self::in_order(sort_by, self.events@, order@, i as int),
            decreases self.events@.len() - i,
        {
            let ghost events = self.events@;
            let ghost old_order = order@;
            let mut p: usize = order.len();
            while p > 0 && !self.stands_before(sort_by, order[p - 1], i)
                invariant
                    i < self.events@.len(),
                    events == self.events@,
                    old_order == order@,
                    Self::in_order(sort_by, events, order@, i as int),
                    p <= order@.len(),
                    forall|q: int|
                        p <= q < order@.len() ==> !Self::sorts_before(
                            sort_by,
                            events[#[trigger] order@[q] as int],
                            events[i as int],
                        ),
                decreases p,
            {
                p -= 1;
            }
            order.insert(p, i);
            proof {
                let new_order = order@;
                assert(new_order == old_order.insert(p as int, i));
                assert forall|k: int| 0 <= k < new_order.len() implies #[trigger] new_order[k] < i
                    + 1 by {
                    if k < p {
                        assert(new_order[k] == old_order[k]);
                    } else if k > p {
                        assert(new_order[k] == old_order[k - 1]);
                    }
                }
                assert forall|k: int, l: int| 0 <= k < l < new_order.len() implies new_order[k]
                    != new_order[l] && Self::sorts_before(
                    sort_by,
                    events[new_order[k] as int],
                    events[new_order[l] as int],
                ) && (Self::sorts_before(
                    sort_by,
                    events[new_order[l] as int],
                    events[new_order[k] as int],
                ) ==> new_order[k] < new_order[l]) by {
                    let a = if k < p {
                        k
                    } else {
                        k - 1
                    };
                    let b = if l < p {
                        l
                    } else {
                        l - 1
                    };
                    if k != p {
                        assert(new_order[k] == old_order[a]);
                        assert(old_order[a] < i);
                    }
                    if l != p {
                        assert(new_order[l] == old_order[b]);
                        assert(old_order[b] < i);
                    }
                    if l == p {
                        // The new index stands behind an index it is level with.
                        assert(new_order[l] == i);
                        assert(p > 0);
                        assert(Self::sorts_before(
                            sort_by,
                            events[old_order[p - 1] as int],
                            events[i as int],
                        ));
                        if k < p - 1 {
                            assert(Self::sorts_before(
                                sort_by,
                                events[old_order[k] as int],
                                events[old_order[p - 1] as int],
                            ));
                            Self::lemma_order_transitive(
                                sort_by,
                                events[old_order[k] as int],
                                events[old_order[p - 1] as int],
                                events[i as int],
                            );
                        }
                    } else if k == p {
                        // What stands behind the new index stands strictly behind it.
                        assert(new_order[k] == i);
                        assert(!Self::sorts_before(
                            sort_by,
                            events[old_order[b] as int],
                            events[i as int],
                        ));
                        Self::lemma_order_total(
                            sort_by,
                            events[old_order[b] as int],
                            events[i as int],
                        );
                    } else {
                        assert(a < b);
                    }
                }
            }
            i += 1;
        }
        order
    }

    /// One pass of the scheduler under `clock` over the events of the store, in
    /// either mode: see [`tick_events`].
    pub fn tick(&mut self, clock: &Clock) -> (report: TickReport)
        ensures
            final(self)@ == (StoreModel { events: final(self)@.events, ..old(self)@ }),
            ticked(old(self)@.events, *clock, final(self)@.events),
            report.deliveries@ == all_deliveries(old(self)@.events, *clock),
            report.has_to_save == any_latch_moves(old(self)@.events, *clock),
            report.skipped@ == skipped_of_first(
                old(self)@.events,
                *clock,
                old(self)@.events.len(),
            ),
    {
        tick_events(&mut self.events, clock)
    }
}

} // verus!
