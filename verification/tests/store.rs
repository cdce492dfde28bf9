use rusty_planner::event::Event;
use rusty_planner::event_manager::{
    EventManager, EventManagerMode, FileChange, SearchType, StoreError,
};
use rusty_planner::moment::Moment;

fn now() -> Moment {
    Moment::new(1_704_103_200, 0, 0).unwrap()
}

fn titled(title: &str) -> Event {
    Event::new(now()).set_title(title.to_string())
}

fn active(auto_save: bool) -> EventManager {
    EventManager::new("dates.json".to_string(), auto_save, EventManagerMode::Active, false).unwrap()
}

fn passive_with(titles: &[&str]) -> EventManager {
    let mut store =
        EventManager::new("dates.json".to_string(), true, EventManagerMode::Passive, true).unwrap();
    store.read_events_from_file(Some(titles.iter().map(|t| titled(t)).collect()));
    store
}

fn titles(store: &EventManager) -> Vec<String> {
    store.iter_events().iter().map(|e| e.title.clone()).collect()
}

#[test]
fn passive_store_needs_its_file() {
    let missing =
        EventManager::new("dates.json".to_string(), false, EventManagerMode::Passive, false);
    assert!(matches!(missing, Err(StoreError::NothingToMirror)));
    assert!(EventManager::new("dates.json".to_string(), false, EventManagerMode::Passive, true)
        .is_ok());
    assert!(EventManager::new("dates.json".to_string(), false, EventManagerMode::Active, false)
        .is_ok());
    assert!(EventManager::new("dates.json".to_string(), false, EventManagerMode::Active, true)
        .is_ok());
}

#[test]
fn new_store_is_empty_and_keeps_its_settings() {
    let store =
        EventManager::new("some/where.json".to_string(), true, EventManagerMode::Passive, true)
            .unwrap();
    assert_eq!(store.len(), 0);
    assert!(store.iter_events().is_empty());
    assert_eq!(store.file_path(), "some/where.json");
    assert!(store.auto_save());
    assert_eq!(store.mode(), EventManagerMode::Passive);
    let other = active(false);
    assert!(!other.auto_save());
    assert_eq!(other.mode(), EventManagerMode::Active);
}

#[test]
fn add_appends_and_answers_the_index() {
    let mut store = active(false);
    let first = store.add_event(titled("one"));
    assert_eq!(first.value, 0);
    assert!(!first.persist);
    let second = store.add_event(titled("two"));
    assert_eq!(second.value, 1);
    assert_eq!(titles(&store), vec!["one", "two"]);
}

#[test]
fn add_gives_an_identifier_to_an_event_without_one() {
    let mut store = active(false);
    store.add_event(titled("one"));
    store.add_event(titled("two").set_event_id("mine".to_string()));
    store.add_event(titled("three"));
    let ids: Vec<String> = store.iter_events().iter().map(|e| e.event_id.clone()).collect();
    assert_eq!(ids, vec!["#1", "mine", "#3"]);
}

#[test]
fn identifiers_are_written_in_decimal() {
    let mut store = active(false);
    for _ in 0..120 {
        store.add_event(titled("x"));
    }
    assert_eq!(store.get_event(8).unwrap().event_id, "#9");
    assert_eq!(store.get_event(9).unwrap().event_id, "#10");
    assert_eq!(store.get_event(98).unwrap().event_id, "#99");
    assert_eq!(store.get_event(99).unwrap().event_id, "#100");
    assert_eq!(store.get_event(119).unwrap().event_id, "#120");
}

#[test]
fn identifier_is_one_that_no_event_goes_by() {
    let mut store = active(false);
    store.add_event(titled("one"));
    store.add_event(titled("two"));
    store.remove_event(0);
    store.add_event(titled("three"));
    let ids: Vec<String> = store.iter_events().iter().map(|e| e.event_id.clone()).collect();
    assert_eq!(ids, vec!["#2", "#3"]);
}

#[test]
fn identifier_passes_over_all_that_are_taken() {
    let mut store = active(false);
    store.add_event(titled("a").set_event_id("#3".to_string()));
    store.add_event(titled("b").set_event_id("#4".to_string()));
    store.add_event(titled("c").set_event_id("#6".to_string()));
    store.add_event(titled("d").set_event_id("#1".to_string()));
    store.add_event(titled("e"));
    store.add_event(titled("f"));
    store.add_event(titled("g"));
    let ids: Vec<String> = store.iter_events().iter().map(|e| e.event_id.clone()).collect();
    assert_eq!(ids, vec!["#3", "#4", "#6", "#1", "#5", "#7", "#8"]);
    assert!(store.holds_id("#5"));
    assert!(store.holds_id("#1"));
    assert!(!store.holds_id("#2"));
    assert!(!store.holds_id("5"));
    assert!(!store.holds_id(""));
}

#[test]
fn identifiers_stay_different_through_adding_and_removing() {
    let mut store = active(false);
    for round in 0..40 {
        store.add_event(titled("x"));
        store.add_event(titled("y"));
        store.remove_event(round % 3);
        let mut ids: Vec<String> =
            store.iter_events().iter().map(|e| e.event_id.clone()).collect();
        let count = ids.len();
        ids.sort();
        ids.dedup();
        assert_eq!(ids.len(), count);
    }
}

#[test]
fn event_that_brings_its_identifier_keeps_it() {
    let mut store = active(false);
    store.add_event(titled("one"));
    store.add_event(titled("two").set_event_id("#1".to_string()));
    let ids: Vec<String> = store.iter_events().iter().map(|e| e.event_id.clone()).collect();
    assert_eq!(ids, vec!["#1", "#1"]);
}

#[test]
fn passive_store_refuses_an_event_however_full_it_is() {
    let mut store = passive_with(&["one"]);
    let added = store.add_event(titled("two"));
    assert_eq!(added.value, -1);
    assert!(!added.persist);
    assert_eq!(titles(&store), vec!["one"]);
}

#[test]
fn changes_ask_for_a_save_where_auto_save_is_on() {
    let mut store = active(true);
    assert!(store.add_event(titled("one")).persist);
    assert!(store.add_event(titled("two")).persist);
    assert!(store.replace_event(0, titled("uno")).persist);
    assert!(!store.replace_event(5, titled("cinque")).persist);
    assert!(store.remove_event(1).persist);
    assert!(!store.remove_event(1).persist);
    assert!(store.clear().persist);
    let mut quiet = active(false);
    assert!(!quiet.add_event(titled("one")).persist);
    assert!(!quiet.replace_event(0, titled("uno")).persist);
    assert!(!quiet.remove_event(0).persist);
    assert!(!quiet.clear().persist);
}

#[test]
fn passive_store_refuses_every_change() {
    let mut store = passive_with(&["one", "two"]);
    let added = store.add_event(titled("three"));
    assert_eq!(added.value, -1);
    assert!(!added.persist);
    assert_eq!(titles(&store), vec!["one", "two"]);
    let removed = store.remove_event(0);
    assert!(removed.value.is_none());
    assert!(!removed.persist);
    assert_eq!(titles(&store), vec!["one", "two"]);
    let replaced = store.replace_event(0, titled("uno"));
    assert!(replaced.value.is_none());
    assert!(!replaced.persist);
    assert_eq!(titles(&store), vec!["one", "two"]);
    let cleared = store.clear();
    assert!(!cleared.value);
    assert!(!cleared.persist);
    assert_eq!(titles(&store), vec!["one", "two"]);
}

#[test]
fn remove_hands_the_event_back_and_closes_the_gap() {
    let mut store = active(false);
    for title in ["one", "two", "three"] {
        store.add_event(titled(title));
    }
    let removed = store.remove_event(1).value.unwrap();
    assert_eq!(removed.title, "two");
    assert_eq!(titles(&store), vec!["one", "three"]);
    assert!(store.remove_event(2).value.is_none());
    assert!(store.remove_event(usize::MAX).value.is_none());
    assert_eq!(titles(&store), vec!["one", "three"]);
    assert_eq!(store.remove_event(1).value.unwrap().title, "three");
    assert_eq!(store.remove_event(0).value.unwrap().title, "one");
    assert!(store.remove_event(0).value.is_none());
    assert_eq!(store.len(), 0);
}

#[test]
fn replace_hands_the_old_event_back() {
    let mut store = active(false);
    for title in ["one", "two", "three"] {
        store.add_event(titled(title));
    }
    let old = store.replace_event(1, titled("zwei")).value.unwrap();
    assert_eq!(old.title, "two");
    assert_eq!(titles(&store), vec!["one", "zwei", "three"]);
    assert_eq!(store.get_event(1).unwrap().event_id, "");
    assert!(store.replace_event(3, titled("vier")).value.is_none());
    assert_eq!(titles(&store), vec!["one", "zwei", "three"]);
}

#[test]
fn clear_empties_an_active_store() {
    let mut store = active(false);
    store.add_event(titled("one"));
    let cleared = store.clear();
    assert!(cleared.value);
    assert_eq!(store.len(), 0);
    assert!(store.clear().value);
}

#[test]
fn get_event_answers_none_past_the_end() {
    let mut store = active(false);
    assert!(store.get_event(0).is_none());
    store.add_event(titled("one"));
    assert_eq!(store.get_event(0).unwrap().title, "one");
    assert!(store.get_event(1).is_none());
    assert!(store.get_event(usize::MAX).is_none());
    assert!(store.get_event_mut(1).is_none());
    store.get_event_mut(0).unwrap().title = "uno".to_string();
    assert_eq!(titles(&store), vec!["uno"]);
}

#[test]
fn load_replaces_everything_and_a_failed_load_changes_nothing() {
    let mut store = active(false);
    store.add_event(titled("old"));
    store.read_events_from_file(None);
    assert_eq!(titles(&store), vec!["old"]);
    store.read_events_from_file(Some(vec![titled("one"), titled("two")]));
    assert_eq!(titles(&store), vec!["one", "two"]);
    store.read_events_from_file(None);
    assert_eq!(titles(&store), vec!["one", "two"]);
    store.read_events_from_file(Some(vec![]));
    assert_eq!(store.len(), 0);
    assert_eq!(store.mode(), EventManagerMode::Active);
    assert!(!store.auto_save());
    assert_eq!(store.file_path(), "dates.json");
}

#[test]
fn store_that_takes_in_its_own_events_stays_as_it_is() {
    let mut store = active(true);
    for title in ["one", "two", "three"] {
        store.add_event(titled(title));
    }
    let handed_out: Vec<Event> = store.iter_events().clone();
    store.read_events_from_file(Some(handed_out));
    assert_eq!(titles(&store), vec!["one", "two", "three"]);
    let ids: Vec<String> = store.iter_events().iter().map(|e| e.event_id.clone()).collect();
    assert_eq!(ids, vec!["#1", "#2", "#3"]);
    assert!(store.auto_save());
    assert_eq!(store.mode(), EventManagerMode::Active);
}

#[test]
fn loaded_events_keep_their_identifiers() {
    let mut store = passive_with(&[]);
    store.read_events_from_file(Some(vec![
        titled("one").set_event_id("#5".to_string()),
        titled("two"),
    ]));
    assert_eq!(store.get_event(0).unwrap().event_id, "#5");
    assert_eq!(store.get_event(1).unwrap().event_id, "");
}

#[test]
fn only_a_modified_file_is_reloaded() {
    assert!(EventManager::reloads_on(FileChange::Modify));
    assert!(!EventManager::reloads_on(FileChange::Access));
    assert!(!EventManager::reloads_on(FileChange::Create));
    assert!(!EventManager::reloads_on(FileChange::Remove));
    assert!(!EventManager::reloads_on(FileChange::Other));
}

#[test]
fn search_type_names() {
    assert_eq!(SearchType::from("title"), SearchType::Title);
    assert_eq!(SearchType::from("description"), SearchType::Description);
    assert_eq!(SearchType::from("location"), SearchType::Location);
    assert_eq!(SearchType::from("category"), SearchType::Category);
    assert_eq!(SearchType::from("attendee"), SearchType::Attendee);
    assert_eq!(SearchType::from("date"), SearchType::Date);
    assert_eq!(SearchType::from("fulltext"), SearchType::FullText);
    assert_eq!(SearchType::from("Date"), SearchType::Title);
    assert_eq!(SearchType::from(""), SearchType::Title);
    assert_eq!(SearchType::from("anything"), SearchType::Title);
}
