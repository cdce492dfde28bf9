use chrono::{FixedOffset, NaiveDate, TimeDelta};
use rusty_planner::categories::{
    add_category, categories_from_text, categories_to_text, default_categories,
};
use rusty_planner::event::Event;
use rusty_planner::event_manager::{EventManager, EventManagerMode, SearchType};
use rusty_planner::moment::Moment;
use rusty_planner::text::{contains_text, text_before_or_same};
use rusty_planner::utils::MAX_DURATION_SECONDS;

fn strings(items: &[&str]) -> Vec<String> {
    items.iter().map(|s| s.to_string()).collect()
}

fn at(year: i32, month: u32, day: u32, hour: u32, minute: u32) -> Moment {
    let timestamp = NaiveDate::from_ymd_opt(year, month, day)
        .unwrap()
        .and_hms_opt(hour, minute, 0)
        .unwrap()
        .and_utc()
        .timestamp();
    Moment::new(timestamp, 0, 0).unwrap()
}

fn store_of(events: Vec<Event>) -> EventManager {
    let mut store =
        EventManager::new("dates.json".to_string(), false, EventManagerMode::Active, false)
            .unwrap();
    store.read_events_from_file(Some(events));
    store
}

#[test]
fn default_list_of_categories() {
    assert_eq!(
        default_categories(),
        strings(&["Work", "Personal", "Family", "Health", "Education", "Entertainment", "Other"])
    );
}

#[test]
fn categories_are_read_one_to_a_line() {
    assert_eq!(categories_from_text("Work\nPlay"), strings(&["Work", "Play"]));
    assert_eq!(categories_from_text("Work\nPlay\n"), strings(&["Work", "Play"]));
    assert_eq!(categories_from_text("  Work \r\n\tPlay\r\n"), strings(&["Work", "Play"]));
    assert_eq!(categories_from_text(""), Vec::<String>::new());
    assert_eq!(categories_from_text("\n"), strings(&[""]));
    assert_eq!(categories_from_text("a\n\nb\n\n"), strings(&["a", "", "b", ""]));
    assert_eq!(categories_from_text("one"), strings(&["one"]));
}

#[test]
fn reading_categories_agrees_with_std_lines() {
    for text in ["", "a", "a\n", "a\nb", "\n\n", " a \n b ", "a\r\nb\r\n", "a\n\r", "\r", "x\n y\n\n"] {
        let expected: Vec<String> = text.lines().map(|l| l.trim().to_string()).collect();
        assert_eq!(categories_from_text(text), expected);
    }
}

#[test]
fn categories_are_written_one_to_a_line() {
    assert_eq!(categories_to_text(&strings(&["Work", "Play"])), "Work\nPlay");
    assert_eq!(categories_to_text(&strings(&["Work"])), "Work");
    assert_eq!(categories_to_text(&strings(&[])), "");
    assert_eq!(categories_to_text(&strings(&["a", "", "b"])), "a\n\nb");
    let defaults = default_categories();
    assert_eq!(categories_to_text(&defaults), defaults.join("\n"));
    assert_eq!(categories_from_text(&categories_to_text(&defaults)), defaults);
}

#[test]
fn category_without_a_name_is_not_added() {
    let mut list = strings(&["Work"]);
    assert!(add_category(&mut list, " Garden "));
    assert_eq!(list, strings(&["Work", "Garden"]));
    assert!(!add_category(&mut list, "   "));
    assert!(!add_category(&mut list, ""));
    assert_eq!(list, strings(&["Work", "Garden"]));
}

#[test]
fn text_is_found_anywhere() {
    assert!(contains_text("dentist", "dent"));
    assert!(contains_text("dentist", "tist"));
    assert!(contains_text("dentist", "nti"));
    assert!(contains_text("dentist", "dentist"));
    assert!(contains_text("dentist", ""));
    assert!(contains_text("", ""));
    assert!(!contains_text("", "a"));
    assert!(!contains_text("dentist", "dentists"));
    assert!(!contains_text("dentist", "Dent"));
    assert!(!contains_text("dentist", "dx"));
    assert!(contains_text("aab", "ab"));
    assert!(contains_text("größe", "öß"));
    for (haystack, needle) in [("abcabd", "abd"), ("aaa", "aaaa"), ("xyz", "z"), ("xyz", "zx")] {
        assert_eq!(contains_text(haystack, needle), haystack.contains(needle));
    }
}

#[test]
fn search_by_title() {
    let now = at(2024, 1, 1, 10, 0);
    let store = store_of(vec![
        Event::new(now).set_title("Dentist".to_string()),
        Event::new(now).set_title("Lunch".to_string()).set_description("Dentist".to_string()),
        Event::new(now).set_title("Second dentist".to_string()),
        Event::new(now).set_title("The Dentist again".to_string()),
    ]);
    let rendered = vec![String::new(); 4];
    assert_eq!(store.search_event("Dentist", SearchType::Title, &rendered), vec![0, 3]);
    assert_eq!(store.search_event("entist", SearchType::Title, &rendered), vec![0, 2, 3]);
    assert_eq!(store.search_event("", SearchType::Title, &rendered), vec![0, 1, 2, 3]);
    assert_eq!(store.search_event("Breakfast", SearchType::Title, &rendered), Vec::<usize>::new());
}

#[test]
fn search_in_the_full_text_goes_by_the_rendering() {
    let now = at(2024, 1, 1, 10, 0);
    let store = store_of(vec![
        Event::new(now).set_title("one".to_string()),
        Event::new(now).set_title("two".to_string()),
    ]);
    let rendered = strings(&["{\"title\":\"one\"}", "{\"title\":\"two\"}"]);
    assert_eq!(store.search_event("two", SearchType::FullText, &rendered), vec![1]);
    assert_eq!(store.search_event("title", SearchType::FullText, &rendered), vec![0, 1]);
    assert_eq!(store.search_event("two", SearchType::Title, &rendered), vec![1]);
}

#[test]
fn search_by_date_goes_by_the_start_written_to_the_minute() {
    let store = store_of(vec![
        Event::new(at(2024, 1, 1, 10, 0)),
        Event::new(at(2024, 2, 1, 10, 30)),
        Event::new(at(2025, 1, 1, 18, 0)),
    ]);
    let rendered = vec![String::new(); 3];
    assert_eq!(store.search_event("2024-", SearchType::Date, &rendered), vec![0, 1]);
    assert_eq!(store.search_event("10:", SearchType::Date, &rendered), vec![0, 1]);
    assert_eq!(store.search_event("18:00", SearchType::Date, &rendered), vec![2]);
    assert_eq!(store.search_event("-01-", SearchType::Date, &rendered), vec![0, 2]);
}

#[test]
fn moment_is_written_after_the_format() {
    let moment = at(2024, 3, 7, 9, 5);
    assert_eq!(moment.to_search_text(), "2024-03-&d 09:05");
    let east = Moment::new(moment.timestamp(), 999_999_999, 3600 * 15).unwrap();
    assert_eq!(east.to_search_text(), "2024-03-&d 00:05");
    let zone = FixedOffset::east_opt(3600 * 15).unwrap();
    let there = chrono::DateTime::from_timestamp(moment.timestamp(), 999_999_999)
        .unwrap()
        .with_timezone(&zone);
    assert_eq!(east.to_search_text(), there.format("%Y-%m-&d %H:%M").to_string());
}

#[test]
fn longest_duration_is_that_of_chrono() {
    assert_eq!(MAX_DURATION_SECONDS, TimeDelta::MAX.num_seconds());
    assert_eq!(-MAX_DURATION_SECONDS, TimeDelta::MIN.num_seconds());
    assert!(TimeDelta::try_seconds(MAX_DURATION_SECONDS).is_some());
    assert!(TimeDelta::try_seconds(-MAX_DURATION_SECONDS).is_some());
    assert!(TimeDelta::try_seconds(MAX_DURATION_SECONDS + 1).is_none());
    assert!(TimeDelta::try_seconds(-MAX_DURATION_SECONDS - 1).is_none());
}

#[test]
fn events_are_changed_in_place_through_the_store() {
    let now = at(2024, 1, 1, 10, 0);
    let mut store = store_of(vec![
        Event::new(now).set_title("one".to_string()),
        Event::new(now).set_title("two".to_string()),
    ]);
    for event in store.iter_events_mut().iter_mut() {
        event.title.push('!');
    }
    let titles: Vec<String> = store.iter_events().iter().map(|e| e.title.clone()).collect();
    assert_eq!(titles, strings(&["one!", "two!"]));
    assert_eq!(store.iter_events_mut().len(), 2);
}

#[test]
fn dictionary_order_of_texts() {
    assert!(text_before_or_same("", ""));
    assert!(text_before_or_same("", "a"));
    assert!(!text_before_or_same("a", ""));
    assert!(text_before_or_same("a", "a"));
    assert!(text_before_or_same("a", "b"));
    assert!(!text_before_or_same("b", "a"));
    assert!(text_before_or_same("ab", "abc"));
    assert!(!text_before_or_same("abc", "ab"));
    assert!(text_before_or_same("abc", "abd"));
    assert!(text_before_or_same("Z", "a"));
    assert!(text_before_or_same("z", "ä"));
    let samples = ["", "a", "A", "ab", "abc", "b", "ä", "zebra", "Zebra", "€", "\u{10000}", "z"];
    for a in samples {
        for b in samples {
            assert_eq!(text_before_or_same(a, b), a <= b);
        }
    }
}

#[test]
fn events_in_order_of_their_titles() {
    let now = at(2024, 1, 1, 10, 0);
    let store = store_of(vec![
        Event::new(now).set_title("pear".to_string()),
        Event::new(now).set_title("apple".to_string()),
        Event::new(now).set_title("fig".to_string()),
        Event::new(now).set_title("apple".to_string()),
        Event::new(now).set_title("Apple".to_string()),
        Event::new(now).set_title("".to_string()),
    ]);
    assert_eq!(store.sort_events_by(SearchType::Title), vec![5, 4, 1, 3, 2, 0]);
    assert_eq!(store.sort_events_by(SearchType::Location), vec![0, 1, 2, 3, 4, 5]);
    assert_eq!(store.sort_events_by(SearchType::Date), vec![0, 1, 2, 3, 4, 5]);
    assert_eq!(store_of(vec![]).sort_events_by(SearchType::Title), Vec::<usize>::new());
}

#[test]
fn events_in_order_of_their_starts_and_locations() {
    let store = store_of(vec![
        Event::new(at(2024, 3, 1, 10, 0)).set_location("b".to_string()),
        Event::new(at(2024, 1, 1, 10, 0)).set_location("c".to_string()),
        Event::new(at(2024, 2, 1, 10, 0)).set_location("a".to_string()),
        Event::new(Moment::new(at(2024, 1, 1, 10, 0).timestamp(), 0, 7200).unwrap())
            .set_location("a".to_string()),
        Event::new(Moment::new(at(2024, 1, 1, 10, 0).timestamp() - 1, 999_999_999, 0).unwrap())
            .set_location("ab".to_string()),
    ]);
    assert_eq!(store.sort_events_by(SearchType::Date), vec![4, 1, 3, 2, 0]);
    assert_eq!(store.sort_events_by(SearchType::Location), vec![2, 3, 4, 0, 1]);
}
