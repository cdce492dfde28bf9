use rusty_planner::args::{parse_args, parse_stupid_args, parse_stupid_recursive, KeywordArgs};
use rusty_planner::text::{chars_of, same_text, string_of, trim_chars};

fn strings(items: &[&str]) -> Vec<String> {
    items.iter().map(|s| s.to_string()).collect()
}

fn trim(text: &str) -> String {
    string_of(&trim_chars(&chars_of(text)))
}

#[test]
fn elements_are_split_at_commas_and_trimmed() {
    assert_eq!(parse_stupid_args("a, b ,c"), strings(&["a", "b", "c"]));
    assert_eq!(parse_stupid_args("single"), strings(&["single"]));
    assert_eq!(parse_stupid_args("  padded  "), strings(&["padded"]));
}

#[test]
fn empty_elements_are_left_out() {
    assert_eq!(parse_stupid_args(""), Vec::<String>::new());
    assert_eq!(parse_stupid_args(",,"), Vec::<String>::new());
    assert_eq!(parse_stupid_args("a,,b,"), strings(&["a", "b"]));
    assert_eq!(parse_stupid_args(",a"), strings(&["a"]));
}

#[test]
fn element_of_blanks_is_kept_as_an_empty_one() {
    assert_eq!(parse_stupid_args("a,  ,b"), strings(&["a", "", "b"]));
    assert_eq!(parse_stupid_args(" "), strings(&[""]));
}

#[test]
fn brackets_keep_commas_together() {
    assert_eq!(parse_stupid_args("a,[b,c],d"), strings(&["a", "b,c", "d"]));
    assert_eq!(parse_stupid_args("[a,b]"), strings(&["a,b"]));
    assert_eq!(parse_stupid_args("x[a,b]y, z"), strings(&["xa,by", "z"]));
    assert_eq!(parse_stupid_args("[a][b]"), strings(&["ab"]));
}

#[test]
fn only_the_outermost_brackets_are_dropped() {
    assert_eq!(parse_stupid_args("[a,[b,c]],d"), strings(&["a,[b,c]", "d"]));
    assert_eq!(parse_stupid_args("[[a]]"), strings(&["[a]"]));
    assert_eq!(parse_stupid_args("[[a],[b,[c]]]"), strings(&["[a],[b,[c]]"]));
}

#[test]
fn list_left_open_runs_to_the_end() {
    assert_eq!(parse_stupid_args("a,[b,c"), strings(&["a", "b,c"]));
    assert_eq!(parse_stupid_args("["), Vec::<String>::new());
    assert_eq!(parse_stupid_args("[[a]"), strings(&["[a]"]));
}

#[test]
fn closing_bracket_outside_a_list_is_an_ordinary_character() {
    assert_eq!(parse_stupid_args("a],b"), strings(&["a]", "b"]));
    assert_eq!(parse_stupid_args("]"), strings(&["]"]));
    assert_eq!(parse_stupid_args("[a]],b"), strings(&["a]", "b"]));
}

#[test]
fn trimming_follows_unicode_white_space() {
    assert_eq!(parse_stupid_args("\ta\n,\u{2003}b\u{a0}"), strings(&["a", "b"]));
    assert_eq!(parse_stupid_args("a b"), strings(&["a b"]));
    assert_eq!(trim("  a b  "), "a b");
    assert_eq!(trim("\u{3000}x\r\n"), "x");
    assert_eq!(trim("   "), "");
    assert_eq!(trim(""), "");
    assert_eq!(trim("x"), "x");
    assert_eq!(trim("\u{200b}x"), "\u{200b}x");
}

#[test]
fn nested_lists_are_taken_apart_level_by_level() {
    // The elements of the list are read as lists once more than `max_depth` says.
    assert_eq!(parse_stupid_recursive("a,[b,[c,d]],e", 0), strings(&["a", "b", "c,d", "e"]));
    assert_eq!(parse_stupid_recursive("a,[b,[c,d]],e", 1), strings(&["a", "b", "c", "d", "e"]));
    assert_eq!(parse_stupid_recursive("a,[b,[c,d]],e", 5), strings(&["a", "b", "c", "d", "e"]));
    assert_eq!(parse_stupid_recursive("a, b", 0), strings(&["a", "b"]));
    assert_eq!(parse_stupid_recursive("", 3), Vec::<String>::new());
    assert_eq!(parse_stupid_recursive("[a,b]", 0), strings(&["a", "b"]));
    assert_eq!(
        parse_stupid_recursive("[[[[a,b],c],d],e],f", 0),
        strings(&["[[a,b],c],d", "e", "f"])
    );
    assert_eq!(
        parse_stupid_recursive("[[[[a,b],c],d],e],f", 1),
        strings(&["[a,b],c", "d", "e", "f"])
    );
    assert_eq!(
        parse_stupid_recursive("[[[[a,b],c],d],e],f", 2),
        strings(&["a,b", "c", "d", "e", "f"])
    );
    assert_eq!(
        parse_stupid_recursive("[[[[a,b],c],d],e],f", 3),
        strings(&["a", "b", "c", "d", "e", "f"])
    );
    assert_eq!(
        parse_stupid_recursive("[[[[a,b],c],d],e],f", 40),
        strings(&["a", "b", "c", "d", "e", "f"])
    );
}

#[test]
fn element_that_reads_as_nothing_disappears_a_level_down() {
    assert_eq!(parse_stupid_args("a,  ,b"), strings(&["a", "", "b"]));
    assert_eq!(parse_stupid_recursive("a,  ,b", 0), strings(&["a", "b"]));
}

#[test]
fn positional_and_keyword_arguments() {
    let (positional, keywords) = parse_args("a, b, key=value, other = 1").unwrap();
    assert_eq!(positional, strings(&["a", "b"]));
    assert_eq!(keywords.len(), 2);
    assert_eq!(keywords.get("key").unwrap(), "value");
    assert_eq!(keywords.get("other").unwrap(), "1");
    assert!(keywords.get("a").is_none());
}

#[test]
fn positional_argument_behind_a_keyword_is_an_error() {
    assert_eq!(
        parse_args("a, key=value, b").unwrap_err(),
        "Positional arguments cannot follow keyword arguments."
    );
    assert_eq!(
        parse_args("key=value,").unwrap_err(),
        "Positional arguments cannot follow keyword arguments."
    );
    assert!(parse_args("key=value").is_ok());
}

#[test]
fn value_runs_from_the_first_equals_sign_to_the_end() {
    let (positional, keywords) = parse_args("k = a=b = c ").unwrap();
    assert!(positional.is_empty());
    assert_eq!(keywords.get("k").unwrap(), "a=b = c");
    let (_, keywords) = parse_args("=x, y=").unwrap();
    assert_eq!(keywords.get("").unwrap(), "x");
    assert_eq!(keywords.get("y").unwrap(), "");
}

#[test]
fn later_value_takes_the_place_of_an_earlier_one() {
    let (_, keywords) = parse_args("k=1, j=2, k=3").unwrap();
    assert_eq!(keywords.len(), 2);
    assert_eq!(keywords.get("k").unwrap(), "3");
    assert_eq!(keywords.get("j").unwrap(), "2");
}

#[test]
fn every_piece_counts_even_an_empty_one() {
    let (positional, keywords) = parse_args("").unwrap();
    assert_eq!(positional, strings(&[""]));
    assert_eq!(keywords.len(), 0);
    let (positional, _) = parse_args("a,,b").unwrap();
    assert_eq!(positional, strings(&["a", "", "b"]));
    let (positional, _) = parse_args(" a ,").unwrap();
    assert_eq!(positional, strings(&["a", ""]));
}

#[test]
fn keyword_args_insert_and_get() {
    let mut keywords = KeywordArgs::new();
    assert_eq!(keywords.len(), 0);
    assert!(keywords.get("a").is_none());
    keywords.insert("a".to_string(), "1".to_string());
    keywords.insert("b".to_string(), "2".to_string());
    keywords.insert("a".to_string(), "3".to_string());
    assert_eq!(keywords.len(), 2);
    assert_eq!(keywords.get("a").unwrap(), "3");
    assert_eq!(keywords.get("b").unwrap(), "2");
    assert!(keywords.get("A").is_none());
}

#[test]
fn texts_go_to_characters_and_back() {
    assert_eq!(chars_of("héllo"), vec!['h', 'é', 'l', 'l', 'o']);
    assert_eq!(chars_of(""), Vec::<char>::new());
    assert_eq!(string_of(&vec!['a', 'ß', '€']), "aß€");
    assert_eq!(string_of(&vec![]), "");
    assert!(same_text("abc", "abc"));
    assert!(same_text("", ""));
    assert!(!same_text("abc", "abd"));
    assert!(!same_text("abc", "ab"));
    assert!(!same_text("ab", "abc"));
    assert!(!same_text("abc", "ABC"));
}

#[test]
fn white_space_is_what_std_and_unicode_say() {
    let listed = |c: char| {
        let code = c as u32;
        (0x09..=0x0D).contains(&code)
            || code == 0x20
            || code == 0x85
            || code == 0xA0
            || code == 0x1680
            || (0x2000..=0x200A).contains(&code)
            || code == 0x2028
            || code == 0x2029
            || code == 0x202F
            || code == 0x205F
            || code == 0x3000
    };
    let mut count = 0;
    for c in '\0'..=char::MAX {
        let trimmed_away = trim_chars(&vec![c]).is_empty();
        assert_eq!(trimmed_away, c.is_whitespace());
        assert_eq!(trimmed_away, listed(c));
        if trimmed_away {
            count += 1;
        }
    }
    assert_eq!(count, 25);
}
