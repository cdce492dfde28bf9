//! The list of categories that events can be filed under, and the text in which
//! the list is kept: one category to a line.

use crate::text::{
    chars_of, push_text, split, split_chars, string_of, texts, trim_chars, trimmed,
};
use vstd::prelude::*;

verus! {

/// The categories of a user who has not chosen any.
pub open spec fn default_names() -> Seq<Seq<char>> {
    seq![
        "Work"@,
        "Personal"@,
        "Family"@,
        "Health"@,
        "Education"@,
        "Entertainment"@,
        "Other"@,
    ]
}

/// The categories of a user who has not chosen any.
pub fn default_categories() -> (r: Vec<String>)
    ensures
        texts(r@) == default_names(),
{
    let mut categories: Vec<String> = Vec::new();
    categories.push("Work".to_owned());
    categories.push("Personal".to_owned());
    categories.push("Family".to_owned());
    categories.push("Health".to_owned());
    categories.push("Education".to_owned());
    categories.push("Entertainment".to_owned());
    categories.push("Other".to_owned());
    assert(texts(categories@) =~= default_names());
    categories
}

/// The lines of `text`: what stands between its line feeds, without an empty
/// piece behind the last line feed.
pub open spec fn lines_of(text: Seq<char>) -> Seq<Seq<char>> {
    let pieces = split(text, '\n');
    if pieces.len() > 0 && pieces.last().len() == 0 {
        pieces.drop_last()
    } else {
        pieces
    }
}

/// The categories that `text` lists: its lines, each trimmed.
pub open spec fn categories_listed(text: Seq<char>) -> Seq<Seq<char>> {
    lines_of(text).map_values(|line: Seq<char>| trimmed(line))
}

/// Reads a list of categories, one to a line.
pub fn categories_from_text(text: &str) -> (r: Vec<String>)
    ensures
        texts(r@) == categories_listed(text@),
{
    let chars = chars_of(text);
    let pieces = split_chars(&chars, '\n');
    let ghost all = split(text@, '\n');
    let count: usize = if pieces.len() > 0 && pieces[pieces.len() - 1].len() == 0 {
        pieces.len() - 1
    } else {
        pieces.len()
    };
    assert(all.len() == pieces@.len());
    assert(pieces@.len() > 0 ==> all.last() == pieces@[pieces@.len() - 1]@);
    assert(lines_of(text@) =~= all.take(count as int));
    let mut categories: Vec<String> = Vec::new();
    let mut i: usize = 0;
    while i < count
        invariant
            count <= pieces@.len(),
            i <= count,
            pieces@.map_values(|piece: Vec<char>| piece@) == all,
            categories@.len() == i,
            forall|k: int| 0 <= k < i ==> (#[trigger] categories@[k])@ == trimmed(all[k]),
        decreases count - i,
    {
        assert(all[i as int] == pieces@[i as int]@);
        categories.push(string_of(&trim_chars(&pieces[i])));
        i += 1;
    }
    assert(texts(categories@) =~= categories_listed(text@));
    categories
}

/// The first `k` of `names`, each followed by a line feed.
pub open spec fn joined_upto(names: Seq<Seq<char>>, k: nat) -> Seq<char>
    decreases k,
{
    if k == 0 {
        Seq::empty()
    } else {
        joined_upto(names, (k - 1) as nat) + names[k - 1] + seq!['\n']
    }
}

/// The text that lists `names` one to a line, with a line feed between two
/// lines and none behind the last.
pub open spec fn categories_text(names: Seq<Seq<char>>) -> Seq<char> {
    if names.len() == 0 {
        Seq::empty()
    } else {
        joined_upto(names, (names.len() - 1) as nat) + names.last()
    }
}

/// Writes a list of categories, one to a line.
pub fn categories_to_text(categories: &Vec<String>) -> (r: String)
    ensures
        r@ == categories_text(texts(categories@)),
{
    let mut out: Vec<char> = Vec::new();
    if categories.len() == 0 {
        return string_of(&out);
    }
    let last: usize = categories.len() - 1;
    let mut i: usize = 0;
    while i < last
        invariant
            last == categories@.len() - 1,
            i <= last,
            out@ == joined_upto(texts(categories@), i as nat),
        decreases last - i,
    {
        assert(texts(categories@)[i as int] == categories@[i as int]@);
        push_text(&mut out, categories[i].as_str());
        out.push('\n');
        i += 1;
        assert(out@ =~= joined_upto(texts(categories@), i as nat));
    }
    assert(texts(categories@).last() == categories@[last as int]@);
    push_text(&mut out, categories[last].as_str());
    string_of(&out)
}

/// Adds the category `name`, trimmed, to the list, unless nothing is left of
/// it; says whether it was added.
pub fn add_category(categories: &mut Vec<String>, name: &str) -> (added: bool)
    ensures
        added == (trimmed(name@).len() > 0),
        texts(final(categories)@) == if added {
            texts(old(categories)@).push(trimmed(name@))
        } else {
            texts(old(categories)@)
        },
{
    let category = trim_chars(&chars_of(name));
    if category.len() > 0 {
        let text = string_of(&category);
        assert(texts(categories@.push(text)) =~= texts(categories@).push(text@));
        categories.push(text);
        true
    } else {
        false
    }
}

} // verus!
