//! The argument notations of the command line: a flat list of positional and
//! keyword arguments, and nested lists in square brackets.

use crate::text::{
    chars_of, same_text, split, split_chars, string_of, texts, trim_chars, trimmed,
};
use vstd::prelude::*;

verus! {

/// Where the reading of a bracketed argument list stands.
pub struct ArgScan {
    /// How many brackets are open; zero outside any.
    pub depth: nat,
    /// What has been read inside the brackets that are open.
    pub list: Seq<char>,
    /// What has been read of the element at hand.
    pub element: Seq<char>,
    /// The elements that are complete.
    pub elements: Seq<Seq<char>>,
}

impl ArgScan {
    /// The reading before the first character.
    pub open spec fn start() -> ArgScan {
        ArgScan { depth: 0, list: Seq::empty(), element: Seq::empty(), elements: Seq::empty() }
    }

    /// The reading after one more character.
    ///
    /// Outside brackets a comma ends the element at hand, which is kept, trimmed,
    /// unless nothing was read of it; an opening bracket opens a list and is
    /// dropped; every other character joins the element. Inside brackets every
    /// character joins the list, nested brackets too, up to the bracket that closes
    /// the outermost one: it is dropped, and the list joins the element.
    pub open spec fn step(self, c: char) -> ArgScan {
        if self.depth > 0 {
            if c == ']' && self.depth == 1 {
                ArgScan {
                    depth: 0,
                    list: Seq::empty(),
                    element: self.element + self.list,
                    elements: self.elements,
                }
            } else {
                let depth = if c == '[' {
                    self.depth + 1
                } else if c == ']' {
                    (self.depth - 1) as nat
                } else {
                    self.depth
                };
                ArgScan { depth, list: self.list.push(c), ..self }
            }
        } else if c == '[' {
            ArgScan { depth: 1, ..self }
        } else if c == ',' {
            if self.element.len() > 0 {
                ArgScan {
                    element: Seq::empty(),
                    elements: self.elements.push(trimmed(self.element)),
                    ..self
                }
            } else {
                self
            }
        } else {
            ArgScan { element: self.element.push(c), ..self }
        }
    }

    /// The reading after the first `k` characters of `input`.
    pub open spec fn after(input: Seq<char>, k: nat) -> ArgScan
        decreases k,
    {
        if k == 0 {
            ArgScan::start()
        } else {
            ArgScan::after(input, (k - 1) as nat).step(input[k - 1])
        }
    }

    /// The elements once the input has ended: a list that was left open joins
    /// the element at hand, and the element is kept, trimmed, unless it is empty.
    pub open spec fn finish(self) -> Seq<Seq<char>> {
        let element = if self.depth > 0 {
            self.element + self.list
        } else {
            self.element
        };
        if element.len() > 0 {
            self.elements.push(trimmed(element))
        } else {
            self.elements
        }
    }
}

/// The elements of the argument list `input`.
pub open spec fn stupid_args(input: Seq<char>) -> Seq<Seq<char>> {
    ArgScan::after(input, input.len()).finish()
}

/// Splits `input` at the commas that stand outside square brackets. The outermost
/// pair of brackets of a group is dropped, what stands inside is kept as it is.
/// Each element is trimmed; an element of which nothing was read is left out.
pub fn parse_stupid_args(input: &str) -> (r: Vec<String>)
    ensures
        texts(r@) == stupid_args(input@),
{
    let mut depth: usize = 0;
    let mut current_list: Vec<char> = Vec::new();
    let mut current_element: Vec<char> = Vec::new();
    let mut elements: Vec<String> = Vec::new();
    assert(texts(elements@) =~= Seq::<Seq<char>>::empty());
    let chars = chars_of(input);
    let mut i: usize = 0;
    while i < chars.len()
        invariant
            chars@ == input@,
            i <= chars@.len(),
            depth <= i,
            ArgScan::after(input@, i as nat) == (ArgScan {
                depth: depth as nat,
                list: current_list@,
                element: current_element@,
                elements: texts(elements@),
            }),
        decreases chars@.len() - i,
    {
        let c = chars[i];
        let ghost before = ArgScan::after(input@, i as nat);
        assert(ArgScan::after(input@, (i + 1) as nat) == before.step(c));
        i += 1;
        if depth > 0 {
            if c == ']' && depth == 1 {
                current_element.append(&mut current_list);
                depth = 0;
            } else {
                if c == '[' {
                    depth += 1;
                } else if c == ']' {
                    depth -= 1;
                }
                current_list.push(c);
            }
        } else if c == '[' {
            depth = 1;
        } else if c == ',' {
            if current_element.len() > 0 {
                let element = string_of(&trim_chars(&current_element));
                assert(texts(elements@.push(element)) =~= texts(elements@).push(element@));
                elements.push(element);
                current_element.clear();
            }
        } else {
            current_element.push(c);
        }
    }
    if depth > 0 {
        current_element.append(&mut current_list);
    }
    if current_element.len() > 0 {
        let element = string_of(&trim_chars(&current_element));
        assert(texts(elements@.push(element)) =~= texts(elements@).push(element@));
        elements.push(element);
    }
    elements
}

/// The elements that are left when the lists among `parts` have been taken
/// apart level by level: every part is read as an argument list, and so is each
/// of its elements in turn. `depth` is the level of `parts`; parts of a level
/// beyond `max_depth` stay as they are, so that the parts of level zero are
/// read `max_depth + 1` times over.
pub open spec fn expanded(parts: Seq<Seq<char>>, depth: nat, max_depth: nat) -> Seq<Seq<char>>
    decreases max_depth + 1 - depth, parts.len(),
{
    if depth > max_depth {
        parts
    } else if parts.len() == 0 {
        Seq::empty()
    } else {
        expanded(parts.drop_last(), depth, max_depth) + expanded(
            stupid_args(parts.last()),
            depth + 1,
            max_depth,
        )
    }
}

/// Reads `input` as an argument list and then reads each element as an argument
/// list again, `max_depth + 1` times over, so that lists in lists come apart.
pub fn parse_stupid_recursive(input: &str, max_depth: usize) -> (r: Vec<String>)
    ensures
        texts(r@) == expanded(stupid_args(input@), 0, max_depth as nat),
{
    parse_stupid_recursive_helper(parse_stupid_args(input), 0, max_depth)
}

fn parse_stupid_recursive_helper(parts: Vec<String>, current_depth: usize, max_depth: usize) -> (r:
    Vec<String>)
    ensures
        texts(r@) == expanded(texts(parts@), current_depth as nat, max_depth as nat),
    decreases max_depth + 1 - current_depth,
{
    if current_depth > max_depth {
        return parts;
    }
    let mut all_parts: Vec<String> = Vec::new();
    assert(texts(all_parts@) =~= Seq::<Seq<char>>::empty());
    let mut i: usize = 0;
    while i < parts.len()
        invariant
            current_depth <= max_depth,
            i <= parts@.len(),
            texts(all_parts@) == expanded(
                texts(parts@).take(i as int),
                current_depth as nat,
                max_depth as nat,
            ),
        decreases parts@.len() - i,
    {
        let sub_parts = parse_stupid_args(parts[i].as_str());
        let mut below = if current_depth < max_depth {
            parse_stupid_recursive_helper(sub_parts, current_depth + 1, max_depth)
        } else {
            sub_parts
        };
        proof {
            let prefix = texts(parts@).take(i + 1);
            assert(prefix.drop_last() =~= texts(parts@).take(i as int));
            assert(prefix.last() == parts@[i as int]@);
            assert(texts(below@) == expanded(
                stupid_args(prefix.last()),
                (current_depth + 1) as nat,
                max_depth as nat,
            ));
            assert(expanded(prefix, current_depth as nat, max_depth as nat) == expanded(
                prefix.drop_last(),
                current_depth as nat,
                max_depth as nat,
            ) + expanded(
                stupid_args(prefix.last()),
                (current_depth + 1) as nat,
                max_depth as nat,
            ));
            assert(texts(all_parts@ + below@) =~= texts(all_parts@) + texts(below@));
        }
        all_parts.append(&mut below);
        i += 1;
    }
    assert(texts(parts@).take(i as int) =~= texts(parts@));
    all_parts
}

/// The part of `text` before the first `c`; all of it where there is none.
pub open spec fn before_first(text: Seq<char>, c: char) -> Seq<char>
    decreases text.len(),
{
    if text.len() == 0 || text[0] == c {
        Seq::empty()
    } else {
        seq![text[0]] + before_first(text.drop_first(), c)
    }
}

/// The part of `text` after the first `c`; nothing where there is none.
pub open spec fn after_first(text: Seq<char>, c: char) -> Seq<char>
    decreases text.len(),
{
    if text.len() == 0 {
        Seq::empty()
    } else if text[0] == c {
        text.drop_first()
    } else {
        after_first(text.drop_first(), c)
    }
}

/// The place of the first `c` in `text`, or the length of `text` where there is
/// none.
fn find_first(text: &Vec<char>, c: char) -> (r: usize)
    ensures
        r <= text@.len(),
        r < text@.len() ==> text@[r as int] == c,
        forall|j: int| 0 <= j < r ==> text@[j] != c,
        (r < text@.len()) == text@.contains(c),
        before_first(text@, c) == text@.take(r as int),
        after_first(text@, c) == if r < text@.len() {
            text@.skip(r + 1)
        } else {
            Seq::empty()
        },
{
    let mut i: usize = 0;
    while i < text.len() && text[i] != c
        invariant
            i <= text@.len(),
            forall|j: int| 0 <= j < i ==> text@[j] != c,
        decreases text@.len() - i,
    {
        i += 1;
    }
    proof {
        lemma_first_cut(text@, c, i as int);
    }
    i
}

/// Where the first `c` of `text` stands at `k`, or `k` is the length of a text
/// without `c`: what lies before and after the first `c`.
proof fn lemma_first_cut(text: Seq<char>, c: char, k: int)
    requires
        0 <= k <= text.len(),
        forall|j: int| 0 <= j < k ==> text[j] != c,
        k < text.len() ==> text[k] == c,
    ensures
        before_first(text, c) == text.take(k),
        after_first(text, c) == if k < text.len() {
            text.skip(k + 1)
        } else {
            Seq::empty()
        },
        (k < text.len()) == text.contains(c),
    decreases k,
{
    if k == 0 {
        assert(text.take(0) =~= Seq::empty());
        if text.len() > 0 {
            assert(text.drop_first() =~= text.skip(1));
        }
    } else {
        let rest = text.drop_first();
        assert forall|j: int| 0 <= j < k - 1 implies rest[j] != c by {
            assert(rest[j] == text[j + 1]);
        }
        lemma_first_cut(rest, c, k - 1);
        assert(seq![text[0]] + rest.take(k - 1) =~= text.take(k));
        if k < text.len() {
            assert(rest.skip(k) =~= text.skip(k + 1));
            assert(rest[k - 1] == c);
        } else {
            assert forall|j: int| 0 <= j < text.len() implies text[j] != c by {}
        }
    }
}

/// Keyword arguments: values by their keys, each key once. The entries stand in
/// the order in which their keys first came.
#[derive(Debug)]
pub struct KeywordArgs {
    entries: Vec<(String, String)>,
}

impl View for KeywordArgs {
    type V = Map<Seq<char>, Seq<char>>;

    closed spec fn view(&self) -> Map<Seq<char>, Seq<char>> {
        Map::new(
            |key: Seq<char>|
                exists|i: int| 0 <= i < self.entries@.len() && (#[trigger] self.entries@[i]).0@ == key,
            |key: Seq<char>|
                self.entries@[choose|i: int|
                    0 <= i < self.entries@.len() && (#[trigger] self.entries@[i]).0@ == key].1@,
        )
    }
}

impl KeywordArgs {
    /// No key stands in two entries.
    pub closed spec fn well_formed(self) -> bool {
        forall|i: int, j: int|
            0 <= i < j < self.entries@.len() ==> (#[trigger] self.entries@[i]).0@ != (
            #[trigger] self.entries@[j]).0@
    }

    /// No keyword arguments.
    pub fn new() -> (r: KeywordArgs)
        ensures
            r.well_formed(),
            r@ == Map::<Seq<char>, Seq<char>>::empty(),
    {
        let r = KeywordArgs { entries: Vec::new() };
        assert(r@ =~= Map::<Seq<char>, Seq<char>>::empty());
        r
    }

    /// The number of keys.
    pub fn len(&self) -> (r: usize)
        requires
            self.well_formed(),
        ensures
            r == self@.dom().len(),
            self@.dom().finite(),
    {
        proof {
            self.lemma_domain(self.entries@.len());
            assert(self.keys_upto(self.entries@.len()) =~= self@.dom());
        }
        self.entries.len()
    }

    /// The keys of the first `k` entries.
    closed spec fn keys_upto(self, k: nat) -> Set<Seq<char>> {
        Set::new(
            |key: Seq<char>| exists|i: int| 0 <= i < k && (#[trigger] self.entries@[i]).0@ == key,
        )
    }

    proof fn lemma_domain(self, k: nat)
        requires
            self.well_formed(),
            k <= self.entries@.len(),
        ensures
            self.keys_upto(k).finite(),
            self.keys_upto(k).len() == k,
        decreases k,
    {
        if k == 0 {
            assert(self.keys_upto(0) =~= Set::empty());
        } else {
            self.lemma_domain((k - 1) as nat);
            let key = self.entries@[k - 1].0@;
            assert(self.keys_upto(k) =~= self.keys_upto((k - 1) as nat).insert(key));
            assert(!self.keys_upto((k - 1) as nat).contains(key));
        }
    }

    fn position(&self, key: &str) -> (r: usize)
        ensures
            r <= self.entries@.len(),
            r < self.entries@.len() ==> self.entries@[r as int].0@ == key@,
            forall|j: int| 0 <= j < r ==> (#[trigger] self.entries@[j]).0@ != key@,
    {
        let mut i: usize = 0;
        while i < self.entries.len()
            invariant
                i <= self.entries@.len(),
                forall|j: int| 0 <= j < i ==> (#[trigger] self.entries@[j]).0@ != key@,
            decreases self.entries@.len() - i,
        {
            if same_text(self.entries[i].0.as_str(), key) {
                return i;
            }
            i += 1;
        }
        i
    }

    /// The value under `key`, if there is one.
    pub fn get(&self, key: &str) -> (r: Option<&String>)
        requires
            self.well_formed(),
        ensures
            r is Some <==> self@.dom().contains(key@),
            r matches Some(value) ==> value@ == self@[key@],
    {
        let at = self.position(key);
        if at < self.entries.len() {
            Some(&self.entries[at].1)
        } else {
            None
        }
    }

    /// Puts `value` under `key`, in place of the value that stood there.
    pub fn insert(&mut self, key: String, value: String)
        requires
            old(self).well_formed(),
        ensures
            final(self).well_formed(),
            final(self)@ == old(self)@.insert(key@, value@),
    {
        let at = self.position(key.as_str());
        let ghost before = self.entries@;
        if at < self.entries.len() {
            self.entries[at].1 = value;
            assert(self.entries@[at as int].0@ == key@);
            assert(forall|i: int| 0 <= i < before.len() ==> (#[trigger] self.entries@[i]).0@ == before[i].0@);
        } else {
            self.entries.push((key, value));
        }
        assert(self@ =~= old(self)@.insert(key@, value@)) by {
            assert forall|k: Seq<char>| self@.dom().contains(k) <==> old(self)@.insert(key@, value@).dom().contains(k) by {
                if self@.dom().contains(k) {
                    let i = choose|i: int| 0 <= i < self.entries@.len() && (#[trigger] self.entries@[i]).0@ == k;
                    if i < before.len() {
                        assert(before[i].0@ == k);
                    }
                }
                if old(self)@.insert(key@, value@).dom().contains(k) {
                    if k == key@ {
                        if at < before.len() {
                            assert(self.entries@[at as int].0@ == k);
                        } else {
                            assert(self.entries@[before.len() as int].0@ == k);
                        }
                    } else {
                        let i = choose|i: int| 0 <= i < before.len() && (#[trigger] before[i]).0@ == k;
                        assert(self.entries@[i].0@ == k);
                    }
                }
            }
            assert forall|k: Seq<char>| self@.dom().contains(k) implies self@[k] == old(self)@.insert(key@, value@)[k] by {
                let i = choose|i: int| 0 <= i < self.entries@.len() && (#[trigger] self.entries@[i]).0@ == k;
                if k == key@ {
                    if at < before.len() {
                        assert(self.entries@[at as int].0@ == k);
                        assert(i == at);
                    } else {
                        assert(i == before.len());
                    }
                } else {
                    assert(i < before.len());
                    let j = choose|j: int| 0 <= j < before.len() && (#[trigger] before[j]).0@ == k;
                    assert(before[i].0@ == k);
                    assert(i == j);
                    assert(self.entries@[i].1@ == before[i].1@);
                }
            }
        }
    }
}

/// Positional and keyword arguments as they are read off a list.
pub struct ReadArgs {
    pub positional: Seq<Seq<char>>,
    pub keywords: Map<Seq<char>, Seq<char>>,
    pub found_keyword: bool,
}

/// What the first `k` of `pieces` are read as, or `None` where a positional
/// argument follows a keyword argument among them.
///
/// A piece is trimmed first. One that holds an equals sign is a keyword argument:
/// key and value are what stands before and after the first equals sign,
/// trimmed, and a later value for a key takes the place of an earlier one. Every
/// other piece is a positional argument.
pub open spec fn read_args(pieces: Seq<Seq<char>>, k: nat) -> Option<ReadArgs>
    decreases k,
{
    if k == 0 {
        Some(ReadArgs { positional: Seq::empty(), keywords: Map::empty(), found_keyword: false })
    } else {
        match read_args(pieces, (k - 1) as nat) {
            None => None,
            Some(before) => {
                let arg = trimmed(pieces[k - 1]);
                if arg.contains('=') {
                    Some(
                        ReadArgs {
                            keywords: before.keywords.insert(
                                trimmed(before_first(arg, '=')),
                                trimmed(after_first(arg, '=')),
                            ),
                            found_keyword: true,
                            ..before
                        },
                    )
                } else if before.found_keyword {
                    None
                } else {
                    Some(ReadArgs { positional: before.positional.push(arg), ..before })
                }
            },
        }
    }
}

/// Once the reading has failed it stays failed.
proof fn lemma_error_stays(pieces: Seq<Seq<char>>, k: nat, n: nat)
    requires
        k <= n,
        read_args(pieces, k) is None,
    ensures
        read_args(pieces, n) is None,
    decreases n - k,
{
    if k < n {
        lemma_error_stays(pieces, k, (n - 1) as nat);
    }
}

/// What the list `input`, with commas between its arguments, is read as.
pub open spec fn parsed_args(input: Seq<char>) -> Option<ReadArgs> {
    let pieces = split(input, ',');
    read_args(pieces, pieces.len())
}

/// Reads a list of arguments with commas between them: positional arguments
/// first, then keyword arguments of the form `key=value`. A positional argument
/// behind a keyword argument is an error.
pub fn parse_args(input: &str) -> (r: Result<(Vec<String>, KeywordArgs), String>)
    ensures
        match r {
            Ok((positional, keywords)) => parsed_args(input@) matches Some(read) && texts(
                positional@,
            ) == read.positional && keywords@ == read.keywords && keywords.well_formed(),
            Err(message) => parsed_args(input@) is None && message@
                == "Positional arguments cannot follow keyword arguments."@,
        },
{
    let chars = chars_of(input);
    let args = split_chars(&chars, ',');
    let ghost pieces = split(input@, ',');
    let mut positional_args: Vec<String> = Vec::new();
    let mut keyword_args = KeywordArgs::new();
    let mut found_keyword = false;
    assert(texts(positional_args@) =~= Seq::<Seq<char>>::empty());
    let mut i: usize = 0;
    while i < args.len()
        invariant
            pieces == split(input@, ','),
            args@.map_values(|piece: Vec<char>| piece@) == pieces,
            i <= args@.len(),
            keyword_args.well_formed(),
            read_args(pieces, i as nat) == Some(
                ReadArgs {
                    positional: texts(positional_args@),
                    keywords: keyword_args@,
                    found_keyword,
                },
            ),
        decreases args@.len() - i,
    {
        assert(pieces[i as int] == args@[i as int]@);
        let arg = trim_chars(&args[i]);
        let cut = find_first(&arg, '=');
        if cut < arg.len() {
            found_keyword = true;
            let mut key: Vec<char> = Vec::new();
            let mut j: usize = 0;
            while j < cut
                invariant
                    j <= cut < arg@.len(),
                    key@ == arg@.take(j as int),
                decreases cut - j,
            {
                key.push(arg[j]);
                j += 1;
                assert(key@ =~= arg@.take(j as int));
            }
            let mut value: Vec<char> = Vec::new();
            let mut j: usize = cut + 1;
            while j < arg.len()
                invariant
                    cut < j <= arg@.len(),
                    value@ == arg@.subrange(cut + 1, j as int),
                decreases arg@.len() - j,
            {
                value.push(arg[j]);
                j += 1;
                assert(value@ =~= arg@.subrange(cut + 1, j as int));
            }
            assert(value@ =~= arg@.skip(cut + 1));
            keyword_args.insert(string_of(&trim_chars(&key)), string_of(&trim_chars(&value)));
        } else {
            if found_keyword {
                proof {
                    lemma_error_stays(pieces, (i + 1) as nat, pieces.len());
                }
                return Err("Positional arguments cannot follow keyword arguments.".to_owned());
            }
            let text = string_of(&arg);
            assert(texts(positional_args@.push(text)) =~= texts(positional_args@).push(text@));
            positional_args.push(text);
        }
        i += 1;
    }
    Ok((positional_args, keyword_args))
}

} // verus!
