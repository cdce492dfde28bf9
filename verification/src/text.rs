//! Small tools for texts: turning strings into sequences of characters and back,
//! and writing numbers in decimal.

use vstd::prelude::*;

verus! {

/// Calls std's `String::push`, which appends one character to the end of the string.
#[verifier::external_body]
pub(crate) fn push_char(text: &mut String, c: char)
    ensures
        final(text)@ == old(text)@.push(c),
{
    text.push(c);
}

/// Calls std's `String::pop`, which takes the last character off the string and
/// leaves an empty string as it is.
#[verifier::external_body]
pub(crate) fn pop_char(text: &mut String)
    ensures
        final(text)@ == if old(text)@.len() > 0 {
            old(text)@.drop_last()
        } else {
            old(text)@
        },
{
    text.pop();
}

/// The characters of `text`, in order.
pub fn chars_of(text: &str) -> (r: Vec<char>)
    ensures
        r@ == text@,
{
    let mut chars: Vec<char> = Vec::new();
    for c in it: text.chars()
        invariant
            it.seq() == text@,
            chars@ == it.seq().take(it.index()),
    {
        chars.push(c);
    }
    assert(chars@ =~= text@);
    chars
}

/// The string that is made of `chars`, in order.
pub fn string_of(chars: &Vec<char>) -> (r: String)
    ensures
        r@ == chars@,
{
    let mut text = String::new();
    let mut i: usize = 0;
    while i < chars.len()
        invariant
            i <= chars@.len(),
            text@ == chars@.take(i as int),
        decreases chars@.len() - i,
    {
        push_char(&mut text, chars[i]);
        i += 1;
        assert(chars@.take(i as int) =~= chars@.take(i - 1).push(chars@[i - 1]));
    }
    assert(chars@.take(i as int) =~= chars@);
    text
}

/// Whether two texts hold the same characters.
pub fn same_text(a: &str, b: &str) -> (r: bool)
    ensures
        r == (a@ == b@),
{
    let left = chars_of(a);
    let right = chars_of(b);
    if left.len() != right.len() {
        return false;
    }
    let mut i: usize = 0;
    while i < left.len()
        invariant
            left@ == a@,
            right@ == b@,
            left@.len() == right@.len(),
            i <= left@.len(),
            forall|k: int| 0 <= k < i ==> left@[k] == right@[k],
        decreases left@.len() - i,
    {
        if left[i] != right[i] {
            return false;
        }
        i += 1;
    }
    assert(a@ =~= b@);
    true
}

/// The character that stands for the digit `d`.
pub open spec fn digit_char(d: int) -> char {
    if d == 0 {
        '0'
    } else if d == 1 {
        '1'
    } else if d == 2 {
        '2'
    } else if d == 3 {
        '3'
    } else if d == 4 {
        '4'
    } else if d == 5 {
        '5'
    } else if d == 6 {
        '6'
    } else if d == 7 {
        '7'
    } else if d == 8 {
        '8'
    } else {
        '9'
    }
}

/// The decimal numeral of `n`: its digits from the most significant down, without
/// leading zeros, and `0` for zero.
pub open spec fn decimal(n: nat) -> Seq<char>
    decreases n,
{
    if n < 10 {
        seq![digit_char(n as int)]
    } else {
        decimal(n / 10).push(digit_char((n % 10) as int))
    }
}

fn digit_of(d: u64) -> (r: char)
    requires
        d < 10,
    ensures
        r == digit_char(d as int),
{
    if d == 0 {
        '0'
    } else if d == 1 {
        '1'
    } else if d == 2 {
        '2'
    } else if d == 3 {
        '3'
    } else if d == 4 {
        '4'
    } else if d == 5 {
        '5'
    } else if d == 6 {
        '6'
    } else if d == 7 {
        '7'
    } else if d == 8 {
        '8'
    } else {
        '9'
    }
}

/// The decimal numeral of an integer: that of its magnitude, behind a minus
/// sign where the integer is negative.
pub open spec fn signed_decimal(n: int) -> Seq<char> {
    if n < 0 {
        seq!['-'] + decimal((-n) as nat)
    } else {
        decimal(n as nat)
    }
}

/// Appends the characters of `text` to `out`.
pub fn push_text(out: &mut Vec<char>, text: &str)
    ensures
        final(out)@ == old(out)@ + text@,
{
    let mut chars = chars_of(text);
    out.append(&mut chars);
}

/// Appends the decimal numeral of `n` to `out`.
pub fn push_signed_decimal(out: &mut Vec<char>, n: i64)
    ensures
        final(out)@ == old(out)@ + signed_decimal(n as int),
{
    if n < 0 {
        out.push('-');
        let magnitude: u64 = (-(n + 1)) as u64 + 1;
        push_decimal(out, magnitude);
        assert(out@ =~= old(out)@ + signed_decimal(n as int));
    } else {
        push_decimal(out, n as u64);
    }
}

/// Appends the decimal numeral of `n` to `out`.
pub fn push_decimal(out: &mut Vec<char>, n: u64)
    ensures
        final(out)@ == old(out)@ + decimal(n as nat),
    decreases n,
{
    if n < 10 {
        out.push(digit_of(n));
        assert(out@ =~= old(out)@ + decimal(n as nat));
    } else {
        push_decimal(out, n / 10);
        out.push(digit_of(n % 10));
        assert(out@ =~= old(out)@ + decimal(n as nat));
    }
}

/// The text that std's `str::to_lowercase` makes of `text`: each character in
/// the lowercase form that Unicode gives it.
pub uninterp spec fn lowercase(text: Seq<char>) -> Seq<char>;

/// Calls std's `str::to_lowercase` and names the result `lowercase`.
#[verifier::external_body]
pub(crate) fn to_lowercase(text: &str) -> (r: String)
    ensures
        r@ == lowercase(text@),
{
    text.to_lowercase()
}

/// Whether `c` is white space: whether it is one of the characters that Unicode
/// gives the property `White_Space`, which are the controls from tabulator to
/// carriage return, the space, the next line control, the no-break space, the
/// Ogham space mark, the spaces from en quad to hair space, the line and the
/// paragraph separator, the narrow no-break space, the medium mathematical
/// space and the ideographic space.
pub open spec fn is_whitespace(c: char) -> bool {
    let code = c as u32;
    ||| 0x09 <= code <= 0x0D
    ||| code == 0x20
    ||| code == 0x85
    ||| code == 0xA0
    ||| code == 0x1680
    ||| 0x2000 <= code <= 0x200A
    ||| code == 0x2028
    ||| code == 0x2029
    ||| code == 0x202F
    ||| code == 0x205F
    ||| code == 0x3000
}

/// Calls std's `char::is_whitespace`, which tells whether the character has the
/// Unicode property `White_Space`; the contract names the characters that have it.
#[verifier::external_body]
fn char_is_whitespace(c: char) -> (r: bool)
    ensures
        r == is_whitespace(c),
{
    c.is_whitespace()
}

/// `text` without the white space that it starts with.
pub open spec fn trimmed_start(text: Seq<char>) -> Seq<char>
    decreases text.len(),
{
    if text.len() > 0 && is_whitespace(text[0]) {
        trimmed_start(text.drop_first())
    } else {
        text
    }
}

/// `text` without the white space that it ends with.
pub open spec fn trimmed_end(text: Seq<char>) -> Seq<char>
    decreases text.len(),
{
    if text.len() > 0 && is_whitespace(text.last()) {
        trimmed_end(text.drop_last())
    } else {
        text
    }
}

/// `text` without the white space at either end, as std's `str::trim` leaves it.
pub open spec fn trimmed(text: Seq<char>) -> Seq<char> {
    trimmed_end(trimmed_start(text))
}

/// What is left of `text` from the first character on that is no white space.
proof fn lemma_trimmed_start_skips(text: Seq<char>, k: int)
    requires
        0 <= k <= text.len(),
        forall|j: int| 0 <= j < k ==> is_whitespace(text[j]),
        k < text.len() ==> !is_whitespace(text[k]),
    ensures
        trimmed_start(text) == text.skip(k),
    decreases k,
{
    if k == 0 {
        assert(text.skip(0) =~= text);
    } else {
        let rest = text.drop_first();
        assert forall|j: int| 0 <= j < k - 1 implies is_whitespace(rest[j]) by {
            assert(rest[j] == text[j + 1]);
        }
        lemma_trimmed_start_skips(rest, k - 1);
        assert(rest.skip(k - 1) =~= text.skip(k));
    }
}

/// What is left of `text` up to the last character that is no white space.
proof fn lemma_trimmed_end_takes(text: Seq<char>, k: int)
    requires
        0 <= k <= text.len(),
        forall|j: int| k <= j < text.len() ==> is_whitespace(text[j]),
        k > 0 ==> !is_whitespace(text[k - 1]),
    ensures
        trimmed_end(text) == text.take(k),
    decreases text.len() - k,
{
    if k == text.len() {
        assert(text.take(k) =~= text);
    } else {
        let rest = text.drop_last();
        lemma_trimmed_end_takes(rest, k);
        assert(rest.take(k) =~= text.take(k));
    }
}

/// The characters of `text` without the white space at either end.
pub fn trim_chars(text: &Vec<char>) -> (r: Vec<char>)
    ensures
        r@ == trimmed(text@),
{
    let mut from: usize = 0;
    while from < text.len() && char_is_whitespace(text[from])
        invariant
            from <= text@.len(),
            forall|j: int| 0 <= j < from ==> is_whitespace(text@[j]),
        decreases text@.len() - from,
    {
        from += 1;
    }
    let mut to: usize = text.len();
    while to > from && char_is_whitespace(text[to - 1])
        invariant
            from <= to <= text@.len(),
            forall|j: int| to <= j < text@.len() ==> is_whitespace(text@[j]),
        decreases to - from,
    {
        to -= 1;
    }
    let mut out: Vec<char> = Vec::new();
    let mut i: usize = from;
    while i < to
        invariant
            from <= i <= to <= text@.len(),
            out@ == text@.subrange(from as int, i as int),
        decreases to - i,
    {
        out.push(text[i]);
        i += 1;
        assert(out@ =~= text@.subrange(from as int, i as int));
    }
    proof {
        lemma_trimmed_start_skips(text@, from as int);
        let rest = text@.skip(from as int);
        assert forall|j: int| to - from <= j < rest.len() implies is_whitespace(rest[j]) by {
            assert(rest[j] == text@[j + from]);
        }
        if to > from {
            assert(rest[to - from - 1] == text@[to - 1]);
        }
        lemma_trimmed_end_takes(rest, to - from);
        assert(rest.take(to - from) =~= text@.subrange(from as int, to as int));
    }
    out
}

/// The value of the decimal digit `c`, or -1 where `c` is no decimal digit.
pub open spec fn digit_value(c: char) -> int {
    if c == '0' {
        0
    } else if c == '1' {
        1
    } else if c == '2' {
        2
    } else if c == '3' {
        3
    } else if c == '4' {
        4
    } else if c == '5' {
        5
    } else if c == '6' {
        6
    } else if c == '7' {
        7
    } else if c == '8' {
        8
    } else if c == '9' {
        9
    } else {
        -1
    }
}

/// Whether `text` is made of decimal digits alone.
pub open spec fn all_digits(text: Seq<char>) -> bool {
    forall|i: int| 0 <= i < text.len() ==> digit_value(#[trigger] text[i]) >= 0
}

/// The number that the digits of `text` write in decimal.
pub open spec fn digits_number(text: Seq<char>) -> int
    decreases text.len(),
{
    if text.len() == 0 {
        0
    } else {
        digits_number(text.drop_last()) * 10 + digit_value(text.last())
    }
}

/// The integer that `text` writes: an optional sign and at least one decimal
/// digit, nothing before, between or behind. `None` for every other text.
pub open spec fn integer_read(text: Seq<char>) -> Option<int> {
    let signed = text.len() > 0 && (text[0] == '-' || text[0] == '+');
    let digits = if signed {
        text.drop_first()
    } else {
        text
    };
    if digits.len() == 0 || !all_digits(digits) {
        None
    } else if signed && text[0] == '-' {
        Some(-digits_number(digits))
    } else {
        Some(digits_number(digits))
    }
}

fn value_of_digit(c: char) -> (r: Option<u8>)
    ensures
        match r {
            Some(d) => d == digit_value(c) && d <= 9,
            None => digit_value(c) == -1,
        },
{
    if c == '0' {
        Some(0)
    } else if c == '1' {
        Some(1)
    } else if c == '2' {
        Some(2)
    } else if c == '3' {
        Some(3)
    } else if c == '4' {
        Some(4)
    } else if c == '5' {
        Some(5)
    } else if c == '6' {
        Some(6)
    } else if c == '7' {
        Some(7)
    } else if c == '8' {
        Some(8)
    } else if c == '9' {
        Some(9)
    } else {
        None
    }
}

/// The number that digits write is not negative.
proof fn lemma_digits_number_not_negative(text: Seq<char>)
    requires
        all_digits(text),
    ensures
        0 <= digits_number(text),
    decreases text.len(),
{
    if text.len() > 0 {
        assert(all_digits(text.drop_last())) by {
            assert forall|i: int| 0 <= i < text.drop_last().len() implies digit_value(
                #[trigger] text.drop_last()[i],
            ) >= 0 by {
                assert(text.drop_last()[i] == text[i]);
            }
        }
        lemma_digits_number_not_negative(text.drop_last());
        assert(digit_value(text.last()) >= 0);
    }
}

/// The number that the digits of `chars` from `first` on write, where they are
/// all digits and the number is no more than 2 to the power of 63.
fn magnitude_from(chars: &Vec<char>, first: usize) -> (r: Option<i128>)
    requires
        first <= chars@.len(),
    ensures
        match r {
            Some(value) => all_digits(chars@.skip(first as int)) && value == digits_number(
                chars@.skip(first as int),
            ) && 0 <= value <= 9_223_372_036_854_775_808,
            None => !all_digits(chars@.skip(first as int)) || digits_number(
                chars@.skip(first as int),
            ) > 9_223_372_036_854_775_808,
        },
{
    let ghost digits = chars@.skip(first as int);
    let limit: i128 = 9_223_372_036_854_775_808;
    let mut value: i128 = 0;
    let mut too_large = false;
    let mut i: usize = first;
    while i < chars.len()
        invariant
            first <= i <= chars@.len(),
            digits == chars@.skip(first as int),
            limit == 9_223_372_036_854_775_808,
            all_digits(digits.take(i - first)),
            !too_large ==> value == digits_number(digits.take(i - first)),
            too_large ==> digits_number(digits.take(i - first)) > limit,
            0 <= value <= limit,
        decreases chars@.len() - i,
    {
        let ghost before = digits.take(i - first);
        let ghost now = digits.take(i - first + 1);
        proof {
            assert(now.drop_last() =~= before);
            assert(now.last() == chars@[i as int]);
            assert(digits[i - first] == chars@[i as int]);
            lemma_digits_number_not_negative(before);
        }
        match value_of_digit(chars[i]) {
            None => {
                assert(!all_digits(digits));
                return None;
            },
            Some(d) => {
                proof {
                    assert forall|j: int| 0 <= j < now.len() implies digit_value(
                        #[trigger] now[j],
                    ) >= 0 by {
                        if j < before.len() {
                            assert(now[j] == before[j]);
                        }
                    }
                }
                if !too_large {
                    let next: i128 = value * 10 + (d as i128);
                    if next > limit {
                        too_large = true;
                    } else {
                        value = next;
                    }
                }
            },
        }
        i += 1;
    }
    proof {
        assert(digits.take(i - first) =~= digits);
    }
    if too_large {
        None
    } else {
        Some(value)
    }
}

/// Reads `text` as an integer of 64 bits: `None` where it writes no integer
/// or one that does not fit.
pub fn parse_i64(text: &str) -> (r: Option<i64>)
    ensures
        r == match integer_read(text@) {
            Some(n) => if i64::MIN <= n <= i64::MAX {
                Some(n as i64)
            } else {
                None
            },
            None => None,
        },
{
    let chars = chars_of(text);
    let negative = chars.len() > 0 && chars[0] == '-';
    let signed = chars.len() > 0 && (chars[0] == '-' || chars[0] == '+');
    let first: usize = if signed {
        1
    } else {
        0
    };
    if first == chars.len() {
        return None;
    }
    proof {
        if signed {
            assert(chars@.skip(1) =~= text@.drop_first());
        } else {
            assert(chars@.skip(0) =~= text@);
        }
    }
    match magnitude_from(&chars, first) {
        None => None,
        Some(value) => {
            if negative {
                Some((-value) as i64)
            } else if value == 9_223_372_036_854_775_808 {
                None
            } else {
                Some(value as i64)
            }
        },
    }
}

/// Whether `needle` stands somewhere in `haystack`, character for character.
pub open spec fn occurs_in(needle: Seq<char>, haystack: Seq<char>) -> bool {
    exists|i: int|
        0 <= i <= haystack.len() - needle.len() && #[trigger] haystack.subrange(
            i,
            i + needle.len(),
        ) == needle
}

/// Whether `needle` stands in `haystack` at `at`.
fn stands_at(haystack: &Vec<char>, needle: &Vec<char>, at: usize) -> (r: bool)
    requires
        at + needle@.len() <= haystack@.len(),
    ensures
        r == (haystack@.subrange(at as int, at + needle@.len()) == needle@),
{
    let length = haystack.len();
    let mut j: usize = 0;
    while j < needle.len()
        invariant
            length == haystack@.len(),
            at + needle@.len() <= haystack@.len(),
            j <= needle@.len(),
            forall|k: int| 0 <= k < j ==> haystack@[at + k] == needle@[k],
        decreases needle@.len() - j,
    {
        if haystack[at + j] != needle[j] {
            assert(haystack@.subrange(at as int, at + needle@.len())[j as int] != needle@[j as int]);
            return false;
        }
        j += 1;
    }
    assert(haystack@.subrange(at as int, at + needle@.len()) =~= needle@);
    true
}

/// Whether `needle` stands somewhere in `haystack`. The empty text stands in
/// every text.
pub fn contains_text(haystack: &str, needle: &str) -> (r: bool)
    ensures
        r == occurs_in(needle@, haystack@),
{
    let hay = chars_of(haystack);
    let pin = chars_of(needle);
    if pin.len() > hay.len() {
        return false;
    }
    let last: usize = hay.len() - pin.len();
    let mut i: usize = 0;
    while i < last
        invariant
            hay@ == haystack@,
            pin@ == needle@,
            last == hay@.len() - pin@.len(),
            i <= last,
            forall|k: int| 0 <= k < i ==> #[trigger] hay@.subrange(k, k + pin@.len()) != pin@,
        decreases last - i,
    {
        if stands_at(&hay, &pin, i) {
            return true;
        }
        i += 1;
    }
    stands_at(&hay, &pin, last)
}

/// Whether `a` comes before `b` in the dictionary or is `b`: the order that goes
/// by the first character in which two texts differ, characters by their code
/// points, and puts a text before every longer text that starts with it.
pub open spec fn text_le(a: Seq<char>, b: Seq<char>) -> bool
    decreases a.len(),
{
    if a.len() == 0 {
        true
    } else if b.len() == 0 {
        false
    } else if a[0] != b[0] {
        (a[0] as u32) < (b[0] as u32)
    } else {
        text_le(a.drop_first(), b.drop_first())
    }
}

/// Two characters that differ differ in their code points.
proof fn lemma_code_points_differ(a: char, b: char)
    ensures
        a != b ==> (a as u32) != (b as u32),
{
    assert((a as u32) as char == a);
    assert((b as u32) as char == b);
}

/// Of two texts one comes before the other or is the other.
pub proof fn lemma_text_le_total(a: Seq<char>, b: Seq<char>)
    ensures
        text_le(a, b) || text_le(b, a),
    decreases a.len(),
{
    if a.len() > 0 && b.len() > 0 {
        if a[0] == b[0] {
            lemma_text_le_total(a.drop_first(), b.drop_first());
        } else {
            lemma_code_points_differ(a[0], b[0]);
        }
    }
}

/// What comes before a text that comes before a third comes before the third.
pub proof fn lemma_text_le_transitive(a: Seq<char>, b: Seq<char>, c: Seq<char>)
    requires
        text_le(a, b),
        text_le(b, c),
    ensures
        text_le(a, c),
    decreases a.len(),
{
    if a.len() > 0 && b.len() > 0 && c.len() > 0 {
        if a[0] == b[0] && b[0] == c[0] {
            lemma_text_le_transitive(a.drop_first(), b.drop_first(), c.drop_first());
        } else {
            lemma_code_points_differ(a[0], b[0]);
            lemma_code_points_differ(b[0], c[0]);
            lemma_code_points_differ(a[0], c[0]);
        }
    }
}

fn char_before(a: char, b: char) -> (r: bool)
    ensures
        r == ((a as u32) < (b as u32)),
{
    a < b
}

/// Whether `a` comes before `b` in the dictionary or is `b`.
pub fn text_before_or_same(a: &str, b: &str) -> (r: bool)
    ensures
        r == text_le(a@, b@),
{
    let left = chars_of(a);
    let right = chars_of(b);
    let mut i: usize = 0;
    assert(left@.skip(0) =~= a@ && right@.skip(0) =~= b@);
    while i < left.len() && i < right.len()
        invariant
            left@ == a@,
            right@ == b@,
            i <= left@.len(),
            i <= right@.len(),
            text_le(a@, b@) == text_le(left@.skip(i as int), right@.skip(i as int)),
        decreases left@.len() - i,
    {
        let ghost rest_left = left@.skip(i as int);
        let ghost rest_right = right@.skip(i as int);
        proof {
            assert(rest_left[0] == left@[i as int]);
            assert(rest_right[0] == right@[i as int]);
            assert(rest_left.drop_first() =~= left@.skip(i + 1));
            assert(rest_right.drop_first() =~= right@.skip(i + 1));
        }
        if left[i] != right[i] {
            return char_before(left[i], right[i]);
        }
        i += 1;
    }
    i == left.len()
}

/// The texts that the strings of `strings` hold.
pub open spec fn texts(strings: Seq<String>) -> Seq<Seq<char>> {
    strings.map_values(|s: String| s@)
}

/// The pieces into which the separator cuts the first `k` characters of `text`:
/// one more than there are separators among them, each piece without separator.
pub open spec fn split_upto(text: Seq<char>, separator: char, k: nat) -> Seq<Seq<char>>
    decreases k,
{
    if k == 0 {
        seq![Seq::empty()]
    } else {
        let before = split_upto(text, separator, (k - 1) as nat);
        if text[k - 1] == separator {
            before.push(Seq::empty())
        } else {
            before.update(before.len() - 1, before.last().push(text[k - 1]))
        }
    }
}

/// The pieces into which the separator cuts `text`, as std's `str::split` yields
/// them for a separator of one character.
pub open spec fn split(text: Seq<char>, separator: char) -> Seq<Seq<char>> {
    split_upto(text, separator, text.len())
}

/// The pieces into which the separator cuts `text`.
pub fn split_chars(text: &Vec<char>, separator: char) -> (r: Vec<Vec<char>>)
    ensures
        r@.map_values(|piece: Vec<char>| piece@) == split(text@, separator),
{
    let mut pieces: Vec<Vec<char>> = Vec::new();
    let mut piece: Vec<char> = Vec::new();
    let mut i: usize = 0;
    assert(pieces@.map_values(|piece: Vec<char>| piece@).push(piece@) =~= split_upto(
        text@,
        separator,
        0,
    ));
    while i < text.len()
        invariant
            i <= text@.len(),
            pieces@.map_values(|piece: Vec<char>| piece@).push(piece@) == split_upto(
                text@,
                separator,
                i as nat,
            ),
        decreases text@.len() - i,
    {
        let ghost before = split_upto(text@, separator, i as nat);
        let ghost done = pieces@.map_values(|piece: Vec<char>| piece@);
        assert(before.len() == done.len() + 1);
        assert(before.last() == piece@);
        if text[i] == separator {
            pieces.push(piece);
            piece = Vec::new();
            assert(pieces@.map_values(|piece: Vec<char>| piece@).push(piece@) =~= before.push(
                Seq::empty(),
            ));
        } else {
            piece.push(text[i]);
            assert(done.push(piece@) =~= before.update(
                before.len() - 1,
                before.last().push(text@[i as int]),
            ));
        }
        i += 1;
    }
    pieces.push(piece);
    assert(pieces@.map_values(|piece: Vec<char>| piece@) =~= split(text@, separator));
    pieces
}

/// What a numeral writes is read back as the number it was written for.
pub proof fn lemma_decimal_reads_back(n: nat)
    ensures
        all_digits(decimal(n)),
        digits_number(decimal(n)) == n,
    decreases n,
{
    if n < 10 {
        let numeral = decimal(n);
        assert(numeral.len() == 1 && numeral[0] == digit_char(n as int));
        assert(numeral.drop_last().len() == 0);
        assert(digits_number(numeral.drop_last()) == 0);
        assert(digit_value(digit_char(n as int)) == n);
    } else {
        lemma_decimal_reads_back(n / 10);
        let front = decimal(n / 10);
        let numeral = front.push(digit_char((n % 10) as int));
        assert(numeral.drop_last() =~= front);
        assert(numeral.last() == digit_char((n % 10) as int));
        assert(digit_value(digit_char((n % 10) as int)) == n % 10);
        assert forall|i: int| 0 <= i < numeral.len() implies digit_value(#[trigger] numeral[i])
            >= 0 by {
            if i < front.len() {
                assert(numeral[i] == front[i]);
            }
        }
    }
}

/// Two numbers with the same numeral are the same number.
pub proof fn lemma_decimal_injective(a: nat, b: nat)
    requires
        decimal(a) == decimal(b),
    ensures
        a == b,
{
    lemma_decimal_reads_back(a);
    lemma_decimal_reads_back(b);
}

} // verus!
