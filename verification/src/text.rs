//! Text as sequences of characters: numerals, splitting, trimming and comparing.

use vstd::prelude::*;

verus! {

/// `String::push` appends one character.
pub assume_specification[ String::push ](buffer: &mut String, letter: char)
    ensures
        final(buffer)@ == old(buffer)@.push(letter),
;

/// What `{:?}` prints for a piece of text: the text in double quotes, with the escapes that the
/// standard library chooses.
pub uninterp spec fn quoted(text: Seq<char>) -> Seq<char>;

/// Formats text with `{:?}`. The result is named [`quoted`]; which characters are escaped, and
/// how, is left to the standard library and is not stated.
#[verifier::external_body]
pub(crate) fn quote(text: &str) -> (result: String)
    ensures
        result@ == quoted(text@),
{
    format!("{:?}", text)
}

/// The contents of each of a sequence of character vectors.
pub open spec fn contents(pieces: Seq<Vec<char>>) -> Seq<Seq<char>> {
    Seq::new(pieces.len(), |i: int| pieces[i]@)
}

/// The characters of a piece of text, in order.
pub fn characters(text: &str) -> (result: Vec<char>)
    ensures
        result@ == text@,
{
    let mut result: Vec<char> = Vec::new();
    let length = text.unicode_len();
    let mut i: usize = 0;
    while i < length
        invariant
            i <= length,
            length == text@.len(),
            result@ == text@.take(i as int),
        decreases length - i,
    {
        result.push(text.get_char(i));
        assert(text@.take(i + 1) =~= text@.take(i as int).push(text@[i as int]));
        i += 1;
    }
    assert(text@.take(length as int) =~= text@);
    result
}

/// The text made of the given characters.
pub fn text_of(letters: &Vec<char>) -> (result: String)
    ensures
        result@ == letters@,
{
    text_between(letters, 0, letters.len())
}

/// The text made of the characters from `start` up to, and without, `end`.
pub fn text_between(letters: &Vec<char>, start: usize, end: usize) -> (result: String)
    requires
        start <= end <= letters@.len(),
    ensures
        result@ == letters@.subrange(start as int, end as int),
{
    let mut result = String::new();
    let mut i: usize = start;
    while i < end
        invariant
            start <= i <= end <= letters@.len(),
            result@ == letters@.subrange(start as int, i as int),
        decreases end - i,
    {
        result.push(letters[i]);
        assert(letters@.subrange(start as int, i + 1) =~= letters@.subrange(
            start as int,
            i as int,
        ).push(letters@[i as int]));
        i += 1;
    }
    result
}

/// Whether two pieces of text hold the same characters.
pub fn same_text(left: &str, right: &str) -> (result: bool)
    ensures
        result == (left@ == right@),
{
    left.to_owned() == right.to_owned()
}

/// Whether two optional pieces of text are both missing or hold the same characters.
pub fn same_optional_text(left: &Option<String>, right: &Option<String>) -> (result: bool)
    ensures
        result == (left.deep_view() == right.deep_view()),
{
    match (left, right) {
        (Some(left), Some(right)) => same_text(left.as_str(), right.as_str()),
        (None, None) => true,
        _ => false,
    }
}

/// Two pieces of text, one behind the other.
pub fn join2(first: &str, second: &str) -> (result: String)
    ensures
        result@ == first@ + second@,
        inert(first@) && inert(second@) ==> inert(result@),
{
    proof {
        lemma_inert_join(first@, second@);
    }
    let mut result = first.to_owned();
    result.append(second);
    result
}

/// Three pieces of text, one behind the other.
pub fn join3(first: &str, second: &str, third: &str) -> (result: String)
    ensures
        result@ == first@ + second@ + third@,
        inert(first@) && inert(second@) && inert(third@) ==> inert(result@),
{
    let mut result = join2(first, second);
    proof {
        lemma_inert_join(result@, third@);
    }
    result.append(third);
    result
}

/// Four pieces of text, one behind the other.
pub fn join4(first: &str, second: &str, third: &str, fourth: &str) -> (result: String)
    ensures
        result@ == first@ + second@ + third@ + fourth@,
        inert(first@) && inert(second@) && inert(third@) && inert(fourth@) ==> inert(result@),
{
    let mut result = join3(first, second, third);
    proof {
        lemma_inert_join(result@, fourth@);
    }
    result.append(fourth);
    result
}

/// The pieces with `separator` between each two of them.
pub open spec fn joined(pieces: Seq<Seq<char>>, separator: Seq<char>) -> Seq<char>
    decreases pieces.len(),
{
    if pieces.len() == 0 {
        Seq::empty()
    } else if pieces.len() == 1 {
        pieces[0]
    } else {
        joined(pieces.drop_last(), separator) + separator + pieces.last()
    }
}

/// Joins pieces of text with a separator between each two of them.
pub fn join_all(pieces: &Vec<String>, separator: &str) -> (result: String)
    ensures
        result@ == joined(pieces.deep_view(), separator@),
        all_inert(pieces.deep_view()) && inert(separator@) ==> inert(result@),
{
    proof {
        lemma_inert_joined(pieces.deep_view(), separator@);
    }
    let mut result = String::new();
    let mut i: usize = 0;
    while i < pieces.len()
        invariant
            i <= pieces.len(),
            result@ == joined(pieces.deep_view().take(i as int), separator@),
        decreases pieces.len() - i,
    {
        if i > 0 {
            result.append(separator);
        }
        result.append(pieces[i].as_str());
        proof {
            let all = pieces.deep_view();
            assert(all.take(i + 1).drop_last() =~= all.take(i as int));
            assert(all.take(i + 1).last() == pieces[i as int]@);
            if i == 0 {
                assert(result@ =~= pieces[0]@);
            }
        }
        i += 1;
    }
    assert(pieces.deep_view().take(i as int) =~= pieces.deep_view());
    result
}

/// Puts a text at the end of a list.
pub fn push_text(list: &mut Vec<String>, item: &str)
    ensures
        final(list).deep_view() == old(list).deep_view().push(item@),
        all_inert(old(list).deep_view()) && inert(item@) ==> all_inert(final(list).deep_view()),
{
    let ghost before = list.deep_view();
    list.push(item.to_owned());
    assert(list.deep_view() =~= before.push(item@));
    proof {
        lemma_inert_list_push(before, item@);
    }
}

/// A list of one text.
pub fn list1(first: &str) -> (result: Vec<String>)
    ensures
        result.deep_view() == seq![first@],
        inert(first@) ==> all_inert(result.deep_view()),
{
    let mut result: Vec<String> = Vec::new();
    assert(result.deep_view() =~= Seq::<Seq<char>>::empty());
    push_text(&mut result, first);
    result
}

/// A list of two texts.
pub fn list2(first: &str, second: &str) -> (result: Vec<String>)
    ensures
        result.deep_view() == seq![first@, second@],
        inert(first@) && inert(second@) ==> all_inert(result.deep_view()),
{
    let mut result: Vec<String> = list1(first);
    push_text(&mut result, second);
    result
}

/// A list of three texts.
pub fn list3(first: &str, second: &str, third: &str) -> (result: Vec<String>)
    ensures
        result.deep_view() == seq![first@, second@, third@],
        inert(first@) && inert(second@) && inert(third@) ==> all_inert(result.deep_view()),
{
    let mut result: Vec<String> = list2(first, second);
    push_text(&mut result, third);
    result
}

/// A list with a text after it, unless it holds that text already.
pub open spec fn with_new(list: Seq<Seq<char>>, item: Seq<char>) -> Seq<Seq<char>> {
    if list.contains(item) {
        list
    } else {
        list.push(item)
    }
}

/// Puts a text at the end of a list, unless the list holds it already.
pub fn push_new(list: &mut Vec<String>, item: String)
    ensures
        final(list).deep_view() == with_new(old(list).deep_view(), item@),
        all_inert(old(list).deep_view()) && inert(item@) ==> all_inert(final(list).deep_view()),
{
    proof {
        lemma_inert_list_push(list.deep_view(), item@);
    }
    let ghost all = list.deep_view();
    let mut i: usize = 0;
    while i < list.len()
        invariant
            i <= list.len(),
            list.deep_view() == all,
            list.deep_view() == old(list).deep_view(),
            forall|j: int| 0 <= j < i ==> all[j] != item@,
        decreases list.len() - i,
    {
        if same_text(list[i].as_str(), item.as_str()) {
            assert(all[i as int] == item@);
            return;
        }
        i += 1;
    }
    list.push(item);
    assert(list.deep_view() =~= all.push(item@));
}

/// The character that stands for a digit below sixteen.
pub open spec fn digit(value: nat) -> char {
    if value < 10 {
        (value + '0' as nat) as char
    } else {
        (value - 10 + 'a' as nat) as char
    }
}

/// The numeral of `value` in a base of at most sixteen, without leading zeros.
pub open spec fn numeral(value: nat, base: nat) -> Seq<char>
    decreases value,
{
    if base < 2 || value < base {
        seq![digit(value)]
    } else {
        proof {
            vstd::arithmetic::div_mod::lemma_div_decreases(value as int, base as int);
        }
        numeral(value / base, base).push(digit(value % base))
    }
}

/// The decimal numeral of `value`.
pub open spec fn decimal(value: nat) -> Seq<char> {
    numeral(value, 10)
}

/// The decimal numeral of an integer, with a minus sign where it is negative.
pub open spec fn signed_decimal(value: int) -> Seq<char> {
    if value < 0 {
        seq!['-'] + decimal((-value) as nat)
    } else {
        decimal(value as nat)
    }
}

fn digit_character(value: u8) -> (result: char)
    requires
        value < 16,
    ensures
        result == digit(value as nat),
{
    if value < 10 {
        (value + 48) as char
    } else {
        (value - 10 + 97) as char
    }
}

/// Writes a number in a base of at most sixteen.
pub fn numeral_text(value: u64, base: u64) -> (result: String)
    requires
        2 <= base <= 16,
    ensures
        result@ == numeral(value as nat, base as nat),
        inert(result@),
    decreases value,
{
    proof {
        lemma_inert_numeral(value as nat, base as nat);
    }
    if value < base {
        let mut result = String::new();
        result.push(digit_character(value as u8));
        assert(result@ =~= seq![digit(value as nat)]);
        result
    } else {
        proof {
            vstd::arithmetic::div_mod::lemma_div_decreases(value as int, base as int);
        }
        let mut result = numeral_text(value / base, base);
        result.push(digit_character((value % base) as u8));
        result
    }
}

/// Writes a number in decimal.
pub fn decimal_text(value: u64) -> (result: String)
    ensures
        result@ == decimal(value as nat),
        inert(result@),
{
    numeral_text(value, 10)
}

/// Writes an integer in decimal, with a minus sign where it is negative.
pub fn signed_decimal_text(value: i32) -> (result: String)
    ensures
        result@ == signed_decimal(value as int),
        inert(result@),
{
    if value < 0 {
        let mut result = String::new();
        result.push('-');
        assert(result@ =~= seq!['-']);
        let magnitude: i64 = -(value as i64);
        let digits = decimal_text(magnitude as u64);
        proof {
            lemma_inert_join(result@, digits@);
        }
        result.append(digits.as_str());
        result
    } else {
        decimal_text(value as u64)
    }
}

/// Whether every character is a decimal digit.
pub open spec fn all_digits(text: Seq<char>) -> bool {
    forall|i: int| 0 <= i < text.len() ==> '0' <= #[trigger] text[i] <= '9'
}

/// The value of a decimal numeral; leading zeros do not count.
pub open spec fn decimal_value(text: Seq<char>) -> nat
    decreases text.len(),
{
    if text.len() == 0 {
        0
    } else {
        decimal_value(text.drop_last()) * 10 + (text.last() as nat - '0' as nat) as nat
    }
}

/// Whether every character is a decimal digit.
pub fn digits_only(letters: &Vec<char>) -> (result: bool)
    ensures
        result == all_digits(letters@),
{
    let mut i: usize = 0;
    while i < letters.len()
        invariant
            i <= letters.len(),
            all_digits(letters@.take(i as int)),
        decreases letters.len() - i,
    {
        let letter = letters[i];
        if letter < '0' || letter > '9' {
            assert(letters@[i as int] == letter);
            return false;
        }
        assert(letters@.take(i + 1) =~= letters@.take(i as int).push(letter));
        i += 1;
    }
    assert(letters@.take(i as int) =~= letters@);
    true
}

/// Reads a decimal numeral; `None` where its value is above `limit`.
pub fn bounded_decimal(letters: &Vec<char>, limit: u64) -> (result: Option<u64>)
    requires
        all_digits(letters@),
        limit < 0x1_0000_0000_0000,
    ensures
        result == (if decimal_value(letters@) <= limit {
            Some(decimal_value(letters@) as u64)
        } else {
            None::<u64>
        }),
{
    let mut value: u64 = 0;
    let mut i: usize = 0;
    while i < letters.len()
        invariant
            i <= letters.len(),
            all_digits(letters@),
            limit < 0x1_0000_0000_0000,
            value <= limit,
            value == decimal_value(letters@.take(i as int)),
        decreases letters.len() - i,
    {
        let letter = letters[i];
        let amount: u64 = letter as u64 - 48;
        let next: u64 = value * 10 + amount;
        proof {
            assert(letters@.take(i + 1).drop_last() =~= letters@.take(i as int));
            assert(next == decimal_value(letters@.take(i + 1)));
        }
        if next > limit {
            proof {
                lemma_decimal_value_grows(letters@, i + 1);
            }
            return None;
        }
        value = next;
        i += 1;
    }
    assert(letters@.take(i as int) =~= letters@);
    Some(value)
}

proof fn lemma_decimal_value_grows(text: Seq<char>, count: int)
    requires
        0 <= count <= text.len(),
        all_digits(text),
    ensures
        decimal_value(text.take(count)) <= decimal_value(text),
    decreases text.len() - count,
{
    if count < text.len() {
        lemma_decimal_value_grows(text, count + 1);
        assert(text.take(count + 1).drop_last() =~= text.take(count));
    } else {
        assert(text.take(count) =~= text);
    }
}

/// The pieces of a text between occurrences of a separator.
pub open spec fn split_on(text: Seq<char>, separator: char) -> Seq<Seq<char>>
    decreases text.len(),
{
    if text.len() == 0 {
        seq![Seq::empty()]
    } else {
        let before = split_on(text.drop_last(), separator);
        if text.last() == separator {
            before.push(Seq::empty())
        } else {
            before.drop_last().push(before.last().push(text.last()))
        }
    }
}

pub proof fn lemma_split_is_not_empty(text: Seq<char>, separator: char)
    ensures
        split_on(text, separator).len() > 0,
    decreases text.len(),
{
    if text.len() > 0 {
        lemma_split_is_not_empty(text.drop_last(), separator);
    }
}

/// Splits characters at each occurrence of a separator.
pub fn split(letters: &Vec<char>, separator: char) -> (result: Vec<Vec<char>>)
    ensures
        contents(result@) == split_on(letters@, separator),
{
    let mut pieces: Vec<Vec<char>> = Vec::new();
    let mut current: Vec<char> = Vec::new();
    let mut i: usize = 0;
    assert(contents(pieces@).push(current@) =~= split_on(letters@.take(0), separator));
    while i < letters.len()
        invariant
            i <= letters.len(),
            contents(pieces@).push(current@) == split_on(letters@.take(i as int), separator),
        decreases letters.len() - i,
    {
        let letter = letters[i];
        let ghost before = contents(pieces@);
        let ghost held = current@;
        assert(letters@.take(i + 1).drop_last() =~= letters@.take(i as int));
        if letter == separator {
            pieces.push(current);
            current = Vec::new();
            assert(contents(pieces@) =~= before.push(held));
            assert(current@ =~= Seq::empty());
        } else {
            current.push(letter);
            assert(before.push(held).drop_last() =~= before);
        }
        i += 1;
    }
    assert(letters@.take(i as int) =~= letters@);
    let ghost before = contents(pieces@);
    let ghost held = current@;
    pieces.push(current);
    assert(contents(pieces@) =~= before.push(held));
    pieces
}

/// A piece of text without the carriage return at its end, where it has one.
pub open spec fn without_return(piece: Seq<char>) -> Seq<char> {
    if piece.len() > 0 && piece.last() == '\r' {
        piece.drop_last()
    } else {
        piece
    }
}

/// The lines of a text. A line feed, or a carriage return and a line feed, ends a line; after the
/// last of them no empty line follows.
pub open spec fn lines_of(text: Seq<char>) -> Seq<Seq<char>> {
    let pieces = split_on(text, '\n');
    let ended = Seq::new((pieces.len() - 1) as nat, |i: int| without_return(pieces[i]));
    if pieces.last().len() == 0 {
        ended
    } else {
        ended.push(pieces.last())
    }
}

/// Breaks a text into its lines.
pub fn split_lines(text: &str) -> (result: Vec<String>)
    ensures
        result.deep_view() == lines_of(text@),
        lined(text@) ==> all_inert(result.deep_view()),
{
    proof {
        lemma_lines_are_inert(text@);
    }
    let letters = characters(text);
    let pieces = split(&letters, '\n');
    let ghost all = contents(pieces@);
    proof {
        lemma_split_is_not_empty(text@, '\n');
    }
    assert(all.len() == pieces.len());
    let last: usize = pieces.len() - 1;
    let ghost ended = Seq::new((all.len() - 1) as nat, |i: int| without_return(all[i]));
    let mut result: Vec<String> = Vec::new();
    assert(result.deep_view() =~= ended.take(0));
    let mut i: usize = 0;
    while i < last
        invariant
            i <= last,
            last + 1 == pieces.len(),
            all == contents(pieces@),
            ended == Seq::new((all.len() - 1) as nat, |i: int| without_return(all[i])),
            result.deep_view() == ended.take(i as int),
        decreases last - i,
    {
        let piece = &pieces[i];
        assert(piece@ == all[i as int]);
        let length = piece.len();
        let end: usize = if length > 0 && piece[length - 1] == '\r' {
            length - 1
        } else {
            length
        };
        let shown = text_between(piece, 0, end);
        assert(shown@ =~= without_return(all[i as int]));
        push_text(&mut result, shown.as_str());
        assert(ended.take(i + 1) =~= ended.take(i as int).push(ended[i as int]));
        i += 1;
    }
    assert(ended.take(i as int) =~= ended);
    assert(pieces[last as int]@ == all.last());
    if pieces[last].len() > 0 {
        push_text(&mut result, text_of(&pieces[last]).as_str());
    }
    result
}

/// A text without the run of `mark` at its end.
pub open spec fn trim_end(text: Seq<char>, mark: char) -> Seq<char>
    decreases text.len(),
{
    if text.len() > 0 && text.last() == mark {
        trim_end(text.drop_last(), mark)
    } else {
        text
    }
}

/// A text without the run of `mark` at its start.
pub open spec fn trim_start(text: Seq<char>, mark: char) -> Seq<char>
    decreases text.len(),
{
    if text.len() > 0 && text.first() == mark {
        trim_start(text.drop_first(), mark)
    } else {
        text
    }
}

/// Removes the run of `mark` at the end of a text.
pub fn trimmed_end(text: &str, mark: char) -> (result: String)
    ensures
        result@ == trim_end(text@, mark),
{
    let letters = characters(text);
    let mut end: usize = letters.len();
    assert(letters@.take(end as int) =~= letters@);
    while end > 0 && letters[end - 1] == mark
        invariant
            end <= letters.len(),
            trim_end(letters@.take(end as int), mark) == trim_end(letters@, mark),
        decreases end,
    {
        assert(letters@.take(end as int).drop_last() =~= letters@.take(end - 1));
        end -= 1;
    }
    assert(letters@.subrange(0, end as int) =~= letters@.take(end as int));
    text_between(&letters, 0, end)
}

/// Removes the run of `mark` at the start of a text.
pub fn trimmed_start(text: &str, mark: char) -> (result: String)
    ensures
        result@ == trim_start(text@, mark),
{
    let letters = characters(text);
    let mut start: usize = 0;
    assert(letters@.skip(0) =~= letters@);
    while start < letters.len() && letters[start] == mark
        invariant
            start <= letters.len(),
            trim_start(letters@.skip(start as int), mark) == trim_start(letters@, mark),
        decreases letters.len() - start,
    {
        assert(letters@.skip(start as int).drop_first() =~= letters@.skip(start + 1));
        start += 1;
    }
    assert(letters@.subrange(start as int, letters@.len() as int) =~= letters@.skip(start as int));
    text_between(&letters, start, letters.len())
}

/// The lower-case form of an ASCII letter; every other character is itself.
pub open spec fn lower_letter(letter: char) -> char {
    if 'A' <= letter <= 'Z' {
        (letter as nat + 32) as char
    } else {
        letter
    }
}

/// A text with its ASCII letters in lower case.
pub open spec fn lower(text: Seq<char>) -> Seq<char> {
    Seq::new(text.len(), |i: int| lower_letter(text[i]))
}

fn lower_character(letter: char) -> (result: char)
    ensures
        result == lower_letter(letter),
{
    if 'A' <= letter && letter <= 'Z' {
        let code: u8 = letter as u8;
        (code + 32) as char
    } else {
        letter
    }
}

/// Writes the ASCII letters of a text in lower case.
pub fn lower_text(text: &str) -> (result: String)
    ensures
        result@ == lower(text@),
{
    let letters = characters(text);
    let mut result = String::new();
    let mut i: usize = 0;
    while i < letters.len()
        invariant
            i <= letters.len(),
            result@ == lower(letters@.take(i as int)),
        decreases letters.len() - i,
    {
        result.push(lower_character(letters[i]));
        assert(lower(letters@.take(i + 1)) =~= lower(letters@.take(i as int)).push(
            lower_letter(letters@[i as int]),
        ));
        i += 1;
    }
    assert(letters@.take(i as int) =~= letters@);
    result
}

/// Whether `suffix` stands at the end of `text`.
pub open spec fn ends_with(text: Seq<char>, suffix: Seq<char>) -> bool {
    text.len() >= suffix.len() && text.skip(text.len() - suffix.len()) == suffix
}

/// Whether a text ends with another.
pub fn has_suffix(text: &str, suffix: &str) -> (result: bool)
    ensures
        result == ends_with(text@, suffix@),
{
    let letters = characters(text);
    let tail = characters(suffix);
    if letters.len() < tail.len() {
        return false;
    }
    let end = text_between(&letters, letters.len() - tail.len(), letters.len());
    assert(end@ =~= text@.skip(text@.len() - suffix@.len()));
    same_text(end.as_str(), suffix)
}

/// How many bytes a text takes in UTF-8.
pub open spec fn byte_len(text: Seq<char>) -> nat {
    vstd::utf8::encode_utf8(text).len()
}

/// Counts the bytes of a text.
pub fn byte_length(text: &str) -> (result: usize)
    ensures
        result == byte_len(text@),
{
    text.as_bytes().len()
}

/// Whether a text holds a character.
pub fn holds(letters: &Vec<char>, letter: char) -> (result: bool)
    ensures
        result == letters@.contains(letter),
{
    let mut i: usize = 0;
    while i < letters.len()
        invariant
            i <= letters.len(),
            forall|j: int| 0 <= j < i ==> letters@[j] != letter,
        decreases letters.len() - i,
    {
        if letters[i] == letter {
            return true;
        }
        i += 1;
    }
    false
}

/// Whether a character is a control character: a code point below the space, the delete
/// character, or one of the thirty-two that follow it.
pub open spec fn is_control(letter: char) -> bool {
    letter as nat <= 0x1f || 0x7f <= letter as nat <= 0x9f
}

/// Whether a character is a control character.
pub fn control_character(letter: char) -> (result: bool)
    ensures
        result == is_control(letter),
{
    let code: u32 = letter as u32;
    code <= 0x1f || (0x7f <= code && code <= 0x9f)
}

/// Whether a text holds no control character, so that it can neither end a line nor change the
/// state of a terminal.
pub open spec fn inert(shown: Seq<char>) -> bool {
    forall|i: int| 0 <= i < shown.len() ==> !is_control(#[trigger] shown[i])
}

/// Whether every text of a list is inert.
pub open spec fn all_inert(list: Seq<Seq<char>>) -> bool {
    forall|i: int| 0 <= i < list.len() ==> inert(#[trigger] list[i])
}

/// Whether a text holds no control character but line feeds.
pub open spec fn lined(shown: Seq<char>) -> bool {
    forall|i: int|
        0 <= i < shown.len() && is_control(#[trigger] shown[i]) ==> shown[i] == '\n'
}

pub proof fn lemma_inert_join(first: Seq<char>, second: Seq<char>)
    ensures
        inert(first) && inert(second) ==> inert(first + second),
{
    if inert(first) && inert(second) {
        assert forall|i: int| 0 <= i < (first + second).len() implies !is_control(
            #[trigger] (first + second)[i],
        ) by {
            if i < first.len() {
                assert((first + second)[i] == first[i]);
            } else {
                assert((first + second)[i] == second[i - first.len()]);
            }
        }
    }
}

pub proof fn lemma_inert_push(shown: Seq<char>, letter: char)
    ensures
        inert(shown) && !is_control(letter) ==> inert(shown.push(letter)),
{
    if inert(shown) && !is_control(letter) {
        assert forall|i: int| 0 <= i < shown.push(letter).len() implies !is_control(
            #[trigger] shown.push(letter)[i],
        ) by {
            if i < shown.len() {
                assert(shown.push(letter)[i] == shown[i]);
            }
        }
    }
}

pub proof fn lemma_inert_list_push(list: Seq<Seq<char>>, item: Seq<char>)
    ensures
        all_inert(list) && inert(item) ==> all_inert(list.push(item)),
{
    if all_inert(list) && inert(item) {
        assert forall|i: int| 0 <= i < list.push(item).len() implies inert(
            #[trigger] list.push(item)[i],
        ) by {
            if i < list.len() {
                assert(list.push(item)[i] == list[i]);
            }
        }
    }
}

proof fn lemma_inert_digit(value: nat)
    requires
        value < 16,
    ensures
        !is_control(digit(value)),
{
}

/// Numerals are inert.
pub proof fn lemma_inert_numeral(value: nat, base: nat)
    requires
        2 <= base <= 16,
    ensures
        inert(numeral(value, base)),
    decreases value,
{
    if value >= base {
        vstd::arithmetic::div_mod::lemma_div_decreases(value as int, base as int);
        vstd::arithmetic::div_mod::lemma_mod_bound(value as int, base as int);
        lemma_inert_numeral(value / base, base);
        lemma_inert_digit(value % base);
        lemma_inert_push(numeral(value / base, base), digit(value % base));
    } else {
        lemma_inert_digit(value);
    }
}

/// What is joined of inert texts is inert.
pub proof fn lemma_inert_joined(pieces: Seq<Seq<char>>, separator: Seq<char>)
    ensures
        all_inert(pieces) && inert(separator) ==> inert(joined(pieces, separator)),
    decreases pieces.len(),
{
    if all_inert(pieces) && inert(separator) && pieces.len() > 1 {
        let front = pieces.drop_last();
        assert forall|i: int| 0 <= i < front.len() implies inert(#[trigger] front[i]) by {
            assert(front[i] == pieces[i]);
        }
        assert(inert(pieces[pieces.len() - 1]));
        lemma_inert_joined(front, separator);
        lemma_inert_join(joined(front, separator), separator);
        lemma_inert_join(joined(front, separator) + separator, pieces.last());
    }
}

proof fn lemma_split_pieces_are_inert(shown: Seq<char>)
    requires
        lined(shown),
    ensures
        all_inert(split_on(shown, '\n')),
    decreases shown.len(),
{
    if shown.len() > 0 {
        let front = shown.drop_last();
        assert(lined(front)) by {
            assert forall|i: int| 0 <= i < front.len() && is_control(
                #[trigger] front[i],
            ) implies front[i] == '\n' by {
                assert(front[i] == shown[i]);
            }
        }
        lemma_split_pieces_are_inert(front);
        lemma_split_is_not_empty(front, '\n');
        let before = split_on(front, '\n');
        assert(shown[shown.len() - 1] == shown.last());
        if shown.last() == '\n' {
            lemma_inert_list_push(before, Seq::empty());
        } else {
            assert(inert(before[before.len() - 1]));
            lemma_inert_push(before.last(), shown.last());
            assert(all_inert(before.drop_last())) by {
                assert forall|i: int| 0 <= i < before.drop_last().len() implies inert(
                    #[trigger] before.drop_last()[i],
                ) by {
                    assert(before.drop_last()[i] == before[i]);
                }
            }
            lemma_inert_list_push(before.drop_last(), before.last().push(shown.last()));
        }
    }
}

/// The lines of a text without control characters but line feeds are inert.
pub proof fn lemma_lines_are_inert(shown: Seq<char>)
    ensures
        lined(shown) ==> all_inert(lines_of(shown)),
{
    if lined(shown) {
        lemma_split_pieces_are_inert(shown);
        lemma_split_is_not_empty(shown, '\n');
        let pieces = split_on(shown, '\n');
        let lines = lines_of(shown);
        assert forall|i: int| 0 <= i < lines.len() implies inert(#[trigger] lines[i]) by {
            assert(inert(pieces[i]));
            if i < pieces.len() - 1 {
                let piece = pieces[i];
                assert(lines[i] == without_return(piece));
                assert forall|j: int| 0 <= j < lines[i].len() implies !is_control(
                    #[trigger] lines[i][j],
                ) by {
                    assert(lines[i][j] == piece[j]);
                }
            }
        }
    }
}

/// Whether a phrase stands somewhere in a text.
pub open spec fn mentions(shown: Seq<char>, phrase: Seq<char>) -> bool {
    exists|i: int|
        0 <= i <= shown.len() - phrase.len() && #[trigger] shown.subrange(i, i + phrase.len())
            == phrase
}

} // verus!
