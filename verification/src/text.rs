//! Text and byte helpers shared by the policy modules.
//!
//! Names, identifiers and documents are compared by content: a `&str` or a
//! `String` stands for the sequence of its characters, and its length on disk
//! is the length of its UTF-8 encoding.

use vstd::prelude::*;
use vstd::utf8::*;

verus! {

/// Two texts have the same UTF-8 encoding exactly when they are the same text.
pub proof fn lemma_utf8_injective(left: Seq<char>, right: Seq<char>)
    ensures
        (encode_utf8(left) == encode_utf8(right)) <==> (left == right),
{
    encode_utf8_decode_utf8(left);
    encode_utf8_decode_utf8(right);
}

/// Encoding distributes over concatenation.
pub proof fn lemma_utf8_concat(left: Seq<char>, right: Seq<char>)
    ensures
        encode_utf8(left + right) == encode_utf8(left) + encode_utf8(right),
    decreases left.len(),
{
    if left.len() == 0 {
        assert(left + right =~= right);
        assert(encode_utf8(left) + encode_utf8(right) =~= encode_utf8(right));
    } else {
        lemma_utf8_concat(left.drop_first(), right);
        assert((left + right).drop_first() =~= left.drop_first() + right);
        assert(encode_utf8(left + right) =~= encode_utf8(left) + encode_utf8(right));
    }
}

/// Whether two byte strings are equal.
pub fn same_bytes(left: &[u8], right: &[u8]) -> (same: bool)
    ensures
        same == (left@ == right@),
{
    if left.len() != right.len() {
        return false;
    }
    let mut i: usize = 0;
    while i < left.len()
        invariant
            i <= left@.len(),
            left@.len() == right@.len(),
            forall|j: int| 0 <= j < i ==> left@[j] == right@[j],
        decreases left@.len() - i,
    {
        if left[i] != right[i] {
            return false;
        }
        i += 1;
    }
    assert(left@ =~= right@);
    true
}

/// A copy of a byte string.
pub fn copy_bytes(bytes: &[u8]) -> (copy: Vec<u8>)
    ensures
        copy@ == bytes@,
{
    let mut copy: Vec<u8> = Vec::new();
    let mut i: usize = 0;
    while i < bytes.len()
        invariant
            i <= bytes@.len(),
            copy@ == bytes@.take(i as int),
        decreases bytes@.len() - i,
    {
        assert(bytes@.take(i + 1) =~= bytes@.take(i as int).push(bytes@[i as int]));
        copy.push(bytes[i]);
        i += 1;
    }
    assert(bytes@.take(i as int) =~= bytes@);
    copy
}

/// Whether two texts are equal.
pub fn same_text(left: &str, right: &str) -> (same: bool)
    ensures
        same == (left@ == right@),
{
    proof {
        lemma_utf8_injective(left@, right@);
    }
    same_bytes(left.as_bytes(), right.as_bytes())
}

/// The length of a text in bytes.
pub fn byte_len(text: &str) -> (len: usize)
    ensures
        len == encode_utf8(text@).len(),
{
    text.as_bytes().len()
}

/// The characters of a text.
pub fn chars_of(text: &str) -> (chars: Vec<char>)
    ensures
        chars@ == text@,
{
    let mut out: Vec<char> = Vec::new();
    for c in it: text.chars()
        invariant
            it.seq() == text@,
            out@ == text@.take(it.index()),
    {
        out.push(c);
    }
    assert(text@.take(text@.len() as int) =~= text@);
    out
}


/// `text` without the leading `prefix`, or `None` when it does not start with it.
pub open spec fn without_prefix(text: Seq<char>, prefix: Seq<char>) -> Option<Seq<char>> {
    if prefix.len() <= text.len() && text.take(prefix.len() as int) == prefix {
        Some(text.skip(prefix.len() as int))
    } else {
        None
    }
}

/// `text` without the trailing `suffix`, or `None` when it does not end with it.
pub open spec fn without_suffix(text: Seq<char>, suffix: Seq<char>) -> Option<Seq<char>> {
    if suffix.len() <= text.len() && text.skip(text.len() - suffix.len()) == suffix {
        Some(text.take(text.len() - suffix.len()))
    } else {
        None
    }
}

/// The view of an optional borrowed text.
pub open spec fn optional_text(text: Option<&str>) -> Option<Seq<char>> {
    match text {
        Some(text) => Some(text@),
        None => None,
    }
}

/// The view of an optional owned text.
pub open spec fn optional_string(text: Option<String>) -> Option<Seq<char>> {
    match text {
        Some(text) => Some(text@),
        None => None,
    }
}

/// Strips a leading `prefix`.
pub fn strip_prefix<'a>(text: &'a str, prefix: &str) -> (rest: Option<&'a str>)
    ensures
        optional_text(rest) == without_prefix(text@, prefix@),
{
    let n = prefix.unicode_len();
    let len = text.unicode_len();
    if len < n {
        return None;
    }
    let head = text.substring_char(0, n);
    assert(head@ =~= text@.take(n as int));
    if same_text(head, prefix) {
        let rest = text.substring_char(n, len);
        assert(rest@ =~= text@.skip(n as int));
        Some(rest)
    } else {
        None
    }
}

/// Strips a trailing `suffix`.
pub fn strip_suffix<'a>(text: &'a str, suffix: &str) -> (rest: Option<&'a str>)
    ensures
        optional_text(rest) == without_suffix(text@, suffix@),
{
    let n = suffix.unicode_len();
    let len = text.unicode_len();
    if len < n {
        return None;
    }
    let cut: usize = len - n;
    let tail = text.substring_char(cut, len);
    assert(tail@ =~= text@.skip(cut as int));
    if same_text(tail, suffix) {
        let rest = text.substring_char(0, cut);
        assert(rest@ =~= text@.take(cut as int));
        Some(rest)
    } else {
        None
    }
}

/// The position of the first `wanted` in `chars`, counted in characters.
pub fn find_char(chars: &Vec<char>, wanted: char) -> (at: Option<usize>)
    ensures
        match at {
            Some(i) => i < chars@.len() && chars@[i as int] == wanted && forall|j: int|
                0 <= j < i ==> chars@[j] != wanted,
            None => !chars@.contains(wanted),
        },
{
    let mut i: usize = 0;
    while i < chars.len()
        invariant
            i <= chars@.len(),
            forall|j: int| 0 <= j < i ==> chars@[j] != wanted,
        decreases chars@.len() - i,
    {
        if chars[i] == wanted {
            return Some(i);
        }
        i += 1;
    }
    None
}

/// `text` split around its first `separator`, or `None` when it has none.
pub open spec fn split_around(text: Seq<char>, separator: char) -> Option<(Seq<char>, Seq<char>)> {
    if text.contains(separator) {
        let at = text.index_of_first(separator)->0;
        Some((text.take(at), text.skip(at + 1)))
    } else {
        None
    }
}

/// Splits a text around its first `separator`.
pub fn split_once<'a>(text: &'a str, separator: char) -> (parts: Option<(&'a str, &'a str)>)
    ensures
        match parts {
            Some((before, after)) => split_around(text@, separator) == Some((before@, after@)),
            None => split_around(text@, separator) is None,
        },
{
    let chars = chars_of(text);
    match find_char(&chars, separator) {
        Some(at) => {
            proof {
                text@.index_of_first_ensures(separator);
            }
            let len: usize = chars.len();
            let before = text.substring_char(0, at);
            let after = text.substring_char(at + 1, len);
            assert(before@ =~= text@.take(at as int));
            assert(after@ =~= text@.skip(at + 1));
            Some((before, after))
        },
        None => None,
    }
}

/// Whether a character is one of the ten decimal digits.
pub open spec fn is_digit(c: char) -> bool {
    '0' <= c <= '9'
}

/// The character that writes the digit `d`.
pub open spec fn digit_char(d: nat) -> char {
    (48 + d) as char
}

/// The decimal numeral of `n`, without leading zeros.
pub open spec fn decimal(n: nat) -> Seq<char>
    decreases n,
{
    if n < 10 {
        seq![digit_char(n)]
    } else {
        decimal(n / 10).push(digit_char(n % 10))
    }
}

/// The decimal numeral of an integer, with a leading `-` when it is negative.
pub open spec fn signed_decimal(n: int) -> Seq<char> {
    if n < 0 {
        seq!['-'] + decimal((-n) as nat)
    } else {
        decimal(n as nat)
    }
}

/// The number that a row of digits writes.
pub open spec fn digits_value(digits: Seq<char>) -> nat
    decreases digits.len(),
{
    if digits.len() == 0 {
        0
    } else {
        digits_value(digits.drop_last()) * 10 + (digits.last() as nat - 48) as nat
    }
}

/// Whether every character is a decimal digit.
pub open spec fn all_digits(text: Seq<char>) -> bool {
    forall|i: int| 0 <= i < text.len() ==> is_digit(#[trigger] text[i])
}

/// The digits of an unsigned numeral, after an optional leading `+`.
pub open spec fn unsigned_digits(text: Seq<char>) -> Seq<char> {
    if text.len() > 0 && text[0] == '+' {
        text.drop_first()
    } else {
        text
    }
}

/// The number that `text` writes as an unsigned decimal numeral: one or more
/// digits after an optional leading `+`.
pub open spec fn unsigned_value(text: Seq<char>) -> Option<nat> {
    let digits = unsigned_digits(text);
    if digits.len() > 0 && all_digits(digits) {
        Some(digits_value(digits))
    } else {
        None
    }
}

/// The numeral of a number consists of digits and reads back as that number.
pub proof fn lemma_decimal_reads_back(n: nat)
    ensures
        decimal(n).len() > 0,
        all_digits(decimal(n)),
        digits_value(decimal(n)) == n,
        unsigned_value(decimal(n)) == Some(n),
    decreases n,
{
    if n < 10 {
        assert(decimal(n).drop_last() =~= Seq::<char>::empty());
        assert(digits_value(decimal(n)) == n) by {
            reveal_with_fuel(digits_value, 2);
        }
    } else {
        lemma_decimal_reads_back(n / 10);
        let head = decimal(n / 10);
        assert(decimal(n).drop_last() =~= head);
        assert(is_digit(digit_char(n % 10)));
        assert(forall|i: int| 0 <= i < head.len() ==> is_digit(#[trigger] head[i]));
    }
    assert(is_digit(decimal(n)[0]));
}

proof fn lemma_digits_value_grows(digits: Seq<char>, upto: int)
    requires
        0 <= upto <= digits.len(),
        all_digits(digits),
    ensures
        digits_value(digits.take(upto)) <= digits_value(digits),
    decreases digits.len() - upto,
{
    if upto == digits.len() {
        assert(digits.take(upto) =~= digits);
    } else {
        lemma_digits_value_grows(digits, upto + 1);
        assert(digits.take(upto + 1).drop_last() =~= digits.take(upto));
        assert(is_digit(digits[upto]));
    }
}

fn digit_text(digit: u64) -> (text: &'static str)
    requires
        digit < 10,
    ensures
        text@ == seq![digit_char(digit as nat)],
{
    proof {
        reveal_strlit("0");
        reveal_strlit("1");
        reveal_strlit("2");
        reveal_strlit("3");
        reveal_strlit("4");
        reveal_strlit("5");
        reveal_strlit("6");
        reveal_strlit("7");
        reveal_strlit("8");
        reveal_strlit("9");
    }
    let text = match digit {
        0 => "0",
        1 => "1",
        2 => "2",
        3 => "3",
        4 => "4",
        5 => "5",
        6 => "6",
        7 => "7",
        8 => "8",
        _ => "9",
    };
    assert(text@ =~= seq![digit_char(digit as nat)]);
    text
}

/// Writes a number in decimal.
pub fn decimal_text(n: u64) -> (text: String)
    ensures
        text@ == decimal(n as nat),
    decreases n,
{
    if n < 10 {
        digit_text(n).to_owned()
    } else {
        let text = decimal_text(n / 10).concat(digit_text(n % 10));
        assert(text@ =~= decimal((n / 10) as nat).push(digit_char((n % 10) as nat)));
        text
    }
}

/// Writes a signed number in decimal.
pub fn signed_decimal_text(n: i64) -> (text: String)
    ensures
        text@ == signed_decimal(n as int),
{
    if n < 0 {
        proof {
            reveal_strlit("-");
        }
        let magnitude: u64 = (-(n as i128)) as u64;
        let text = "-".to_owned().concat(decimal_text(magnitude).as_str());
        assert("-"@ =~= seq!['-']);
        text
    } else {
        decimal_text(n as u64)
    }
}

/// Reads an unsigned decimal numeral that fits in 64 bits.
pub fn parse_u64(text: &str) -> (value: Option<u64>)
    ensures
        match value {
            Some(value) => unsigned_value(text@) == Some(value as nat),
            None => match unsigned_value(text@) {
                Some(value) => value > u64::MAX,
                None => true,
            },
        },
{
    let chars = chars_of(text);
    let mut start: usize = 0;
    if chars.len() > 0 && chars[0] == '+' {
        start = 1;
    }
    let ghost digits = unsigned_digits(text@);
    assert(digits =~= text@.skip(start as int));
    if start == chars.len() {
        return None;
    }
    let mut i: usize = start;
    let mut value: u64 = 0;
    while i < chars.len()
        invariant
            start <= i <= chars@.len(),
            start <= 1,
            chars@ == text@,
            digits == text@.skip(start as int),
            digits == unsigned_digits(text@),
            all_digits(digits.take(i - start)),
            value == digits_value(digits.take(i - start)),
        decreases chars@.len() - i,
    {
        let c = chars[i];
        assert(digits[i - start] == c);
        assert(digits.take(i - start + 1).drop_last() =~= digits.take(i - start));
        if !('0' <= c && c <= '9') {
            assert(!is_digit(digits[i - start]));
            return None;
        }
        assert(all_digits(digits.take(i - start + 1))) by {
            assert forall|j: int| 0 <= j < i - start + 1 implies is_digit(
                #[trigger] digits.take(i - start + 1)[j],
            ) by {
                if j < i - start {
                    assert(is_digit(digits.take(i - start)[j]));
                }
            }
        }
        let digit: u64 = (c as u64) - 48;
        let scaled = value.checked_mul(10);
        let next = match scaled {
            Some(scaled) => scaled.checked_add(digit),
            None => None,
        };
        match next {
            Some(next) => {
                value = next;
            },
            None => {
                proof {
                    if all_digits(digits) {
                        lemma_digits_value_grows(digits, i - start + 1);
                    }
                }
                return None;
            },
        }
        i += 1;
    }
    assert(digits.take(i - start) =~= digits);
    Some(value)
}

/// A path with a name below it.
pub open spec fn joined(base: Seq<char>, name: Seq<char>) -> Seq<char> {
    if base.len() == 0 {
        name
    } else if base.last() == '/' {
        base + name
    } else {
        base + "/"@ + name
    }
}

/// Joins a path and a name below it.
pub fn join_text(base: &str, name: &str) -> (path: String)
    ensures
        path@ == joined(base@, name@),
{
    let chars = chars_of(base);
    if chars.len() == 0 {
        name.to_owned()
    } else if chars[chars.len() - 1] == '/' {
        base.to_owned().concat(name)
    } else {
        base.to_owned().concat("/").concat(name)
    }
}

/// `text` without any occurrence of a character.
pub open spec fn without_char(text: Seq<char>, dropped: char) -> Seq<char>
    decreases text.len(),
{
    if text.len() == 0 {
        text
    } else if text.last() == dropped {
        without_char(text.drop_last(), dropped)
    } else {
        without_char(text.drop_last(), dropped).push(text.last())
    }
}

/// Drops every occurrence of a character.
pub fn remove_char(text: &str, dropped: char) -> (rest: String)
    ensures
        rest@ == without_char(text@, dropped),
{
    let chars = chars_of(text);
    let mut rest = String::new();
    let mut i: usize = 0;
    assert(text@.take(0) =~= Seq::empty());
    while i < chars.len()
        invariant
            i <= chars@.len(),
            chars@ == text@,
            rest@ == without_char(text@.take(i as int), dropped),
        decreases chars@.len() - i,
    {
        assert(text@.take(i + 1).drop_last() =~= text@.take(i as int));
        if chars[i] != dropped {
            let piece = text.substring_char(i, i + 1);
            assert(rest@ + piece@ =~= rest@.push(text@[i as int]));
            rest = rest.concat(piece);
        }
        i += 1;
    }
    assert(text@.take(i as int) =~= text@);
    rest
}

/// What the system writes of bytes that are no UTF-8.
pub uninterp spec fn utf8_complaint(bytes: Seq<u8>) -> Seq<char>;

/// Reads bytes as UTF-8 with `std::str::from_utf8`. Valid bytes give the text
/// that they encode. Others give the named complaint, which is what the error
/// writes of itself.
#[verifier::external_body]
pub(crate) fn read_utf8(bytes: &[u8]) -> (text: Result<String, String>)
    ensures
        match text {
            Ok(text) => valid_utf8(bytes@) && text@ == decode_utf8(bytes@),
            Err(reason) => !valid_utf8(bytes@) && reason@ == utf8_complaint(bytes@),
        },
{
    std::str::from_utf8(bytes).map(|text| text.to_owned()).map_err(|error| error.to_string())
}

/// Whether a character is white space.
pub open spec fn is_space(c: char) -> bool {
    let n = c as u32;
    ||| 9 <= n <= 13
    ||| n == 32
    ||| n == 0x85
    ||| n == 0xa0
    ||| n == 0x1680
    ||| 0x2000 <= n <= 0x200a
    ||| n == 0x2028
    ||| n == 0x2029
    ||| n == 0x202f
    ||| n == 0x205f
    ||| n == 0x3000
}

/// Whether a character is white space.
pub fn is_white_space(c: char) -> (yes: bool)
    ensures
        yes == is_space(c),
{
    let n: u32 = c as u32;
    (9 <= n && n <= 13) || n == 32 || n == 0x85 || n == 0xa0 || n == 0x1680 || (0x2000 <= n && n
        <= 0x200a) || n == 0x2028 || n == 0x2029 || n == 0x202f || n == 0x205f || n == 0x3000
}

/// A text without the white space at its end.
pub open spec fn without_trailing_space(text: Seq<char>) -> Seq<char>
    decreases text.len(),
{
    if text.len() > 0 && is_space(text.last()) {
        without_trailing_space(text.drop_last())
    } else {
        text
    }
}

/// A text without the white space at its start.
pub open spec fn without_leading_space(text: Seq<char>) -> Seq<char>
    decreases text.len(),
{
    if text.len() > 0 && is_space(text[0]) {
        without_leading_space(text.drop_first())
    } else {
        text
    }
}

/// A text without the white space around it.
pub open spec fn trimmed(text: Seq<char>) -> Seq<char> {
    without_trailing_space(without_leading_space(text))
}

/// Cuts off the white space around a text.
pub fn trim(text: &str) -> (rest: &str)
    ensures
        rest@ == trimmed(text@),
{
    let chars = chars_of(text);
    let mut start: usize = 0;
    assert(text@.skip(0) =~= text@);
    while start < chars.len() && is_white_space(chars[start])
        invariant
            start <= chars@.len(),
            chars@ == text@,
            without_leading_space(text@) == without_leading_space(text@.skip(start as int)),
        ensures
            start <= chars@.len(),
            start == chars@.len() || !is_space(chars@[start as int]),
            without_leading_space(text@) == without_leading_space(text@.skip(start as int)),
        decreases chars@.len() - start,
    {
        assert(text@.skip(start as int).drop_first() =~= text@.skip(start + 1));
        start += 1;
    }
    let ghost rest = text@.skip(start as int);
    assert(without_leading_space(text@) == rest);
    let mut end: usize = chars.len();
    assert(rest.take(end - start) =~= rest);
    while end > start && is_white_space(chars[end - 1])
        invariant
            start <= end <= chars@.len(),
            chars@ == text@,
            rest == text@.skip(start as int),
            without_trailing_space(rest) == without_trailing_space(rest.take(end - start)),
        ensures
            start <= end <= chars@.len(),
            end == start || !is_space(chars@[end - 1]),
            without_trailing_space(rest) == without_trailing_space(rest.take(end - start)),
        decreases end,
    {
        assert(rest.take(end - start).drop_last() =~= rest.take(end - start - 1));
        assert(rest.take(end - start).last() == chars@[end - 1]);
        end -= 1;
    }
    assert(without_trailing_space(rest) == rest.take(end - start));
    assert(rest.take(end - start) =~= text@.subrange(start as int, end as int));
    text.substring_char(start, end)
}

/// A text that was read from the left: the words that are closed, and the one
/// that is still open.
pub struct WordReading {
    pub closed: Seq<Seq<char>>,
    pub open: Seq<char>,
}

/// Closes the open word. An empty one does not count.
pub open spec fn closed_words(reading: WordReading) -> Seq<Seq<char>> {
    if reading.open.len() == 0 {
        reading.closed
    } else {
        reading.closed.push(reading.open)
    }
}

/// A text, read from the left.
pub open spec fn word_reading(text: Seq<char>) -> WordReading
    decreases text.len(),
{
    if text.len() == 0 {
        WordReading { closed: seq![], open: seq![] }
    } else {
        let before = word_reading(text.drop_last());
        if is_space(text.last()) {
            WordReading { closed: closed_words(before), open: seq![] }
        } else {
            WordReading { closed: before.closed, open: before.open.push(text.last()) }
        }
    }
}

/// The words of a text: its longest pieces without white space.
pub open spec fn words(text: Seq<char>) -> Seq<Seq<char>> {
    closed_words(word_reading(text))
}

/// The word of a text with this number, counted from zero.
pub fn nth_word(text: &str, wanted: usize) -> (found: Option<&str>)
    ensures
        match found {
            Some(word) => wanted < words(text@).len() && word@ == words(text@)[wanted as int],
            None => words(text@).len() <= wanted,
        },
{
    let chars = chars_of(text);
    let mut count: usize = 0;
    let mut start: usize = 0;
    let mut i: usize = 0;
    assert(text@.take(0) =~= seq![]);
    assert(text@.subrange(0, 0) =~= seq![]);
    while i < chars.len()
        invariant
            start <= i <= chars@.len(),
            chars@ == text@,
            count <= i,
            count <= wanted,
            count == word_reading(text@.take(i as int)).closed.len(),
            word_reading(text@.take(i as int)).open == text@.subrange(start as int, i as int),
        decreases chars@.len() - i,
    {
        let ghost before = word_reading(text@.take(i as int));
        assert(text@.take(i + 1).drop_last() =~= text@.take(i as int));
        assert(text@.take(i + 1).last() == chars@[i as int]);
        if is_white_space(chars[i]) {
            if start < i {
                if count == wanted {
                    proof {
                        lemma_words_grow(text@, i + 1);
                    }
                    return Some(text.substring_char(start, i));
                }
                count += 1;
            }
            start = i + 1;
            assert(text@.subrange(start as int, i + 1) =~= seq![]);
        } else {
            assert(text@.subrange(start as int, i + 1) =~= text@.subrange(
                start as int,
                i as int,
            ).push(chars@[i as int]));
        }
        i += 1;
    }
    assert(text@.take(i as int) =~= text@);
    if start < i && count == wanted {
        return Some(text.substring_char(start, i));
    }
    None
}

proof fn lemma_words_grow(text: Seq<char>, i: int)
    requires
        0 <= i <= text.len(),
    ensures
        word_reading(text.take(i)).closed.len() <= word_reading(text).closed.len(),
        forall|k: int|
            0 <= k < word_reading(text.take(i)).closed.len() ==> word_reading(text).closed[k]
                == word_reading(text.take(i)).closed[k],
    decreases text.len(),
{
    if i < text.len() {
        let shorter = text.drop_last();
        lemma_words_grow(shorter, i);
        assert(shorter.take(i) =~= text.take(i));
    } else {
        assert(text.take(i) =~= text);
    }
}

/// Whether `) ` stands in a text at a place.
pub open spec fn closes_at(text: Seq<char>, i: int) -> bool {
    0 <= i && i + 1 < text.len() && text[i] == ')' && text[i + 1] == ' '
}

/// The last place below a bound at which `) ` stands.
pub open spec fn last_close(text: Seq<char>, below: int) -> Option<int>
    decreases below,
{
    if below <= 0 {
        None
    } else if closes_at(text, below - 1) {
        Some(below - 1)
    } else {
        last_close(text, below - 1)
    }
}

/// The two parts of a text around the last `) `.
pub open spec fn split_at_last_close(text: Seq<char>) -> Option<(Seq<char>, Seq<char>)> {
    match last_close(text, text.len() as int) {
        Some(i) => Some((text.take(i), text.skip(i + 2))),
        None => None,
    }
}

/// Splits a text around the last `) `.
pub fn rsplit_close<'a>(text: &'a str) -> (parts: Option<(&'a str, &'a str)>)
    ensures
        match parts {
            Some((left, right)) => split_at_last_close(text@) == Some((left@, right@)),
            None => split_at_last_close(text@) is None,
        },
{
    let chars = chars_of(text);
    let mut below: usize = chars.len();
    while below > 0
        invariant
            below <= chars@.len(),
            chars@ == text@,
            last_close(text@, text@.len() as int) == last_close(text@, below as int),
        decreases below,
    {
        let i: usize = below - 1;
        if below < chars.len() && chars[i] == ')' && chars[below] == ' ' {
            let left = text.substring_char(0, i);
            let right = text.substring_char(below + 1, chars.len());
            assert(text@.subrange(0, i as int) =~= text@.take(i as int));
            assert(text@.subrange(below + 1, text@.len() as int) =~= text@.skip(i + 2));
            return Some((left, right));
        }
        assert(!closes_at(text@, i as int));
        below = i;
    }
    None
}

} // verus!
