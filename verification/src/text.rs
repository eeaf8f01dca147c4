//! Character-level helpers: trimming, comparing, and the decimal notation of
//! unsigned numbers.

use std::borrow::Cow;
use vstd::prelude::*;
use vstd::utf8;

verus! {

// ---------------------------------------------------------------------------
// Characters
// ---------------------------------------------------------------------------

/// The Unicode `White_Space` property, which decides what `str::trim` removes.
pub open spec fn is_white(c: char) -> bool {
    ||| '\u{9}' <= c <= '\u{d}'
    ||| c == '\u{20}'
    ||| c == '\u{85}'
    ||| c == '\u{a0}'
    ||| c == '\u{1680}'
    ||| '\u{2000}' <= c <= '\u{200a}'
    ||| c == '\u{2028}'
    ||| c == '\u{2029}'
    ||| c == '\u{202f}'
    ||| c == '\u{205f}'
    ||| c == '\u{3000}'
}

/// `A` to `Z` and `a` to `z`.
pub open spec fn is_letter(c: char) -> bool {
    'a' <= c <= 'z' || 'A' <= c <= 'Z'
}

/// `0` to `9`.
pub open spec fn is_digit(c: char) -> bool {
    '0' <= c <= '9'
}

/// `A` to `Z` made small; every other character as it is.
pub open spec fn small(c: char) -> char {
    if 'A' <= c <= 'Z' {
        (c as u32 + 32) as char
    } else {
        c
    }
}

/// The number a digit stands for.
pub open spec fn digit_value(c: char) -> nat {
    (c as u32 - '0' as u32) as nat
}

/// The digit that stands for `n`.
pub open spec fn digit_char(n: nat) -> char {
    ('0' as u32 + n) as char
}

/// Whether `c` is white space.
pub fn char_is_white(c: char) -> (r: bool)
    ensures
        r == is_white(c),
{
    ('\u{9}' <= c && c <= '\u{d}') || c == '\u{20}' || c == '\u{85}' || c == '\u{a0}' || c
        == '\u{1680}' || ('\u{2000}' <= c && c <= '\u{200a}') || c == '\u{2028}' || c == '\u{2029}'
        || c == '\u{202f}' || c == '\u{205f}' || c == '\u{3000}'
}

/// Whether `c` is an ASCII letter.
pub fn char_is_letter(c: char) -> (r: bool)
    ensures
        r == is_letter(c),
{
    ('a' <= c && c <= 'z') || ('A' <= c && c <= 'Z')
}

/// `c`, with an ASCII capital made small.
pub fn char_small(c: char) -> (r: char)
    ensures
        r == small(c),
{
    if 'A' <= c && c <= 'Z' {
        (c as u8 + 32) as char
    } else {
        c
    }
}

// ---------------------------------------------------------------------------
// Sequences of characters
// ---------------------------------------------------------------------------

/// Which characters a trim takes off an edge.
#[derive(Clone, Copy)]
pub enum Edge {
    /// White space.
    White,
    /// ASCII letters.
    Letters,
    /// One given character.
    Mark(char),
}

impl Edge {
    /// Whether `c` goes.
    pub open spec fn picks(self, c: char) -> bool {
        match self {
            Edge::White => is_white(c),
            Edge::Letters => is_letter(c),
            Edge::Mark(mark) => c == mark,
        }
    }

    fn picks_char(self, c: char) -> (r: bool)
        ensures
            r == self.picks(c),
    {
        match self {
            Edge::White => char_is_white(c),
            Edge::Letters => char_is_letter(c),
            Edge::Mark(mark) => c == mark,
        }
    }
}

/// `text` without the leading characters that `edge` picks.
pub open spec fn trim_start_by(text: Seq<char>, edge: Edge) -> Seq<char>
    decreases text.len(),
{
    if text.len() > 0 && edge.picks(text[0]) {
        trim_start_by(text.drop_first(), edge)
    } else {
        text
    }
}

/// `text` without the trailing characters that `edge` picks.
pub open spec fn trim_end_by(text: Seq<char>, edge: Edge) -> Seq<char>
    decreases text.len(),
{
    if text.len() > 0 && edge.picks(text.last()) {
        trim_end_by(text.drop_last(), edge)
    } else {
        text
    }
}

/// `text` without leading and trailing white space.
pub open spec fn trim(text: Seq<char>) -> Seq<char> {
    trim_end_by(trim_start_by(text, Edge::White), Edge::White)
}

/// Whether `text` ends with `suffix`.
pub open spec fn ends_with(text: Seq<char>, suffix: Seq<char>) -> bool {
    suffix.len() <= text.len() && text.subrange(text.len() - suffix.len(), text.len() as int)
        == suffix
}

/// `text` with its ASCII capitals made small.
pub open spec fn small_text(text: Seq<char>) -> Seq<char> {
    text.map_values(|c: char| small(c))
}

/// The characters of `text`, in order.
pub fn chars_of(text: &str) -> (r: Vec<char>)
    ensures
        r@ == text@,
{
    let mut out: Vec<char> = Vec::new();
    for c in it: text.chars()
        invariant
            it.seq() == text@,
            out@ == it.seq().take(it.index()),
    {
        out.push(c);
    }
    out
}

/// Appends one character, through `String::push`, which is documented to
/// append the given character to the end of the string.
#[verifier::external_body]
pub(crate) fn push_char(text: &mut String, c: char)
    ensures
        final(text)@ == old(text)@.push(c),
{
    text.push(c);
}

/// The text that `bytes` encode, through `str::from_utf8`, which accepts a
/// slice if and only if it is valid UTF-8 and keeps its bytes.
#[verifier::external_body]
pub(crate) fn utf8_text(bytes: &[u8]) -> (r: Option<&str>)
    ensures
        r is Some <==> utf8::valid_utf8(bytes@),
        r is Some ==> r->Some_0@ == utf8::decode_utf8(bytes@),
{
    core::str::from_utf8(bytes).ok()
}

/// What `String::from_utf8_lossy` makes of a sequence of bytes.
pub uninterp spec fn lossy_text(bytes: Seq<u8>) -> Seq<char>;

/// Decodes `bytes`, through `String::from_utf8_lossy`. Its result depends on
/// the bytes alone, and is their plain decoding where they are valid UTF-8.
#[verifier::external_body]
pub(crate) fn lossy_utf8_text(bytes: &[u8]) -> (r: Cow<'_, str>)
    ensures
        r@ == lossy_text(bytes@),
        utf8::valid_utf8(bytes@) ==> r@ == utf8::decode_utf8(bytes@),
{
    String::from_utf8_lossy(bytes)
}

/// The text made of `chars[from..to]`.
pub fn text_of(chars: &Vec<char>, from: usize, to: usize) -> (r: String)
    requires
        from <= to <= chars@.len(),
    ensures
        r@ == chars@.subrange(from as int, to as int),
{
    let mut out = String::new();
    let mut i: usize = from;
    while i < to
        invariant
            from <= i <= to <= chars@.len(),
            out@ == chars@.subrange(from as int, i as int),
        decreases to - i,
    {
        push_char(&mut out, chars[i]);
        i += 1;
    }
    out
}

/// Where `chars[from..to]` ends once the trailing characters that `edge`
/// picks are gone.
fn trimmed_end(chars: &Vec<char>, from: usize, to: usize, edge: Edge) -> (end: usize)
    requires
        from <= to <= chars@.len(),
    ensures
        from <= end <= to,
        chars@.subrange(from as int, end as int) == trim_end_by(
            chars@.subrange(from as int, to as int),
            edge,
        ),
{
    let mut end: usize = to;
    while end > from && edge.picks_char(chars[end - 1])
        invariant
            from <= end <= to <= chars@.len(),
            trim_end_by(chars@.subrange(from as int, end as int), edge) == trim_end_by(
                chars@.subrange(from as int, to as int),
                edge,
            ),
        ensures
            end > from ==> !edge.picks(chars@[end - 1]),
        decreases end,
    {
        proof {
            let cut = chars@.subrange(from as int, end as int);
            assert(cut.last() == chars@[end - 1]);
            assert(cut.drop_last() =~= chars@.subrange(from as int, end - 1));
        }
        end -= 1;
    }
    proof {
        let cut = chars@.subrange(from as int, end as int);
        if end > from {
            assert(cut.last() == chars@[end - 1]);
        }
    }
    end
}

/// `text` without the trailing characters that `edge` picks.
pub fn trim_end_text(text: &str, edge: Edge) -> (r: String)
    ensures
        r@ == trim_end_by(text@, edge),
{
    let chars = chars_of(text);
    let n = chars.len();
    let end = trimmed_end(&chars, 0, n, edge);
    assert(chars@.subrange(0, n as int) =~= text@);
    text_of(&chars, 0, end)
}

/// `text` without leading and trailing white space.
pub fn trim_text(text: &str) -> (r: String)
    ensures
        r@ == trim(text@),
{
    let chars = chars_of(text);
    let to = chars.len();
    let mut start: usize = 0;
    assert(chars@.subrange(0, to as int) =~= text@);
    while start < to && char_is_white(chars[start])
        invariant
            chars@ == text@,
            start <= to == chars@.len(),
            trim_start_by(chars@.subrange(start as int, to as int), Edge::White) == trim_start_by(
                text@,
                Edge::White,
            ),
        ensures
            start < to ==> !is_white(chars@[start as int]),
        decreases to - start,
    {
        proof {
            let cut = chars@.subrange(start as int, to as int);
            assert(cut[0] == chars@[start as int]);
            assert(cut.drop_first() =~= chars@.subrange(start + 1, to as int));
        }
        start += 1;
    }
    proof {
        let cut = chars@.subrange(start as int, to as int);
        if start < to {
            assert(cut[0] == chars@[start as int]);
        }
    }
    let end = trimmed_end(&chars, start, to, Edge::White);
    text_of(&chars, start, end)
}

/// Whether `chars` ends with `suffix` when ASCII capitals count as small.
pub fn small_ends_with(chars: &Vec<char>, suffix: &str) -> (r: bool)
    ensures
        r == ends_with(small_text(chars@), suffix@),
{
    let tail = chars_of(suffix);
    let ghost lowered = small_text(chars@);
    if tail.len() > chars.len() {
        return false;
    }
    let base: usize = chars.len() - tail.len();
    let mut i: usize = 0;
    while i < tail.len()
        invariant
            tail@ == suffix@,
            lowered == small_text(chars@),
            base + tail@.len() == chars.len(),
            i <= tail@.len(),
            forall|k: int| 0 <= k < i ==> small(chars@[base + k]) == #[trigger] tail@[k],
        decreases tail@.len() - i,
    {
        if char_small(chars[base + i]) != tail[i] {
            proof {
                let end = lowered.subrange(base as int, lowered.len() as int);
                assert(end[i as int] == small(chars@[base + i]));
            }
            return false;
        }
        i += 1;
    }
    proof {
        let end = lowered.subrange(base as int, lowered.len() as int);
        assert forall|k: int| 0 <= k < end.len() implies end[k] == suffix@[k] by {
            assert(small(chars@[base + k]) == tail@[k]);
        }
        assert(end =~= suffix@);
    }
    true
}

/// Whether the two texts are the same.
pub fn same_text(a: &str, b: &str) -> (r: bool)
    ensures
        r == (a@ == b@),
{
    let left = chars_of(a);
    let right = chars_of(b);
    if left.len() != right.len() {
        return false;
    }
    let mut i: usize = 0;
    while i < left.len()
        invariant
            left@ == a@,
            right@ == b@,
            left@.len() == right@.len(),
            i <= left@.len(),
            forall|k: int| 0 <= k < i ==> left@[k] == right@[k],
        decreases left@.len() - i,
    {
        if left[i] != right[i] {
            return false;
        }
        i += 1;
    }
    assert(left@ =~= right@);
    true
}

// ---------------------------------------------------------------------------
// Decimal notation
// ---------------------------------------------------------------------------

/// `n` in decimal notation, without leading zeros.
pub open spec fn decimal(n: nat) -> Seq<char>
    decreases n,
{
    if n < 10 {
        seq![digit_char(n)]
    } else {
        decimal(n / 10).push(digit_char(n % 10))
    }
}

/// Whether every character of `text` is a digit.
pub open spec fn all_digits(text: Seq<char>) -> bool {
    forall|i: int| 0 <= i < text.len() ==> is_digit(#[trigger] text[i])
}

/// The number that a text of digits stands for.
pub open spec fn digits_value(text: Seq<char>) -> nat
    decreases text.len(),
{
    if text.len() == 0 {
        0
    } else {
        digits_value(text.drop_last()) * 10 + digit_value(text.last())
    }
}

/// `text` without one leading `+`.
pub open spec fn without_plus(text: Seq<char>) -> Seq<char> {
    if text.len() > 0 && text[0] == '+' {
        text.drop_first()
    } else {
        text
    }
}

/// What `text` stands for as an unsigned number up to `max`: an optional `+`,
/// then at least one digit and nothing else.
pub open spec fn parsed_number(text: Seq<char>, max: nat) -> Option<nat> {
    let digits = without_plus(text);
    if digits.len() > 0 && all_digits(digits) && digits_value(digits) <= max {
        Some(digits_value(digits))
    } else {
        None
    }
}

/// Appends `n` in decimal notation.
pub fn push_decimal(text: &mut String, n: u64)
    ensures
        final(text)@ == old(text)@ + decimal(n as nat),
    decreases n,
{
    if n >= 10 {
        push_decimal(text, n / 10);
    }
    let digit: u8 = (n % 10) as u8;
    push_char(text, (48u8 + digit) as char);
    assert(text@ =~= old(text)@ + decimal(n as nat));
}

/// `n` in decimal notation.
pub fn decimal_text(n: u64) -> (r: String)
    ensures
        r@ == decimal(n as nat),
{
    let mut out = String::new();
    push_decimal(&mut out, n);
    assert(out@ =~= decimal(n as nat));
    out
}

/// The value of the first `i` digits never passes the value of all of them.
proof fn lemma_prefix_value(text: Seq<char>, i: int)
    requires
        0 <= i <= text.len(),
    ensures
        digits_value(text.take(i)) <= digits_value(text),
    decreases text.len() - i,
{
    if i < text.len() {
        lemma_prefix_value(text, i + 1);
        assert(text.take(i + 1).drop_last() =~= text.take(i));
    } else {
        assert(text.take(i) =~= text);
    }
}

/// The unsigned number that `text` stands for, if it stands for one up to
/// `max`.
pub fn parse_number(text: &str, max: u64) -> (r: Option<u64>)
    ensures
        match r {
            Some(n) => parsed_number(text@, max as nat) == Some(n as nat),
            None => parsed_number(text@, max as nat) is None,
        },
{
    let chars = chars_of(text);
    let mut i: usize = 0;
    if chars.len() > 0 && chars[0] == '+' {
        i = 1;
    }
    let from = i;
    let ghost digits = without_plus(text@);
    assert(digits =~= chars@.subrange(from as int, chars@.len() as int));
    if i == chars.len() {
        return None;
    }
    let mut value: u64 = 0;
    while i < chars.len()
        invariant
            from <= i <= chars@.len(),
            digits == without_plus(text@),
            digits == chars@.subrange(from as int, chars@.len() as int),
            forall|k: int| 0 <= k < i - from ==> is_digit(#[trigger] digits[k]),
            value == digits_value(digits.take(i - from)),
            value <= max,
        decreases chars@.len() - i,
    {
        let c = chars[i];
        let ghost k = i - from;
        assert(digits[k] == c);
        if !('0' <= c && c <= '9') {
            return None;
        }
        let digit: u64 = (c as u8 - 48u8) as u64;
        proof {
            assert(digits.take(k + 1).drop_last() =~= digits.take(k));
            lemma_prefix_value(digits, k + 1);
        }
        match value.checked_mul(10) {
            None => {
                return None;
            },
            Some(shifted) => {
                match shifted.checked_add(digit) {
                    None => {
                        return None;
                    },
                    Some(next) => {
                        if next > max {
                            return None;
                        }
                        value = next;
                    },
                }
            },
        }
        i += 1;
    }
    assert(digits.take(digits.len() as int) =~= digits);
    Some(value)
}

/// Decimal notation consists of digits, at least one, and reads back as the
/// number that was written.
pub proof fn law_decimal_reads_back(n: nat, max: nat)
    requires
        n <= max,
    ensures
        decimal(n).len() > 0,
        all_digits(decimal(n)),
        parsed_number(decimal(n), max) == Some(n),
{
    lemma_decimal_value(n);
    assert(is_digit(decimal(n)[0]));
}

proof fn lemma_decimal_value(n: nat)
    ensures
        decimal(n).len() > 0,
        all_digits(decimal(n)),
        digits_value(decimal(n)) == n,
    decreases n,
{
    if n >= 10 {
        lemma_decimal_value(n / 10);
        assert(decimal(n).drop_last() =~= decimal(n / 10));
    } else {
        assert(decimal(n).drop_last() =~= Seq::<char>::empty());
        assert(digits_value(Seq::<char>::empty()) == 0);
    }
}

/// A text can be had back from its UTF-8 bytes, of which there are some exactly if
/// the text has a character.
pub proof fn law_texts_survive_encoding(text: Seq<char>)
    ensures
        utf8::valid_utf8(utf8::encode_utf8(text)),
        utf8::decode_utf8(utf8::encode_utf8(text)) == text,
        utf8::encode_utf8(text).len() > 0 <==> text.len() > 0,
{
    utf8::encode_utf8_valid_utf8(text);
    utf8::encode_utf8_decode_utf8(text);
}

/// Trimming takes white space off both ends, all of it and nothing else: what is
/// left neither starts nor ends with any, and what stood before and behind it was
/// nothing but.
pub proof fn law_trimming_takes_white_space_off_both_ends(text: &str, r: String)
    requires
        call_ensures(trim_text, (text,), r),
    ensures
        r@.len() > 0 ==> !is_white(r@[0]) && !is_white(r@.last()),
        exists|from: int, to: int|
            #![trigger text@.subrange(from, to)]
            {
                &&& 0 <= from <= to <= text@.len()
                &&& r@ == text@.subrange(from, to)
                &&& forall|i: int|
                    0 <= i < from || to <= i < text@.len() ==> is_white(#[trigger] text@[i])
            },
{
    let start = trim_start_by(text@, Edge::White);
    let from = lemma_trim_start(text@, Edge::White);
    let to = lemma_trim_end(start, Edge::White);
    assert(r@ =~= text@.subrange(from, from + to));
    if r@.len() > 0 {
        assert(r@[0] == start[0]);
    }
    assert forall|i: int| 0 <= i < from || from + to <= i < text@.len() implies is_white(
        #[trigger] text@[i],
    ) by {
        if i >= from {
            assert(text@[i] == start[i - from]);
        }
    }
}

/// Trimming the end takes off the characters that are picked, as many as stand
/// there and no others.
pub proof fn law_trimming_the_end_takes_what_is_picked(text: &str, edge: Edge, r: String)
    requires
        call_ensures(trim_end_text, (text, edge), r),
    ensures
        r@.is_prefix_of(text@),
        r@.len() > 0 ==> !edge.picks(r@.last()),
        forall|i: int| r@.len() <= i < text@.len() ==> edge.picks(#[trigger] text@[i]),
{
    let to = lemma_trim_end(text@, edge);
}

proof fn lemma_trim_start(text: Seq<char>, edge: Edge) -> (from: int)
    ensures
        0 <= from <= text.len(),
        trim_start_by(text, edge) == text.subrange(from, text.len() as int),
        from < text.len() ==> !edge.picks(text[from]),
        forall|i: int| 0 <= i < from ==> edge.picks(#[trigger] text[i]),
    decreases text.len(),
{
    if text.len() > 0 && edge.picks(text[0]) {
        let rest = text.drop_first();
        let from = lemma_trim_start(rest, edge);
        assert(rest.subrange(from, rest.len() as int) =~= text.subrange(
            from + 1,
            text.len() as int,
        ));
        assert forall|i: int| 0 <= i < from + 1 implies edge.picks(#[trigger] text[i]) by {
            if i > 0 {
                assert(edge.picks(rest[i - 1]));
            }
        }
        from + 1
    } else {
        assert(text.subrange(0, text.len() as int) =~= text);
        0
    }
}

proof fn lemma_trim_end(text: Seq<char>, edge: Edge) -> (to: int)
    ensures
        0 <= to <= text.len(),
        trim_end_by(text, edge) == text.take(to),
        to > 0 ==> !edge.picks(text[to - 1]),
        forall|i: int| to <= i < text.len() ==> edge.picks(#[trigger] text[i]),
    decreases text.len(),
{
    if text.len() > 0 && edge.picks(text.last()) {
        let rest = text.drop_last();
        let to = lemma_trim_end(rest, edge);
        assert(rest.take(to) =~= text.take(to));
        assert forall|i: int| to <= i < text.len() implies edge.picks(#[trigger] text[i]) by {
            if i < rest.len() {
                assert(edge.picks(rest[i]));
            }
        }
        to
    } else {
        assert(text.take(text.len() as int) =~= text);
        text.len() as int
    }
}

/// White space is what the Unicode property says, by number; letters are the 26 of
/// ASCII in both cases; and only capitals among these are made small, into the
/// letter that stands 32 places further on. Digits are the ten of ASCII. An edge
/// picks the characters of its kind, or the one that it is given.
pub proof fn law_kinds_of_characters(c: char, white: bool, letter: bool, low: char, mark: char)
    requires
        call_ensures(char_is_white, (c,), white),
        call_ensures(char_is_letter, (c,), letter),
        call_ensures(char_small, (c,), low),
    ensures
        ({
            let n = c as u32;
            &&& white <==> (9 <= n <= 13 || n == 32 || n == 133 || n == 160 || n == 5760 || 8192 <= n
                <= 8202 || n == 8232 || n == 8233 || n == 8239 || n == 8287 || n == 12288)
            &&& letter <==> (65 <= n <= 90 || 97 <= n <= 122)
            &&& 65 <= n <= 90 ==> low as u32 == n + 32
            &&& !(65 <= n <= 90) ==> low == c
            &&& is_digit(c) <==> 48 <= n <= 57
            &&& Edge::White.picks(c) <==> white
            &&& Edge::Letters.picks(c) <==> letter
            &&& Edge::Mark(mark).picks(c) <==> c == mark
        }),
{
}

/// A text is its characters in order, and a text made of some of them holds just
/// those.
pub proof fn law_texts_and_characters(
    text: &str,
    chars: Vec<char>,
    from: usize,
    to: usize,
    part: String,
)
    requires
        from <= to <= chars@.len(),
        call_ensures(chars_of, (text,), chars),
        call_ensures(text_of, (&chars, from, to), part),
    ensures
        chars@ == text@,
        part@.len() == to - from,
        forall|i: int| 0 <= i < to - from ==> #[trigger] part@[i] == text@[from + i],
{
}

/// Two texts are the same if and only if they have the same characters.
pub proof fn law_same_texts(a: &str, b: &str, r: bool)
    requires
        call_ensures(same_text, (a, b), r),
    ensures
        r <==> a@ == b@,
{
}

/// A text ends in a suffix, capitals aside, if and only if each character of the
/// suffix is the small form of the one that stands as far from the end of the text.
pub proof fn law_endings_aside_from_capitals(chars: &Vec<char>, suffix: &str, r: bool)
    requires
        call_ensures(small_ends_with, (chars, suffix), r),
    ensures
        r <==> suffix@.len() <= chars@.len() && forall|k: int|
            0 <= k < suffix@.len() ==> #[trigger] suffix@[k] == small(
                chars@[chars@.len() - suffix@.len() + k],
            ),
{
    let low = small_text(chars@);
    if suffix@.len() <= chars@.len() {
        let tail = low.subrange(low.len() - suffix@.len(), low.len() as int);
        assert forall|k: int| 0 <= k < suffix@.len() implies #[trigger] tail[k] == small(
            chars@[chars@.len() - suffix@.len() + k],
        ) by {}
        if forall|k: int|
            0 <= k < suffix@.len() ==> #[trigger] suffix@[k] == small(
                chars@[chars@.len() - suffix@.len() + k],
            ) {
            assert(tail =~= suffix@);
        }
        if r {
            assert forall|k: int| 0 <= k < suffix@.len() implies #[trigger] suffix@[k] == small(
                chars@[chars@.len() - suffix@.len() + k],
            ) by {
                assert(tail[k] == suffix@[k]);
            }
        }
    }
}

/// Decimal notation counts in tens: a number below ten is its digit, and ten times a
/// number, and a digit, is that number's notation with the digit behind it. A number
/// is written the same way wherever it is written.
pub proof fn law_decimal_counts_in_tens(n: nat, digit: nat, small: u64, r: String, out: &mut String)
    requires
        digit < 10,
        call_ensures(decimal_text, (small,), r),
        call_ensures(push_decimal, (out, small), ()),
    ensures
        decimal(digit).len() == 1 && decimal(digit)[0] as u32 == 48 + digit,
        n > 0 ==> decimal(10 * n + digit) == decimal(n) + decimal(digit),
        r@ == decimal(small as nat),
        final(out)@ == old(out)@ + decimal(small as nat),
{
    if n > 0 {
        assert((10 * n + digit) / 10 == n);
        assert((10 * n + digit) % 10 == digit);
        assert(decimal(10 * n + digit) =~= decimal(n) + decimal(digit));
    }
}

/// A text is a number if and only if it has a digit and nothing but digits, with one
/// plus before them at most, and the number is not too large. Another digit behind
/// it makes it ten times as much and that digit.
pub proof fn law_what_reads_as_a_number(text: &str, max: u64, r: Option<u64>, digit: char)
    requires
        call_ensures(parse_number, (text, max), r),
    ensures
        text@.len() == 0 ==> r is None,
        (exists|i: int| 1 <= i < text@.len() && !is_digit(#[trigger] text@[i])) ==> r is None,
        text@.len() == 1 && !is_digit(text@[0]) ==> r is None,
        text@.len() > 0 && !is_digit(text@[0]) && text@[0] != '+' ==> r is None,
        r matches Some(n) ==> n <= max,
        r matches Some(n) ==> is_digit(digit) ==> parsed_number(
            text@.push(digit),
            (10 * n + 9) as nat,
        ) == Some((10 * n + (digit as u32 - 48)) as nat),
        text@.len() == 1 && is_digit(text@[0]) && text@[0] as u32 - 48 <= max ==> (r matches Some(n)
            && n == text@[0] as u32 - 48),
{
    let digits = without_plus(text@);
    if exists|i: int| 1 <= i < text@.len() && !is_digit(#[trigger] text@[i]) {
        let i = choose|i: int| 1 <= i < text@.len() && !is_digit(#[trigger] text@[i]);
        if text@[0] == '+' {
            assert(digits[i - 1] == text@[i]);
        } else {
            assert(digits[i] == text@[i]);
        }
    }
    if text@.len() > 0 && !is_digit(text@[0]) && text@[0] != '+' {
        assert(digits[0] == text@[0]);
    }
    if r is Some && is_digit(digit) {
        let longer = without_plus(text@.push(digit));
        assert(longer =~= digits.push(digit));
        assert(longer.drop_last() =~= digits);
    }
    if text@.len() == 1 && is_digit(text@[0]) {
        assert(digits.drop_last() =~= Seq::<char>::empty());
        assert(digits_value(Seq::<char>::empty()) == 0);
    }
}

/// A text is trimmed once: what was trimmed stays as it is.
pub proof fn law_trimming_settles(text: Seq<char>)
    ensures
        trim(trim(text)) == trim(text),
{
    let start = trim_start_by(text, Edge::White);
    let from = lemma_trim_start(text, Edge::White);
    let to = lemma_trim_end(start, Edge::White);
    let trimmed = trim(text);
    if trimmed.len() > 0 {
        assert(trimmed[0] == start[0]);
        assert(trimmed.last() == start[to - 1]);
    }
}

} // verus!
