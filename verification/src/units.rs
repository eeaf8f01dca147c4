//! Sizes and times as they are given on the command line.

use crate::text::{self, Edge};
use std::time::Duration;
use vstd::prelude::*;

verus! {

/// Bytes in a KiB, a MiB and a GiB.
pub const KIB: usize = 1024;

pub const MIB: usize = 1_048_576;

pub const GIB: usize = 1_073_741_824;

/// How many bytes the unit at the end of a size stands for, and the size without
/// it. Only the last letters count, so that any word with a known ending is
/// taken for that unit.
pub open spec fn unit_of(size: Seq<char>) -> (Seq<char>, nat) {
    let low = text::small_text(size);
    let number = text::trim_end_by(size, Edge::Letters);
    if text::ends_with(low, "gib"@) || text::ends_with(low, "g"@) {
        (number, GIB as nat)
    } else if text::ends_with(low, "mib"@) || text::ends_with(low, "m"@) {
        (number, MIB as nat)
    } else if text::ends_with(low, "kib"@) || text::ends_with(low, "k"@) {
        (number, KIB as nat)
    } else if text::ends_with(low, "b"@) {
        (number, 1)
    } else {
        (size, 1)
    }
}

/// The number in a size and how many bytes it counts in, or nothing if the text
/// is no size.
pub open spec fn size_parts(size: Seq<char>) -> Option<(nat, nat)> {
    let (number, unit) = unit_of(text::trim(size));
    match text::parsed_number(text::trim(number), usize::MAX as nat) {
        Some(n) => Some((n, unit)),
        None => None,
    }
}

/// The number in a size such as `4k` or `2MiB`, and how many bytes it counts in;
/// `None` if the text is no size.
pub fn split_bytes(size: &str) -> (r: Option<(usize, usize)>)
    ensures
        match r {
            Some((n, unit)) => size_parts(size@) == Some((n as nat, unit as nat)),
            None => size_parts(size@) is None,
        },
{
    let trimmed = text::trim_text(size);
    let chars = text::chars_of(trimmed.as_str());
    let (stripped, unit): (bool, usize) = if text::small_ends_with(&chars, "gib")
        || text::small_ends_with(&chars, "g") {
        (true, GIB)
    } else if text::small_ends_with(&chars, "mib") || text::small_ends_with(&chars, "m") {
        (true, MIB)
    } else if text::small_ends_with(&chars, "kib") || text::small_ends_with(&chars, "k") {
        (true, KIB)
    } else if text::small_ends_with(&chars, "b") {
        (true, 1)
    } else {
        (false, 1)
    };
    let number = if stripped {
        text::trim_end_text(trimmed.as_str(), Edge::Letters)
    } else {
        trimmed
    };
    let digits = text::trim_text(number.as_str());
    match text::parse_number(digits.as_str(), usize::MAX as u64) {
        Some(n) => Some((n as usize, unit)),
        None => None,
    }
}

/// Parse `4k`, `2MiB`, `1048576` into a byte count. The count must fit; see
/// [`split_bytes`].
pub fn parse_bytes(size: &str) -> (r: core::result::Result<usize, String>)
    requires
        size_parts(size@) matches Some((n, unit)) ==> n * unit <= usize::MAX,
    ensures
        match r {
            Ok(bytes) => size_parts(size@) matches Some((n, unit)) && bytes == n * unit,
            Err(error) => size_parts(size@) is None && error@ == "'"@ + size@
                + "' is not a byte size"@,
        },
{
    match split_bytes(size) {
        Some((n, unit)) => Ok(n * unit),
        None => {
            let mut error = "'".to_owned();
            error.append(size);
            error.append("' is not a byte size");
            Err(error)
        },
    }
}

/// What a text is as a number of seconds.
#[derive(Debug, Clone, Copy)]
pub enum Seconds {
    /// No number at all.
    Unreadable,
    /// A number, but negative or not finite.
    Invalid,
    /// A span of time.
    Span(Duration),
}

/// A number of seconds without the blanks around it and the unit at its end.
pub open spec fn seconds_digits(text: Seq<char>) -> Seq<char> {
    text::trim_end_by(text::trim(text), Edge::Mark('s'))
}

/// Parse `3` or `2.5s` into a span of time. `read` is given the number alone.
pub fn parse_seconds<R: Fn(&str) -> Seconds>(text: &str, read: R) -> (r: core::result::Result<
    Duration,
    String,
>)
    requires
        forall|digits: &str| call_requires(read, (digits,)),
    ensures
        exists|digits: &str, seconds: Seconds|
            {
                &&& digits@ == seconds_digits(text@)
                &&& #[trigger] call_ensures(read, (digits,), seconds)
                &&& match (seconds, r) {
                    (Seconds::Span(span), Ok(value)) => value == span,
                    (Seconds::Unreadable, Err(error)) => error@ == "'"@ + text@
                        + "' is not a number of seconds"@,
                    (Seconds::Invalid, Err(error)) => error@ == "'"@ + text@
                        + "' is not a valid duration"@,
                    _ => false,
                }
            },
{
    let trimmed = text::trim_text(text);
    let digits = text::trim_end_text(trimmed.as_str(), Edge::Mark('s'));
    let seconds = read(digits.as_str());
    match seconds {
        Seconds::Span(span) => Ok(span),
        Seconds::Unreadable => {
            let mut error = "'".to_owned();
            error.append(text);
            error.append("' is not a number of seconds");
            Err(error)
        },
        Seconds::Invalid => {
            let mut error = "'".to_owned();
            error.append(text);
            error.append("' is not a valid duration");
            Err(error)
        },
    }
}

/// How many bytes a unit stands for, in small letters: none at all counts bytes,
/// and a word with no known ending is no unit.
pub open spec fn word_unit(word: Seq<char>) -> Option<nat> {
    if word.len() == 0 {
        Some(1)
    } else if text::ends_with(word, "gib"@) || text::ends_with(word, "g"@) {
        Some(GIB as nat)
    } else if text::ends_with(word, "mib"@) || text::ends_with(word, "m"@) {
        Some(MIB as nat)
    } else if text::ends_with(word, "kib"@) || text::ends_with(word, "k"@) {
        Some(KIB as nat)
    } else if text::ends_with(word, "b"@) {
        Some(1)
    } else {
        None
    }
}

/// A number followed by a word of letters reads back as that number of that
/// unit, in capitals or not, and is no size if the word is no unit.
pub proof fn law_sizes_read_back(n: nat, word: Seq<char>)
    requires
        n <= usize::MAX,
        forall|i: int| 0 <= i < word.len() ==> text::is_letter(#[trigger] word[i]),
    ensures
        size_parts(text::decimal(n) + word) == match word_unit(text::small_text(word)) {
            Some(unit) => Some((n, unit)),
            None => None,
        },
{
    let number = text::decimal(n);
    let size = number + word;
    text::law_decimal_reads_back(n, usize::MAX as nat);
    assert(size[0] == number[0]);
    assert(text::is_digit(number[0]));
    assert(text::is_digit(number.last()));
    assert(word.len() > 0 ==> size.last() == word.last());
    assert(word.len() == 0 ==> size =~= number);
    assert(text::trim(size) == size);
    assert(text::trim(number) == number);
    lemma_letters_dropped(number, word);
    reveal_strlit("gib");
    reveal_strlit("g");
    reveal_strlit("mib");
    reveal_strlit("m");
    reveal_strlit("kib");
    reveal_strlit("k");
    reveal_strlit("b");
    lemma_ending(number, word, "gib"@);
    lemma_ending(number, word, "g"@);
    lemma_ending(number, word, "mib"@);
    lemma_ending(number, word, "m"@);
    lemma_ending(number, word, "kib"@);
    lemma_ending(number, word, "k"@);
    lemma_ending(number, word, "b"@);
    if word.len() > 0 && word_unit(text::small_text(word)) is None {
        assert(!text::is_digit(word.last()));
        assert(size[size.len() - 1] == word.last());
    }
}

proof fn lemma_letters_dropped(number: Seq<char>, word: Seq<char>)
    requires
        number.len() > 0,
        text::all_digits(number),
        forall|i: int| 0 <= i < word.len() ==> text::is_letter(#[trigger] word[i]),
    ensures
        text::trim_end_by(number + word, Edge::Letters) == number,
    decreases word.len(),
{
    let size = number + word;
    if word.len() == 0 {
        assert(size =~= number);
        assert(text::is_digit(number.last()));
    } else {
        assert(size.last() == word.last());
        assert(size.drop_last() =~= number + word.drop_last());
        lemma_letters_dropped(number, word.drop_last());
    }
}

proof fn lemma_ending(number: Seq<char>, word: Seq<char>, ending: Seq<char>)
    requires
        number.len() > 0,
        text::all_digits(number),
        ending.len() > 0,
        forall|i: int| 0 <= i < ending.len() ==> text::is_letter(#[trigger] ending[i]),
    ensures
        text::ends_with(text::small_text(number + word), ending) == text::ends_with(
            text::small_text(word),
            ending,
        ),
{
    let low = text::small_text(number + word);
    let low_word = text::small_text(word);
    if ending.len() <= word.len() {
        assert(low.subrange(low.len() - ending.len(), low.len() as int) =~= low_word.subrange(
            low_word.len() - ending.len(),
            low_word.len() as int,
        ));
    } else if ending.len() <= low.len() {
        let tail = low.subrange(low.len() - ending.len(), low.len() as int);
        let at = ending.len() - word.len() - 1;
        assert(tail[at] == text::small(number[number.len() - 1]));
        assert(text::is_digit(number[number.len() - 1]));
        assert(text::is_letter(ending[at]));
    }
}

/// A number with a unit behind it is so many bytes: 1024 to the first, second or
/// third for each of the three large units, by its letter or its short name, in
/// capitals or not, and one for each without a unit or with the small one.
pub proof fn law_how_many_bytes_a_size_is(
    n: nat,
    word: Seq<char>,
    size: &str,
    r: core::result::Result<usize, String>,
)
    requires
        n <= usize::MAX,
        forall|i: int| 0 <= i < word.len() ==> text::is_letter(#[trigger] word[i]),
        size@ == text::decimal(n) + word,
        call_ensures(parse_bytes, (size,), r),
    ensures
        ({
            let unit = text::small_text(word);
            &&& unit.len() == 0 || unit == "b"@ ==> (r matches Ok(bytes) && bytes == n)
            &&& unit == "k"@ || unit == "kib"@ ==> (r matches Ok(bytes) && bytes == n * 1024)
            &&& unit == "m"@ || unit == "mib"@ ==> (r matches Ok(bytes) && bytes == n * (1024
                * 1024))
            &&& unit == "g"@ || unit == "gib"@ ==> (r matches Ok(bytes) && bytes == n * (1024 * 1024
                * 1024))
        }),
{
    law_sizes_read_back(n, word);
    reveal_strlit("gib");
    reveal_strlit("g");
    reveal_strlit("mib");
    reveal_strlit("m");
    reveal_strlit("kib");
    reveal_strlit("k");
    reveal_strlit("b");
    assert(n * 1 == n) by (nonlinear_arith);
    assert("g"@[0] == 'g' && "m"@[0] == 'm' && "k"@[0] == 'k' && "b"@[0] == 'b');
    assert("gib"@[0] == 'g' && "mib"@[0] == 'm' && "kib"@[0] == 'k');
    let unit = text::small_text(word);
    if unit == "b"@ {
        assert(unit =~= seq!['b']);
        lemma_one_ending(unit, 'b');
        assert(word_unit(unit) == Some(1nat));
    } else if unit == "k"@ {
        assert(unit =~= seq!['k']);
        lemma_one_ending(unit, 'k');
        assert(word_unit(unit) == Some(1024nat));
    } else if unit == "kib"@ {
        assert(unit =~= seq!['k', 'i', 'b']);
        lemma_other_endings(unit, 'k');
        assert(word_unit(unit) == Some(1024nat));
    } else if unit == "m"@ {
        assert(unit =~= seq!['m']);
        lemma_one_ending(unit, 'm');
        assert(word_unit(unit) == Some(1_048_576nat));
    } else if unit == "mib"@ {
        assert(unit =~= seq!['m', 'i', 'b']);
        lemma_other_endings(unit, 'm');
        assert(word_unit(unit) == Some(1_048_576nat));
    } else if unit == "g"@ {
        assert(unit =~= seq!['g']);
        lemma_one_ending(unit, 'g');
        assert(word_unit(unit) == Some(1_073_741_824nat));
    } else if unit == "gib"@ {
        assert(unit =~= seq!['g', 'i', 'b']);
        lemma_other_endings(unit, 'g');
        assert(word_unit(unit) == Some(1_073_741_824nat));
    }
}

proof fn lemma_one_ending(unit: Seq<char>, c: char)
    requires
        unit == seq![c],
    ensures
        forall|ending: Seq<char>|
            ending.len() > 0 ==> (#[trigger] text::ends_with(unit, ending) <==> ending == unit),
{
    assert forall|ending: Seq<char>| ending.len() > 0 implies (#[trigger] text::ends_with(
        unit,
        ending,
    ) <==> ending == unit) by {
        if ending.len() == 1 {
            assert(unit.subrange(0, 1) =~= unit);
        }
    }
}

proof fn lemma_other_endings(unit: Seq<char>, c: char)
    requires
        unit == seq![c, 'i', 'b'],
    ensures
        text::ends_with(unit, unit),
        forall|ending: Seq<char>|
            ending.len() == 3 && #[trigger] text::ends_with(unit, ending) ==> ending == unit,
        forall|ending: Seq<char>|
            ending.len() == 1 && #[trigger] text::ends_with(unit, ending) ==> ending[0] == 'b',
{
    assert(unit.subrange(0, 3) =~= unit);
    assert(unit.subrange(2, 3)[0] == 'b');
}

/// What is no size is reported as it was given, and what is one is taken apart the
/// same way wherever it is read. White space around it makes no difference.
pub proof fn law_what_is_no_size(
    size: &str,
    bare: &str,
    r: core::result::Result<usize, String>,
    parts: Option<(usize, usize)>,
    bare_parts: Option<(usize, usize)>,
)
    requires
        bare@ == text::trim(size@),
        call_ensures(parse_bytes, (size,), r),
        call_ensures(split_bytes, (size,), parts),
        call_ensures(split_bytes, (bare,), bare_parts),
    ensures
        r matches Err(error) ==> error@ == "'"@ + size@ + "' is not a byte size"@,
        r is Ok <==> parts is Some,
        parts matches Some((n, unit)) ==> r->Ok_0 == n * unit,
        parts == bare_parts,
{
    text::law_trimming_settles(size@);
}

/// A time is read from its number alone, without the marks for seconds behind it and
/// the white space around these. What that reads as is the answer, and what it does not read as is
/// reported as it was given.
pub proof fn law_what_a_time_reads_as<R: Fn(&str) -> Seconds>(
    text: &str,
    number: Seq<char>,
    marks: Seq<char>,
    read: R,
    r: core::result::Result<Duration, String>,
)
    requires
        call_ensures(parse_seconds::<R>, (text, read), r),
        text::trim(text@) == number + marks,
        forall|i: int| 0 <= i < marks.len() ==> #[trigger] marks[i] == 's',
        number.len() > 0 ==> number.last() != 's',
    ensures
        exists|digits: &str, seconds: Seconds|
            {
                &&& #[trigger] call_ensures(read, (digits,), seconds)
                &&& digits@ == number
                &&& seconds matches Seconds::Span(span) ==> r == Ok::<Duration, String>(span)
                &&& seconds is Unreadable ==> (r matches Err(error) && error@ == "'"@ + text@
                    + "' is not a number of seconds"@)
                &&& seconds is Invalid ==> (r matches Err(error) && error@ == "'"@ + text@
                    + "' is not a valid duration"@)
            },
{
    lemma_marks_dropped(number, marks);
}

proof fn lemma_marks_dropped(number: Seq<char>, marks: Seq<char>)
    requires
        forall|i: int| 0 <= i < marks.len() ==> #[trigger] marks[i] == 's',
        number.len() > 0 ==> number.last() != 's',
    ensures
        text::trim_end_by(number + marks, Edge::Mark('s')) == number,
    decreases marks.len(),
{
    if marks.len() == 0 {
        assert(number + marks =~= number);
    } else {
        assert((number + marks).last() == marks[marks.len() - 1]);
        assert((number + marks).drop_last() =~= number + marks.drop_last());
        lemma_marks_dropped(number, marks.drop_last());
    }
}

/// White space between a number and its unit makes no difference.
pub proof fn law_blanks_before_a_unit(n: nat, blanks: Seq<char>, word: Seq<char>)
    requires
        n <= usize::MAX,
        word.len() > 0,
        forall|i: int| 0 <= i < blanks.len() ==> text::is_white(#[trigger] blanks[i]),
        forall|i: int| 0 <= i < word.len() ==> text::is_letter(#[trigger] word[i]),
    ensures
        size_parts(text::decimal(n) + blanks + word) == size_parts(text::decimal(n) + word),
{
    let number = text::decimal(n);
    let base = number + blanks;
    let size = base + word;
    law_sizes_read_back(n, word);
    text::law_decimal_reads_back(n, usize::MAX as nat);
    assert(text::is_digit(number[0]));
    assert(text::is_digit(number.last()));
    assert(size[0] == number[0]);
    assert(base[0] == number[0]);
    assert(size.last() == word[word.len() - 1]);
    assert(text::trim(size) == size);
    assert(!text::is_letter(base.last())) by {
        if blanks.len() > 0 {
            assert(base.last() == blanks[blanks.len() - 1]);
        } else {
            assert(base =~= number);
        }
    }
    lemma_letters_dropped_from(base, word);
    lemma_blanks_dropped(number, blanks);
    assert(text::trim(base) == number);
    reveal_strlit("gib");
    reveal_strlit("g");
    reveal_strlit("mib");
    reveal_strlit("m");
    reveal_strlit("kib");
    reveal_strlit("k");
    reveal_strlit("b");
    lemma_ending_of(base, word, "gib"@);
    lemma_ending_of(base, word, "g"@);
    lemma_ending_of(base, word, "mib"@);
    lemma_ending_of(base, word, "m"@);
    lemma_ending_of(base, word, "kib"@);
    lemma_ending_of(base, word, "k"@);
    lemma_ending_of(base, word, "b"@);
    if word_unit(text::small_text(word)) is None {
        assert(!text::is_digit(word[word.len() - 1]));
        assert(size[size.len() - 1] == word[word.len() - 1]);
    }
}

proof fn lemma_letters_dropped_from(base: Seq<char>, word: Seq<char>)
    requires
        base.len() > 0,
        !text::is_letter(base.last()),
        forall|i: int| 0 <= i < word.len() ==> text::is_letter(#[trigger] word[i]),
    ensures
        text::trim_end_by(base + word, Edge::Letters) == base,
    decreases word.len(),
{
    if word.len() == 0 {
        assert(base + word =~= base);
    } else {
        assert((base + word).last() == word[word.len() - 1]);
        assert((base + word).drop_last() =~= base + word.drop_last());
        lemma_letters_dropped_from(base, word.drop_last());
    }
}

proof fn lemma_blanks_dropped(number: Seq<char>, blanks: Seq<char>)
    requires
        number.len() > 0,
        text::is_digit(number.last()),
        forall|i: int| 0 <= i < blanks.len() ==> text::is_white(#[trigger] blanks[i]),
    ensures
        text::trim_end_by(number + blanks, Edge::White) == number,
    decreases blanks.len(),
{
    if blanks.len() == 0 {
        assert(number + blanks =~= number);
    } else {
        assert((number + blanks).last() == blanks[blanks.len() - 1]);
        assert((number + blanks).drop_last() =~= number + blanks.drop_last());
        lemma_blanks_dropped(number, blanks.drop_last());
    }
}

proof fn lemma_ending_of(base: Seq<char>, word: Seq<char>, ending: Seq<char>)
    requires
        base.len() > 0,
        !text::is_letter(base.last()),
        forall|i: int| 0 <= i < ending.len() ==> text::is_letter(#[trigger] ending[i]),
    ensures
        text::ends_with(text::small_text(base + word), ending) == text::ends_with(
            text::small_text(word),
            ending,
        ),
{
    let low = text::small_text(base + word);
    let low_word = text::small_text(word);
    if ending.len() <= word.len() {
        assert(low.subrange(low.len() - ending.len(), low.len() as int) =~= low_word.subrange(
            low_word.len() - ending.len(),
            low_word.len() as int,
        ));
    } else if ending.len() <= low.len() {
        let tail = low.subrange(low.len() - ending.len(), low.len() as int);
        let at = ending.len() - word.len() - 1;
        assert(tail[at] == text::small(base[base.len() - 1]));
        assert(text::is_letter(ending[at]));
    }
}

} // verus!
