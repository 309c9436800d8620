//! Text handling shared by the tools: trimming, splitting, and decimal numbers.

use vstd::prelude::*;

verus! {

/// The characters with the Unicode `White_Space` property.
pub open spec fn white_space(c: char) -> bool {
    ||| '\u{9}' <= c <= '\u{d}'
    ||| c == ' '
    ||| c == '\u{85}'
    ||| c == '\u{a0}'
    ||| c == '\u{1680}'
    ||| '\u{2000}' <= c <= '\u{200a}'
    ||| c == '\u{2028}'
    ||| c == '\u{2029}'
    ||| c == '\u{202f}'
    ||| c == '\u{205f}'
    ||| c == '\u{3000}'
}

fn is_white_space(c: char) -> (answer: bool)
    ensures
        answer == white_space(c),
{
    ('\u{9}' <= c && c <= '\u{d}') || c == ' ' || c == '\u{85}' || c == '\u{a0}' || c == '\u{1680}'
        || ('\u{2000}' <= c && c <= '\u{200a}') || c == '\u{2028}' || c == '\u{2029}' || c
        == '\u{202f}' || c == '\u{205f}' || c == '\u{3000}'
}

/// `text` without its leading and trailing white space.
pub open spec fn trimmed(text: Seq<char>) -> Seq<char>
    decreases text.len(),
{
    if text.len() > 0 && white_space(text.first()) {
        trimmed(text.drop_first())
    } else if text.len() > 0 && white_space(text.last()) {
        trimmed(text.drop_last())
    } else {
        text
    }
}

/// Removes the white space at both ends.
pub fn trim(text: &str) -> (result: String)
    ensures
        result@ == trimmed(text@),
{
    let mut start: usize = 0;
    let mut end: usize = text.unicode_len();
    assert(text@.subrange(0, end as int) =~= text@);
    while start < end && is_white_space(text.get_char(start))
        invariant
            start <= end == text@.len(),
            trimmed(text@) == trimmed(text@.subrange(start as int, end as int)),
        decreases end - start,
    {
        assert(text@.subrange(start as int, end as int).drop_first() =~= text@.subrange(
            start + 1,
            end as int,
        ));
        start = start + 1;
    }
    while start < end && is_white_space(text.get_char(end - 1))
        invariant
            start <= end <= text@.len(),
            start < end ==> !white_space(text@[start as int]),
            trimmed(text@) == trimmed(text@.subrange(start as int, end as int)),
        decreases end - start,
    {
        assert(text@.subrange(start as int, end as int).drop_last() =~= text@.subrange(
            start as int,
            end - 1,
        ));
        end = end - 1;
    }
    text.substring_char(start, end).to_owned()
}

/// The pieces of `text` between the occurrences of `separator`; always at least one.
pub open spec fn pieces(text: Seq<char>, separator: char) -> Seq<Seq<char>>
    decreases text.len(),
{
    if text.len() == 0 {
        seq![Seq::<char>::empty()]
    } else {
        let before = pieces(text.drop_last(), separator);
        if text.last() == separator {
            before.push(Seq::<char>::empty())
        } else {
            before.update(before.len() - 1, before.last().push(text.last()))
        }
    }
}

/// The views of a list of strings.
pub open spec fn views(list: Seq<String>) -> Seq<Seq<char>> {
    Seq::new(list.len(), |i: int| list[i]@)
}

/// Cuts `text` at every occurrence of `separator`.
pub fn split(text: &str, separator: char) -> (result: Vec<String>)
    ensures
        views(result@) == pieces(text@, separator),
{
    let length: usize = text.unicode_len();
    let mut done: Vec<String> = Vec::new();
    let mut start: usize = 0;
    let mut next: usize = 0;
    assert(text@.take(0) =~= Seq::<char>::empty());
    assert(views(done@).push(text@.subrange(0, 0)) =~= pieces(text@.take(0), separator));
    while next < length
        invariant
            start <= next <= length == text@.len(),
            views(done@).push(text@.subrange(start as int, next as int)) == pieces(
                text@.take(next as int),
                separator,
            ),
        decreases length - next,
    {
        let c = text.get_char(next);
        let ghost before = views(done@).push(text@.subrange(start as int, next as int));
        assert(text@.take(next + 1).drop_last() =~= text@.take(next as int));
        if c == separator {
            done.push(text.substring_char(start, next).to_owned());
            start = next + 1;
            assert(views(done@) =~= before);
            assert(text@.subrange(start as int, next + 1) =~= Seq::<char>::empty());
        } else {
            assert(text@.subrange(start as int, next + 1) =~= text@.subrange(
                start as int,
                next as int,
            ).push(c));
            assert(before.update(before.len() - 1, before.last().push(c)) =~= views(done@).push(
                text@.subrange(start as int, next + 1),
            ));
        }
        next = next + 1;
    }
    assert(text@.take(length as int) =~= text@);
    let ghost all_but_last = views(done@);
    done.push(text.substring_char(start, length).to_owned());
    assert(views(done@) =~= all_but_last.push(text@.subrange(start as int, length as int)));
    done
}

/// Whether the two texts are equal.
pub fn same(left: &str, right: &str) -> (answer: bool)
    ensures
        answer == (left@ == right@),
{
    left.to_owned() == right.to_owned()
}

/// `text` begins with `head`.
pub open spec fn begins_with(text: Seq<char>, head: Seq<char>) -> bool {
    head.len() <= text.len() && text.take(head.len() as int) == head
}

/// `text` ends with `tail`.
pub open spec fn ends_in(text: Seq<char>, tail: Seq<char>) -> bool {
    tail.len() <= text.len() && text.skip(text.len() - tail.len()) == tail
}

/// Whether `text` ends with `tail`.
pub fn ends_with(text: &str, tail: &str) -> (answer: bool)
    ensures
        answer == ends_in(text@, tail@),
{
    let length: usize = text.unicode_len();
    let tail_length: usize = tail.unicode_len();
    if tail_length > length {
        return false;
    }
    let end = text.substring_char(length - tail_length, length);
    assert(end@ =~= text@.skip(text@.len() - tail@.len()));
    same(end, tail)
}

/// What follows `head` in `text`, if `text` begins with it.
pub fn strip_prefix(text: &str, head: &str) -> (result: Option<String>)
    ensures
        result is Some <==> begins_with(text@, head@),
        result matches Some(rest) ==> rest@ == text@.skip(head@.len() as int),
{
    let length: usize = text.unicode_len();
    let head_length: usize = head.unicode_len();
    if head_length > length {
        return None;
    }
    let start = text.substring_char(0, head_length);
    assert(start@ =~= text@.take(head@.len() as int));
    if same(start, head) {
        let rest = text.substring_char(head_length, length);
        assert(rest@ =~= text@.skip(head@.len() as int));
        Some(rest.to_owned())
    } else {
        None
    }
}

/// What precedes `tail` in `text`, if `text` ends with it.
pub fn strip_suffix(text: &str, tail: &str) -> (result: Option<String>)
    ensures
        result is Some <==> ends_in(text@, tail@),
        result matches Some(rest) ==> rest@ == text@.take(text@.len() - tail@.len()),
{
    if ends_with(text, tail) {
        let rest = text.substring_char(0, text.unicode_len() - tail.unicode_len());
        assert(rest@ =~= text@.take(text@.len() - tail@.len()));
        Some(rest.to_owned())
    } else {
        None
    }
}

/// An ASCII decimal digit.
pub open spec fn digit(c: char) -> bool {
    '0' <= c <= '9'
}

/// Every character is a digit.
pub open spec fn digits(text: Seq<char>) -> bool {
    forall|i: int| 0 <= i < text.len() ==> digit(#[trigger] text[i])
}

/// The number that a run of digits writes in base ten.
pub open spec fn digits_value(text: Seq<char>) -> nat
    decreases text.len(),
{
    if text.len() == 0 {
        0
    } else {
        10 * digits_value(text.drop_last()) + (text.last() as nat - 48) as nat
    }
}

/// `text` without one leading plus sign.
pub open spec fn unsigned_part(text: Seq<char>) -> Seq<char> {
    if text.len() > 0 && text[0] == '+' {
        text.drop_first()
    } else {
        text
    }
}

/// The number that `text` writes: an optional plus sign and at least one digit.
pub open spec fn number(text: Seq<char>) -> Option<nat> {
    let run = unsigned_part(text);
    if run.len() > 0 && digits(run) {
        Some(digits_value(run))
    } else {
        None
    }
}

/// The number that `text` writes, where it is at most `max`.
pub open spec fn number_up_to(text: Seq<char>, max: nat) -> Option<nat> {
    match number(text) {
        Some(value) if value <= max => Some(value),
        _ => None,
    }
}

proof fn lemma_value_of_prefix(text: Seq<char>, length: int)
    requires
        0 <= length <= text.len(),
    ensures
        digits_value(text.take(length)) <= digits_value(text),
    decreases text.len() - length,
{
    if length < text.len() {
        lemma_value_of_prefix(text, length + 1);
        assert(text.take(length + 1).drop_last() =~= text.take(length));
    } else {
        assert(text.take(length) =~= text);
    }
}

fn parse_up_to(text: &str, max: u64) -> (result: Option<u64>)
    ensures
        match result {
            Some(value) => number_up_to(text@, max as nat) == Some(value as nat),
            None => number_up_to(text@, max as nat) is None,
        },
{
    let length: usize = text.unicode_len();
    let mut next: usize = 0;
    if length > 0 && text.get_char(0) == '+' {
        next = 1;
    }
    let ghost run = unsigned_part(text@);
    let ghost start = next as int;
    assert(run =~= text@.skip(start));
    if next == length {
        return None;
    }
    let mut value: u64 = 0;
    assert(run.take(0) =~= Seq::<char>::empty());
    while next < length
        invariant
            start <= next <= length == text@.len(),
            run == text@.skip(start),
            run == unsigned_part(text@),
            0 <= start < length,
            digits(run.take(next - start)),
            value == digits_value(run.take(next - start)),
            value <= max,
        decreases length - next,
    {
        let c = text.get_char(next);
        let ghost seen = run.take(next - start);
        let ghost longer = run.take(next - start + 1);
        assert(longer.last() == run[next - start] == c);
        assert(longer.drop_last() =~= seen);
        if !('0' <= c && c <= '9') {
            assert(!digit(run[next - start]));
            return None;
        }
        let unit: u64 = (c as u32 - 48) as u64;
        assert(digits_value(longer) == 10 * value + unit);
        assert(digits(longer)) by {
            assert forall|i: int| 0 <= i < longer.len() implies digit(#[trigger] longer[i]) by {
                if i < seen.len() {
                    assert(longer[i] == seen[i]);
                }
            }
        }
        if value > max / 10 || unit > max - value * 10 {
            proof {
                lemma_value_of_prefix(run, next - start + 1);
            }
            assert(digits_value(run) > max);
            return None;
        }
        value = value * 10 + unit;
        next = next + 1;
    }
    assert(run.take(next - start) =~= run);
    Some(value)
}

/// Reads an unsigned number: an optional plus sign and decimal digits, within 64 bits.
pub fn parse_u64(text: &str) -> (result: Option<u64>)
    ensures
        match result {
            Some(value) => number_up_to(text@, u64::MAX as nat) == Some(value as nat),
            None => number_up_to(text@, u64::MAX as nat) is None,
        },
{
    parse_up_to(text, u64::MAX)
}

/// Reads an unsigned number of the machine's word size.
pub fn parse_usize(text: &str) -> (result: Option<usize>)
    ensures
        match result {
            Some(value) => number_up_to(text@, usize::MAX as nat) == Some(value as nat),
            None => number_up_to(text@, usize::MAX as nat) is None,
        },
{
    match parse_up_to(text, usize::MAX as u64) {
        Some(value) => Some(value as usize),
        None => None,
    }
}

/// The digit of a number below ten.
pub open spec fn digit_char(value: nat) -> char {
    (48 + value) as char
}

/// A number in decimal, without leading zeros.
pub open spec fn decimal(value: nat) -> Seq<char>
    decreases value,
{
    if value < 10 {
        seq![digit_char(value)]
    } else {
        decimal(value / 10).push(digit_char(value % 10))
    }
}

/// `count` zeros.
pub open spec fn zeros(count: nat) -> Seq<char> {
    Seq::new(count, |i: int| '0')
}

/// A number in decimal, filled with leading zeros up to `width` digits.
pub open spec fn padded_decimal(value: nat, width: nat) -> Seq<char> {
    let plain = decimal(value);
    if plain.len() < width {
        zeros((width - plain.len()) as nat) + plain
    } else {
        plain
    }
}

fn digit_text(value: u64) -> (result: &'static str)
    requires
        value < 10,
    ensures
        result@ == seq![digit_char(value as nat)],
{
    proof {
        reveal_strlit("0");
        reveal_strlit("1");
        reveal_strlit("2");
        reveal_strlit("3");
        reveal_strlit("4");
        reveal_strlit("5");
        reveal_strlit("6");
        reveal_strlit("7");
        reveal_strlit("8");
        reveal_strlit("9");
    }
    let result = match value {
        0 => "0",
        1 => "1",
        2 => "2",
        3 => "3",
        4 => "4",
        5 => "5",
        6 => "6",
        7 => "7",
        8 => "8",
        _ => "9",
    };
    assert(result@ =~= seq![digit_char(value as nat)]);
    result
}

/// Writes a number in decimal.
pub fn format_decimal(value: u64) -> (result: String)
    ensures
        result@ == decimal(value as nat),
    decreases value,
{
    if value < 10 {
        digit_text(value).to_owned()
    } else {
        let head = format_decimal(value / 10);
        let result = head.concat(digit_text(value % 10));
        assert(result@ =~= decimal((value / 10) as nat).push(digit_char((value % 10) as nat)));
        result
    }
}

/// Writes a number in decimal, with leading zeros up to `width` digits.
pub fn format_padded(value: u64, width: usize) -> (result: String)
    ensures
        result@ == padded_decimal(value as nat, width as nat),
{
    let plain = format_decimal(value);
    let length: usize = plain.as_str().unicode_len();
    if length >= width {
        return plain;
    }
    let mut result = String::new();
    let mut written: usize = 0;
    proof {
        reveal_strlit("0");
    }
    assert(result@ =~= zeros(0));
    while written < width - length
        invariant
            length < width,
            written <= width - length,
            result@ == zeros(written as nat),
            "0"@ == seq!['0'],
        decreases width - length - written,
    {
        result.append("0");
        written = written + 1;
        assert(result@ =~= zeros(written as nat));
    }
    result.append(plain.as_str());
    result
}

proof fn lemma_decimal_digits(value: nat)
    ensures
        digits(decimal(value)),
        decimal(value).len() > 0,
        digits_value(decimal(value)) == value,
    decreases value,
{
    reveal_with_fuel(digits_value, 2);
    if value >= 10 {
        lemma_decimal_digits(value / 10);
        let plain = decimal(value);
        let head = decimal(value / 10);
        assert(plain.drop_last() =~= head);
        assert forall|i: int| 0 <= i < plain.len() implies digit(#[trigger] plain[i]) by {
            if i < head.len() {
                assert(plain[i] == head[i]);
            }
        }
    } else {
        assert(decimal(value).drop_last() =~= Seq::<char>::empty());
    }
}

proof fn lemma_leading_zeros(count: nat, text: Seq<char>)
    requires
        digits(text),
    ensures
        digits(zeros(count) + text),
        digits_value(zeros(count) + text) == digits_value(text),
    decreases text.len() + count,
{
    let all = zeros(count) + text;
    assert forall|i: int| 0 <= i < all.len() implies digit(#[trigger] all[i]) by {
        if i >= count {
            assert(all[i] == text[i - count]);
        }
    }
    if text.len() > 0 {
        assert(all.drop_last() =~= zeros(count) + text.drop_last());
        assert(digits(text.drop_last())) by {
            assert forall|i: int| 0 <= i < text.drop_last().len() implies digit(
                #[trigger] text.drop_last()[i],
            ) by {
                assert(text.drop_last()[i] == text[i]);
            }
        }
        lemma_leading_zeros(count, text.drop_last());
    } else if count > 0 {
        assert(all.drop_last() =~= zeros((count - 1) as nat) + text);
        lemma_leading_zeros((count - 1) as nat, text);
    } else {
        assert(all =~= text);
    }
}

/// Reading a number written with any padding gives the number back.
pub proof fn law_padded_decimal_reads_back(value: nat, width: nat)
    ensures
        digits(padded_decimal(value, width)),
        number(padded_decimal(value, width)) == Some(value),
{
    lemma_decimal_digits(value);
    let plain = decimal(value);
    let text = padded_decimal(value, width);
    if plain.len() < width {
        lemma_leading_zeros((width - plain.len()) as nat, plain);
    }
    assert(digit(text[0]));
    assert(unsigned_part(text) == text);
}

/// The entries of a comma-separated list among its first `count` pieces: trimmed, empty ones left
/// out.
pub open spec fn entries_of(parts: Seq<Seq<char>>, count: int) -> Seq<Seq<char>>
    decreases count,
{
    if count <= 0 {
        Seq::empty()
    } else {
        let before = entries_of(parts, count - 1);
        let entry = trimmed(parts[count - 1]);
        if entry.len() == 0 {
            before
        } else {
            before.push(entry)
        }
    }
}

/// The entries of a comma-separated list.
pub open spec fn list_entries(text: Seq<char>) -> Seq<Seq<char>> {
    entries_of(pieces(text, ','), pieces(text, ',').len() as int)
}

/// Cuts a comma-separated list into its entries.
pub fn split_list(text: &str) -> (entries: Vec<String>)
    ensures
        views(entries@) == list_entries(text@),
{
    let parts = split(text, ',');
    let ghost all = pieces(text@, ',');
    let mut entries: Vec<String> = Vec::new();
    let mut next: usize = 0;
    assert(views(entries@) =~= entries_of(all, 0));
    while next < parts.len()
        invariant
            next <= parts@.len(),
            views(parts@) == all,
            views(entries@) == entries_of(all, next as int),
        decreases parts@.len() - next,
    {
        assert(views(parts@)[next as int] == parts@[next as int]@);
        let entry = trim(parts[next].as_str());
        let ghost before = views(entries@);
        if entry.as_str().unicode_len() > 0 {
            let ghost kept = entry@;
            entries.push(entry);
            assert(views(entries@) =~= before.push(kept));
        }
        next = next + 1;
    }
    entries
}

/// The entry writes a number of the machine's word size.
pub open spec fn is_size(entry: Seq<char>) -> bool {
    number_up_to(entry, usize::MAX as nat) is Some
}

/// The number that an entry writes.
pub open spec fn size_of(entry: Seq<char>) -> usize {
    match number_up_to(entry, usize::MAX as nat) {
        Some(value) => value as usize,
        None => 0,
    }
}

/// Reads a comma-separated list of numbers; the first entry that is none is the error.
pub fn parse_size_list(text: &str) -> (result: Result<Vec<usize>, String>)
    ensures
        match result {
            Ok(values) => values@.len() == list_entries(text@).len() && forall|i: int|
                0 <= i < values@.len() ==> is_size(#[trigger] list_entries(text@)[i]) && values@[i]
                    == size_of(list_entries(text@)[i]),
            Err(entry) => exists|i: int|
                {
                    &&& 0 <= i < list_entries(text@).len()
                    &&& #[trigger] list_entries(text@)[i] == entry@
                    &&& !is_size(entry@)
                    &&& forall|j: int| 0 <= j < i ==> is_size(#[trigger] list_entries(text@)[j])
                },
        },
{
    let entries = split_list(text);
    let ghost all = list_entries(text@);
    let mut values: Vec<usize> = Vec::new();
    let mut next: usize = 0;
    while next < entries.len()
        invariant
            next <= entries@.len(),
            views(entries@) == all,
            all == list_entries(text@),
            values@.len() == next,
            forall|i: int|
                0 <= i < next ==> is_size(#[trigger] all[i]) && values@[i] == size_of(all[i]),
        decreases entries@.len() - next,
    {
        assert(views(entries@)[next as int] == entries@[next as int]@);
        match parse_usize(entries[next].as_str()) {
            Some(value) => {
                values.push(value);
            },
            None => {
                assert(all[next as int] == entries@[next as int]@);
                return Err(entries[next].clone());
            },
        }
        next = next + 1;
    }
    Ok(values)
}

/// A line without the carriage return at its end.
pub open spec fn without_return(line: Seq<char>) -> Seq<char> {
    if line.len() > 0 && line.last() == '\r' {
        line.drop_last()
    } else {
        line
    }
}

/// The lines of a text: what stands before each line feed, without a carriage return, and what is
/// left behind the last one.
pub open spec fn lines_of(text: Seq<char>) -> Seq<Seq<char>> {
    let parts = pieces(text, '\n');
    let ended = Seq::new((parts.len() - 1) as nat, |i: int| without_return(parts[i]));
    if parts.last().len() == 0 {
        ended
    } else {
        ended.push(parts.last())
    }
}

proof fn lemma_pieces_nonempty(text: Seq<char>, separator: char)
    ensures
        pieces(text, separator).len() > 0,
    decreases text.len(),
{
    if text.len() > 0 {
        lemma_pieces_nonempty(text.drop_last(), separator);
    }
}

fn strip_return(line: &str) -> (result: String)
    ensures
        result@ == without_return(line@),
{
    let length: usize = line.unicode_len();
    if length > 0 && line.get_char(length - 1) == '\r' {
        let rest = line.substring_char(0, length - 1);
        assert(rest@ =~= line@.drop_last());
        rest.to_owned()
    } else {
        line.to_owned()
    }
}

/// Cuts a text into its lines.
pub fn split_lines(text: &str) -> (lines: Vec<String>)
    ensures
        views(lines@) == lines_of(text@),
{
    let parts = split(text, '\n');
    let ghost all = pieces(text@, '\n');
    proof {
        lemma_pieces_nonempty(text@, '\n');
    }
    assert(views(parts@).len() == parts@.len());
    let count: usize = parts.len();
    let mut lines: Vec<String> = Vec::new();
    let mut next: usize = 0;
    while next < count - 1
        invariant
            next <= count - 1,
            count == parts@.len() > 0,
            views(parts@) == all,
            lines@.len() == next,
            forall|i: int| 0 <= i < next ==> (#[trigger] lines@[i])@ == without_return(all[i]),
        decreases count - next,
    {
        assert(views(parts@)[next as int] == parts@[next as int]@);
        lines.push(strip_return(parts[next].as_str()));
        next = next + 1;
    }
    assert(views(parts@)[count - 1] == parts@[count - 1]@);
    if parts[count - 1].as_str().unicode_len() > 0 {
        lines.push(parts[count - 1].clone());
    }
    assert(views(lines@) =~= lines_of(text@));
    lines
}

/// Trimming takes white space off both ends, all of it and nothing else.
#[verifier::spinoff_prover]
pub proof fn law_trimming_takes_white_space_off(text: Seq<char>) -> (bounds: (int, int))
    ensures
        0 <= bounds.0 <= bounds.1 <= text.len(),
        trimmed(text) == text.subrange(bounds.0, bounds.1),
        forall|i: int| 0 <= i < bounds.0 ==> white_space(#[trigger] text[i]),
        forall|i: int| bounds.1 <= i < text.len() ==> white_space(#[trigger] text[i]),
        trimmed(text).len() > 0 ==> !white_space(trimmed(text).first()) && !white_space(
            trimmed(text).last(),
        ),
    decreases text.len(),
{
    if text.len() > 0 && white_space(text.first()) {
        let rest = text.drop_first();
        let (start, stop) = law_trimming_takes_white_space_off(rest);
        assert(rest.subrange(start, stop) =~= text.subrange(start + 1, stop + 1));
        assert forall|i: int| 0 <= i < start + 1 implies white_space(#[trigger] text[i]) by {
            if i > 0 {
                assert(rest[i - 1] == text[i]);
            }
        }
        assert forall|i: int| stop + 1 <= i < text.len() implies white_space(
            #[trigger] text[i],
        ) by {
            assert(rest[i - 1] == text[i]);
        }
        (start + 1, stop + 1)
    } else if text.len() > 0 && white_space(text.last()) {
        let rest = text.drop_last();
        let (start, stop) = law_trimming_takes_white_space_off(rest);
        assert(rest.subrange(start, stop) =~= text.subrange(start, stop));
        assert forall|i: int| 0 <= i < start implies white_space(#[trigger] text[i]) by {
            assert(rest[i] == text[i]);
        }
        assert forall|i: int| stop <= i < text.len() implies white_space(#[trigger] text[i]) by {
            if i < text.len() - 1 {
                assert(rest[i] == text[i]);
            }
        }
        (start, stop)
    } else {
        assert(text.subrange(0, text.len() as int) =~= text);
        (0, text.len() as int)
    }
}

/// Spaces, tabs and the ends of lines are white space; no letter, digit or sign of ASCII is.
pub proof fn law_visible_characters_are_no_white_space(c: char)
    ensures
        white_space(' '),
        white_space('\t'),
        white_space('\n'),
        white_space('\r'),
        '!' <= c <= '~' ==> !white_space(c),
{
}

/// The pieces with the separator between them.
pub open spec fn glued(parts: Seq<Seq<char>>, separator: char) -> Seq<char>
    decreases parts.len(),
{
    if parts.len() == 0 {
        Seq::empty()
    } else if parts.len() == 1 {
        parts[0]
    } else {
        glued(parts.drop_last(), separator).push(separator) + parts.last()
    }
}

/// The pieces of a text, put together again with the separator between them, are the text, and none
/// of them holds the separator.
#[verifier::spinoff_prover]
pub proof fn law_pieces_make_up_the_text(text: Seq<char>, separator: char)
    ensures
        pieces(text, separator).len() > 0,
        glued(pieces(text, separator), separator) == text,
        forall|i: int|
            0 <= i < pieces(text, separator).len() ==> !(#[trigger] pieces(
                text,
                separator,
            )[i]).contains(separator),
    decreases text.len(),
{
    let parts = pieces(text, separator);
    if text.len() == 0 {
        assert(parts[0] =~= text);
    } else {
        let rest = text.drop_last();
        law_pieces_make_up_the_text(rest, separator);
        let before = pieces(rest, separator);
        if text.last() == separator {
            assert(parts.drop_last() =~= before);
            assert(glued(parts, separator) =~= text);
        } else {
            let longer = before.last().push(text.last());
            assert(parts.last() == longer);
            assert(!longer.contains(separator)) by {
                assert(!before[before.len() - 1].contains(separator));
                if longer.contains(separator) {
                    let at = choose|i: int| 0 <= i < longer.len() && longer[i] == separator;
                    assert(before.last()[at] == separator);
                }
            }
            assert forall|i: int| 0 <= i < parts.len() implies !(#[trigger] parts[i]).contains(
                separator,
            ) by {
                if i < parts.len() - 1 {
                    assert(parts[i] == before[i]);
                }
            }
            assert(rest.push(text.last()) =~= text);
            if parts.len() > 1 {
                assert(parts.drop_last() =~= before.drop_last());
                let front = glued(before.drop_last(), separator).push(separator);
                assert(front + before.last() == rest);
                assert(front + longer =~= (front + before.last()).push(text.last()));
            } else {
                assert(before[0] == rest);
                assert(parts[0] == longer);
            }
            assert(glued(parts, separator) == text);
        }
    }
}

/// A text in which a separator stands between two parts has the pieces of the first and then those
/// of the second.
pub proof fn law_pieces_of_a_sum(head: Seq<char>, tail: Seq<char>, separator: char)
    ensures
        pieces(head.push(separator) + tail, separator) == pieces(head, separator) + pieces(
            tail,
            separator,
        ),
    decreases tail.len(),
{
    let whole = head.push(separator) + tail;
    lemma_pieces_nonempty(tail, separator);
    if tail.len() == 0 {
        assert(whole =~= head.push(separator));
        assert(whole.drop_last() =~= head);
    } else {
        let before = tail.drop_last();
        law_pieces_of_a_sum(head, before, separator);
        lemma_pieces_nonempty(before, separator);
        assert(whole.drop_last() =~= head.push(separator) + before);
        assert(whole.last() == tail.last());
        let first = pieces(head, separator);
        let second = pieces(before, separator);
        if tail.last() == separator {
            assert((first + second).push(Seq::empty()) =~= first + second.push(Seq::empty()));
        } else {
            let longer = second.last().push(tail.last());
            assert((first + second).last() == second.last());
            assert((first + second).update((first + second).len() - 1, longer) =~= first
                + second.update(second.len() - 1, longer));
        }
    }
}

proof fn lemma_single_piece(text: Seq<char>, separator: char)
    requires
        !text.contains(separator),
    ensures
        pieces(text, separator) == seq![text],
    decreases text.len(),
{
    if text.len() > 0 {
        let rest = text.drop_last();
        assert(!rest.contains(separator)) by {
            if rest.contains(separator) {
                let at = choose|i: int| 0 <= i < rest.len() && rest[i] == separator;
                assert(text[at] == separator);
            }
        }
        lemma_single_piece(rest, separator);
        assert(text[text.len() - 1] != separator);
        assert(rest.push(text.last()) =~= text);
        assert(pieces(rest, separator).last() == rest);
    } else {
        assert(text =~= Seq::<char>::empty());
    }
    assert(pieces(text, separator) =~= seq![text]);
}

proof fn lemma_entries_of_sum(first: Seq<Seq<char>>, second: Seq<Seq<char>>, count: int)
    requires
        0 <= count <= second.len(),
    ensures
        entries_of(first + second, first.len() + count) == entries_of(first, first.len() as int)
            + entries_of(second, count),
    decreases count,
{
    if count == 0 {
        lemma_entries_prefix(first, second, first.len() as int);
        assert(entries_of(first, first.len() as int) + entries_of(second, 0) =~= entries_of(
            first,
            first.len() as int,
        ));
    } else {
        lemma_entries_of_sum(first, second, count - 1);
        assert((first + second)[first.len() + count - 1] == second[count - 1]);
        let entry = trimmed(second[count - 1]);
        let front = entries_of(first, first.len() as int);
        let back = entries_of(second, count - 1);
        assert((front + back).push(entry) =~= front + back.push(entry));
    }
}

proof fn lemma_entries_prefix(first: Seq<Seq<char>>, second: Seq<Seq<char>>, count: int)
    requires
        0 <= count <= first.len(),
    ensures
        entries_of(first + second, count) == entries_of(first, count),
    decreases count,
{
    if count > 0 {
        lemma_entries_prefix(first, second, count - 1);
        assert((first + second)[count - 1] == first[count - 1]);
    }
}

/// A list without a comma has its trimmed text as its only entry, or none where that is empty. Of two
/// lists with a comma between them the entries of the first come before those of the second.
pub proof fn law_lists_are_cut_at_commas(head: Seq<char>, tail: Seq<char>)
    ensures
        !head.contains(',') && trimmed(head).len() > 0 ==> list_entries(head) == seq![
            trimmed(head),
        ],
        !head.contains(',') && trimmed(head).len() == 0 ==> list_entries(head).len() == 0,
        list_entries(head.push(',') + tail) == list_entries(head) + list_entries(tail),
{
    if !head.contains(',') {
        lemma_single_piece(head, ',');
        assert(pieces(head, ',')[0] == head);
        reveal_with_fuel(entries_of, 2);
        if trimmed(head).len() > 0 {
            assert(list_entries(head) =~= seq![trimmed(head)]);
        }
    }
    law_pieces_of_a_sum(head, tail, ',');
    lemma_entries_of_sum(
        pieces(head, ','),
        pieces(tail, ','),
        pieces(tail, ',').len() as int,
    );
}

/// A text that begins with a line has it as its first line, without its end, and the lines of the
/// rest behind it. A last line needs no end, and an empty text has no lines.
#[verifier::spinoff_prover]
pub proof fn law_lines_follow_each_other(line: Seq<char>, rest: Seq<char>)
    requires
        !line.contains('\n'),
    ensures
        lines_of(line.push('\n') + rest) == seq![without_return(line)] + lines_of(rest),
        line.len() > 0 ==> lines_of(line) == seq![line],
        lines_of(Seq::empty()).len() == 0,
{
    let whole = line.push('\n') + rest;
    lemma_single_piece(line, '\n');
    law_pieces_of_a_sum(line, rest, '\n');
    lemma_pieces_nonempty(rest, '\n');
    let parts = pieces(whole, '\n');
    let back = pieces(rest, '\n');
    assert(parts =~= seq![line] + back);
    assert(parts.last() == back.last());
    assert forall|i: int| 0 <= i < back.len() implies parts[i + 1] == back[i] by {}
    assert(lines_of(whole) =~= seq![without_return(line)] + lines_of(rest));
    if line.len() > 0 {
        assert(pieces(line, '\n') =~= seq![line]);
        assert(lines_of(line) =~= seq![line]);
    }
}

/// The return at the end of a line is no part of it, and nothing else is taken off.
pub proof fn law_returns_are_taken_off(line: Seq<char>, c: char)
    ensures
        without_return(line.push('\r')) == line,
        c != '\r' ==> without_return(line.push(c)) == line.push(c),
        without_return(Seq::empty()) == Seq::<char>::empty(),
{
    assert(line.push('\r').drop_last() =~= line);
}

/// A further digit makes a number ten times as large and adds itself, a sign before the digits
/// changes nothing, and a character that is no digit makes a text no number.
#[verifier::spinoff_prover]
pub proof fn law_numbers_are_read_digit_by_digit(text: Seq<char>, c: char, value: nat)
    requires
        text.len() > 0,
        digits(text),
    ensures
        '0' <= c <= '9' && number(text) == Some(value) ==> number(text.push(c)) == Some(
            (10 * value + (c as nat - 48)) as nat,
        ),
        !('0' <= c <= '9') ==> number(text.push(c)) is None,
        number(seq!['+'] + text) == number(text),
        number(text) is Some,
        '0' <= c <= '9' ==> number(seq![c]) == Some((c as nat - 48) as nat),
        number(Seq::empty()) is None,
{
    let longer = text.push(c);
    assert(digit(text[0]));
    assert(longer[0] == text[0]);
    assert(longer.drop_last() =~= text);
    if '0' <= c <= '9' {
        assert(digits(longer));
        assert(digits(seq![c]));
        assert(seq![c].drop_last() =~= Seq::<char>::empty());
        reveal_with_fuel(digits_value, 2);
    } else {
        assert(longer[text.len() as int] == c);
        assert(!digit(longer[text.len() as int]));
    }
    assert((seq!['+'] + text).drop_first() =~= text);
}

/// A number of a range is one that is written and does not exceed the range.
pub proof fn law_numbers_keep_their_range(text: Seq<char>, max: nat, value: nat)
    ensures
        number_up_to(text, max) == Some(value) <==> number(text) == Some(value) && value <= max,
        is_size(text) <==> number(text) is Some && number(text)->0 <= usize::MAX,
        is_size(text) ==> number(text) == Some(size_of(text) as nat),
{
}

/// A text begins with another, or ends in it, exactly where it is that text with something behind or
/// before it.
pub proof fn law_texts_begin_and_end(head: Seq<char>, tail: Seq<char>, text: Seq<char>)
    ensures
        begins_with(head + tail, head),
        ends_in(head + tail, tail),
        (head + tail).skip(head.len() as int) == tail,
        (head + tail).take((head + tail).len() - tail.len()) == head,
        begins_with(text, head) ==> text == head + text.skip(head.len() as int),
        ends_in(text, tail) ==> text == text.take(text.len() - tail.len()) + tail,
{
    let sum = head + tail;
    assert(sum.take(head.len() as int) =~= head);
    assert(sum.skip(head.len() as int) =~= tail);
    assert(sum.skip(sum.len() - tail.len()) =~= tail);
    assert(sum.take(sum.len() - tail.len()) =~= head);
    if begins_with(text, head) {
        assert(text =~= text.take(head.len() as int) + text.skip(head.len() as int));
    }
    if ends_in(text, tail) {
        assert(text =~= text.take(text.len() - tail.len()) + text.skip(text.len() - tail.len()));
    }
}

/// A number is written without zeros before it, unless it is padded: then it fills the width, and
/// only a longer number exceeds it.
pub proof fn law_padding_fills_the_width(value: nat, width: nat)
    ensures
        value > 0 ==> decimal(value)[0] != '0',
        padded_decimal(value, width).len() >= width,
        padded_decimal(value, width).len() > width ==> padded_decimal(value, width) == decimal(
            value,
        ),
        ends_in(padded_decimal(value, width), decimal(value)),
        forall|i: int|
            0 <= i < padded_decimal(value, width).len() - decimal(value).len() ==> padded_decimal(
                value,
                width,
            )[i] == '0',
    decreases value,
{
    if value >= 10 {
        law_padding_fills_the_width(value / 10, width);
        lemma_decimal_digits(value / 10);
    }
    let padded = padded_decimal(value, width);
    let plain = decimal(value);
    assert(padded.skip(padded.len() - plain.len()) =~= plain);
}

/// Before the digits of a number only a plus may stand: a minus, a space or any other character that
/// is no digit makes the text no number.
pub proof fn law_only_a_plus_may_stand_before_a_number(text: Seq<char>, c: char)
    requires
        !('0' <= c <= '9'),
        c != '+',
    ensures
        number(seq![c] + text) is None,
        number(seq!['+']) is None,
        number(seq!['+', c] + text) is None,
{
    let first = seq![c] + text;
    assert(first[0] == c);
    assert(!digit(first[0]));
    assert(seq!['+'].drop_first() =~= Seq::<char>::empty());
    let second = seq!['+', c] + text;
    assert(second[0] == '+');
    assert(second.drop_first()[0] == c);
    assert(!digit(second.drop_first()[0]));
}

} // verus!
