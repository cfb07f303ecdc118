//! Text as sequences of characters.

use vstd::prelude::*;

verus! {

/// Whether `c` has the Unicode property White_Space.
pub open spec fn is_white_space(c: char) -> bool {
    let n = c as u32;
    ||| 0x09 <= n <= 0x0d
    ||| n == 0x20
    ||| n == 0x85
    ||| n == 0xa0
    ||| n == 0x1680
    ||| 0x2000 <= n <= 0x200a
    ||| n == 0x2028
    ||| n == 0x2029
    ||| n == 0x202f
    ||| n == 0x205f
    ||| n == 0x3000
}

/// `text` without the white space it begins with.
pub open spec fn trim_front(text: Seq<char>) -> Seq<char>
    decreases text.len(),
{
    if text.len() > 0 && is_white_space(text[0]) {
        trim_front(text.drop_first())
    } else {
        text
    }
}

/// `text` without the white space it ends with.
pub open spec fn trim_back(text: Seq<char>) -> Seq<char>
    decreases text.len(),
{
    if text.len() > 0 && is_white_space(text.last()) {
        trim_back(text.drop_last())
    } else {
        text
    }
}

/// `text` without the white space around it.
pub open spec fn trimmed(text: Seq<char>) -> Seq<char> {
    trim_back(trim_front(text))
}

/// The characters of an optional text.
pub open spec fn option_view(text: Option<String>) -> Option<Seq<char>> {
    match text {
        Some(text) => Some(text@),
        None => None,
    }
}

/// The characters of `text`, in order.
pub fn characters(text: &str) -> (list: Vec<char>)
    ensures
        list@ == text@,
{
    let mut list: Vec<char> = Vec::new();
    for c in iter: text.chars()
        invariant
            iter.seq() == text@,
            list@ == text@.take(iter.index()),
    {
        list.push(c);
    }
    list
}

/// Whether `c` is white space.
fn white_space(c: char) -> (yes: bool)
    ensures
        yes == is_white_space(c),
{
    let n: u32 = c as u32;
    (0x09 <= n && n <= 0x0d) || n == 0x20 || n == 0x85 || n == 0xa0 || n == 0x1680 || (0x2000 <= n
        && n <= 0x200a) || n == 0x2028 || n == 0x2029 || n == 0x202f || n == 0x205f || n == 0x3000
}

/// `text` without the white space around it.
pub fn trim(text: &str) -> (inner: &str)
    ensures
        inner@ == trimmed(text@),
{
    let list = characters(text);
    let mut start: usize = 0;
    assert(list@.skip(0) == text@);
    while start < list.len() && white_space(list[start])
        invariant
            start <= list@.len(),
            list@ == text@,
            trim_front(list@.skip(start as int)) == trim_front(text@),
        decreases list@.len() - start,
    {
        assert(list@.skip(start as int).drop_first() == list@.skip(start + 1));
        start += 1;
    }
    let mut end: usize = list.len();
    assert(list@.subrange(start as int, end as int) == list@.skip(start as int));
    while start < end && white_space(list[end - 1])
        invariant
            start <= end <= list@.len(),
            list@ == text@,
            trim_back(list@.subrange(start as int, end as int)) == trimmed(text@),
        decreases end,
    {
        assert(list@.subrange(start as int, end as int).drop_last() == list@.subrange(
            start as int,
            end - 1,
        ));
        end -= 1;
    }
    text.substring_char(start, end)
}

/// The lower-case form of an ASCII letter; any other character as it is.
pub open spec fn lower_char(c: char) -> char {
    if 'A' <= c <= 'Z' {
        (c as u32 + 32) as char
    } else {
        c
    }
}

/// `text` with its ASCII letters in lower case.
pub open spec fn lowered(text: Seq<char>) -> Seq<char> {
    text.map_values(|c: char| lower_char(c))
}

/// `text` without the full stops it begins with.
pub open spec fn without_leading_dots(text: Seq<char>) -> Seq<char>
    decreases text.len(),
{
    if text.len() > 0 && text[0] == '.' {
        without_leading_dots(text.drop_first())
    } else {
        text
    }
}

/// The characters of `text` from `start` on, with the ASCII letters in lower case.
pub fn lowercase_from(text: &Vec<char>, start: usize) -> (list: Vec<char>)
    requires
        start <= text@.len(),
    ensures
        list@ == lowered(text@.skip(start as int)),
{
    let mut list: Vec<char> = Vec::new();
    let mut i: usize = start;
    while i < text.len()
        invariant
            start <= i <= text@.len(),
            list@ == lowered(text@.subrange(start as int, i as int)),
        decreases text@.len() - i,
    {
        let c: char = text[i];
        let lower: char = if 'A' <= c && c <= 'Z' {
            ((c as u8) + 32) as char
        } else {
            c
        };
        list.push(lower);
        i += 1;
    }
    assert(text@.subrange(start as int, i as int) == text@.skip(start as int));
    list
}

/// How many full stops `text` begins with.
pub fn leading_dots(text: &Vec<char>) -> (count: usize)
    ensures
        count <= text@.len(),
        text@.skip(count as int) == without_leading_dots(text@),
{
    let mut count: usize = 0;
    assert(text@.skip(0) == text@);
    while count < text.len() && text[count] == '.'
        invariant
            count <= text@.len(),
            without_leading_dots(text@.skip(count as int)) == without_leading_dots(text@),
        decreases text@.len() - count,
    {
        assert(text@.skip(count as int).drop_first() == text@.skip(count + 1));
        count += 1;
    }
    count
}

/// Whether the characters of `text` from `offset` on begin with those of `part`.
fn holds_at(text: &Vec<char>, offset: usize, part: &Vec<char>) -> (yes: bool)
    requires
        offset + part@.len() <= text@.len(),
    ensures
        yes == (text@.subrange(offset as int, offset + part@.len()) == part@),
{
    let ghost window = text@.subrange(offset as int, offset + part@.len());
    let length: usize = text.len();
    let mut i: usize = 0;
    while i < part.len()
        invariant
            offset + part@.len() <= text@.len(),
            length == text@.len(),
            window == text@.subrange(offset as int, offset + part@.len()),
            forall|j: int| 0 <= j < i ==> window[j] == part@[j],
        decreases part@.len() - i,
    {
        if text[offset + i] != part[i] {
            assert(window[i as int] != part@[i as int]);
            return false;
        }
        i += 1;
    }
    assert(window =~= part@);
    true
}

/// Whether `text` is `other`, character by character.
pub fn equals(text: &Vec<char>, other: &str) -> (yes: bool)
    ensures
        yes == (text@ == other@),
{
    let part = characters(other);
    assert(text@.subrange(0, text@.len() as int) == text@);
    text.len() == part.len() && holds_at(text, 0, &part)
}

/// Whether `text` ends with `suffix`.
pub fn ends_with(text: &Vec<char>, suffix: &str) -> (yes: bool)
    ensures
        yes == suffix@.is_suffix_of(text@),
{
    let part = characters(suffix);
    part.len() <= text.len() && holds_at(text, text.len() - part.len(), &part)
}

/// Whether `text` begins with `prefix`.
pub fn starts_with(text: &str, prefix: &str) -> (yes: bool)
    ensures
        yes == prefix@.is_prefix_of(text@),
{
    let part = characters(prefix);
    if text.unicode_len() < part.len() {
        return false;
    }
    let head = text.substring_char(0, part.len());
    equals(&part, head)
}

/// How many bytes `text` takes in UTF-8.
pub open spec fn byte_length(text: Seq<char>) -> nat {
    vstd::utf8::encode_utf8(text).len()
}

/// How many bytes `text` takes in UTF-8.
pub fn bytes_of(text: &str) -> (count: usize)
    ensures
        count == byte_length(text@),
{
    text.as_bytes().len()
}

/// The decimal digit for `n`, which is below ten.
pub open spec fn digit(n: nat) -> char {
    (48 + n) as char
}

/// `n` in decimal, without leading zeros.
pub open spec fn decimal(n: nat) -> Seq<char>
    decreases n,
{
    if n < 10 {
        seq![digit(n)]
    } else {
        decimal(n / 10).push(digit(n % 10))
    }
}

fn digit_text(n: usize) -> (text: &'static str)
    requires
        n < 10,
    ensures
        text@ == seq![digit(n as nat)],
{
    proof {
        reveal_strlit("0");
        reveal_strlit("1");
        reveal_strlit("2");
        reveal_strlit("3");
        reveal_strlit("4");
        reveal_strlit("5");
        reveal_strlit("6");
        reveal_strlit("7");
        reveal_strlit("8");
        reveal_strlit("9");
    }
    match n {
        0 => "0",
        1 => "1",
        2 => "2",
        3 => "3",
        4 => "4",
        5 => "5",
        6 => "6",
        7 => "7",
        8 => "8",
        _ => "9",
    }
}

/// `n` in decimal.
pub fn decimal_text(n: usize) -> (text: String)
    ensures
        text@ == decimal(n as nat),
    decreases n,
{
    if n < 10 {
        digit_text(n).to_string()
    } else {
        let mut text = decimal_text(n / 10);
        text.append(digit_text(n % 10));
        assert(text@ =~= decimal((n / 10) as nat).push(digit((n % 10) as nat)));
        text
    }
}

/// The number that a sequence of decimal digits writes.
pub open spec fn decimal_value(text: Seq<char>) -> int
    decreases text.len(),
{
    if text.len() == 0 {
        0
    } else {
        10 * decimal_value(text.drop_last()) + (text.last() as u32 - 48)
    }
}

/// Reading a number's decimal form gives the number back.
pub proof fn decimal_reads_back(n: nat)
    ensures
        decimal_value(decimal(n)) == n,
    decreases n,
{
    reveal_with_fuel(decimal_value, 2);
    if n < 10 {
        assert(decimal(n).drop_last() =~= Seq::<char>::empty());
    } else {
        decimal_reads_back(n / 10);
        assert(decimal(n).drop_last() =~= decimal(n / 10));
    }
}

proof fn trim_front_kept(text: Seq<char>)
    ensures
        trim_front(text).len() > 0 ==> !is_white_space(trim_front(text)[0]),
    decreases text.len(),
{
    if text.len() > 0 && is_white_space(text[0]) {
        trim_front_kept(text.drop_first());
    }
}

proof fn trim_back_kept(text: Seq<char>)
    ensures
        trim_back(text).len() > 0 ==> !is_white_space(trim_back(text).last()),
        trim_back(text).len() <= text.len(),
        trim_back(text) == text.take(trim_back(text).len() as int),
    decreases text.len(),
{
    if text.len() > 0 && is_white_space(text.last()) {
        trim_back_kept(text.drop_last());
        assert(text.drop_last().take(trim_back(text).len() as int) =~= text.take(
            trim_back(text).len() as int,
        ));
    } else {
        assert(text.take(text.len() as int) =~= text);
    }
}

/// Trimming twice is trimming once.
pub proof fn trimming_is_idempotent(text: Seq<char>)
    ensures
        trimmed(trimmed(text)) == trimmed(text),
{
    trim_front_kept(text);
    trim_back_kept(trim_front(text));
}

proof fn lower_char_facts(c: char)
    ensures
        is_white_space(lower_char(c)) == is_white_space(c),
        lower_char(lower_char(c)) == lower_char(c),
        lower_char(c) == '.' <==> c == '.',
{
}

proof fn lowering_keeps_trim_front(text: Seq<char>)
    ensures
        trim_front(lowered(text)) == lowered(trim_front(text)),
    decreases text.len(),
{
    if text.len() > 0 {
        lower_char_facts(text[0]);
        assert(lowered(text).drop_first() =~= lowered(text.drop_first()));
        lowering_keeps_trim_front(text.drop_first());
    }
}

proof fn lowering_keeps_trim_back(text: Seq<char>)
    ensures
        trim_back(lowered(text)) == lowered(trim_back(text)),
    decreases text.len(),
{
    if text.len() > 0 {
        lower_char_facts(text.last());
        assert(lowered(text).drop_last() =~= lowered(text.drop_last()));
        lowering_keeps_trim_back(text.drop_last());
    }
}

/// Trimming and lowering can be done in either order.
pub proof fn lowering_keeps_trimming(text: Seq<char>)
    ensures
        trimmed(lowered(text)) == lowered(trimmed(text)),
{
    lowering_keeps_trim_front(text);
    lowering_keeps_trim_back(trim_front(text));
}

/// Leaving out leading full stops and lowering can be done in either order.
pub proof fn lowering_keeps_dots(text: Seq<char>)
    ensures
        without_leading_dots(lowered(text)) == lowered(without_leading_dots(text)),
    decreases text.len(),
{
    if text.len() > 0 {
        lower_char_facts(text[0]);
        assert(lowered(text).drop_first() =~= lowered(text.drop_first()));
        lowering_keeps_dots(text.drop_first());
    }
}

/// Lowering twice is lowering once.
pub proof fn lowering_twice(text: Seq<char>)
    ensures
        lowered(lowered(text)) == lowered(text),
{
    assert forall|i: int| 0 <= i < text.len() implies lowered(lowered(text))[i] == lowered(
        text,
    )[i] by {
        lower_char_facts(text[i]);
    }
    assert(lowered(lowered(text)) =~= lowered(text));
}

/// Trimming leaves the head of a text alone where it is no white space, and trims the rest
/// at its end only.
pub proof fn trimming_keeps_head(head: char, rest: Seq<char>)
    requires
        !is_white_space(head),
    ensures
        trimmed(seq![head] + rest) == seq![head] + trim_back(rest),
    decreases rest.len(),
{
    let text = seq![head] + rest;
    assert(text[0] == head);
    if rest.len() > 0 {
        assert(text.last() == rest.last());
        assert(text.drop_last() =~= seq![head] + rest.drop_last());
        trimming_keeps_head(head, rest.drop_last());
        assert(text.drop_last()[0] == head);
    } else {
        assert(text =~= seq![head]);
    }
}

/// Whether `text` is white space throughout.
pub open spec fn is_space(text: Seq<char>) -> bool {
    forall|i: int| 0 <= i < text.len() ==> is_white_space(#[trigger] text[i])
}

/// What is left out at the front of a text is white space, and the rest is kept.
pub proof fn trim_front_splits(text: Seq<char>)
    ensures
        trim_front(text).len() <= text.len(),
        is_space(text.take(text.len() - trim_front(text).len())),
        text == text.take(text.len() - trim_front(text).len()) + trim_front(text),
        trim_front(text).len() > 0 ==> !is_white_space(trim_front(text)[0]),
    decreases text.len(),
{
    if text.len() > 0 && is_white_space(text[0]) {
        let rest = text.drop_first();
        trim_front_splits(rest);
        let count = text.len() - trim_front(text).len();
        assert(text.take(count) =~= seq![text[0]] + rest.take(count - 1));
        assert(text =~= seq![text[0]] + rest);
        assert(text =~= text.take(count) + trim_front(text));
    } else {
        assert(text =~= text.take(0) + text);
    }
}

/// Trimming the front of a text leaves what follows alone, where that begins with a
/// character that is no white space.
pub proof fn trim_front_keeps_rest(text: Seq<char>, rest: Seq<char>)
    requires
        rest.len() > 0,
        !is_white_space(rest[0]),
    ensures
        trim_front(text + rest) == trim_front(text) + rest,
    decreases text.len(),
{
    let whole = text + rest;
    if text.len() == 0 {
        assert(whole =~= rest);
        assert(trim_front(text) + rest =~= rest);
    } else {
        assert(whole[0] == text[0]);
        assert(whole.drop_first() =~= text.drop_first() + rest);
        trim_front_keeps_rest(text.drop_first(), rest);
    }
}

/// Trimming the end of a text leaves what stands before alone, where the text begins with a
/// character that is no white space.
pub proof fn trim_back_keeps_front(front: Seq<char>, text: Seq<char>)
    requires
        text.len() > 0,
        !is_white_space(text[0]),
    ensures
        trim_back(front + text) == front + trim_back(text),
    decreases text.len(),
{
    let whole = front + text;
    assert(whole.last() == text.last());
    if is_white_space(text.last()) {
        assert(text.len() > 1);
        assert(text.drop_last()[0] == text[0]);
        assert(whole.drop_last() =~= front + text.drop_last());
        trim_back_keeps_front(front, text.drop_last());
    }
}

/// Nothing is left of white space.
pub proof fn space_is_trimmed(text: Seq<char>)
    requires
        is_space(text),
    ensures
        trim_front(text) == Seq::<char>::empty(),
        trim_back(text) == Seq::<char>::empty(),
    decreases text.len(),
{
    if text.len() > 0 {
        assert(is_white_space(text[0]));
        assert(is_white_space(text.last()));
        assert(is_space(text.drop_first()));
        assert(is_space(text.drop_last()));
        space_is_trimmed(text.drop_first());
        space_is_trimmed(text.drop_last());
    } else {
        assert(text =~= Seq::<char>::empty());
    }
}

/// White space in lower case is white space.
pub proof fn lowered_space(text: Seq<char>)
    requires
        is_space(text),
    ensures
        is_space(lowered(text)),
{
    assert forall|i: int| 0 <= i < text.len() implies is_white_space(
        #[trigger] lowered(text)[i],
    ) by {
        assert(is_white_space(text[i]));
        lower_char_facts(text[i]);
    }
}

proof fn space_before_is_trimmed(space: Seq<char>, text: Seq<char>)
    requires
        is_space(space),
    ensures
        trim_front(space + text) == trim_front(text),
    decreases space.len(),
{
    let whole = space + text;
    if space.len() == 0 {
        assert(whole =~= text);
    } else {
        assert(is_white_space(space[0]));
        assert(whole[0] == space[0]);
        assert(whole.drop_first() =~= space.drop_first() + text);
        assert(is_space(space.drop_first()));
        space_before_is_trimmed(space.drop_first(), text);
    }
}

proof fn space_after_is_trimmed_back(text: Seq<char>, space: Seq<char>)
    requires
        is_space(space),
    ensures
        trim_back(text + space) == trim_back(text),
    decreases space.len(),
{
    let whole = text + space;
    if space.len() == 0 {
        assert(whole =~= text);
    } else {
        assert(is_white_space(space[space.len() - 1]));
        assert(whole.last() == space.last());
        assert(whole.drop_last() =~= text + space.drop_last());
        assert(is_space(space.drop_last()));
        space_after_is_trimmed_back(text, space.drop_last());
    }
}

proof fn space_after_is_trimmed(text: Seq<char>, space: Seq<char>)
    requires
        is_space(space),
    ensures
        trimmed(text + space) == trimmed(text),
    decreases text.len(),
{
    let whole = text + space;
    if text.len() == 0 {
        assert(whole =~= space);
        space_is_trimmed(space);
        space_is_trimmed(text);
    } else if is_white_space(text[0]) {
        assert(whole[0] == text[0]);
        assert(whole.drop_first() =~= text.drop_first() + space);
        space_after_is_trimmed(text.drop_first(), space);
    } else {
        assert(whole[0] == text[0]);
        space_after_is_trimmed_back(text, space);
    }
}

/// White space put around a text is trimmed away again.
pub proof fn space_around_is_trimmed(before: Seq<char>, text: Seq<char>, after: Seq<char>)
    requires
        is_space(before),
        is_space(after),
    ensures
        trimmed(before + text + after) == trimmed(text),
{
    assert(before + text + after =~= before + (text + after));
    space_before_is_trimmed(before, text + after);
    space_after_is_trimmed(text, after);
}

/// Trimming takes white space off both ends and nothing else: the trimmed text is a part of
/// the text, all that stands before and after it is white space, and it neither begins nor
/// ends with white space.
pub proof fn trimmed_is_the_inner_part(text: Seq<char>) -> (start: int)
    ensures
        0 <= start,
        start + trimmed(text).len() <= text.len(),
        trimmed(text) == text.subrange(start, start + trimmed(text).len()),
        is_space(text.take(start)),
        is_space(text.skip(start + trimmed(text).len())),
        trimmed(text).len() > 0 ==> !is_white_space(trimmed(text)[0]) && !is_white_space(
            trimmed(text).last(),
        ),
{
    let front = trim_front(text);
    let start = text.len() - front.len();
    trim_front_splits(text);
    trim_back_kept(front);
    trim_back_leaves_space(front);
    let end = start + trimmed(text).len();
    assert(front =~= text.skip(start));
    assert(trimmed(text) =~= text.subrange(start, end));
    assert(text.skip(end) =~= front.skip(trimmed(text).len() as int));
    start
}

proof fn trim_back_leaves_space(text: Seq<char>)
    ensures
        trim_back(text).len() <= text.len(),
        is_space(text.skip(trim_back(text).len() as int)),
    decreases text.len(),
{
    if text.len() > 0 && is_white_space(text.last()) {
        let rest = text.drop_last();
        trim_back_leaves_space(rest);
        let kept = trim_back(text).len() as int;
        assert forall|i: int| 0 <= i < text.skip(kept).len() implies is_white_space(
            #[trigger] text.skip(kept)[i],
        ) by {
            if i < text.len() - 1 - kept {
                assert(text.skip(kept)[i] == rest.skip(kept)[i]);
            }
        }
    }
}

/// Lowering turns each of the letters A to Z into the one 32 places after it and leaves all
/// else as it is, character by character.
pub proof fn lowering_is_letter_by_letter(text: Seq<char>, i: int)
    requires
        0 <= i < text.len(),
    ensures
        lowered(text).len() == text.len(),
        'A' <= text[i] <= 'Z' ==> lowered(text)[i] as u32 == text[i] as u32 + 32,
        !('A' <= text[i] <= 'Z') ==> lowered(text)[i] == text[i],
{
}

/// Leaving out leading full stops leaves out nothing else, and none is left at the beginning.
pub proof fn only_leading_dots_are_left_out(text: Seq<char>)
    ensures
        ({
            let rest = without_leading_dots(text);
            &&& rest.len() <= text.len()
            &&& rest == text.skip(text.len() - rest.len())
            &&& forall|i: int| 0 <= i < text.len() - rest.len() ==> text[i] == '.'
            &&& rest.len() > 0 ==> rest[0] != '.'
        }),
    decreases text.len(),
{
    if text.len() > 0 && text[0] == '.' {
        let tail = text.drop_first();
        let rest = without_leading_dots(text);
        only_leading_dots_are_left_out(tail);
        assert(tail.skip(tail.len() - rest.len()) =~= text.skip(text.len() - rest.len()));
        assert(forall|i: int| 0 < i < text.len() ==> text[i] == tail[i - 1]);
    } else {
        assert(text.skip(0) =~= text);
    }
}

/// A text takes as many bytes as its characters do one by one: one to four each, the more the
/// higher their code.
pub proof fn bytes_are_those_of_the_characters(c: char, rest: Seq<char>)
    ensures
        byte_length(Seq::empty()) == 0,
        byte_length(seq![c] + rest) == byte_length(rest) + if (c as u32) < 0x80 {
            1
        } else if (c as u32) < 0x800 {
            2
        } else if (c as u32) < 0x1_0000 {
            3
        } else {
            4int
        },
{
    assert((seq![c] + rest).drop_first() =~= rest);
    vstd::utf8::char_is_scalar(c);
}

/// A text of ASCII characters takes one byte for each of them.
pub proof fn ascii_takes_a_byte_each(text: Seq<char>)
    requires
        forall|i: int| 0 <= i < text.len() ==> (#[trigger] text[i] as u32) < 0x80,
    ensures
        byte_length(text) == text.len(),
    decreases text.len(),
{
    if text.len() > 0 {
        ascii_takes_a_byte_each(text.drop_first());
        bytes_are_those_of_the_characters(text[0], text.drop_first());
        assert(text =~= seq![text[0]] + text.drop_first());
    }
}

/// The decimal form of a number is made of digits and does not begin with a zero, but for
/// that of zero itself.
pub proof fn decimal_is_plain(n: nat)
    ensures
        decimal(n).len() > 0,
        forall|i: int| 0 <= i < decimal(n).len() ==> '0' <= #[trigger] decimal(n)[i] <= '9',
        n > 0 ==> decimal(n)[0] != '0',
        n == 0 ==> decimal(n).len() == 1,
    decreases n,
{
    if n >= 10 {
        decimal_is_plain(n / 10);
    }
}

/// An optional text stands for its characters, if it is there.
pub proof fn optional_text_stands_for_its_characters(text: Option<String>)
    ensures
        option_view(text) is Some <==> text is Some,
        text is Some ==> option_view(text)->0 == text->0@,
{
}

} // verus!
