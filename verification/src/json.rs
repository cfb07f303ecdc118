//! Text as JSON string literals, the form in which it enters a script.

use vstd::prelude::*;

verus! {

/// The hexadecimal digit for `n`, which is below sixteen, in lower case.
pub open spec fn hex_digit(n: int) -> char {
    if n < 10 {
        (48 + n) as char
    } else {
        (87 + n) as char
    }
}

/// How `c` is written inside a JSON string literal.
pub open spec fn escaped(c: char) -> Seq<char> {
    let n = c as u32;
    if c == '"' {
        seq!['\\', '"']
    } else if c == '\\' {
        seq!['\\', '\\']
    } else if n == 0x08 {
        seq!['\\', 'b']
    } else if n == 0x09 {
        seq!['\\', 't']
    } else if n == 0x0a {
        seq!['\\', 'n']
    } else if n == 0x0c {
        seq!['\\', 'f']
    } else if n == 0x0d {
        seq!['\\', 'r']
    } else if n < 0x20 {
        seq!['\\', 'u', '0', '0', hex_digit(n as int / 16), hex_digit(n as int % 16)]
    } else {
        seq![c]
    }
}

/// How `text` is written between the quotes of a JSON string literal.
pub open spec fn escaped_all(text: Seq<char>) -> Seq<char>
    decreases text.len(),
{
    if text.len() == 0 {
        seq![]
    } else {
        escaped(text[0]) + escaped_all(text.drop_first())
    }
}

/// `text` as a JSON string literal, quotes included.
pub open spec fn json_string(text: Seq<char>) -> Seq<char> {
    seq!['"'] + escaped_all(text) + seq!['"']
}

/// Calls `serde_json::to_string` on a string slice. It is believed to succeed, since it
/// fails only where a value's own `Serialize` fails or a map has keys that are no strings,
/// and to write the text between quotes, with quotes, backslashes and the characters below
/// U+0020 escaped as `escaped` says and every other character as it is.
#[verifier::external_body]
fn to_json(text: &str) -> (written: Result<String, String>)
    ensures
        written is Ok,
        written->Ok_0@ == json_string(text@),
{
    serde_json::to_string(text).map_err(|error| error.to_string())
}

/// `text` as a JSON string literal.
pub fn literal(text: &str) -> (json: String)
    ensures
        json@ == json_string(text@),
{
    to_json(text).unwrap()
}

/// Where the string literal ends whose characters begin at `i`: the first quote that no
/// backslash stands before.
pub open spec fn closing_quote(script: Seq<char>, i: int) -> Option<int>
    decreases script.len() + 2 - i,
{
    if i < 0 || script.len() <= i {
        None
    } else if script[i] == '"' {
        Some(i)
    } else if script[i] == '\\' {
        closing_quote(script, i + 2)
    } else {
        closing_quote(script, i + 1)
    }
}

proof fn escaped_facts(c: char)
    ensures
        1 <= escaped(c).len() <= 6,
        escaped(c)[0] == '\\' || escaped(c) == seq![c] && c != '"' && c != '\\',
        escaped(c)[0] == '\\' ==> 2 <= escaped(c).len(),
        forall|i: int|
            2 <= i < escaped(c).len() ==> #[trigger] escaped(c)[i] != '"' && escaped(c)[i] != '\\',
        forall|i: int| 0 <= i < escaped(c).len() ==> 0x20 <= #[trigger] escaped(c)[i] as u32,
{
}

/// Reading on over characters that are neither quotes nor backslashes.
proof fn skip_plain(script: Seq<char>, i: int, j: int)
    requires
        0 <= i <= j <= script.len(),
        forall|k: int| i <= k < j ==> #[trigger] script[k] != '"' && script[k] != '\\',
    ensures
        closing_quote(script, i) == closing_quote(script, j),
    decreases j - i,
{
    if i < j {
        skip_plain(script, i + 1, j);
    }
}

proof fn closes_after(before: Seq<char>, text: Seq<char>, after: Seq<char>)
    ensures
        closing_quote(before + escaped_all(text) + seq!['"'] + after, before.len() as int) == Some(
            (before.len() + escaped_all(text).len()) as int,
        ),
    decreases text.len(),
{
    let script = before + escaped_all(text) + seq!['"'] + after;
    let at = before.len() as int;
    if text.len() == 0 {
        assert(script[at] == '"');
    } else {
        let head = escaped(text[0]);
        escaped_facts(text[0]);
        assert(script =~= (before + head) + escaped_all(text.drop_first()) + seq!['"'] + after);
        closes_after(before + head, text.drop_first(), after);
        assert(forall|k: int|
            at <= k < at + head.len() ==> #[trigger] script[k] == head[k - at]);
        if head[0] == '\\' {
            assert(script[at] == '\\');
            skip_plain(script, at + 2, at + head.len());
        } else {
            assert(script[at] == head[0]);
            skip_plain(script, at, at + head.len());
        }
    }
}

/// A text put into a script as a JSON string literal ends where the literal does: no
/// character of the text closes it earlier or keeps it open, whatever follows.
pub proof fn literal_closes_at_its_end(text: Seq<char>, after: Seq<char>)
    ensures
        closing_quote(json_string(text) + after, 1) == Some(json_string(text).len() - 1),
{
    closes_after(seq!['"'], text, after);
}

/// A JSON string literal holds no control character, so it stays on one line.
pub proof fn literal_has_no_control_characters(text: Seq<char>, i: int)
    requires
        0 <= i < json_string(text).len(),
    ensures
        0x20 <= json_string(text)[i] as u32,
    decreases text.len(),
{
    if 0 < i < json_string(text).len() - 1 {
        let head = escaped(text[0]);
        let rest = text.drop_first();
        escaped_facts(text[0]);
        assert(json_string(text)[i] == (head + escaped_all(rest))[i - 1]);
        if i - 1 >= head.len() {
            literal_has_no_control_characters(rest, i - head.len());
            assert(json_string(text)[i] == json_string(rest)[i - head.len()]);
        } else {
            assert(json_string(text)[i] == head[i - 1]);
        }
    }
}

/// The escapes of two characters never continue into one another.
proof fn escapes_differ(c: char, d: char, x: Seq<char>, y: Seq<char>)
    requires
        escaped(c) + x == escaped(d) + y,
    ensures
        c == d,
        x == y,
{
    let left = escaped(c) + x;
    let right = escaped(d) + y;
    assert(left[0] == escaped(c)[0]);
    assert(right[0] == escaped(d)[0]);
    if escaped(c).len() > 1 && escaped(d).len() > 1 {
        assert(left[1] == escaped(c)[1]);
        assert(right[1] == escaped(d)[1]);
        if escaped(c).len() == 6 && escaped(d).len() == 6 {
            assert(left[4] == escaped(c)[4]);
            assert(right[4] == escaped(d)[4]);
            assert(left[5] == escaped(c)[5]);
            assert(right[5] == escaped(d)[5]);
        }
    }
    assert(c == d);
    assert(x =~= left.skip(escaped(c).len() as int));
    assert(y =~= right.skip(escaped(d).len() as int));
}

proof fn escaped_all_is_injective(one: Seq<char>, other: Seq<char>)
    requires
        escaped_all(one) == escaped_all(other),
    ensures
        one == other,
    decreases one.len(),
{
    if one.len() > 0 {
        escaped_facts(one[0]);
    }
    if other.len() > 0 {
        escaped_facts(other[0]);
    }
    if one.len() > 0 && other.len() > 0 {
        escapes_differ(
            one[0],
            other[0],
            escaped_all(one.drop_first()),
            escaped_all(other.drop_first()),
        );
        escaped_all_is_injective(one.drop_first(), other.drop_first());
        assert(one =~= seq![one[0]] + one.drop_first());
        assert(other =~= seq![other[0]] + other.drop_first());
    } else {
        assert(one =~= other);
    }
}

/// Two texts with the same JSON string literal are the same text.
pub proof fn literals_tell_texts_apart(one: Seq<char>, other: Seq<char>)
    requires
        json_string(one) == json_string(other),
    ensures
        one == other,
{
    assert(escaped_all(one) =~= json_string(one).subrange(1, json_string(one).len() - 1));
    assert(escaped_all(other) =~= json_string(other).subrange(1, json_string(other).len() - 1));
    escaped_all_is_injective(one, other);
}

/// Where two scripts go on with a JSON string literal and are the same, the literals and
/// what follows them are the same.
pub proof fn literal_then_rest(
    one: Seq<char>,
    one_rest: Seq<char>,
    other: Seq<char>,
    other_rest: Seq<char>,
)
    requires
        json_string(one) + one_rest == json_string(other) + other_rest,
    ensures
        one == other,
        one_rest == other_rest,
{
    let script = json_string(one) + one_rest;
    literal_closes_at_its_end(one, one_rest);
    literal_closes_at_its_end(other, other_rest);
    let length = json_string(one).len() as int;
    assert(json_string(one) =~= script.take(length));
    assert(json_string(other) =~= script.take(length));
    assert(one_rest =~= script.skip(length));
    assert(other_rest =~= script.skip(length));
    literals_tell_texts_apart(one, other);
}

/// The value of a hexadecimal digit in lower case.
pub open spec fn hex_value(c: char) -> int {
    if c <= '9' {
        c as int - 48
    } else {
        c as int - 87
    }
}

/// The text that is written between the quotes of a JSON string literal.
pub open spec fn unescaped(written: Seq<char>) -> Seq<char>
    decreases written.len(),
{
    if written.len() == 0 {
        seq![]
    } else if written[0] != '\\' {
        seq![written[0]] + unescaped(written.skip(1))
    } else if written.len() >= 6 && written[1] == 'u' {
        let code = 4096 * hex_value(written[2]) + 256 * hex_value(written[3]) + 16 * hex_value(
            written[4],
        ) + hex_value(written[5]);
        seq![code as char] + unescaped(written.skip(6))
    } else if written.len() >= 2 {
        let c = if written[1] == 'b' {
            '\u{8}'
        } else if written[1] == 't' {
            '\t'
        } else if written[1] == 'n' {
            '\n'
        } else if written[1] == 'f' {
            '\u{c}'
        } else if written[1] == 'r' {
            '\r'
        } else {
            written[1]
        };
        seq![c] + unescaped(written.skip(2))
    } else {
        seq![]
    }
}

proof fn escape_reads_back(c: char, rest: Seq<char>)
    ensures
        unescaped(escaped(c) + rest) == seq![c] + unescaped(rest),
{
    let written = escaped(c) + rest;
    escaped_facts(c);
    assert(written.skip(escaped(c).len() as int) =~= rest);
    assert(forall|i: int| 0 <= i < escaped(c).len() ==> #[trigger] written[i] == escaped(c)[i]);
    assert(written[0] == escaped(c)[0]);
    if escaped(c).len() >= 2 {
        assert(written[1] == escaped(c)[1]);
    }
    if escaped(c).len() == 6 {
        assert(written[2] == '0' && written[3] == '0');
        assert(written[4] == hex_digit(c as int / 16));
        assert(written[5] == hex_digit(c as int % 16));
    }
}

/// Reading a JSON string literal gives the text back that it was written for.
pub proof fn literal_reads_back(text: Seq<char>)
    ensures
        json_string(text).len() >= 2,
        json_string(text)[0] == '"',
        json_string(text).last() == '"',
        unescaped(json_string(text).subrange(1, json_string(text).len() - 1)) == text,
{
    assert(json_string(text).subrange(1, json_string(text).len() - 1) =~= escaped_all(text));
    escapes_read_back(text);
}

proof fn escapes_read_back(text: Seq<char>)
    ensures
        unescaped(escaped_all(text)) == text,
    decreases text.len(),
{
    if text.len() > 0 {
        escapes_read_back(text.drop_first());
        escape_reads_back(text[0], escaped_all(text.drop_first()));
        assert(text =~= seq![text[0]] + text.drop_first());
    } else {
        assert(text =~= seq![]);
    }
}

} // verus!
