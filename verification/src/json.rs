//! JSON values, as far as presets and jobs use them.

use serde_json::Value;
use vstd::prelude::*;

verus! {

/// A JSON value of the `serde_json` crate. It is carried through as it is; what is
/// read of it is named by [`object_strings`] and [`value_text`].
#[verifier::external_type_specification]
#[verifier::external_body]
pub struct ExValue(Value);

/// The members of an object that are strings, by their keys. A value that is no
/// object has none.
pub uninterp spec fn object_strings(value: Value) -> Map<Seq<char>, Seq<char>>;

/// A value written as JSON, without blanks between its parts.
pub uninterp spec fn value_text(value: Value) -> Seq<char>;

/// The value that a JSON text holds, as its string members and as it is written, or
/// what is wrong with the text.
pub uninterp spec fn json_document(text: Seq<char>) -> Result<
    (Map<Seq<char>, Seq<char>>, Seq<char>),
    Seq<char>,
>;

/// A value as its string members and as it is written.
pub open spec fn content(value: Value) -> (Map<Seq<char>, Seq<char>>, Seq<char>) {
    (object_strings(value), value_text(value))
}

/// Whether this is what reading a text came to: a value with this content, or this
/// reason why there is none.
pub open spec fn is_read(
    parsed: Result<Value, String>,
    document: Result<(Map<Seq<char>, Seq<char>>, Seq<char>), Seq<char>>,
) -> bool {
    match (parsed, document) {
        (Ok(value), Ok(held)) => content(value) == held,
        (Err(reason), Err(told)) => reason@ == told,
        _ => false,
    }
}

/// The string member of this key, if there is one.
pub open spec fn string_at(strings: Map<Seq<char>, Seq<char>>, key: Seq<char>) -> Option<
    Seq<char>,
> {
    if strings.contains_key(key) {
        Some(strings[key])
    } else {
        None
    }
}

/// Whether a text keeps to one line: no character of it is a control character.
pub open spec fn is_one_line(text: Seq<char>) -> bool {
    forall|i: int| 0 <= i < text.len() ==> #[trigger] text[i] >= ' '
}

/// Calls `serde_json::from_str` for a value of any kind. Whether the text is JSON, what
/// string members the value has, how the value is written again and how the error
/// reads follow from the text alone.
#[verifier::external_body]
pub(crate) fn parse_json(text: &str) -> (parsed: Result<Value, String>)
    ensures
        is_read(parsed, json_document(text@)),
{
    match serde_json::from_str(text) {
        Ok(value) => Ok(value),
        Err(error) => Err(error.to_string()),
    }
}

/// Indexes a value with `serde_json`'s `Index` for a key, and takes the member with
/// `Value::as_str`: a key that is missing, a member that is no string and a value
/// that is no object all give nothing.
#[verifier::external_body]
pub(crate) fn string_member(value: &Value, key: &str) -> (member: Option<String>)
    ensures
        crate::pipeline::option_text(member) == string_at(object_strings(*value), key@),
{
    value[key].as_str().map(String::from)
}

/// Calls `serde_json::to_string` on a value, which cannot fail: a value has strings for
/// keys. Every control character of a string is escaped, so the text keeps to one
/// line.
#[verifier::external_body]
pub(crate) fn write_value(value: &Value) -> (text: String)
    ensures
        text@ == value_text(*value),
        is_one_line(text@),
{
    serde_json::to_string(value).unwrap()
}

/// The hexadecimal digit of a number below sixteen.
pub open spec fn hex_digit(value: int) -> char {
    if value < 10 {
        ('0' as int + value) as char
    } else {
        ('a' as int + value - 10) as char
    }
}

/// How a character stands in a JSON string.
pub open spec fn escaped(c: char) -> Seq<char> {
    if c == '"' {
        seq!['\\', '"']
    } else if c == '\\' {
        seq!['\\', '\\']
    } else if c == '\u{8}' {
        seq!['\\', 'b']
    } else if c == '\t' {
        seq!['\\', 't']
    } else if c == '\n' {
        seq!['\\', 'n']
    } else if c == '\u{c}' {
        seq!['\\', 'f']
    } else if c == '\r' {
        seq!['\\', 'r']
    } else if ' ' > c {
        seq!['\\', 'u', '0', '0', hex_digit(c as int / 16), hex_digit(c as int % 16)]
    } else {
        seq![c]
    }
}

/// A text as it stands in a JSON string, without the quotation marks.
pub open spec fn all_escaped(text: Seq<char>) -> Seq<char>
    decreases text.len(),
{
    if text.len() == 0 {
        Seq::empty()
    } else {
        escaped(text[0]) + all_escaped(text.skip(1))
    }
}

/// A text as a JSON string.
pub open spec fn quoted(text: Seq<char>) -> Seq<char> {
    seq!['"'] + all_escaped(text) + seq!['"']
}

/// Calls `serde_json::to_string` on a text, which cannot fail: the text is put in
/// quotation marks, with these marks, backslashes and control characters escaped.
#[verifier::external_body]
pub(crate) fn quote(text: &str) -> (json: String)
    ensures
        json@ == quoted(text@),
{
    serde_json::to_string(text).unwrap()
}

/// An escaped character keeps to one line.
proof fn lemma_escape_is_one_line(c: char)
    ensures
        is_one_line(escaped(c)),
{
    if ' ' > c {
        assert(0 <= c as int / 16 < 2);
        assert(hex_digit(c as int / 16) >= '0');
        assert(hex_digit(c as int % 16) >= '0');
    }
}

/// An escaped text keeps to one line.
proof fn lemma_escaped_is_one_line(text: Seq<char>)
    ensures
        is_one_line(all_escaped(text)),
    decreases text.len(),
{
    if text.len() > 0 {
        lemma_escaped_is_one_line(text.skip(1));
        let head = escaped(text[0]);
        let rest = all_escaped(text.skip(1));
        lemma_escape_is_one_line(text[0]);
        assert forall|i: int| 0 <= i < (head + rest).len() implies #[trigger] (head + rest)[i]
            >= ' ' by {
            if i < head.len() {
                assert(head[i] >= ' ');
            } else {
                assert(rest[i - head.len()] >= ' ');
            }
        }
    }
}

/// Whatever a text holds, as a JSON string it keeps to one line.
pub proof fn law_quoted_text_is_one_line(text: Seq<char>)
    ensures
        is_one_line(quoted(text)),
{
    lemma_escaped_is_one_line(text);
    let inner = all_escaped(text);
    assert forall|i: int| 0 <= i < quoted(text).len() implies #[trigger] quoted(text)[i]
        >= ' ' by {
        if 0 < i && i < quoted(text).len() - 1 {
            assert(inner[i - 1] >= ' ');
        }
    }
}

/// Where two escaped characters begin two equal texts, the characters are equal.
proof fn lemma_first_escape(a: char, rest_a: Seq<char>, b: char, rest_b: Seq<char>)
    requires
        escaped(a) + rest_a == escaped(b) + rest_b,
    ensures
        a == b,
        rest_a == rest_b,
{
    let whole = escaped(a) + rest_a;
    assert(whole[0] == escaped(a)[0]);
    assert(whole[0] == escaped(b)[0]);
    if escaped(a).len() > 1 && escaped(b).len() > 1 {
        assert(whole[1] == escaped(a)[1]);
        assert(whole[1] == escaped(b)[1]);
        if escaped(a).len() > 2 && escaped(b).len() > 2 {
            assert(whole[4] == escaped(a)[4]);
            assert(whole[4] == escaped(b)[4]);
            assert(whole[5] == escaped(a)[5]);
            assert(whole[5] == escaped(b)[5]);
        }
    }
    assert(a == b);
    assert(rest_a =~= whole.skip(escaped(a).len() as int));
    assert(rest_b =~= whole.skip(escaped(b).len() as int));
}

/// Escaping loses nothing.
proof fn lemma_escaping_is_injective(a: Seq<char>, b: Seq<char>)
    requires
        all_escaped(a) == all_escaped(b),
    ensures
        a == b,
    decreases a.len(),
{
    if a.len() == 0 {
        if b.len() > 0 {
            assert(all_escaped(b).len() > 0);
        }
        assert(a =~= b);
    } else {
        assert(all_escaped(a).len() > 0);
        assert(b.len() > 0);
        lemma_first_escape(a[0], all_escaped(a.skip(1)), b[0], all_escaped(b.skip(1)));
        lemma_escaping_is_injective(a.skip(1), b.skip(1));
        assert(a =~= seq![a[0]] + a.skip(1));
        assert(b =~= seq![b[0]] + b.skip(1));
    }
}

/// A JSON string tells the text it was made of: different texts are written
/// differently.
pub proof fn law_quoting_loses_nothing(a: Seq<char>, b: Seq<char>)
    requires
        quoted(a) == quoted(b),
    ensures
        a == b,
{
    assert(quoted(a).subrange(1, quoted(a).len() - 1) =~= all_escaped(a));
    assert(quoted(b).subrange(1, quoted(b).len() - 1) =~= all_escaped(b));
    lemma_escaping_is_injective(a, b);
}

/// A string member is the one under its key, and where there is none, there is nothing.
pub proof fn law_string_members(strings: Map<Seq<char>, Seq<char>>, key: Seq<char>)
    ensures
        strings.contains_key(key) ==> string_at(strings, key) == Some(strings[key]),
        !strings.contains_key(key) ==> string_at(strings, key) is None,
{
}

/// A character that needs no escape stands as it is, a quotation mark and a backslash
/// behind a backslash; and what a text is put in is quotation marks.
pub proof fn law_quoting_changes_little(text: Seq<char>, c: char)
    ensures
        quoted(text).len() >= 2,
        quoted(text)[0] == '"',
        quoted(text).last() == '"',
        c >= ' ' && c != '"' && c != '\\' ==> quoted(seq![c]) == seq!['"', c, '"'],
        quoted(seq!['"']) == seq!['"', '\\', '"', '"'],
        quoted(seq!['\\']) == seq!['"', '\\', '\\', '"'],
        quoted(seq!['\n']) == seq!['"', '\\', 'n', '"'],
{
    reveal_with_fuel(all_escaped, 3);
    assert(seq![c].skip(1) =~= Seq::<char>::empty());
    assert(seq!['"'].skip(1) =~= Seq::<char>::empty());
    assert(seq!['\\'].skip(1) =~= Seq::<char>::empty());
    assert(seq!['\n'].skip(1) =~= Seq::<char>::empty());
    if c >= ' ' && c != '"' && c != '\\' {
        assert(quoted(seq![c]) =~= seq!['"', c, '"']);
    }
    assert(quoted(seq!['"']) =~= seq!['"', '\\', '"', '"']);
    assert(quoted(seq!['\\']) =~= seq!['"', '\\', '\\', '"']);
    assert(quoted(seq!['\n']) =~= seq!['"', '\\', 'n', '"']);
}

/// Texts that are quoted one behind the other are quoted as one, but for the marks
/// between them.
pub proof fn law_quoting_goes_character_by_character(a: Seq<char>, b: Seq<char>)
    ensures
        quoted(a + b) == quoted(a).drop_last() + quoted(b).skip(1),
{
    lemma_escaped_joined(a, b);
    assert(quoted(a).drop_last() =~= seq!['"'] + all_escaped(a));
    assert(quoted(b).skip(1) =~= all_escaped(b) + seq!['"']);
    assert(quoted(a + b) =~= quoted(a).drop_last() + quoted(b).skip(1));
}

/// Escaping goes character by character.
proof fn lemma_escaped_joined(a: Seq<char>, b: Seq<char>)
    ensures
        all_escaped(a + b) == all_escaped(a) + all_escaped(b),
    decreases a.len(),
{
    if a.len() == 0 {
        assert(a + b =~= b);
    } else {
        assert((a + b).skip(1) =~= a.skip(1) + b);
        lemma_escaped_joined(a.skip(1), b);
        assert(all_escaped(a + b) =~= all_escaped(a) + all_escaped(b));
    }
}

} // verus!
