//! JSON documents whose members are strings, by way of `serde_json`.

use vstd::prelude::*;
use vstd::utf8::{decode_utf8, valid_utf8};

verus! {

/// A JSON value of `serde_json`.
#[verifier::external_type_specification]
#[verifier::external_body]
pub struct ExValue(serde_json::Value);

/// The members of a JSON object that are strings, by key. Empty for a value that
/// is no object.
pub uninterp spec fn string_members(value: serde_json::Value) -> Map<Seq<char>, Seq<char>>;

/// The value is a JSON object, and each of its members is a string.
pub uninterp spec fn only_strings(value: serde_json::Value) -> bool;

/// What comes of reading a text as JSON: the members of it that are strings, as
/// [`string_members`] gives them, or the message that says why it is not JSON.
pub uninterp spec fn json_reading(text: Seq<char>) -> Result<Map<Seq<char>, Seq<char>>, Seq<char>>;

/// `text` is JSON, and its members that are strings are `members`.
pub open spec fn json_holds(text: Seq<char>, members: Map<Seq<char>, Seq<char>>) -> bool {
    json_reading(text) == Ok::<Map<Seq<char>, Seq<char>>, Seq<char>>(members)
}

/// The message that says why bytes are not UTF-8.
pub uninterp spec fn utf8_error(bytes: Seq<u8>) -> Seq<char>;

/// A hexadecimal digit, in lower case.
pub open spec fn hex_digit(d: int) -> char {
    "0123456789abcdef"@[d]
}

/// A character within a JSON string: quotes, backslashes and control characters are
/// escaped, every other character stands for itself.
pub open spec fn json_escaped(c: char) -> Seq<char> {
    let code = c as int;
    if c == '"' || c == '\\' {
        seq!['\\', c]
    } else if code == 8 {
        seq!['\\', 'b']
    } else if code == 9 {
        seq!['\\', 't']
    } else if code == 10 {
        seq!['\\', 'n']
    } else if code == 12 {
        seq!['\\', 'f']
    } else if code == 13 {
        seq!['\\', 'r']
    } else if code < 32 {
        seq!['\\', 'u', '0', '0', hex_digit(code / 16), hex_digit(code % 16)]
    } else {
        seq![c]
    }
}

/// The characters of a text, escaped one after the other.
pub open spec fn json_escapes(text: Seq<char>) -> Seq<char>
    decreases text.len(),
{
    if text.len() == 0 {
        seq![]
    } else {
        json_escapes(text.drop_last()) + json_escaped(text.last())
    }
}

/// A text as a JSON string: in double quotes, with escapes.
pub open spec fn json_quoted(text: Seq<char>) -> Seq<char> {
    seq!['"'] + json_escapes(text) + seq!['"']
}

/// The map a list of members makes: of members with one key the last counts.
pub open spec fn members_map(members: Seq<(String, String)>) -> Map<Seq<char>, Seq<char>>
    decreases members.len(),
{
    if members.len() == 0 {
        Map::empty()
    } else {
        members_map(members.drop_last()).insert(members.last().0@, members.last().1@)
    }
}

/// Build a JSON object, by `serde_json`'s `Value::from_iter` over pairs: each
/// pair becomes a member whose value is a string, and of pairs with one key the
/// last stays.
#[verifier::external_body]
pub(crate) fn object_of(members: Vec<(String, String)>) -> (r: serde_json::Value)
    ensures
        only_strings(r),
        string_members(r) == members_map(members@),
{
    members.into_iter().collect::<serde_json::Value>()
}

/// Read one member of a JSON object, by `serde_json`'s `Value::get`: the string
/// it holds, or nothing if the value is no object, has no such member, or the
/// member is no string.
#[verifier::external_body]
pub(crate) fn string_member<'a>(value: &'a serde_json::Value, key: &str) -> (r: Option<&'a str>)
    ensures
        r is Some == string_members(*value).dom().contains(key@),
        r matches Some(text) ==> text@ == string_members(*value)[key@],
{
    value.get(key).and_then(serde_json::Value::as_str)
}

/// Print a JSON value, by `serde_json`'s `Display` for `Value`, which writes the
/// compact form: without line breaks, since those within strings are escaped.
/// An object of strings reads back as itself. What it prints for other values is
/// left unsaid.
#[verifier::external_body]
pub(crate) fn print_value(value: &serde_json::Value) -> (r: String)
    ensures
        !r@.contains('\n'),
        !r@.contains('\r'),
        only_strings(*value) ==> json_holds(r@, string_members(*value)),
{
    value.to_string()
}

/// Read a text as JSON, by `serde_json::from_str`; its error comes as the message
/// it displays. What comes of it is a function of the text alone and is named by
/// [`json_reading`].
#[verifier::external_body]
pub(crate) fn parse_value(text: &str) -> (r: Result<serde_json::Value, String>)
    ensures
        match r {
            Ok(value) => json_reading(text@) == Ok::<Map<Seq<char>, Seq<char>>, Seq<char>>(
                string_members(value),
            ),
            Err(message) => json_reading(text@) == Err::<Map<Seq<char>, Seq<char>>, Seq<char>>(
                message@,
            ),
        },
{
    serde_json::from_str(text).map_err(|e| e.to_string())
}

/// Write a text as a JSON string, by `serde_json`'s `Display` for a string
/// value: in double quotes, each character escaped as [`json_escaped`] says.
#[verifier::external_body]
fn print_string(text: &str) -> (r: String)
    ensures
        r@ == json_quoted(text@),
{
    serde_json::Value::String(text.to_string()).to_string()
}

/// A string rendered as a double-quoted scalar (valid in YAML flow context).
pub fn json_str(value: &str) -> (r: String)
    ensures
        r@ == json_quoted(value@),
{
    print_string(value)
}

/// A JSON string holds no control character, whatever the text holds: it stays on one
/// line.
pub proof fn law_json_strings_stay_on_one_line(text: Seq<char>, i: int)
    requires
        0 <= i < json_quoted(text).len(),
    ensures
        json_quoted(text)[i] as int >= 32,
{
    if 0 < i < json_quoted(text).len() - 1 {
        lemma_no_control(text, i - 1);
        assert(json_quoted(text)[i] == json_escapes(text)[i - 1]);
    }
}

proof fn lemma_no_control(text: Seq<char>, i: int)
    requires
        0 <= i < json_escapes(text).len(),
    ensures
        json_escapes(text)[i] as int >= 32,
    decreases text.len(),
{
    let head = json_escapes(text.drop_last());
    if i < head.len() {
        lemma_no_control(text.drop_last(), i);
    } else {
        lemma_escape_is_printable(text.last(), i - head.len());
        assert(json_escapes(text)[i] == json_escaped(text.last())[i - head.len()]);
    }
}

proof fn lemma_escape_is_printable(c: char, i: int)
    requires
        0 <= i < json_escaped(c).len(),
    ensures
        json_escaped(c)[i] as int >= 32,
{
    let code = c as int;
    if code < 32 {
        reveal_strlit("0123456789abcdef");
        let digits = "0123456789abcdef"@;
        assert(forall|d: int| 0 <= d < 16 ==> #[trigger] digits[d] as int >= 48);
        assert(hex_digit(code / 16) as int >= 48);
        assert(hex_digit(code % 16) as int >= 48);
        if json_escaped(c).len() == 6 {
            assert(i == 0 || i == 1 || i == 2 || i == 3 || i == 4 || i == 5);
        }
    }
}

/// Read bytes as UTF-8, by std's `str::from_utf8`; its error comes as the message
/// it displays, which is named by [`utf8_error`].
#[verifier::external_body]
pub(crate) fn utf8_text<'a>(bytes: &'a [u8]) -> (r: Result<&'a str, String>)
    ensures
        r is Ok == valid_utf8(bytes@),
        match r {
            Ok(text) => text@ == decode_utf8(bytes@),
            Err(message) => message@ == utf8_error(bytes@),
        },
{
    std::str::from_utf8(bytes).map_err(|e| e.to_string())
}

/// A text without quotes, backslashes and control characters only gets quotes round it; and
/// what is escaped in one character is escaped wherever it stands.
pub proof fn law_plain_texts_are_only_quoted(text: Seq<char>, more: Seq<char>)
    ensures
        (forall|i: int|
            0 <= i < text.len() ==> (#[trigger] text[i]) as int >= 32 && text[i] != '"' && text[i]
                != '\\') ==> json_quoted(text) == seq!['"'] + text + seq!['"'],
        json_escapes(text + more) == json_escapes(text) + json_escapes(more),
    decreases text.len() + more.len(),
{
    if text.len() > 0 && more.len() == 0 {
        law_plain_texts_are_only_quoted(text.drop_last(), more);
        assert(text + more =~= text);
        assert(json_escapes(text) + json_escapes(more) =~= json_escapes(text));
        if forall|i: int|
            0 <= i < text.len() ==> (#[trigger] text[i]) as int >= 32 && text[i] != '"' && text[i]
                != '\\' {
            let head = text.drop_last();
            assert forall|i: int| 0 <= i < head.len() implies (#[trigger] head[i]) as int >= 32
                && head[i] != '"' && head[i] != '\\' by {
                assert(head[i] == text[i]);
            }
            lemma_unescaped(text);
        }
    } else if more.len() > 0 {
        law_plain_texts_are_only_quoted(text, more.drop_last());
        assert((text + more).drop_last() =~= text + more.drop_last());
        assert((text + more).last() == more.last());
        assert(json_escapes(text) + (json_escapes(more.drop_last()) + json_escaped(more.last()))
            =~= (json_escapes(text) + json_escapes(more.drop_last())) + json_escaped(more.last()));
    } else {
        assert(text + more =~= text);
        assert(seq!['"'] + Seq::<char>::empty() + seq!['"'] =~= seq!['"'] + text + seq!['"']);
    }
}

proof fn lemma_unescaped(text: Seq<char>)
    requires
        forall|i: int|
            0 <= i < text.len() ==> (#[trigger] text[i]) as int >= 32 && text[i] != '"' && text[i]
                != '\\',
    ensures
        json_escapes(text) == text,
    decreases text.len(),
{
    if text.len() > 0 {
        let head = text.drop_last();
        assert forall|i: int| 0 <= i < head.len() implies (#[trigger] head[i]) as int >= 32 && head[i]
            != '"' && head[i] != '\\' by {
            assert(head[i] == text[i]);
        }
        lemma_unescaped(head);
        assert(text.last() == text[text.len() - 1]);
        assert(head + seq![text.last()] =~= text);
    }
}

/// A control character is written by its code, in lower-case hexadecimal, or by its letter.
pub proof fn law_control_characters_are_written_by_code(c: char)
    ensures
        (c as int) < 32 ==> json_escaped(c)[0] == '\\' && json_escaped(c).len() == (if c as int == 8
            || c as int == 9 || c as int == 10 || c as int == 12 || c as int == 13 {
            2int
        } else {
            6
        }),
        c == '\n' ==> json_escaped(c)[1] == 'n',
        c == '\r' ==> json_escaped(c)[1] == 'r',
        c == '\t' ==> json_escaped(c)[1] == 't',
        c == '"' || c == '\\' ==> json_escaped(c)[0] == '\\' && json_escaped(c)[1] == c,
        forall|d: int| 0 <= d < 10 ==> #[trigger] hex_digit(d) == (48 + d) as char,
        forall|d: int| 10 <= d < 16 ==> #[trigger] hex_digit(d) == (87 + d) as char,
{
    reveal_strlit("0123456789abcdef");
}

} // verus!
