//! Reading and writing JSON. Places in a document are named by JSON pointers.
use vstd::prelude::*;
use vstd::string::*;

use crate::contracts::option_text;
use crate::text::{decimal, join_with, joined_with, push_decimal, text_views};

verus! {

/// The crate `serde_json` accepts the text as a JSON document.
pub uninterp spec fn json_document(text: Seq<char>) -> bool;

/// What the crate `serde_json` gives for a text as a JSON string literal.
pub uninterp spec fn json_quoted(text: Seq<char>) -> Seq<char>;

/// The string at a place of a document, if there is one.
pub uninterp spec fn json_text(document: Seq<char>, pointer: Seq<char>) -> Option<Seq<char>>;

/// The unsigned integer at a place of a document, if there is one.
pub uninterp spec fn json_unsigned(document: Seq<char>, pointer: Seq<char>) -> Option<u64>;

/// The number of elements of the array at a place of a document, if there is one.
pub uninterp spec fn json_array_len(document: Seq<char>, pointer: Seq<char>) -> Option<usize>;

/// Some value stands at a place of a document.
pub uninterp spec fn json_present(document: Seq<char>, pointer: Seq<char>) -> bool;

/// `serde_json::from_str` into a `Value`: whether the text is a JSON document.
#[verifier::external_body]
pub(crate) fn is_json(text: &str) -> (answer: bool)
    ensures
        answer == json_document(text@),
{
    serde_json::from_str::<serde_json::Value>(text).is_ok()
}

/// `serde_json::to_string` of a string, which cannot fail: the string literal
/// that denotes the text.
#[verifier::external_body]
pub(crate) fn quoted(text: &str) -> (literal: String)
    ensures
        literal@ == json_quoted(text@),
{
    serde_json::to_string(text).unwrap()
}

/// `Value::as_str` of what `Value::pointer` finds in the parsed document.
/// Nothing is found in a text that is not JSON.
#[verifier::external_body]
pub(crate) fn text_at(document: &str, pointer: &str) -> (text: Option<String>)
    ensures
        match text {
            Some(text) => json_text(document@, pointer@) == Some(text@),
            None => json_text(document@, pointer@) is None,
        },
{
    let value = serde_json::from_str::<serde_json::Value>(document).ok()?;
    value.pointer(pointer)?.as_str().map(str::to_owned)
}

/// `Value::as_u64` of what `Value::pointer` finds in the parsed document.
#[verifier::external_body]
pub(crate) fn unsigned_at(document: &str, pointer: &str) -> (n: Option<u64>)
    ensures
        n == json_unsigned(document@, pointer@),
{
    let value = serde_json::from_str::<serde_json::Value>(document).ok()?;
    value.pointer(pointer)?.as_u64()
}

/// The length of `Value::as_array` of what `Value::pointer` finds in the
/// parsed document.
#[verifier::external_body]
pub(crate) fn array_len_at(document: &str, pointer: &str) -> (len: Option<usize>)
    ensures
        len == json_array_len(document@, pointer@),
{
    let value = serde_json::from_str::<serde_json::Value>(document).ok()?;
    value.pointer(pointer)?.as_array().map(Vec::len)
}

/// Whether `Value::pointer` finds anything in the parsed document.
#[verifier::external_body]
pub(crate) fn present_at(document: &str, pointer: &str) -> (answer: bool)
    ensures
        answer == json_present(document@, pointer@),
{
    match serde_json::from_str::<serde_json::Value>(document) {
        Ok(value) => value.pointer(pointer).is_some(),
        Err(_) => false,
    }
}

/// A member of a JSON object whose name needs no escapes.
pub open spec fn member(name: Seq<char>, value: Seq<char>) -> Seq<char> {
    "\""@ + name + "\":"@ + value
}

/// Write a member whose name needs no escapes and whose value is JSON text.
pub fn member_text(name: &str, value: &str) -> (text: String)
    ensures
        text@ == member(name@, value@),
{
    let mut text = "\"".to_owned();
    text.append(name);
    text.append("\":");
    text.append(value);
    text
}

/// An object of members, in the order in which they are given.
pub open spec fn object(members: Seq<Seq<char>>) -> Seq<char> {
    "{"@ + joined_with(members, ","@) + "}"@
}

/// Write an object of members.
pub fn object_text(members: &Vec<String>) -> (text: String)
    ensures
        text@ == object(text_views(members@)),
{
    let mut text = "{".to_owned();
    let inner = join_with(members, ",");
    text.append(inner.as_str());
    text.append("}");
    text
}

/// An array of values, in the order in which they are given.
pub open spec fn array(values: Seq<Seq<char>>) -> Seq<char> {
    "["@ + joined_with(values, ","@) + "]"@
}

/// Write an array of JSON texts.
pub fn array_text(values: &Vec<String>) -> (text: String)
    ensures
        text@ == array(text_views(values@)),
{
    let mut text = "[".to_owned();
    let inner = join_with(values, ",");
    text.append(inner.as_str());
    text.append("]");
    text
}

/// One member, or none where there is no value.
pub open spec fn optional_member(name: Seq<char>, value: Option<Seq<char>>) -> Seq<Seq<char>> {
    match value {
        Some(value) => seq![member(name, value)],
        None => seq![],
    }
}

/// Append a member, if there is a value.
pub fn push_optional(members: &mut Vec<String>, name: &str, value: &Option<String>)
    ensures
        text_views(final(members)@) == text_views(old(members)@) + optional_member(
            name@,
            option_text(*value),
        ),
{
    if let Some(value) = value {
        members.push(member_text(name, value.as_str()));
    }
    assert(text_views(members@) =~= text_views(old(members)@) + optional_member(
        name@,
        option_text(*value),
    ));
}

/// Append a member.
pub fn push_member(members: &mut Vec<String>, name: &str, value: &str)
    ensures
        text_views(final(members)@) == text_views(old(members)@).push(member(name@, value@)),
{
    members.push(member_text(name, value));
    assert(text_views(members@) =~= text_views(old(members)@).push(member(name@, value@)));
}

/// The numeral of an unsigned number.
pub fn number_text(n: u64) -> (text: String)
    ensures
        text@ == decimal(n as nat),
{
    let mut text = String::new();
    push_decimal(&mut text, n);
    assert(text@ =~= decimal(n as nat));
    text
}

/// The numerals of numbers.
pub open spec fn numerals(ids: Seq<u32>) -> Seq<Seq<char>> {
    Seq::new(ids.len(), |i: int| decimal(ids[i] as nat))
}

/// The array of numbers.
pub fn numbers_text(ids: &Vec<u32>) -> (text: String)
    ensures
        text@ == array(numerals(ids@)),
{
    let mut values: Vec<String> = Vec::new();
    let mut i: usize = 0;
    while i < ids.len()
        invariant
            i <= ids.len(),
            text_views(values@) == numerals(ids@).take(i as int),
        decreases ids.len() - i,
    {
        let ghost before = values@;
        values.push(number_text(ids[i] as u64));
        i += 1;
        assert(text_views(values@) =~= text_views(before).push(decimal(ids@[i - 1] as nat)));
        assert(text_views(values@) =~= numerals(ids@).take(i as int));
    }
    assert(text_views(values@) =~= numerals(ids@));
    array_text(&values)
}

/// The JSON value of an optional text: the literal, or `null`.
pub open spec fn literal_or_null(literal: Option<Seq<char>>) -> Seq<char> {
    match literal {
        Some(literal) => literal,
        None => "null"@,
    }
}

/// The literal, or `null`.
pub fn or_null(literal: &Option<String>) -> (text: String)
    ensures
        text@ == literal_or_null(option_text(*literal)),
{
    match literal {
        Some(literal) => literal.clone(),
        None => "null".to_owned(),
    }
}

/// The literal of an optional text.
pub open spec fn quoted_option(text: Option<Seq<char>>) -> Option<Seq<char>> {
    match text {
        Some(text) => Some(json_quoted(text)),
        None => None,
    }
}

/// Quote an optional text.
pub fn quote_option(text: &Option<String>) -> (literal: Option<String>)
    ensures
        option_text(literal) == quoted_option(option_text(*text)),
{
    match text {
        Some(text) => Some(quoted(text.as_str())),
        None => None,
    }
}

/// A member is its name in quotes, a colon and its value. Objects stand in braces
/// and lists in brackets, with commas between what they hold.
pub proof fn law_json_is_written_as_json(
    name: Seq<char>,
    value: Seq<char>,
    parts: Seq<Seq<char>>,
)
    ensures
        member(name, value) == seq!['"'] + name + seq!['"', ':'] + value,
        object(seq![]) == seq!['{', '}'],
        object(seq![value]) == seq!['{'] + value + seq!['}'],
        parts.len() > 0 ==> object(parts.push(value)) == object(parts).drop_last() + seq![','] + value
            + seq!['}'],
        array(seq![]) == seq!['[', ']'],
        array(seq![value]) == seq!['['] + value + seq![']'],
        parts.len() > 0 ==> array(parts.push(value)) == array(parts).drop_last() + seq![','] + value
            + seq![']'],
        optional_member(name, None) == Seq::<Seq<char>>::empty(),
        optional_member(name, Some(value)) == seq![member(name, value)],
        literal_or_null(Some(value)) == value,
        literal_or_null(None) == seq!['n', 'u', 'l', 'l'],
{
    reveal_strlit("\"");
    reveal_strlit("\":");
    reveal_strlit("{");
    reveal_strlit("}");
    reveal_strlit("[");
    reveal_strlit("]");
    reveal_strlit(",");
    reveal_strlit("null");
    assert("\""@ =~= seq!['"']);
    assert("\":"@ =~= seq!['"', ':']);
    assert("{"@ =~= seq!['{']);
    assert("}"@ =~= seq!['}']);
    assert("["@ =~= seq!['[']);
    assert("]"@ =~= seq![']']);
    assert(","@ =~= seq![',']);
    assert("null"@ =~= seq!['n', 'u', 'l', 'l']);
    assert(object(seq![]) =~= seq!['{', '}']);
    assert(array(seq![]) =~= seq!['[', ']']);
    if parts.len() > 0 {
        assert(parts.push(value).drop_last() =~= parts);
        assert(object(parts).drop_last() =~= "{"@ + joined_with(parts, ","@));
        assert(array(parts).drop_last() =~= "["@ + joined_with(parts, ","@));
        assert(object(parts.push(value)) =~= object(parts).drop_last() + seq![','] + value + seq![
            '}',
        ]);
        assert(array(parts.push(value)) =~= array(parts).drop_last() + seq![','] + value + seq![
            ']',
        ]);
    }
}

} // verus!
