//! Reading the catalogue's answers, which arrive as `serde_json` values.
//!
//! Nothing inside such a value is visible to the proofs. What the library reads of it
//! goes through three questions, each asked with a JSON pointer: which string, which
//! count, or an array of which length stands there. The answers are named
//! ([`texts`], [`numbers`], [`lengths`]), so that contracts can say which places of an
//! answer a result was made of.

use vstd::prelude::*;
use vstd::string::StringExecFns;

verus! {

/// `serde_json::Value`, carried through as it is.
#[verifier::external_type_specification]
#[verifier::external_body]
pub struct ExValue(serde_json::Value);

/// The strings a JSON value holds: every JSON pointer at which a string stands, with
/// the text of that string.
pub uninterp spec fn texts(value: serde_json::Value) -> Map<Seq<char>, Seq<char>>;

/// The counts a JSON value holds: every JSON pointer at which a number stands that is
/// a non-negative integer within 64 bits, with that number.
pub uninterp spec fn numbers(value: serde_json::Value) -> Map<Seq<char>, u64>;

/// The arrays a JSON value holds: every JSON pointer at which an array stands, with
/// the number of its elements.
pub uninterp spec fn lengths(value: serde_json::Value) -> Map<Seq<char>, nat>;

/// What a map holds under a key, if anything.
pub open spec fn lookup<V>(map: Map<Seq<char>, V>, key: Seq<char>) -> Option<V> {
    if map.dom().contains(key) {
        Some(map[key])
    } else {
        None
    }
}

/// `serde_json::Value::pointer` followed by `Value::as_str`: the text of the string
/// that `pointer` leads to; nothing where it leads nowhere or to something else.
#[verifier::external_body]
pub(crate) fn text_at(value: &serde_json::Value, pointer: &str) -> (text: Option<String>)
    ensures
        text.deep_view() == lookup(texts(*value), pointer@),
{
    value.pointer(pointer).and_then(serde_json::Value::as_str).map(str::to_owned)
}

/// `serde_json::Value::pointer` followed by `Value::as_u64`: the non-negative integer
/// that `pointer` leads to; nothing where it leads nowhere or to something else.
#[verifier::external_body]
pub(crate) fn number_at(value: &serde_json::Value, pointer: &str) -> (number: Option<u64>)
    ensures
        number == lookup(numbers(*value), pointer@),
{
    value.pointer(pointer).and_then(serde_json::Value::as_u64)
}

/// `serde_json::Value::pointer` followed by `Value::as_array` and `Vec::len`: the
/// length of the array that `pointer` leads to; nothing where it leads nowhere or to
/// something else.
#[verifier::external_body]
pub(crate) fn length_at(value: &serde_json::Value, pointer: &str) -> (length: Option<usize>)
    ensures
        match length {
            Some(n) => lookup(lengths(*value), pointer@) == Some(n as nat),
            None => lookup(lengths(*value), pointer@) is None,
        },
{
    value.pointer(pointer).and_then(serde_json::Value::as_array).map(Vec::len)
}

/// One decimal digit as text.
pub open spec fn digit(d: nat) -> Seq<char> {
    if d == 0 {
        "0"@
    } else if d == 1 {
        "1"@
    } else if d == 2 {
        "2"@
    } else if d == 3 {
        "3"@
    } else if d == 4 {
        "4"@
    } else if d == 5 {
        "5"@
    } else if d == 6 {
        "6"@
    } else if d == 7 {
        "7"@
    } else if d == 8 {
        "8"@
    } else {
        "9"@
    }
}

/// A number in decimal, without sign and without leading zero: how a JSON pointer
/// names an element of an array.
pub open spec fn decimal(n: nat) -> Seq<char>
    decreases n,
{
    if n < 10 {
        digit(n)
    } else {
        decimal(n / 10) + digit(n % 10)
    }
}

/// Writes a number in decimal.
pub fn decimal_text(n: usize) -> (text: String)
    ensures
        text@ == decimal(n as nat),
    decreases n,
{
    let last = n % 10;
    let digit_text = if last == 0 {
        "0"
    } else if last == 1 {
        "1"
    } else if last == 2 {
        "2"
    } else if last == 3 {
        "3"
    } else if last == 4 {
        "4"
    } else if last == 5 {
        "5"
    } else if last == 6 {
        "6"
    } else if last == 7 {
        "7"
    } else if last == 8 {
        "8"
    } else {
        "9"
    };
    if n < 10 {
        String::from_str(digit_text)
    } else {
        let mut text = decimal_text(n / 10);
        text.append(digit_text);
        text
    }
}

/// The pointer to what stands at `field` inside element `index` of the array at
/// `list`; to the element itself where `field` is empty.
pub open spec fn element_pointer(list: Seq<char>, index: nat, field: Seq<char>) -> Seq<char> {
    list + "/"@ + decimal(index) + field
}

/// Builds the pointer to a place inside an element of an array.
pub fn element_path(list: &str, index: usize, field: &str) -> (pointer: String)
    ensures
        pointer@ == element_pointer(list@, index as nat, field@),
{
    let mut pointer = String::from_str(list);
    pointer.append("/");
    pointer.append(decimal_text(index).as_str());
    pointer.append(field);
    pointer
}

} // verus!
