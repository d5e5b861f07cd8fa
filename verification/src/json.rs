//! Reading and writing JSON text through `serde_json`.
//!
//! What a text holds is given by names: what stands under a key of the object
//! that the text writes. A text that is not JSON, or writes no object, holds
//! nothing under any key.

use crate::text;
use vstd::prelude::*;

verus! {

/// The message with which `serde_json` refuses `text`; none if it is JSON.
pub uninterp spec fn json_error(text: Seq<char>) -> Option<Seq<char>>;

/// The string under `key`.
pub uninterp spec fn json_text(text: Seq<char>, key: Seq<char>) -> Option<Seq<char>>;

/// The unsigned integer under `key`.
pub uninterp spec fn json_unsigned(text: Seq<char>, key: Seq<char>) -> Option<u64>;

/// The signed integer under `key`.
pub uninterp spec fn json_signed(text: Seq<char>, key: Seq<char>) -> Option<i64>;

/// The unsigned integer under `key` of the object under `outer`.
pub uninterp spec fn json_inner_unsigned(
    text: Seq<char>,
    outer: Seq<char>,
    key: Seq<char>,
) -> Option<u64>;

/// The string under `key` of the object under `outer`, in the JSON that the
/// bytes write.
pub uninterp spec fn json_inner_text(
    bytes: Seq<u8>,
    outer: Seq<char>,
    key: Seq<char>,
) -> Option<Seq<char>>;

/// The number of items of the list that `text` writes.
pub uninterp spec fn json_list_len(text: Seq<char>) -> Option<usize>;

/// The object with these strings and lists of strings, as indented text.
pub uninterp spec fn json_object(
    texts: Seq<(Seq<char>, Seq<char>)>,
    lists: Seq<(Seq<char>, Seq<Seq<char>>)>,
) -> Seq<char>;

/// Trusted: `serde_json::from_str` to a `Value` either reads the text or fails
/// with a message, which depends on the text alone.
#[verifier::external_body]
pub(crate) fn error_in(text: &str) -> (r: Option<String>)
    ensures
        text::opt_string(r) == json_error(text@),
{
    serde_json::from_str::<serde_json::Value>(text).err().map(|e| e.to_string())
}

/// Trusted: `serde_json::from_str` to a `Value`, then `Value`'s index and
/// `as_str`, give the string under a key of an object; none where there is
/// no JSON, no object, no such key or no string.
#[verifier::external_body]
pub(crate) fn text_at(text: &str, key: &str) -> (r: Option<String>)
    ensures
        text::opt_string(r) == json_text(text@, key@),
{
    let v = serde_json::from_str::<serde_json::Value>(text).ok()?;
    v[key].as_str().map(|s| s.to_owned())
}

/// Trusted: as `text_at`, with `Value::as_u64`.
#[verifier::external_body]
pub(crate) fn unsigned_at(text: &str, key: &str) -> (r: Option<u64>)
    ensures
        r == json_unsigned(text@, key@),
{
    serde_json::from_str::<serde_json::Value>(text).ok()?[key].as_u64()
}

/// Trusted: as `text_at`, with `Value::as_i64`.
#[verifier::external_body]
pub(crate) fn signed_at(text: &str, key: &str) -> (r: Option<i64>)
    ensures
        r == json_signed(text@, key@),
{
    serde_json::from_str::<serde_json::Value>(text).ok()?[key].as_i64()
}

/// Trusted: as `unsigned_at`, under a key of the object under another key.
#[verifier::external_body]
pub(crate) fn inner_unsigned_at(text: &str, outer: &str, key: &str) -> (r: Option<u64>)
    ensures
        r == json_inner_unsigned(text@, outer@, key@),
{
    serde_json::from_str::<serde_json::Value>(text).ok()?[outer][key].as_u64()
}

/// Trusted: `serde_json::from_slice` to a `Value`, then `Value`'s index twice
/// and `as_str`; none where the bytes are not JSON or a step finds nothing.
#[verifier::external_body]
pub(crate) fn inner_text_at(bytes: &[u8], outer: &str, key: &str) -> (r: Option<String>)
    ensures
        text::opt_string(r) == json_inner_text(bytes@, outer@, key@),
{
    let v = serde_json::from_slice::<serde_json::Value>(bytes).ok()?;
    v[outer][key].as_str().map(|s| s.to_owned())
}

/// Trusted: `serde_json::from_str` to a `Vec` of `Value`s reads a list of any
/// JSON values, and nothing else.
#[verifier::external_body]
pub(crate) fn list_len(text: &str) -> (r: Option<usize>)
    ensures
        r == json_list_len(text@),
{
    serde_json::from_str::<Vec<serde_json::Value>>(text).ok().map(|v| v.len())
}

// ---------------------------------------------------------------------------
// Writing
// ---------------------------------------------------------------------------

/// The pairs of a list, as values.
pub open spec fn pairs(v: Seq<(String, String)>) -> Seq<(Seq<char>, Seq<char>)> {
    Seq::new(v.len(), |i: int| (v[i].0@, v[i].1@))
}

/// The named lists of a list, as values.
pub open spec fn named_lists(v: Seq<(String, Vec<String>)>) -> Seq<(Seq<char>, Seq<Seq<char>>)> {
    Seq::new(v.len(), |i: int| (v[i].0@, text::views(v[i].1@)))
}

/// Adds a pair to the end of `v`.
pub fn push_pair(v: &mut Vec<(String, String)>, key: &str, value: &str)
    ensures
        pairs(final(v)@) == pairs(old(v)@).push((key@, value@)),
{
    v.push((key.to_owned(), value.to_owned()));
    assert(pairs(v@) =~= pairs(old(v)@).push((key@, value@)));
}

/// Adds a named list to the end of `v`.
pub fn push_list(v: &mut Vec<(String, Vec<String>)>, key: &str, list: Vec<String>)
    ensures
        named_lists(final(v)@) == named_lists(old(v)@).push((key@, text::views(list@))),
{
    v.push((key.to_owned(), list));
    assert(named_lists(v@) =~= named_lists(old(v)@).push((key@, text::views(list@))));
}

/// What stands last under `key`.
pub open spec fn last_under(
    fields: Seq<(Seq<char>, Seq<char>)>,
    key: Seq<char>,
) -> Option<Seq<char>>
    decreases fields.len(),
{
    if fields.len() == 0 {
        None
    } else if fields.last().0 == key {
        Some(fields.last().1)
    } else {
        last_under(fields.drop_last(), key)
    }
}

pub proof fn lemma_last_under_push(
    fields: Seq<(Seq<char>, Seq<char>)>,
    key: Seq<char>,
    value: Seq<char>,
    asked: Seq<char>,
)
    ensures
        last_under(fields.push((key, value)), asked) == (if key == asked {
            Some(value)
        } else {
            last_under(fields, asked)
        }),
{
    assert(fields.push((key, value)).drop_last() =~= fields);
}

/// Trusted: collecting pairs into a `serde_json::Value` makes an object in
/// which a later pair replaces an earlier one with the same key, and
/// `serde_json::to_string_pretty` writes it, without failing, as indented
/// JSON. That text reads back as JSON, and of an object of strings alone each
/// string reads back under its key and nothing under any other.
#[verifier::external_body]
pub(crate) fn object_text(
    texts: &Vec<(String, String)>,
    lists: &Vec<(String, Vec<String>)>,
) -> (r: String)
    ensures
        r@ == json_object(pairs(texts@), named_lists(lists@)),
        json_error(r@) is None,
        lists@.len() == 0 ==> forall|k: Seq<char>|
            #[trigger] json_text(r@, k) == last_under(pairs(texts@), k),
{
    let texts = texts.iter().map(|(k, v)| (k.clone(), serde_json::Value::from(v.clone())));
    let lists = lists.iter().map(|(k, v)| (k.clone(), serde_json::Value::from(v.clone())));
    serde_json::to_string_pretty(&texts.chain(lists).collect::<serde_json::Value>()).unwrap()
}

} // verus!
