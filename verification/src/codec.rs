//! The payloads exchanged with the runtime's system services: JSON written
//! and read by serde_json, and UTF-8 text decoded by std.

use vstd::prelude::*;
use vstd::utf8::{decode_utf8, valid_utf8};
use crate::high_level::addons::keyed::names_view;
use crate::text::signed_decimal;

verus! {

/// The bytes serde_json writes for a pair of strings.
pub uninterp spec fn json_of_text_pair(a: Seq<char>, b: Seq<char>) -> Seq<u8>;

/// The bytes serde_json writes for a list of strings.
pub uninterp spec fn json_of_text_list(items: Seq<Seq<char>>) -> Seq<u8>;

/// The pair of strings serde_json reads from the bytes, if they hold one.
pub uninterp spec fn text_pair_of_json(bytes: Seq<u8>) -> Option<(Seq<char>, Seq<char>)>;

/// The string and list of strings serde_json reads from the bytes, if they hold them.
pub uninterp spec fn name_and_list_of_json(bytes: Seq<u8>) -> Option<(Seq<char>, Seq<Seq<char>>)>;

/// The list of strings serde_json reads from the bytes, if they hold one.
pub uninterp spec fn text_list_of_json(bytes: Seq<u8>) -> Option<Seq<Seq<char>>>;

/// What serde_json reads from a JSON text under its `packages` key: `None`
/// when the text is not JSON; `Some(None)` when `packages` is missing or not
/// an array; otherwise each element, as its string when it is one.
pub uninterp spec fn packages_of_json(text: Seq<char>) -> Option<Option<Seq<Option<Seq<char>>>>>;

/// The texts of a list of optional strings.
pub open spec fn opt_texts_view(s: Seq<Option<String>>) -> Seq<Option<Seq<char>>> {
    s.map_values(|e: Option<String>| match e {
        Some(t) => Some(t@),
        None => None,
    })
}

/// The pair of unsigned numbers serde_json reads from the bytes, if they hold one.
pub uninterp spec fn u64_pair_of_json(bytes: Seq<u8>) -> Option<(u64, u64)>;

/// The ASCII bytes of a text made of ASCII characters.
pub open spec fn ascii_bytes(s: Seq<char>) -> Seq<u8> {
    s.map_values(|c: char| c as u8)
}

/// `serde_json::to_vec` on an `i32`: its decimal form, with a minus sign
/// when negative (an integer always serializes).
#[verifier::external_body]
pub(crate) fn encode_i32(v: i32) -> (r: Vec<u8>)
    ensures
        r@ == ascii_bytes(signed_decimal(v as int)),
{
    serde_json::to_vec(&v).unwrap_or_default()
}

/// `serde_json::to_vec` on a pair of strings (strings always serialize);
/// the bytes are named by `json_of_text_pair`.
#[verifier::external_body]
pub(crate) fn encode_text_pair(a: &String, b: &String) -> (r: Vec<u8>)
    ensures
        r@ == json_of_text_pair(a@, b@),
{
    serde_json::to_vec(&(a, b)).unwrap_or_default()
}

/// `serde_json::to_vec` on a list of strings; the bytes are named by
/// `json_of_text_list`.
#[verifier::external_body]
pub(crate) fn encode_text_list(items: &Vec<String>) -> (r: Vec<u8>)
    ensures
        r@ == json_of_text_list(names_view(items@)),
{
    serde_json::to_vec(items).unwrap_or_default()
}

/// `serde_json::from_slice` into a pair of strings; `None` where the bytes
/// do not hold one. What it reads is named by `text_pair_of_json`.
#[verifier::external_body]
pub(crate) fn decode_text_pair(bytes: &Vec<u8>) -> (r: Option<(String, String)>)
    ensures
        match r {
            Some(p) => text_pair_of_json(bytes@) == Some((p.0@, p.1@)),
            None => text_pair_of_json(bytes@) is None,
        },
{
    serde_json::from_slice::<(String, String)>(bytes).ok()
}

/// `serde_json::from_slice` into a string and a list of strings; what it
/// reads is named by `name_and_list_of_json`.
#[verifier::external_body]
pub(crate) fn decode_name_and_list(bytes: &Vec<u8>) -> (r: Option<(String, Vec<String>)>)
    ensures
        match r {
            Some(p) => name_and_list_of_json(bytes@) == Some((p.0@, names_view(p.1@))),
            None => name_and_list_of_json(bytes@) is None,
        },
{
    serde_json::from_slice::<(String, Vec<String>)>(bytes).ok()
}

/// `serde_json::from_slice` into a pair of `u64`; what it reads is named by
/// `u64_pair_of_json`.
#[verifier::external_body]
pub(crate) fn decode_u64_pair(bytes: &Vec<u8>) -> (r: Option<(u64, u64)>)
    ensures
        r == u64_pair_of_json(bytes@),
{
    serde_json::from_slice::<(u64, u64)>(bytes).ok()
}

/// `serde_json::from_slice` into a list of strings, on the bytes from
/// `from` on; what it reads is named by `text_list_of_json`.
#[verifier::external_body]
pub(crate) fn decode_text_list(bytes: &Vec<u8>, from: usize) -> (r: Option<Vec<String>>)
    requires
        from <= bytes@.len(),
    ensures
        match r {
            Some(l) => text_list_of_json(bytes@.skip(from as int)) == Some(names_view(l@)),
            None => text_list_of_json(bytes@.skip(from as int)) is None,
        },
{
    serde_json::from_slice::<Vec<String>>(&bytes[from..]).ok()
}

/// `serde_json::from_str` into a JSON value, then its `packages` array
/// with each element as a string where it is one; what it reads is named
/// by `packages_of_json`.
#[verifier::external_body]
pub(crate) fn decode_packages(text: &str) -> (r: Option<Option<Vec<Option<String>>>>)
    ensures
        match r {
            Some(Some(l)) => packages_of_json(text@) == Some(Some(opt_texts_view(l@))),
            Some(None) => packages_of_json(text@) == Some(None::<Seq<Option<Seq<char>>>>),
            None => packages_of_json(text@) is None,
        },
{
    match serde_json::from_str::<serde_json::Value>(text) {
        Ok(v) => Some(v["packages"].as_array().map(|a| a.iter().map(|x| x.as_str().map(String::from)).collect())),
        Err(_) => None,
    }
}

/// `String::from_utf8`: the text the bytes encode when they are valid
/// UTF-8, and `None` when they are not.
#[verifier::external_body]
pub(crate) fn text_of_utf8(bytes: Vec<u8>) -> (r: Option<String>)
    ensures
        match r {
            Some(s) => valid_utf8(bytes@) && s@ == decode_utf8(bytes@),
            None => !valid_utf8(bytes@),
        },
{
    String::from_utf8(bytes).ok()
}

} // verus!
