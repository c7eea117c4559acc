//! Submitted messages: the blank test and the outbound JSON object with the
//! fields `nick` and `message`.
use vstd::prelude::*;

verus! {

/// Characters with the Unicode White_Space property.
pub open spec fn white_space(c: char) -> bool {
    ('\u{9}' <= c && c <= '\u{D}') || c == ' ' || c == '\u{85}' || c == '\u{A0}' || c == '\u{1680}'
        || ('\u{2000}' <= c && c <= '\u{200A}') || c == '\u{2028}' || c == '\u{2029}' || c
        == '\u{202F}' || c == '\u{205F}' || c == '\u{3000}'
}

/// A message that trims to nothing.
pub open spec fn blank(s: Seq<char>) -> bool {
    forall|i: int| 0 <= i < s.len() ==> white_space(#[trigger] s[i])
}

pub fn is_white_space(c: char) -> (r: bool)
    ensures
        r == white_space(c),
{
    ('\u{9}' <= c && c <= '\u{D}') || c == ' ' || c == '\u{85}' || c == '\u{A0}' || c == '\u{1680}'
        || ('\u{2000}' <= c && c <= '\u{200A}') || c == '\u{2028}' || c == '\u{2029}' || c
        == '\u{202F}' || c == '\u{205F}' || c == '\u{3000}'
}

/// Whether the message holds nothing but white space.
pub fn is_blank(s: &Vec<char>) -> (r: bool)
    ensures
        r == blank(s@),
{
    let mut i: usize = 0;
    while i < s.len()
        invariant
            0 <= i <= s@.len(),
            forall|k: int| 0 <= k < i ==> white_space(#[trigger] s@[k]),
        decreases s@.len() - i,
    {
        if !is_white_space(s[i]) {
            return false;
        }
        i = i + 1;
    }
    true
}

/// The JSON text that serde_json writes for an object holding the string
/// field `k1` with value `v1` and the string field `k2` with value `v2`.
pub uninterp spec fn json_object_text(
    k1: Seq<char>,
    v1: Seq<char>,
    k2: Seq<char>,
    v2: Seq<char>,
) -> Seq<char>;

#[verifier::external_type_specification]
#[verifier::external_body]
pub struct ExJsonError(serde_json::Error);

/// Relies on serde_json's `Map::insert` and `to_string` on a `Value::Object`:
/// the JSON text of an object of two string fields. Writing strings and
/// string keys into a `Vec` does not fail.
#[verifier::external_body]
fn json_object2(k1: &Vec<char>, v1: &Vec<char>, k2: &Vec<char>, v2: &Vec<char>) -> (r: Result<
    Vec<char>,
    serde_json::Error,
>)
    ensures
        r is Ok,
        r->Ok_0@ == json_object_text(k1@, v1@, k2@, v2@),
{
    let mut map = serde_json::Map::new();
    map.insert(k1.iter().collect(), serde_json::Value::String(v1.iter().collect()));
    map.insert(k2.iter().collect(), serde_json::Value::String(v2.iter().collect()));
    match serde_json::to_string(&serde_json::Value::Object(map)) {
        Ok(text) => Ok(text.chars().collect()),
        Err(e) => Err(e),
    }
}

/// The name of the sender's field in the outbound object.
pub open spec fn nick_key() -> Seq<char> {
    seq!['n', 'i', 'c', 'k']
}

/// The name of the text's field in the outbound object.
pub open spec fn message_key() -> Seq<char> {
    seq!['m', 'e', 's', 's', 'a', 'g', 'e']
}

/// The outbound JSON object `{"nick": nick, "message": message}`.
pub open spec fn payload_of(nick: Seq<char>, message: Seq<char>) -> Seq<char> {
    json_object_text(nick_key(), nick, message_key(), message)
}

/// The JSON object with the fields `nick` and `message` sent for `message` by `nick`.
pub fn outbound_payload(nick: &Vec<char>, message: &Vec<char>) -> (r: Vec<char>)
    ensures
        r@ == payload_of(nick@, message@),
{
    let nick_field: Vec<char> = vec!['n', 'i', 'c', 'k'];
    let message_field: Vec<char> = vec!['m', 'e', 's', 's', 'a', 'g', 'e'];
    proof {
        assert(nick_field@ =~= nick_key());
        assert(message_field@ =~= message_key());
    }
    match json_object2(&nick_field, nick, &message_field, message) {
        Ok(text) => text,
        Err(_) => Vec::new(),
    }
}

} // verus!
