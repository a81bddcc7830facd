//! Reading one member out of a JSON document.

use vstd::prelude::*;

verus! {

/// What a JSON document holds under one key of its top-level object.
#[derive(Debug)]
pub enum JsonMember {
    /// The document is no object or has no such member.
    Absent,
    /// A string.
    Text(String),
    /// A number, as the bit pattern of its double-precision value.
    Number(u64),
    /// Anything else: `null`, a boolean, an array or an object.
    Other,
}

/// `JsonMember` over mathematical text.
pub enum JsonMemberView {
    Absent,
    Text(Seq<char>),
    Number(u64),
    Other,
}

impl View for JsonMember {
    type V = JsonMemberView;

    open spec fn view(&self) -> JsonMemberView {
        match self {
            JsonMember::Absent => JsonMemberView::Absent,
            JsonMember::Text(s) => JsonMemberView::Text(s@),
            JsonMember::Number(bits) => JsonMemberView::Number(*bits),
            JsonMember::Other => JsonMemberView::Other,
        }
    }
}

/// The member `key` of the JSON document `text`, or the parser's message
/// where `text` is no JSON document.
pub uninterp spec fn json_member(text: Seq<char>, key: Seq<char>) -> Result<
    JsonMemberView,
    Seq<char>,
>;

/// Whether `r` is `expected`, text compared by its characters.
pub open spec fn same_member(
    r: Result<JsonMember, String>,
    expected: Result<JsonMemberView, Seq<char>>,
) -> bool {
    match r {
        Ok(m) => expected == Ok::<JsonMemberView, Seq<char>>(m@),
        Err(e) => expected == Err::<JsonMemberView, Seq<char>>(e@),
    }
}

/// Parses `text` with `serde_json::from_str` into a `serde_json::Value` and
/// looks `key` up with `Value::get`.
///
/// Trusted: the result is taken to depend on `text` and `key` alone. A parse
/// error comes back as its `Display` text; a string member as its content; a
/// number member as the bits of what `Number::as_f64` gives.
#[verifier::external_body]
pub(crate) fn read_member(text: &str, key: &str) -> (r: Result<JsonMember, String>)
    ensures
        same_member(r, json_member(text@, key@)),
{
    match serde_json::from_str::<serde_json::Value>(text) {
        Err(e) => Err(e.to_string()),
        Ok(doc) => Ok(
            match doc.get(key) {
                None => JsonMember::Absent,
                Some(serde_json::Value::String(s)) => JsonMember::Text(s.clone()),
                Some(serde_json::Value::Number(n)) => n.as_f64().map_or(
                    JsonMember::Other,
                    |x| JsonMember::Number(x.to_bits()),
                ),
                Some(_) => JsonMember::Other,
            },
        ),
    }
}

} // verus!
