//! The wire formats, which this library does not read itself: query strings
//! are decoded by `serde_urlencoded` and JSON bodies by `serde_json`. Nothing
//! is proved of either. Each result has a name here, so that the contracts of
//! the filters can say which decoded value they hand on.

use vstd::prelude::*;

verus! {

/// The value of one member of a JSON object, as far as the library looks
/// into it.
#[derive(Debug)]
pub enum Json {
    Null,
    Flag(bool),
    /// A number, with its value where it has no sign and no fraction and
    /// fits in 64 bits.
    Number(Option<u64>),
    Text(String),
    Array,
    Object,
}

/// The mathematical value of a [`Json`].
pub enum JsonView {
    Null,
    Flag(bool),
    Number(Option<u64>),
    Text(Seq<char>),
    Array,
    Object,
}

impl View for Json {
    type V = JsonView;

    open spec fn view(&self) -> JsonView {
        match self {
            Json::Null => JsonView::Null,
            Json::Flag(b) => JsonView::Flag(*b),
            Json::Number(n) => JsonView::Number(*n),
            Json::Text(s) => JsonView::Text(s@),
            Json::Array => JsonView::Array,
            Json::Object => JsonView::Object,
        }
    }
}

impl DeepView for Json {
    type V = JsonView;

    open spec fn deep_view(&self) -> JsonView {
        self@
    }
}

/// The key-value pairs that `serde_urlencoded::from_str` reads from a query
/// string, in their order; `None` where it reports an error.
pub uninterp spec fn query_pairs(query: Seq<char>) -> Option<Seq<(Seq<char>, Seq<char>)>>;

/// The members of the JSON object that `serde_json::from_slice` reads from
/// a body, each a key and its value; `None` where it reports an error, as
/// it does for a body that is no JSON document or holds no object.
pub uninterp spec fn json_object(body: Seq<u8>) -> Option<Seq<(Seq<char>, JsonView)>>;

/// Calls `serde_urlencoded::from_str` for a list of pairs of strings. The
/// contract only gives the result its name.
#[verifier::external_body]
pub(crate) fn decode_pairs(query: &str) -> (r: Option<Vec<(String, String)>>)
    ensures
        r.deep_view() == query_pairs(query@),
{
    serde_urlencoded::from_str::<Vec<(String, String)>>(query).ok()
}

/// Calls `serde_json::from_slice` for a map of `serde_json::Value`, and
/// hands the members on in the order of the map, each value as the `Json`
/// of its variant; for a number that is what `Number::as_u64` gives. The
/// contract only gives the result its name.
#[verifier::external_body]
pub(crate) fn decode_object(body: &[u8]) -> (r: Option<Vec<(String, Json)>>)
    ensures
        r.deep_view() == json_object(body@),
{
    let object: serde_json::Map<String, serde_json::Value> = serde_json::from_slice(body).ok()?;
    let mut members = Vec::new();
    for (name, value) in object {
        members.push((name, match value {
            serde_json::Value::Null => Json::Null,
            serde_json::Value::Bool(b) => Json::Flag(b),
            serde_json::Value::Number(n) => Json::Number(n.as_u64()),
            serde_json::Value::String(s) => Json::Text(s),
            serde_json::Value::Array(_) => Json::Array,
            serde_json::Value::Object(_) => Json::Object,
        }));
    }
    Some(members)
}

} // verus!
