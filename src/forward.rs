//! The body sent to the persistence service once a request has completed.
use vstd::prelude::*;
use vstd::string::*;

verus! {

/// The compact JSON text of a string value holding `s`: quotes and escapes
/// as serde_json writes them.
pub uninterp spec fn json_string_of(s: Seq<char>) -> Seq<char>;

/// Relies on serde_json's `Display` for `Value::String`, which writes the
/// compact JSON text of the string; the text depends on `s` alone.
#[verifier::external_body]
fn json_string(s: &String) -> (r: String)
    ensures
        r@ == json_string_of(s@),
{
    serde_json::Value::String(s.clone()).to_string()
}

/// The forwarded document: `{"file":<source>,"name":<request id>}`.
pub open spec fn forward_body_of(source: Seq<char>, request_id: Seq<char>) -> Seq<char> {
    "{\"file\":"@ + json_string_of(source) + ",\"name\":"@ + json_string_of(request_id) + "}"@
}

/// Builds the JSON document that carries a request's source and identifier to
/// the persistence service.
pub fn forward_body(source: &String, request_id: &String) -> (r: String)
    ensures
        r@ == forward_body_of(source@, request_id@),
{
    let mut body = String::from_str("{\"file\":");
    let file = json_string(source);
    body.append(file.as_str());
    body.append(",\"name\":");
    let name = json_string(request_id);
    body.append(name.as_str());
    body.append("}");
    body
}

} // verus!
