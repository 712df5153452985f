use vstd::prelude::*;
use vstd::string::StringExecFns;

verus! {

/// The JSON string literal for `s`: surrounding quotes and the escapes that
/// serde_json writes. The text depends on the characters of `s` alone.
pub uninterp spec fn json_quoted(s: Seq<char>) -> Seq<char>;

/// Relies on serde_json::to_string for `&str`: serializing a string slice
/// yields its quoted, escaped JSON form and cannot fail.
#[verifier::external_body]
fn quote_json(s: &str) -> (res: String)
    ensures
        res@ == json_quoted(s@),
{
    serde_json::to_string(s).unwrap_or_default()
}

/// The body of a generation request: a JSON object with the model, the
/// prompt, and streaming switched off, in that key order.
pub open spec fn request_body_spec(model: Seq<char>, prompt: Seq<char>) -> Seq<char> {
    "{\"model\":"@ + json_quoted(model) + ",\"prompt\":"@ + json_quoted(prompt)
        + ",\"stream\":false}"@
}

/// Builds the body sent to the generate endpoint for `model` and `prompt`.
/// Both are forwarded as given: no validation is performed on either.
pub fn generate_request_body(model: &str, prompt: &str) -> (res: String)
    ensures
        res@ == request_body_spec(model@, prompt@),
{
    let mut s = "{\"model\":".to_owned();
    let quoted_model = quote_json(model);
    s.append(quoted_model.as_str());
    s.append(",\"prompt\":");
    let quoted_prompt = quote_json(prompt);
    s.append(quoted_prompt.as_str());
    s.append(",\"stream\":false}");
    s
}

} // verus!
