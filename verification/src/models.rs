use vstd::prelude::*;
use crate::error::ApiError;

verus! {

/// The model names of a tags-endpoint reply, in the server's order.
#[derive(Debug)]
pub struct ModelList {
    pub models: Vec<String>,
}

impl ModelList {
    /// The names as a sequence of character sequences.
    pub open spec fn names(&self) -> Seq<Seq<char>> {
        self.models.deep_view()
    }
}

/// The diagnostic raised for a reply whose JSON shape is wrong.
pub open spec fn incorrect_format_msg() -> Seq<char> {
    "ollama API responded with incorrect format"@
}

/// What a tags-endpoint body holds, as serde_json reads it:
/// - `None`: the body is not a single JSON document;
/// - `Some(None)`: a document, but with no array under `models`;
/// - `Some(Some(entries))`: an array, where `entries[i]` is the `name`
///   string of the i-th element if it carries one.
/// The outcome depends on the body's characters alone.
pub uninterp spec fn tags_doc(body: Seq<char>) -> Option<Option<Seq<Option<Seq<char>>>>>;

/// Relies on serde_json::from_str, Value::get, Value::as_array and
/// Value::as_str: the body either fails to parse (the error's description
/// comes back), or parses without an array under `models`, or yields that
/// array's elements' `name` strings where present; which of the three, and
/// the strings, are a function of the body's characters alone.
#[verifier::external_body]
fn decode_tags(body: &str) -> (res: Result<Option<Vec<Option<String>>>, String>)
    ensures
        (res matches Err(_)) <==> tags_doc(body@) is None,
        res matches Ok(doc) ==> tags_doc(body@) == Some(doc.deep_view()),
{
    match serde_json::from_str::<serde_json::Value>(body) {
        Err(e) => Err(e.to_string()),
        Ok(value) => match value.get("models").and_then(|m| m.as_array()) {
            None => Ok(None),
            Some(entries) => Ok(Some(
                entries
                    .iter()
                    .map(|m| m.get("name").and_then(|n| n.as_str()).map(|n| n.to_owned()))
                    .collect(),
            )),
        },
    }
}

/// Every entry of the `models` array carries a `name` string.
pub open spec fn all_named(entries: Seq<Option<Seq<char>>>) -> bool {
    forall|i: int| 0 <= i < entries.len() ==> entries[i] is Some
}

/// The `name` strings of the entries, in the server's order.
pub open spec fn entry_names(entries: Seq<Option<Seq<char>>>) -> Seq<Seq<char>> {
    entries.map_values(|e: Option<Seq<char>>| fragment_name(e))
}

/// The name an entry carries; an unnamed entry never reaches this in a
/// well-formed reply.
pub open spec fn fragment_name(e: Option<Seq<char>>) -> Seq<char> {
    match e {
        Some(n) => n,
        None => Seq::<char>::empty(),
    }
}

/// Validates a tags-endpoint body. A body that is no JSON document fails
/// with `ParseError` carrying the parser's description; a document without
/// an array under `models`, or with an element lacking a `name` string,
/// fails with `ParseError` carrying the fixed diagnostic; otherwise every
/// name is returned, in the server's order, with no partial result.
pub fn models_from_body(body: &str) -> (res: Result<ModelList, ApiError>)
    ensures
        tags_doc(body@) is None ==> (res matches Err(e) && e matches ApiError::ParseError(_)),
        tags_doc(body@) matches Some(doc) ==> match doc {
            None => (res matches Err(e) && e matches ApiError::ParseError(m) && m@
                == incorrect_format_msg()),
            Some(entries) => if all_named(entries) {
                res matches Ok(list) && list.names() == entry_names(entries)
            } else {
                (res matches Err(e) && e matches ApiError::ParseError(m) && m@
                    == incorrect_format_msg())
            },
        },
{
    match decode_tags(body) {
        Err(msg) => Err(ApiError::ParseError(msg)),
        Ok(None) => Err(ApiError::ParseError("ollama API responded with incorrect format".to_owned())),
        Ok(Some(entries)) => {
            let ghost ev = entries.deep_view();
            let mut models: Vec<String> = Vec::new();
            let mut i: usize = 0;
            while i < entries.len()
                invariant
                    ev == entries.deep_view(),
                    tags_doc(body@) == Some(Some(ev)),
                    i <= entries.len(),
                    entries.len() == ev.len(),
                    forall|k: int| 0 <= k < i ==> ev[k] is Some,
                    models.deep_view() == entry_names(ev.take(i as int)),
                decreases entries.len() - i,
            {
                let ghost models0 = models.deep_view();
                proof {
                    assert(ev[i as int] == entries@[i as int].deep_view());
                }
                match &entries[i] {
                    None => {
                        proof {
                            assert(!all_named(ev));
                        }
                        return Err(ApiError::ParseError(
                            "ollama API responded with incorrect format".to_owned(),
                        ));
                    },
                    Some(name) => {
                        models.push(name.as_str().to_owned());
                        proof {
                            assert(models.deep_view() =~= models0 + seq![name@]);
                            assert(ev.take(i + 1).drop_last() =~= ev.take(i as int));
                            assert(models.deep_view() =~= entry_names(ev.take(i + 1)));
                        }
                    },
                }
                i += 1;
            }
            proof {
                assert(ev.take(entries.len() as int) =~= ev);
                assert(all_named(ev));
            }
            Ok(ModelList { models })
        },
    }
}

} // verus!
