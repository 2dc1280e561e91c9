//! JSON from outside.

use vstd::prelude::*;

verus! {

/// What a JSON text holds under `key`: an error message where the text is no
/// JSON, else the string under that key, if it is an object with a string
/// there.
pub uninterp spec fn json_field(json: Seq<u8>, key: Seq<char>) -> Result<
    Option<Seq<char>>,
    Seq<char>,
>;

/// `serde_json::from_slice` into a `serde_json::Value`, then `Value::get` and
/// `Value::as_str`: the result is a function of the bytes and the key, with
/// the parser's own message where the bytes are no JSON.
#[verifier::external_body]
pub(crate) fn text_field(json: &[u8], key: &str) -> (field: Result<Option<String>, String>)
    ensures
        match (field, json_field(json@, key@)) {
            (Ok(Some(text)), Ok(Some(expected))) => text@ == expected,
            (Ok(None), Ok(None)) => true,
            (Err(message), Err(expected)) => message@ == expected,
            _ => false,
        },
{
    match serde_json::from_slice::<serde_json::Value>(json) {
        Ok(value) => Ok(value.get(key).and_then(|field| field.as_str()).map(String::from)),
        Err(error) => Err(error.to_string()),
    }
}

}
