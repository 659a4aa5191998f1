use vstd::prelude::*;
use crate::error::PegasusError;
use crate::progress::opt_view;

verus! {

/// Whether serde_json reads `text` as a JSON value.
pub uninterp spec fn json_accepts(text: Seq<char>) -> bool;

/// The string under the top-level key `key` of the JSON value in `text`, if
/// there is one.
pub uninterp spec fn json_string_field(text: Seq<char>, key: Seq<char>) -> Option<Seq<char>>;

/// The message serde_json gives when it cannot read `text`.
pub uninterp spec fn json_error_text(text: Seq<char>) -> Seq<char>;

/// Relies on `serde_json::from_str::<Value>` (whether the text is JSON, and
/// its error's message), and on `Value`'s index by key with `Value::as_str`
/// to read the string field `key`.
#[verifier::external_body]
fn read_metadata(text: &str, key: &str) -> (r: Result<Option<String>, String>)
    ensures
        (r is Ok) == json_accepts(text@),
        r is Ok ==> opt_view(r->Ok_0) == json_string_field(text@, key@),
        r is Err ==> r->Err_0@ == json_error_text(text@),
{
    match serde_json::from_str::<serde_json::Value>(text) {
        Ok(v) => Ok(v[key].as_str().map(|t| t.to_string())),
        Err(e) => Err(e.to_string()),
    }
}

/// The `title` string of the JSON metadata in `text`, if there is one.
pub open spec fn json_title(text: Seq<char>) -> Option<Seq<char>> {
    json_string_field(text, "title"@)
}

pub open spec fn title_or_unknown(t: Option<Seq<char>>) -> Seq<char> {
    match t {
        Some(s) => s,
        None => "unknown_title"@,
    }
}

pub open spec fn metadata_error_detail(message: Seq<char>) -> Seq<char> {
    "Failed to parse yt-dlp JSON output: "@ + message
}

/// The title that a read of the worker's metadata gives: the `title` string,
/// `unknown_title` where there is none, or an error where the text was not
/// JSON.
pub fn title_from_parsed(parsed: Result<Option<String>, String>) -> (r: Result<
    String,
    PegasusError,
>)
    ensures
        (r is Ok) == (parsed is Ok),
        parsed is Ok ==> r->Ok_0@ == title_or_unknown(opt_view(parsed->Ok_0)),
        parsed is Err ==> r->Err_0 is ExternalCommandError
            && r->Err_0->ExternalCommandError_0@ == metadata_error_detail(parsed->Err_0@),
{
    match parsed {
        Ok(Some(t)) => Ok(t),
        Ok(None) => Ok(String::from_str("unknown_title")),
        Err(m) => {
            let mut d = String::from_str("Failed to parse yt-dlp JSON output: ");
            d.append(m.as_str());
            Err(PegasusError::ExternalCommandError(d))
        },
    }
}

/// The title in the worker's JSON metadata (see `title_from_parsed`).
pub fn title_from_metadata(text: &str) -> (r: Result<String, PegasusError>)
    ensures
        (r is Ok) == json_accepts(text@),
        r is Ok ==> r->Ok_0@ == title_or_unknown(json_title(text@)),
        r is Err ==> r->Err_0 is ExternalCommandError
            && r->Err_0->ExternalCommandError_0@ == metadata_error_detail(json_error_text(text@)),
{
    title_from_parsed(read_metadata(text, "title"))
}

} // verus!
