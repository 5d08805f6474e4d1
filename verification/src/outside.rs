//! The calls this library makes into other crates, and into parts of the
//! standard library whose behaviour is taken on trust. Nothing in this file
//! is proved: each contract records what the called function is documented
//! to do.

use vstd::prelude::*;
use crate::capability::{ProbeDocument, ProbeDocumentView};

verus! {

/// The error type of `serde_json`.
#[verifier::external_type_specification]
#[verifier::external_body]
pub struct ExJsonError(serde_json::Error);

/// The error type of `regex`.
#[verifier::external_type_specification]
#[verifier::external_body]
pub struct ExRegexError(regex::Error);

/// Calls `dirs::home_dir` and converts the path to text, replacing what is
/// not valid Unicode as `Path::to_string_lossy` does.
///
/// The answer depends on the variables the process was started with and on
/// the user database, so nothing is claimed about it.
#[verifier::external_body]
pub(crate) fn home_directory() -> (home: Option<String>) {
    dirs::home_dir().map(|p| p.to_string_lossy().to_string())
}

/// What `str::to_lowercase` returns for a text: its lowercase form under the
/// Unicode case mapping.
pub uninterp spec fn lowercase_text(text: Seq<char>) -> Seq<char>;

/// Calls `str::to_lowercase`. The result is a function of the text alone.
#[verifier::external_body]
pub(crate) fn lowercase(text: &str) -> (lowered: String)
    ensures
        lowered@ == lowercase_text(text@),
{
    text.to_lowercase()
}

/// What searching `text` with the regular expression `pattern` finds for
/// capture group `group`, as the `regex` crate defines it.
///
/// `None` where `regex::Regex::new` rejects the pattern. `Some(None)` where
/// the pattern matches nowhere in the text, or where the group took no part
/// in the leftmost match. Otherwise the part of the text that the group
/// matched in the leftmost match.
pub uninterp spec fn regex_group_text(pattern: Seq<char>, text: Seq<char>, group: nat) -> Option<
    Option<Seq<char>>,
>;

/// Compiles `pattern` with `regex::Regex::new`, searches `text` with
/// `Regex::captures` and copies what `Captures::get(group)` matched.
///
/// The outcome is a function of the three arguments alone; the contract
/// names it and claims nothing else.
#[verifier::external_body]
pub(crate) fn regex_group(pattern: &str, text: &str, group: usize) -> (found: Result<
    Option<String>,
    regex::Error,
>)
    ensures
        match found {
            Ok(Some(part)) => regex_group_text(pattern@, text@, group as nat) == Some(Some(part@)),
            Ok(None) => regex_group_text(pattern@, text@, group as nat) == Some(
                None::<Seq<char>>,
            ),
            Err(_) => regex_group_text(pattern@, text@, group as nat) is None,
        },
{
    let re = regex::Regex::new(pattern)?;
    Ok(re.captures(text).and_then(|c| c.get(group)).map(|m| m.as_str().to_string()))
}

/// What reading `bytes` as JSON with `serde_json` finds at three places of
/// the document: the text stored as member `field` of the object stored as
/// member `section` of the document, and, for each element of the array
/// stored as member `list`, the text stored as its member `field`.
///
/// `None` where `serde_json::from_slice` rejects the bytes. A place holds
/// `None` where a member is missing or a value is of another kind than the
/// one looked for.
pub uninterp spec fn json_text_fields(
    bytes: Seq<u8>,
    section: Seq<char>,
    list: Seq<char>,
    field: Seq<char>,
) -> Option<ProbeDocumentView>;

/// Parses `bytes` with `serde_json::from_slice` into a `serde_json::Value`
/// and copies the texts at the three places out of it, with `Value::get`,
/// `Value::as_array` and `Value::as_str`.
///
/// The outcome is a function of the four arguments alone; the contract names
/// it and claims nothing else.
#[verifier::external_body]
pub(crate) fn read_json_fields(bytes: &[u8], section: &str, list: &str, field: &str) -> (found:
    Result<ProbeDocument, serde_json::Error>)
    ensures
        match found {
            Ok(document) => json_text_fields(bytes@, section@, list@, field@) == Some(document@),
            Err(_) => json_text_fields(bytes@, section@, list@, field@) is None,
        },
{
    let json: serde_json::Value = serde_json::from_slice(bytes)?;
    let text = |v: &serde_json::Value| v.get(field).and_then(|d| d.as_str()).map(String::from);
    Ok(ProbeDocument {
        format_duration: json.get(section).and_then(text),
        stream_durations: json.get(list).and_then(|s| s.as_array()).map(|a| a.iter().map(text).collect()),
    })
}

} // verus!
