//! Requests to the analysis server: one JSON object per connection,
//! terminated by a newline.
use vstd::prelude::*;
use vstd::string::StringExecFns;

verus! {

/// The JSON string literal that denotes `s`: quoted, with the characters that
/// JSON requires escaped.
pub uninterp spec fn json_string(s: Seq<char>) -> Seq<char>;

/// Relies on serde_json::to_string for a `str`: the JSON string literal of
/// the text, written between double quotes. Serializing a string into memory
/// cannot fail: the only error source is the writer, and writing to a `Vec`
/// does not fail.
#[verifier::external_body]
fn json_quote(s: &str) -> (r: String)
    ensures
        r@ == json_string(s@),
        r@.len() >= 2,
        r@[0] == '"',
        r@.last() == '"',
{
    serde_json::to_string(s).unwrap_or_default()
}

/// The view of an optional string slice.
pub open spec fn opt_str_view(s: Option<&str>) -> Option<Seq<char>> {
    match s {
        Some(t) => Some(t@),
        None => None,
    }
}

/// The text of a rebuild request for `file`: typechecked from `content` when
/// given, else read from disk.
pub open spec fn rebuild_request_text(file: Seq<char>, content: Option<Seq<char>>) -> Seq<char> {
    "{\"command\":\"rebuild\",\"params\":{\"file\":"@ + json_string(file) + match content {
        Some(c) => ",\"content\":"@ + json_string(c),
        None => Seq::empty(),
    } + "}}\n"@
}

/// The bytes to send to the analysis server to rebuild `file_path`, from
/// `content` when given.
pub fn rebuild_request(file_path: &str, content: Option<&str>) -> (r: String)
    ensures
        r@ == rebuild_request_text(file_path@, opt_str_view(content)),
{
    let mut s = String::from_str("{\"command\":\"rebuild\",\"params\":{\"file\":");
    let file = json_quote(file_path);
    s.append(file.as_str());
    match content {
        Some(c) => {
            s.append(",\"content\":");
            let quoted = json_quote(c);
            s.append(quoted.as_str());
        },
        None => {},
    }
    s.append("}}\n");
    assert(s@ =~= rebuild_request_text(file_path@, opt_str_view(content)));
    s
}

} // verus!
