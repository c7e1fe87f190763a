use vstd::prelude::*;
use vstd::string::StringExecFns;

use super::{NodeError, NodeErrorKind};

verus! {

/// The pattern whose first group is the index name in a path under the
/// indices directory: the path component after the last `/indices/`.
pub const INDEX_NAME_PATTERN: &'static str = "^.*/indices/([^/]+).*$";

/// What `regex` gives for capture group `group` when `pattern` is matched
/// against `text`: `None` when `pattern` is not a valid expression,
/// `Some(None)` when it does not match or the group takes no part in the
/// match, and `Some(Some(s))` when the group matched the text `s`.
pub uninterp spec fn regex_group(pattern: Seq<char>, text: Seq<char>, group: int) -> Option<
    Option<Seq<char>>,
>;

/// The text of an optional capture.
pub open spec fn capture_view(found: Option<Option<String>>) -> Option<Option<Seq<char>>> {
    match found {
        None => None,
        Some(None) => Some(None),
        Some(Some(text)) => Some(Some(text@)),
    }
}

/// Compiles `pattern` with `regex::Regex::new`, matches it against `text`
/// with `Regex::captures` and takes group `group` with `Captures::get`.  The
/// contract says only that the outcome is the one `regex_group` names for
/// these arguments.
#[verifier::external_body]
pub(crate) fn capture_group(pattern: &str, text: &str, group: usize) -> (found: Option<Option<String>>)
    ensures
        capture_view(found) == regex_group(pattern@, text@, group as int),
{
    match regex::Regex::new(pattern) {
        Ok(re) => match re.captures(text) {
            Some(caps) => match caps.get(group) {
                Some(m) => Some(Some(m.as_str().to_string())),
                None => Some(None),
            },
            None => Some(None),
        },
        Err(_) => None,
    }
}

/// The index name that a capture gives: the captured text, or an
/// `InvalidPath` error when the pattern did not compile or nothing was
/// captured.
pub fn index_name_from_capture(found: Option<Option<String>>) -> (res: Result<String, NodeError>)
    ensures
        match found {
            Some(Some(name)) => res == Ok::<String, NodeError>(name),
            _ => res matches Err(e) && e.kind() == NodeErrorKind::InvalidPath,
        },
{
    match found {
        Some(Some(name)) => Ok(name),
        Some(None) => Err(NodeErrorKind::InvalidPath.with_error(String::from_str("Invalid Path."))),
        None => Err(
            NodeErrorKind::InvalidPath.with_error(String::from_str("Invalid index name pattern.")),
        ),
    }
}

/// The name of the index that `path` lies in: the component after the last
/// `/indices/` in it.  A path without one is an `InvalidPath` error.
pub fn extract_index_name(path: &str) -> (res: Result<String, NodeError>)
    ensures
        match regex_group(INDEX_NAME_PATTERN@, path@, 1) {
            Some(Some(name)) => res matches Ok(n) && n@ == name,
            _ => res matches Err(e) && e.kind() == NodeErrorKind::InvalidPath,
        },
{
    let found = capture_group(INDEX_NAME_PATTERN, path, 1);
    index_name_from_capture(found)
}

} // verus!
