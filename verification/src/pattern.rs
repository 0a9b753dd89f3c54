//! Regular expressions, as the `regex` crate understands them.

use vstd::prelude::*;
use crate::error::Error;

verus! {

/// What searching `text` for the regular expression `pattern` gives: `None` where
/// `pattern` is no regular expression, else whether it matches somewhere in `text`.
pub uninterp spec fn regex_search(pattern: Seq<char>, text: Seq<char>) -> Option<bool>;

/// Searches `text` for the regular expression `pattern`.
///
/// Stands for `regex::Regex::new` followed by `regex::Regex::is_match`: where the pattern
/// does not compile, the message of the error of the first, of which nothing is promised;
/// else the answer of the second. Which of the two it is, and the answer, depend on the
/// pattern and the text alone.
#[verifier::external_body]
fn search(pattern: &str, text: &str) -> (r: Result<bool, String>)
    ensures
        match r {
            Ok(found) => regex_search(pattern@, text@) == Some(found),
            Err(_) => regex_search(pattern@, text@) is None,
        },
{
    match regex::Regex::new(pattern) {
        Ok(re) => Ok(re.is_match(text)),
        Err(e) => Err(e.to_string()),
    }
}

/// Whether `pattern` is a regular expression.
pub open spec fn is_regex(pattern: Seq<char>) -> bool {
    regex_search(pattern, Seq::empty()) is Some
}

/// Whether the regular expression `pattern` matches somewhere in `text`. A pattern that
/// is no regular expression is refused as invalid input, the message beginning with
/// `label`.
pub fn text_matches(pattern: &str, text: &str, label: &str) -> (r: Result<bool, Error>)
    ensures
        match r {
            Ok(found) => regex_search(pattern@, text@) == Some(found),
            Err(e) => regex_search(pattern@, text@) is None && (e matches Error::InvalidInput(
                message,
            ) && crate::text::has_prefix(message@, label@)),
        },
{
    match search(pattern, text) {
        Ok(found) => Ok(found),
        Err(detail) => {
            let message = String::from_str(label).concat(detail.as_str());
            assert(message@.take(label@.len() as int) =~= label@);
            Err(Error::InvalidInput(message))
        },
    }
}

/// Whether `pattern` is a regular expression. One that is not is refused as invalid
/// input, the message beginning with `label`.
pub fn check_regex(pattern: &str, label: &str) -> (r: Result<(), Error>)
    ensures
        match r {
            Ok(_) => is_regex(pattern@),
            Err(e) => !is_regex(pattern@) && (e matches Error::InvalidInput(message)
                && crate::text::has_prefix(message@, label@)),
        },
{
    let empty = String::new();
    assert(empty@ =~= Seq::<char>::empty());
    match text_matches(pattern, empty.as_str(), label) {
        Ok(_) => Ok(()),
        Err(e) => Err(e),
    }
}

} // verus!
