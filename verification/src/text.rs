//! Putting texts together.

use vstd::prelude::*;
use vstd::string::StringExecFns;

verus! {

/// One text after another.
pub fn joined(head: &str, tail: &str) -> (text: String)
    ensures
        text@ == head@ + tail@,
{
    let mut text: String = String::from_str(head);
    text.append(tail);
    text
}

/// A text between double quotes.
pub open spec fn in_quotes(text: Seq<char>) -> Seq<char> {
    seq!['"'] + text + seq!['"']
}

/// Whether a text is made of printable ASCII characters other than quotes and backslashes.
pub open spec fn is_plain(text: Seq<char>) -> bool {
    forall|i: int|
        0 <= i < text.len() ==> ' ' <= #[trigger] text[i] <= '~' && text[i] != '"' && text[i]
            != '\'' && text[i] != '\\'
}

/// How `{:?}` shows a text.
pub uninterp spec fn debug_text_of(text: Seq<char>) -> Seq<char>;

/// Formats a text with `{:?}`, by the `Debug` of `str`, and names the result: a plain text stands
/// between double quotes as it is. Which characters of other texts are escaped, and how, is left to
/// the name.
#[verifier::external_body]
pub(crate) fn debug_text(text: &str) -> (shown: String)
    ensures
        shown@ == debug_text_of(text@),
        is_plain(text@) ==> shown@ == in_quotes(text@),
{
    format!("{:?}", text)
}

} // verus!
