//! User name domain parsing: a name is accepted when it is not blank, has at
//! most 256 grapheme clusters and holds none of the forbidden characters.

use vstd::prelude::*;

use crate::error::AuthenticationError;
use crate::text::{blank, chars_vec, is_blank};

verus! {

/// A validated user name.
#[derive(Debug, Clone, PartialEq, Eq)]
pub struct UserName(String);

impl View for UserName {
    type V = Seq<char>;

    closed spec fn view(&self) -> Seq<char> {
        self.0@
    }
}

/// What the extended-grapheme iterator of `unicode_segmentation`
/// (`graphemes(true)`) counts in a text.
pub uninterp spec fn spec_grapheme_count(s: Seq<char>) -> nat;

/// `UnicodeSegmentation::graphemes(s, true).count()`: the number of extended
/// grapheme clusters of the text. The contract names the count; the Unicode
/// segmentation rules themselves are not restated.
#[verifier::external_body]
fn grapheme_count(s: &str) -> (r: usize)
    ensures
        r as nat == spec_grapheme_count(s@),
{
    unicode_segmentation::UnicodeSegmentation::graphemes(s, true).count()
}

/// Characters that a user name may not hold.
pub open spec fn is_forbidden_name_char(c: char) -> bool {
    c == '/' || c == '(' || c == ')' || c == '"' || c == '<' || c == '>' || c == '\\' || c == '{'
        || c == '}'
}

/// Whether a text holds a forbidden character.
pub open spec fn has_forbidden_name_char(s: Seq<char>) -> bool {
    exists|i: int| 0 <= i < s.len() && is_forbidden_name_char(#[trigger] s[i])
}

/// Whether a text is an acceptable user name.
pub open spec fn is_valid_user_name(s: Seq<char>) -> bool {
    !is_blank(s) && spec_grapheme_count(s) <= 256 && !has_forbidden_name_char(s)
}

fn forbidden_name_char(c: char) -> (r: bool)
    ensures
        r == is_forbidden_name_char(c),
{
    c == '/' || c == '(' || c == ')' || c == '"' || c == '<' || c == '>' || c == '\\' || c == '{'
        || c == '}'
}

fn contains_forbidden_name_char(s: &str) -> (r: bool)
    ensures
        r == has_forbidden_name_char(s@),
{
    let v = chars_vec(s);
    let mut i: usize = 0;
    while i < v.len()
        invariant
            v@ == s@,
            i <= v@.len(),
            forall|j: int| 0 <= j < i ==> !is_forbidden_name_char(#[trigger] v@[j]),
        decreases v@.len() - i,
    {
        if forbidden_name_char(v[i]) {
            return true;
        }
        i = i + 1;
    }
    false
}

impl UserName {
    /// Parses a user name given its number of extended grapheme clusters.
    /// It is rejected, with `UserNameFormatInvalid` holding the name, when it
    /// is empty or white space only, when it has more than 256 clusters, or
    /// when it holds one of `/ ( ) " < > \ { }`; otherwise it is accepted
    /// unchanged.
    pub fn parse_counted(name: String, graphemes: usize) -> (r: Result<UserName, AuthenticationError>)
        ensures
            (!is_blank(name@) && graphemes <= 256 && !has_forbidden_name_char(name@)) ==> (r matches Ok(n) && n@ == name@),
            !(!is_blank(name@) && graphemes <= 256 && !has_forbidden_name_char(name@)) ==> (r matches Err(
                AuthenticationError::UserNameFormatInvalid(m),
            ) && m@ == name@),
    {
        let is_empty_or_whitespace = blank(name.as_str());
        let is_too_long = graphemes > 256;
        let contains_forbidden_characters = contains_forbidden_name_char(name.as_str());
        if is_empty_or_whitespace || is_too_long || contains_forbidden_characters {
            Err(AuthenticationError::UserNameFormatInvalid(name))
        } else {
            Ok(UserName(name))
        }
    }

    /// Parses a user name, counting its extended grapheme clusters with
    /// `unicode_segmentation` (see `parse_counted`).
    pub fn parse(name: String) -> (r: Result<UserName, AuthenticationError>)
        ensures
            is_valid_user_name(name@) ==> (r matches Ok(n) && n@ == name@),
            !is_valid_user_name(name@) ==> (r matches Err(AuthenticationError::UserNameFormatInvalid(m)) && m@ == name@),
    {
        let graphemes = grapheme_count(name.as_str());
        UserName::parse_counted(name, graphemes)
    }

    /// The placeholder name `Nil`.
    pub fn default() -> (r: UserName)
        ensures
            r@ == "Nil"@,
    {
        UserName(String::from_str("Nil"))
    }

    /// The name as text.
    pub fn as_str(&self) -> (r: &str)
        ensures
            r@ == self@,
    {
        self.0.as_str()
    }
}

} // verus!
