//! What the endpoints of the domain lists share: which texts a list accepts.

use vstd::prelude::*;

verus! {

/// Whether `regex` takes the pattern for a regular expression.
pub uninterp spec fn regex_compiles(pattern: Seq<char>) -> bool;

/// Whether the regular expression of the pattern matches somewhere in the text.
pub uninterp spec fn regex_matches(pattern: Seq<char>, text: Seq<char>) -> bool;

/// The characters of a domain: labels of letters, digits, hyphens and
/// underscores with a letter or a digit among them, between dots.
pub const DOMAIN_CHARACTERS: &'static str =
    "^((-|_)*[a-z0-9]((-|_)*[a-z0-9])*(-|_)*)(\\.(-|_)*([a-z0-9]((-|_)*[a-z0-9])*))*$";

/// The length of a domain: from 1 to 253 characters.
pub const DOMAIN_LENGTH: &'static str = "^.{1,253}$";

/// The length of the labels of a domain: from 1 to 63 characters each.
pub const LABEL_LENGTH: &'static str = "^[^\\.]{1,63}(\\.[^\\.]{1,63})*$";

/// Whether the pattern is a regular expression which matches the text.
pub open spec fn matches_pattern(pattern: Seq<char>, text: Seq<char>) -> bool {
    regex_compiles(pattern) && regex_matches(pattern, text)
}

/// Whether a text is a valid domain: it matches the three patterns of a domain.
pub open spec fn valid_domain(domain: Seq<char>) -> bool {
    &&& matches_pattern(DOMAIN_CHARACTERS@, domain)
    &&& matches_pattern(DOMAIN_LENGTH@, domain)
    &&& matches_pattern(LABEL_LENGTH@, domain)
}

/// Compiles the pattern with `regex::Regex::new` and searches the text with
/// `regex::Regex::is_match`. There is no answer where the pattern does not
/// compile. Both outcomes depend on the arguments alone; the contract gives
/// them their names.
#[verifier::external_body]
fn search(pattern: &str, text: &str) -> (r: Option<bool>)
    ensures
        r is Some == regex_compiles(pattern@),
        r matches Some(found) ==> found == regex_matches(pattern@, text@),
{
    match regex::Regex::new(pattern) {
        Ok(regex) => Some(regex.is_match(text)),
        Err(_) => None,
    }
}

/// Whether a search found the pattern: it did not, where there was no
/// pattern to search for.
pub fn found(searched: Option<bool>) -> (r: bool)
    ensures
        r == (searched == Some(true)),
{
    match searched {
        Some(found) => found,
        None => false,
    }
}

/// Check if a domain is valid
pub fn is_valid_domain(domain: &str) -> (r: bool)
    ensures
        r == valid_domain(domain@),
{
    found(search(DOMAIN_CHARACTERS, domain)) && found(search(DOMAIN_LENGTH, domain)) && found(
        search(LABEL_LENGTH, domain),
    )
}

/// Check if a regex is valid
pub fn is_valid_regex(regex_str: &str) -> (r: bool)
    ensures
        r == regex_compiles(regex_str@),
{
    search(regex_str, "").is_some()
}

} // verus!
