//! Text filters applied to a record body before speech synthesis.

use vstd::prelude::*;

verus! {

/// What `regex::Regex::replace_all` with the retweet pattern returns:
/// the input with every retweet header `RT <name>:` collapsed to `RT`.
/// The result depends on the input text alone.
pub uninterp spec fn retweet_folded(s: Seq<char>) -> Seq<char>;

/// What `regex::Regex::replace_all` with the URL pattern returns: the
/// input with every URL replaced by a short spoken phrase.  The result
/// depends on the input text alone.
pub uninterp spec fn url_folded(s: Seq<char>) -> Seq<char>;

/// Relies on `regex::Regex::replace_all` over the fixed pattern
/// `RT [^:]*:` with replacement `RT`; `regex::Regex::new` cannot fail on
/// this fixed, valid pattern.
#[verifier::external_body]
fn fold_retweet(input: &str) -> (r: String)
    ensures
        r@ == retweet_folded(input@),
{
    regex::Regex::new(r"RT [^:]*:").unwrap().replace_all(input, "RT").to_string()
}

/// Relies on `regex::Regex::replace_all` over a fixed URL pattern with a
/// fixed spoken replacement; `regex::Regex::new` cannot fail on this
/// fixed, valid pattern.
#[verifier::external_body]
fn fold_url(input: &str) -> (r: String)
    ensures
        r@ == url_folded(input@),
{
    regex::Regex::new(r"https?://[\w!\?/\+\-_~=;\.,\*&@#\$%\(\)'\[\]]+")
        .unwrap()
        .replace_all(input, "ユーアールエル略")
        .to_string()
}

/// Collapses every retweet header `RT <name>:` in the input to `RT`.
pub fn replace_retweet(input: &str) -> (r: String)
    ensures
        r@ == retweet_folded(input@),
{
    fold_retweet(input)
}

/// Replaces every URL in the input by a short spoken phrase.
pub fn replace_url(input: &str) -> (r: String)
    ensures
        r@ == url_folded(input@),
{
    fold_url(input)
}

} // verus!
