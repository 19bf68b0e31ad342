//! Page-title derivation: the decoded `<title>` text of the fetched markup,
//! falling back to the URL's host, and finally to the URL itself.  The
//! fetching lives with the caller; this component works on the fetched body.

use vstd::prelude::*;
use vstd::string::StringExecFns;
use crate::html::{extract_title, title_of};

verus! {

/// The host component of the string parsed as an absolute URL, if the string
/// parses and the URL has one.
pub uninterp spec fn host_of(s: Seq<char>) -> Option<Seq<char>>;

/// Relies on `url::Url::parse` and `url::Url::host_str`: both are pure
/// functions of the input string, so the host is a function of it too.
#[verifier::external_body]
fn url_host(url: &String) -> (r: Option<String>)
    ensures
        r.deep_view() == host_of(url@),
{
    match url::Url::parse(url.as_str()) {
        Ok(parsed) => parsed.host_str().map(|h| h.to_string()),
        Err(_) => None,
    }
}

/// The title shown for a fetched page: the markup's own title when it has
/// one, else the URL's host, else the URL verbatim.
pub open spec fn page_title_spec(body: Seq<char>, url: Seq<char>) -> Seq<char> {
    match title_of(body) {
        Option::Some(t) => t,
        Option::None => match host_of(url) {
            Option::Some(h) => h,
            Option::None => url,
        },
    }
}

/// The page title derived from the fetched `body` of `url`, with the
/// fallback chain of `page_title_spec`.
pub fn page_title(body: &String, url: &String) -> (r: String)
    ensures
        r@ == page_title_spec(body@, url@),
{
    match extract_title(body) {
        Option::Some(t) => t,
        Option::None => {
            match url_host(url) {
                Option::Some(h) => h,
                Option::None => String::from_str(url.as_str()),
            }
        },
    }
}

} // verus!
