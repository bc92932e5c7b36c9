//! The parts of a URL that the library's checks read.
use vstd::prelude::*;

verus! {

/// The scheme, host and path of a parsed URL.
#[derive(Clone, Debug)]
pub struct UrlParts {
    pub scheme: String,
    pub host: Option<String>,
    pub path: String,
}

pub open spec fn url_parts_view(u: UrlParts) -> (Seq<char>, Option<Seq<char>>, Seq<char>) {
    (
        u.scheme@,
        match u.host {
            Some(h) => Some(h@),
            None => None,
        },
        u.path@,
    )
}

/// What `url::Url::parse` (re-exported by `reqwest`) gives for `text`: the
/// scheme, host and path of the URL, or the text of the parse error.
pub uninterp spec fn parsed_url(text: Seq<char>) -> Result<(Seq<char>, Option<Seq<char>>, Seq<char>), Seq<char>>;

/// `reqwest::Url::parse`, keeping the scheme, host and path; the contract
/// names the outcome and claims only that it depends on the text alone.
#[verifier::external_body]
pub(crate) fn parse_url(text: &str) -> (r: Result<UrlParts, String>)
    ensures
        match parsed_url(text@) {
            Ok(v) => r matches Ok(u) && url_parts_view(u) == v,
            Err(m) => r matches Err(e) && e@ == m,
        },
{
    match reqwest::Url::parse(text) {
        Ok(url) => Ok(UrlParts {
            scheme: url.scheme().to_string(),
            host: url.host_str().map(|h| h.to_string()),
            path: url.path().to_string(),
        }),
        Err(error) => Err(error.to_string()),
    }
}

} // verus!
