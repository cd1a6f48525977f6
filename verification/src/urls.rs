//! The parts of a URL.
use reqwest::Url;
use vstd::prelude::*;

verus! {

/// The parts of a URL that the library looks at.
pub struct UrlParts {
    pub scheme: String,
    pub has_host: bool,
    pub username: String,
    pub has_password: bool,
    pub path: String,
    pub has_query: bool,
    pub has_fragment: bool,
    /// The URL in its normal form.
    pub text: String,
}

/// The parts by value: scheme, host, user name, password, path, query, fragment, normal form.
pub type UrlView = (Seq<char>, bool, Seq<char>, bool, Seq<char>, bool, bool, Seq<char>);

impl View for UrlParts {
    type V = UrlView;

    open spec fn view(&self) -> UrlView {
        (
            self.scheme@,
            self.has_host,
            self.username@,
            self.has_password,
            self.path@,
            self.has_query,
            self.has_fragment,
            self.text@,
        )
    }
}

/// The parts of the absolute URL that the text writes down.
pub uninterp spec fn url_parts(
    text: Seq<char>,
) -> Option<(Seq<char>, bool, Seq<char>, bool, Seq<char>, bool, bool, Seq<char>)>;

/// Calls `reqwest::Url::parse` and the accessors of the URL. What is an absolute URL and what its
/// parts are depends on the text alone.
#[verifier::external_body]
pub(crate) fn parse_url(text: &str) -> (result: Option<UrlParts>)
    ensures
        match result {
            Some(parts) => url_parts(text@) == Some(parts@),
            None => url_parts(text@) is None,
        },
{
    let url = Url::parse(text).ok()?;
    Some(UrlParts {
        scheme: url.scheme().to_owned(),
        has_host: url.host().is_some(),
        username: url.username().to_owned(),
        has_password: url.password().is_some(),
        path: url.path().to_owned(),
        has_query: url.query().is_some(),
        has_fragment: url.fragment().is_some(),
        text: url.to_string(),
    })
}

} // verus!
