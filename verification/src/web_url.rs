//! Web addresses.

use url::Url;
use vstd::prelude::*;
use vstd::string::*;

verus! {

/// A parsed address: its normalized text, its scheme, and whether it names a
/// host.
pub struct WebUrl {
    pub text: String,
    pub scheme: String,
    pub has_host: bool,
}

/// What a [`WebUrl`] says.
#[verifier::ext_equal]
pub struct WebUrlView {
    pub text: Seq<char>,
    pub scheme: Seq<char>,
    pub has_host: bool,
}

impl View for WebUrl {
    type V = WebUrlView;

    open spec fn view(&self) -> WebUrlView {
        WebUrlView { text: self.text@, scheme: self.scheme@, has_host: self.has_host }
    }
}

/// What `Url::parse` makes of `text`, if it is an absolute address.
pub uninterp spec fn parsed_url(text: Seq<char>) -> Option<WebUrlView>;

/// What an optional address says.
pub open spec fn optional_url(url: Option<WebUrl>) -> Option<WebUrlView> {
    match url {
        Some(url) => Some(url@),
        None => None,
    }
}

/// Parses an absolute address with `Url::parse`, and reads its text, its
/// `scheme` and whether it `has_host`. All of them follow from the text alone.
#[verifier::external_body]
pub(crate) fn parse_url(text: &str) -> (url: Option<WebUrl>)
    ensures
        optional_url(url) == parsed_url(text@),
{
    Url::parse(text).ok().map(|url| WebUrl {
        text: url.as_str().to_owned(),
        scheme: url.scheme().to_owned(),
        has_host: url.has_host(),
    })
}

/// Whether `scheme` is one of the web.
pub open spec fn is_web_scheme(scheme: Seq<char>) -> bool {
    scheme == "http"@ || scheme == "https"@
}

/// Whether the address is one of the web.
pub fn has_web_scheme(url: &WebUrl) -> (web: bool)
    ensures
        web == is_web_scheme(url@.scheme),
{
    crate::text::same_text(url.scheme.as_str(), "http") || crate::text::same_text(
        url.scheme.as_str(),
        "https",
    )
}

} // verus!
