//! A parsed remote-source locator, held by its parts.

use url::{Position, Url};
use vstd::prelude::*;
use vstd::string::StringExecFns;

use crate::text::same_text;

verus! {

/// A locator as its parser left it: the serialized text cut into six
/// consecutive pieces, with the kind of path beside them.
#[derive(Clone, Debug, Eq, PartialOrd, Ord, Hash)]
pub struct Locator {
    /// The scheme, in lower case, without the colon.
    pub scheme: String,
    /// What stands between the scheme and the host: the colon and, where
    /// there is an authority, its two slashes and the user information.
    pub before_host: String,
    /// The host, where the locator has one.
    pub host: Option<String>,
    /// What stands between the host and the path: the port, where one is
    /// written.
    pub after_host: String,
    /// The path, with its leading slash where it is hierarchical.
    pub path: String,
    /// What follows the path: query and fragment with their delimiters.
    pub suffix: String,
    /// Whether the locator lacks a hierarchical path.
    pub opaque: bool,
}

/// The mathematical value of a [`Locator`].
pub ghost struct LocatorView {
    pub scheme: Seq<char>,
    pub before_host: Seq<char>,
    pub host: Option<Seq<char>>,
    pub after_host: Seq<char>,
    pub path: Seq<char>,
    pub suffix: Seq<char>,
    pub opaque: bool,
}

/// The text of a host: nothing where there is none.
pub open spec fn host_text(host: Option<Seq<char>>) -> Seq<char> {
    match host {
        Some(host) => host,
        None => Seq::empty(),
    }
}

impl LocatorView {
    /// The serialized locator: its six pieces in a row.
    pub open spec fn text(self) -> Seq<char> {
        self.scheme + self.before_host + host_text(self.host) + self.after_host + self.path
            + self.suffix
    }
}

impl View for Locator {
    type V = LocatorView;

    open spec fn view(&self) -> LocatorView {
        LocatorView {
            scheme: self.scheme@,
            before_host: self.before_host@,
            host: match self.host {
                Some(host) => Some(host@),
                None => None,
            },
            after_host: self.after_host@,
            path: self.path@,
            suffix: self.suffix@,
            opaque: self.opaque,
        }
    }
}

impl PartialEq for Locator {
    /// Two locators are equal where all their parts are.
    fn eq(&self, other: &Locator) -> (same: bool) {
        let same_host = match (&self.host, &other.host) {
            (Some(left), Some(right)) => same_text(left.as_str(), right.as_str()),
            (None, None) => true,
            _ => false,
        };
        same_host && self.opaque == other.opaque && same_text(
            self.scheme.as_str(),
            other.scheme.as_str(),
        ) && same_text(self.before_host.as_str(), other.before_host.as_str()) && same_text(
            self.after_host.as_str(),
            other.after_host.as_str(),
        ) && same_text(
            self.path.as_str(),
            other.path.as_str(),
        ) && same_text(self.suffix.as_str(), other.suffix.as_str())
    }
}

impl vstd::std_specs::cmp::PartialEqSpecImpl for Locator {
    open spec fn obeys_eq_spec() -> bool {
        true
    }

    open spec fn eq_spec(&self, other: &Locator) -> bool {
        self@ == other@
    }
}

/// Why a locator was turned down.
#[derive(Clone, Debug, PartialEq, Eq)]
pub enum LocatorError {
    /// The text is not an absolute URL.
    Unparsable { text: String },
    /// The locator has no hierarchical path.
    InvalidLocator { text: String },
}

/// The mathematical value of a [`LocatorError`].
pub ghost enum Refusal {
    Unparsable { text: Seq<char> },
    InvalidLocator { text: Seq<char> },
}

impl View for LocatorError {
    type V = Refusal;

    open spec fn view(&self) -> Refusal {
        match self {
            LocatorError::Unparsable { text } => Refusal::Unparsable { text: text@ },
            LocatorError::InvalidLocator { text } => Refusal::InvalidLocator { text: text@ },
        }
    }
}

impl Refusal {
    /// The sentence that tells a user of the refusal. It quotes the text
    /// that was turned down.
    pub open spec fn message(self) -> Seq<char> {
        match self {
            Refusal::Unparsable { text } => "invalid url `"@ + text + "`: not an absolute URL"@,
            Refusal::InvalidLocator { text } => "invalid url `"@ + text
                + "`: cannot-be-a-base-URLs are not supported"@,
        }
    }
}

impl LocatorError {
    /// The sentence that tells a user of the refusal.
    pub fn message(&self) -> (message: String)
        ensures
            message@ == self@.message(),
    {
        match self {
            LocatorError::Unparsable { text } => String::from_str("invalid url `").concat(
                text.as_str(),
            ).concat("`: not an absolute URL"),
            LocatorError::InvalidLocator { text } => String::from_str("invalid url `").concat(
                text.as_str(),
            ).concat("`: cannot-be-a-base-URLs are not supported"),
        }
    }
}

/// What the URL parser makes of a text: the parts of the URL, or nothing
/// where the text is not an absolute URL.
pub uninterp spec fn url_parse(text: Seq<char>) -> Option<LocatorView>;

/// `url::Url::parse` reads an absolute URL. The parts handed back are the
/// parser's own: `scheme`, `host_str`, `path` and `cannot_be_a_base`, and the
/// slices of the serialization from the end of the scheme to the start of
/// the host, from the end of the host to the start of the path, and from
/// the end of the path on. They depend on the text alone.
#[verifier::external_body]
fn parse_url(text: &str) -> (parsed: Option<Locator>)
    ensures
        match parsed {
            Some(locator) => url_parse(text@) == Some(locator@),
            None => url_parse(text@) is None,
        },
{
    match Url::parse(text) {
        Ok(url) => Some(Locator {
            scheme: url.scheme().to_owned(),
            before_host: url[Position::AfterScheme..Position::BeforeHost].to_owned(),
            host: url.host_str().map(str::to_owned),
            after_host: url[Position::AfterHost..Position::BeforePath].to_owned(),
            path: url.path().to_owned(),
            suffix: url[Position::AfterPath..].to_owned(),
            opaque: url.cannot_be_a_base(),
        }),
        Err(_) => None,
    }
}

impl Locator {
    /// Parses an absolute URL.
    pub fn parse(text: &str) -> (parsed: Result<Locator, LocatorError>)
        ensures
            match parsed {
                Ok(locator) => url_parse(text@) == Some(locator@),
                Err(error) => url_parse(text@) is None && error@ == (Refusal::Unparsable {
                    text: text@,
                }),
            },
    {
        match parse_url(text) {
            Some(locator) => Ok(locator),
            None => Err(LocatorError::Unparsable { text: String::from_str(text) }),
        }
    }

    /// The serialized locator.
    pub fn to_text(&self) -> (text: String)
        ensures
            text@ == self@.text(),
    {
        let host = match &self.host {
            Some(host) => host.as_str(),
            None => "",
        };
        proof {
            reveal_strlit("");
        }
        self.scheme.clone().concat(self.before_host.as_str()).concat(host).concat(
            self.after_host.as_str(),
        ).concat(self.path.as_str()).concat(self.suffix.as_str())
    }
}

} // verus!
