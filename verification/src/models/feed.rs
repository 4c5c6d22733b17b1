//! A feed: a named source of entries at a URL.

use vstd::prelude::*;
use vstd::string::*;

verus! {

/// A named source of entries.
#[derive(Debug, PartialEq, Eq)]
pub struct Feed {
    /// The feed's URL, in the normal form that the URL parser gives it.
    pub url: String,
    /// The user-chosen alias for the feed. Must not be empty.
    pub alias: String,
}

/// What a feed holds.
pub struct FeedView {
    pub url: Seq<char>,
    pub alias: Seq<char>,
}

/// Why a feed cannot be made.
#[derive(Debug, PartialEq, Eq)]
pub enum FeedError {
    /// The text is no absolute URL.
    InvalidUrl { url: String },
    /// The alias is empty.
    EmptyAlias { url: String },
}

/// What the URL parser makes of a text: the URL in normal form, or `None`
/// if the text is no absolute URL.
pub uninterp spec fn url_normal_form(text: Seq<char>) -> Option<Seq<char>>;

/// An error of the URL parser.
#[verifier::external_type_specification]
#[verifier::external_body]
pub struct ExUrlParseError(url::ParseError);

impl View for Feed {
    type V = FeedView;

    open spec fn view(&self) -> FeedView {
        FeedView { url: self.url@, alias: self.alias@ }
    }
}

impl DeepView for Feed {
    type V = FeedView;

    open spec fn deep_view(&self) -> FeedView {
        self@
    }
}

impl Clone for Feed {
    fn clone(&self) -> (r: Feed)
        ensures
            r@ == self@,
    {
        Feed { url: self.url.clone(), alias: self.alias.clone() }
    }
}

impl Feed {
    /// A feed under `alias` at the URL that `url` spells. Fails with
    /// `InvalidUrl` if `url` is no absolute URL, else with `EmptyAlias` if
    /// the alias is empty.
    pub fn new(url: &str, alias: &str) -> (r: Result<Feed, FeedError>)
        ensures
            match r {
                Ok(feed) => url_normal_form(url@) == Some(feed.url@) && alias@.len() > 0
                    && feed.alias@ == alias@,
                Err(FeedError::InvalidUrl { url: text }) => url_normal_form(url@) is None
                    && text@ == url@,
                Err(FeedError::EmptyAlias { url: text }) => url_normal_form(url@) == Some(text@)
                    && alias@.len() == 0,
            },
    {
        match normalize_url(url) {
            Ok(normal) => Feed::with_url(url, Some(normal), alias),
            Err(_) => Feed::with_url(url, None, alias),
        }
    }

    /// A feed under `alias`, where `normal` is what the URL parser makes of
    /// `url`: the URL in normal form, or `None` if `url` is no absolute
    /// URL.
    pub fn with_url(url: &str, normal: Option<String>, alias: &str) -> (r: Result<Feed, FeedError>)
        ensures
            match r {
                Ok(feed) => normal matches Some(text) && feed.url@ == text@ && alias@.len() > 0
                    && feed.alias@ == alias@,
                Err(FeedError::InvalidUrl { url: text }) => normal is None && text@ == url@,
                Err(FeedError::EmptyAlias { url: text }) => normal matches Some(parsed)
                    && text@ == parsed@ && alias@.len() == 0,
            },
    {
        match normal {
            None => Err(FeedError::InvalidUrl { url: url.to_owned() }),
            Some(normal) => {
                if alias.is_empty() {
                    Err(FeedError::EmptyAlias { url: normal })
                } else {
                    Ok(Feed { url: normal, alias: alias.to_owned() })
                }
            },
        }
    }
}

impl FeedError {
    /// The error in words.
    pub open spec fn text(self) -> Seq<char> {
        match self {
            FeedError::InvalidUrl { url } => "The feed's URL is not valid: "@ + url@,
            FeedError::EmptyAlias { url } => "A feed's alias must not be empty. "@ + url@,
        }
    }

    /// The error in words.
    pub fn message(&self) -> (r: String)
        ensures
            r@ == self.text(),
    {
        match self {
            FeedError::InvalidUrl { url } => String::from_str("The feed's URL is not valid: ").concat(
                url.as_str(),
            ),
            FeedError::EmptyAlias { url } => String::from_str(
                "A feed's alias must not be empty. ",
            ).concat(url.as_str()),
        }
    }
}

/// `url::Url::parse`, with the URL handed back as the text that the parser
/// normalised it to. The parser is a function of the text alone; the
/// contract names what it returns and claims no more.
#[verifier::external_body]
fn normalize_url(text: &str) -> (r: Result<String, url::ParseError>)
    ensures
        r is Ok <==> url_normal_form(text@) is Some,
        r matches Ok(normal) ==> url_normal_form(text@) == Some(normal@),
{
    match url::Url::parse(text) {
        Ok(parsed) => Ok(parsed.into()),
        Err(e) => Err(e),
    }
}

} // verus!
