//! URLs, and the base URLs that file names are joined to.

use crate::error::Error;
use crate::text::{ends_with_slash, str_ends_with_slash};
use vstd::prelude::*;
use vstd::string::*;

verus! {

/// Why the `url` crate refused a text. The client looks at no such value:
/// it only tells success from failure.
#[verifier::external_type_specification]
#[verifier::external_body]
pub struct ExParseError(url::ParseError);

/// What `url::Url::parse` makes of a text: the serialization of the URL
/// that it parsed, or `None` where it refused the text.
pub uninterp spec fn url_parsed(input: Seq<char>) -> Option<Seq<char>>;

/// What `url::Url::join` makes of a reference: the serialization of the URL
/// that `input` names when it is read relative to the URL that `base`
/// parses to, or `None` where `base` or the reference is refused.
pub uninterp spec fn url_joined(base: Seq<char>, input: Seq<char>) -> Option<Seq<char>>;

/// Calls `url::Url::parse` and takes the serialization of what it returns.
/// The result is a function of the text alone, which `url_parsed` names. A
/// serialization parses to itself; the `url` crate lists this among the
/// invariants of every `Url` (`Url::check_invariants`).
#[verifier::external_body]
fn parse_text(input: &str) -> (r: Result<String, url::ParseError>)
    ensures
        r matches Ok(t) ==> url_parsed(input@) == Some(t@) && url_parsed(t@) == Some(t@),
        r is Err ==> url_parsed(input@) is None,
{
    url::Url::parse(input).map(String::from)
}

/// Calls `url::Url::join` on the URL that `base` parses to and takes the
/// serialization of what it returns. The result is a function of the two
/// texts alone, which `url_joined` names; like every serialization, it
/// parses to itself.
#[verifier::external_body]
fn join_text(base: &str, input: &str) -> (r: Result<String, url::ParseError>)
    ensures
        r matches Ok(t) ==> url_joined(base@, input@) == Some(t@) && url_parsed(t@) == Some(t@),
        r is Err ==> url_joined(base@, input@) is None,
{
    url::Url::parse(base)?.join(input).map(String::from)
}

/// A URL, held as its serialization.
#[derive(Debug, PartialEq, Eq)]
pub struct Url {
    text: String,
}

impl View for Url {
    type V = Seq<char>;

    closed spec fn view(&self) -> Seq<char> {
        self.text@
    }
}

impl Clone for Url {
    fn clone(&self) -> (r: Self)
        ensures
            r@ == self@,
    {
        Url { text: self.text.clone() }
    }
}

impl Url {
    /// Whether the text is the serialization of a URL, which is to say
    /// that it parses to itself. Every `Url` that `parse` or `join` returns
    /// is well-formed.
    pub open spec fn wf(&self) -> bool {
        url_parsed(self@) == Some(self@)
    }

    /// Parses a URL.
    pub fn parse(input: &str) -> (r: Result<Url, Error>)
        ensures
            match r {
                Ok(url) => url_parsed(input@) == Some(url@) && url.wf(),
                Err(e) => url_parsed(input@) is None && (e matches Error::ParseUrl { url }
                    && url@ == input@),
            },
    {
        match parse_text(input) {
            Ok(text) => Ok(Url { text }),
            Err(_) => Err(Error::ParseUrl { url: String::from_str(input) }),
        }
    }

    /// The URL that `input` names when it is read relative to this one.
    pub fn join(&self, input: &str) -> (r: Result<Url, Error>)
        ensures
            match r {
                Ok(url) => url_joined(self@, input@) == Some(url@) && url.wf(),
                Err(e) => url_joined(self@, input@) is None && (e matches Error::JoinUrl {
                    path,
                    url,
                } && path@ == input@ && url@ == self@),
            },
    {
        match join_text(self.text.as_str(), input) {
            Ok(text) => Ok(Url { text }),
            Err(_) => Err(
                Error::JoinUrl { path: String::from_str(input), url: self.text.clone() },
            ),
        }
    }

    /// The serialization of the URL.
    pub fn as_str(&self) -> (s: &str)
        ensures
            s@ == self@,
    {
        self.text.as_str()
    }
}

/// A base URL as the client uses it: the text itself where it ends with a
/// slash, and else what the text with a slash added parses to. `None` means
/// that the longer text is no URL.
pub open spec fn normalized(text: Seq<char>) -> Option<Seq<char>> {
    if ends_with_slash(text) {
        Some(text)
    } else {
        url_parsed(text.push('/'))
    }
}

/// Makes a URL fit to be a base: one that does not end with a slash gets
/// one, so that its last segment counts as a directory when file names are
/// joined to it.
pub fn parse_url(url: Url) -> (r: Result<Url, Error>)
    ensures
        match r {
            Ok(base) => normalized(url@) == Some(base@) && (url.wf() ==> base.wf()),
            Err(e) => normalized(url@) is None && (e matches Error::ParseUrl { url: text }
                && text@ == url@.push('/')),
        },
{
    if str_ends_with_slash(url.as_str()) {
        Ok(url)
    } else {
        let mut text = url.text;
        let ghost before = text@;
        proof {
            reveal_strlit("/");
        }
        text.append("/");
        assert(text@ =~= before.push('/'));
        match parse_text(text.as_str()) {
            Ok(parsed) => Ok(Url { text: parsed }),
            Err(_) => Err(Error::ParseUrl { url: text }),
        }
    }
}

/// A base URL that ends with a slash and the same URL without that slash
/// are normalized to the same base: the one with the slash.
pub proof fn lemma_trailing_slash_makes_no_difference(with: Seq<char>, without: Seq<char>)
    requires
        url_parsed(with) == Some(with),
        with == without.push('/'),
        !ends_with_slash(without),
    ensures
        normalized(with) == Some(with),
        normalized(without) == normalized(with),
{
}

/// Normalizing a base a second time changes nothing, wherever the first
/// result ends with a slash.
pub proof fn lemma_normalized_is_idempotent(text: Seq<char>, base: Seq<char>)
    requires
        normalized(text) == Some(base),
        ends_with_slash(base),
    ensures
        normalized(base) == normalized(text),
{
}

} // verus!
