//! Where a deck comes from: a file on disk, or a page on the web.

use vstd::prelude::*;
use vstd::string::StringExecFns;

verus! {

/// A web address, taken apart.
#[derive(Debug)]
pub struct Link {
    /// The address as a whole, in its normal form.
    pub address: String,
    /// The host, where the address has one.
    pub host: Option<String>,
    /// The path.
    pub path: String,
}

impl Clone for Link {
    fn clone(&self) -> (copy: Link)
        ensures
            copy == *self,
    {
        Link {
            address: self.address.clone(),
            host: match &self.host {
                Some(host) => Some(host.clone()),
                None => None,
            },
            path: self.path.clone(),
        }
    }
}

/// Where a deck comes from.
#[derive(Debug)]
pub enum Source {
    /// The path of a deck list on disk.
    File(String),
    /// The address of a deck on the web.
    Link(Link),
}

impl Clone for Source {
    fn clone(&self) -> (copy: Source)
        ensures
            copy == *self,
    {
        match self {
            Source::File(path) => Source::File(path.clone()),
            Source::Link(link) => Source::Link(link.clone()),
        }
    }
}

/// What the `url` crate makes of `text`: nothing where `text` is no address,
/// or else the address in its normal form, its host if it has one, and its
/// path.
pub uninterp spec fn url_parts(text: Seq<char>) -> Option<(Seq<char>, Option<Seq<char>>, Seq<char>)>;

/// The parts of a link, as [`url_parts`] gives them.
pub open spec fn parts_of(link: Option<Link>) -> Option<(Seq<char>, Option<Seq<char>>, Seq<char>)> {
    match link {
        Some(link) => Some(
            (
                link.address@,
                match link.host {
                    Some(host) => Some(host@),
                    None => None,
                },
                link.path@,
            ),
        ),
        None => None,
    }
}

/// What is said of a text that is neither a file nor an address.
pub open spec fn invalid_source(text: Seq<char>) -> Seq<char> {
    "Invalid path or URL: "@ + text
}

/// The source that `text` names, given whether a file of that name exists and
/// what `text` is as an address.
pub open spec fn source_of(text: Seq<char>, is_file: bool, parsed: Option<Link>, source: Result<
    Source,
    String,
>) -> bool {
    if is_file {
        source matches Ok(Source::File(path)) && path@ == text
    } else {
        match parsed {
            Some(link) => source matches Ok(Source::Link(found)) && found == link,
            None => source matches Err(message) && message@ == invalid_source(text),
        }
    }
}

/// Parses `text` as a web address with `url::Url::parse`, and reads the
/// result with `Url::as_str`, `Url::host_str` and `Url::path`.
///
/// Trusted: that the three parts are those that the `url` crate gives for
/// `text`, and that the same text always gives the same parts. Nothing is
/// claimed about which texts are addresses, nor about what the parts hold.
#[verifier::external_body]
fn parse_url(text: &str) -> (link: Option<Link>)
    ensures
        parts_of(link) == url_parts(text@),
{
    match url::Url::parse(text) {
        Ok(url) => Some(
            Link {
                address: url.as_str().to_string(),
                host: match url.host_str() {
                    Some(host) => Some(host.to_string()),
                    None => None,
                },
                path: url.path().to_string(),
            },
        ),
        Err(_) => None,
    }
}

impl Source {
    /// The source that `text` names, given whether a file of that name exists
    /// and what `text` is as an address: the file where it exists, or else the
    /// address where `text` is one, or else a message that says that `text` is
    /// neither.
    pub fn from_parts(text: &str, is_file: bool, parsed: Option<Link>) -> (source: Result<
        Source,
        String,
    >)
        ensures
            source_of(text@, is_file, parsed, source),
    {
        if is_file {
            return Ok(Source::File(text.to_owned()));
        }
        match parsed {
            Some(link) => Ok(Source::Link(link)),
            None => {
                let mut message = "Invalid path or URL: ".to_owned();
                message.append(text);
                Err(message)
            },
        }
    }

    /// The source that `text` names, given whether a file of that name
    /// exists. A file goes before an address.
    pub fn resolve(text: &str, is_file: bool) -> (source: Result<Source, String>)
        ensures
            is_file ==> (source matches Ok(Source::File(path)) && path@ == text@),
            !is_file ==> match source {
                Ok(Source::Link(link)) => parts_of(Some(link)) == url_parts(text@),
                Ok(Source::File(_)) => false,
                Err(message) => url_parts(text@) is None && message@ == invalid_source(text@),
            },
    {
        if is_file {
            Source::from_parts(text, true, None)
        } else {
            Source::from_parts(text, false, parse_url(text))
        }
    }
}

} // verus!
