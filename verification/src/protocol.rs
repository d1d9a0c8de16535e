use crate::path::{
    find_sole_at_sign, scheme_separator, sole_at_sign, ssh_style, tail_is_host_and_path, LocalPath,
    PathError,
};
use crate::text::{contains_sub, find_char, find_sub, to_chars};
use vstd::prelude::*;
use vstd::string::*;

verus! {

/// The protocol through which a remote location is reached.
#[derive(Debug, Clone, PartialEq, Eq)]
pub enum Protocol {
    Ssh,
    Sftp,
    Http,
    Https,
    S3,
    File,
    /// Any other protocol, by its lower-case name.
    Unknown(String),
}

/// What `str::to_lowercase` makes of a string.
pub uninterp spec fn unicode_lowercase(s: Seq<char>) -> Seq<char>;

/// Calls `str::to_lowercase`. Trusted: the result is the lower-case form that
/// std gives for these characters.
#[verifier::external_body]
pub(crate) fn lowercase(s: &str) -> (lower: String)
    ensures
        lower@ == unicode_lowercase(s@),
{
    s.to_lowercase()
}

/// `name` is the name of one of the protocols that have a variant of their own.
pub open spec fn is_known_name(name: Seq<char>) -> bool {
    ||| name == "ssh"@
    ||| name == "sftp"@
    ||| name == "http"@
    ||| name == "https"@
    ||| name == "s3"@
    ||| name == "file"@
}

impl Protocol {
    /// The lower-case name of the protocol.
    pub open spec fn name(&self) -> Seq<char> {
        match self {
            Protocol::Ssh => "ssh"@,
            Protocol::Sftp => "sftp"@,
            Protocol::Http => "http"@,
            Protocol::Https => "https"@,
            Protocol::S3 => "s3"@,
            Protocol::File => "file"@,
            Protocol::Unknown(s) => s@,
        }
    }

    /// The protocol that goes by the lower-case name `lower`: the variant of
    /// that name where there is one, else `Unknown` with the name.
    pub fn from_lowercase(lower: &str) -> (protocol: Self)
        ensures
            protocol.name() == lower@,
            protocol is Unknown <==> !is_known_name(lower@),
    {
        let name = to_chars(lower);
        proof {
            reveal_strlit("ssh");
            reveal_strlit("sftp");
            reveal_strlit("http");
            reveal_strlit("https");
            reveal_strlit("s3");
            reveal_strlit("file");
        }
        let n = name.len();
        if n == 3 && name[0] == 's' && name[1] == 's' && name[2] == 'h' {
            assert(name@ =~= "ssh"@);
            Protocol::Ssh
        } else if n == 4 && name[0] == 's' && name[1] == 'f' && name[2] == 't' && name[3] == 'p' {
            assert(name@ =~= "sftp"@);
            Protocol::Sftp
        } else if n == 4 && name[0] == 'h' && name[1] == 't' && name[2] == 't' && name[3] == 'p' {
            assert(name@ =~= "http"@);
            Protocol::Http
        } else if n == 5 && name[0] == 'h' && name[1] == 't' && name[2] == 't' && name[3] == 'p'
            && name[4] == 's' {
            assert(name@ =~= "https"@);
            Protocol::Https
        } else if n == 2 && name[0] == 's' && name[1] == '3' {
            assert(name@ =~= "s3"@);
            Protocol::S3
        } else if n == 4 && name[0] == 'f' && name[1] == 'i' && name[2] == 'l' && name[3] == 'e' {
            assert(name@ =~= "file"@);
            Protocol::File
        } else {
            Protocol::Unknown(String::from_str(lower))
        }
    }

    /// The protocol named by `s`, whatever the case of its letters.
    pub fn from_str(s: &str) -> (protocol: Self)
        ensures
            protocol.name() == unicode_lowercase(s@),
            protocol is Unknown <==> !is_known_name(unicode_lowercase(s@)),
    {
        let lower = lowercase(s);
        Self::from_lowercase(lower.as_str())
    }

    /// The lower-case name of the protocol.
    pub fn as_str(&self) -> (name: &str)
        ensures
            name@ == self.name(),
    {
        match self {
            Protocol::Ssh => "ssh",
            Protocol::Sftp => "sftp",
            Protocol::Http => "http",
            Protocol::Https => "https",
            Protocol::S3 => "s3",
            Protocol::File => "file",
            Protocol::Unknown(s) => s.as_str(),
        }
    }

    /// The lower-case name of the protocol, as an owned string.
    pub fn to_string(&self) -> (name: String)
        ensures
            name@ == self.name(),
    {
        String::from_str(self.as_str())
    }
}

/// The parts of a parsed URL that this crate reads.
#[derive(Debug, Clone)]
pub struct RemoteUrl {
    /// The URL in its normal form.
    pub text: String,
    /// The scheme, in lower case, without the `:`.
    pub scheme: String,
    /// The user name; empty where the URL has none.
    pub username: String,
    pub host: Option<String>,
    /// The port, where one is given that is not the scheme's own.
    pub port: Option<u16>,
    pub path: String,
}

/// The mathematical content of a [`RemoteUrl`].
pub struct UrlParts {
    pub text: Seq<char>,
    pub scheme: Seq<char>,
    pub username: Seq<char>,
    pub host: Option<Seq<char>>,
    pub port: Option<u16>,
    pub path: Seq<char>,
}

impl View for RemoteUrl {
    type V = UrlParts;

    open spec fn view(&self) -> UrlParts {
        UrlParts {
            text: self.text@,
            scheme: self.scheme@,
            username: self.username@,
            host: match self.host {
                Some(h) => Some(h@),
                None => None,
            },
            port: self.port,
            path: self.path@,
        }
    }
}

impl RemoteUrl {
    pub fn as_str(&self) -> (text: &str)
        ensures
            text@ == self@.text,
    {
        self.text.as_str()
    }

    pub fn scheme(&self) -> (scheme: &str)
        ensures
            scheme@ == self@.scheme,
    {
        self.scheme.as_str()
    }

    pub fn username(&self) -> (user: &str)
        ensures
            user@ == self@.username,
    {
        self.username.as_str()
    }

    pub fn host_str(&self) -> (host: Option<&str>)
        ensures
            match host {
                Some(h) => self@.host == Some(h@),
                None => self@.host is None,
            },
    {
        match &self.host {
            Some(h) => Some(h.as_str()),
            None => None,
        }
    }

    pub fn port(&self) -> (port: Option<u16>)
        ensures
            port == self@.port,
    {
        self.port
    }

    pub fn path(&self) -> (path: &str)
        ensures
            path@ == self@.path,
    {
        self.path.as_str()
    }
}

/// What `url::Url::parse` makes of `text`: the parts of the URL as its
/// accessors `as_str`, `scheme`, `username`, `host_str`, `port` and `path`
/// give them, or the message of its error.
pub uninterp spec fn url_parse(text: Seq<char>) -> Result<UrlParts, Seq<char>>;

/// Calls `url::Url::parse` and reads the parts of the URL, or the text of
/// the error. Trusted: the outcome is the one the crate gives for this text.
#[verifier::external_body]
fn parse_url(text: &str) -> (parsed: Result<RemoteUrl, String>)
    ensures
        match parsed {
            Ok(url) => url_parse(text@) == Ok::<UrlParts, Seq<char>>(url@),
            Err(why) => url_parse(text@) == Err::<UrlParts, Seq<char>>(why@),
        },
{
    match url::Url::parse(text) {
        Ok(url) => Ok(
            RemoteUrl {
                text: url.as_str().to_string(),
                scheme: url.scheme().to_string(),
                username: url.username().to_string(),
                host: url.host_str().map(str::to_string),
                port: url.port(),
                path: url.path().to_string(),
            },
        ),
        Err(e) => Err(e.to_string()),
    }
}

/// A location on a remote endpoint.
#[derive(Debug, Clone)]
pub struct RemotePath {
    pub protocol: Protocol,
    pub url: RemoteUrl,
    pub path: String,
}

/// A source or a destination.
#[derive(Debug, Clone)]
pub enum Path {
    Local(LocalPath),
    Remote(RemotePath),
}

/// Why a string was refused as a location.
#[derive(Debug)]
pub enum PathParseError {
    InvalidUrl { path: String, error: String },
    LocalPathError(PathError),
}

impl PathParseError {
    /// The diagnostic of this error.
    pub open spec fn display_text(&self) -> Seq<char> {
        match self {
            PathParseError::InvalidUrl { path, error } => "Invalid URL '"@ + path@ + "': "@ + error@,
            PathParseError::LocalPathError(e) => e.display_text(),
        }
    }

    /// Renders the error for the user.
    pub fn to_string(&self) -> (text: String)
        ensures
            text@ == self.display_text(),
    {
        match self {
            PathParseError::InvalidUrl { path, error } => {
                let mut text = String::from_str("Invalid URL '");
                text.append(path.as_str());
                text.append("': ");
                text.append(error.as_str());
                text
            },
            PathParseError::LocalPathError(e) => e.to_string(),
        }
    }
}

/// How a location string reads.
pub enum PathShape {
    /// It has `://` in it: a URL.
    Url,
    /// It has the form `user@host:path`; `colon` is where the `:` that ends
    /// the host stands.
    SshStyle { colon: usize },
    /// Anything else: a local path.
    Local,
}

/// `colon` is the first `:` after the single `@` of `s`.
pub open spec fn host_ends_at(s: Seq<char>, colon: int) -> bool {
    exists|at: int|
        {
            &&& sole_at_sign(s, at)
            &&& at < colon < s.len()
            &&& s[colon] == ':'
            &&& forall|j: int| at < j < colon ==> s[j] != ':'
        }
}

/// Tells which of the three forms a location string has.
pub fn classify(path_str: &str) -> (shape: PathShape)
    ensures
        match shape {
            PathShape::Url => contains_sub(path_str@, scheme_separator()),
            PathShape::SshStyle { colon } => {
                &&& !contains_sub(path_str@, scheme_separator())
                &&& ssh_style(path_str@)
                &&& host_ends_at(path_str@, colon as int)
            },
            PathShape::Local => {
                &&& !contains_sub(path_str@, scheme_separator())
                &&& !ssh_style(path_str@)
            },
        },
{
    let chars = to_chars(path_str);
    let separator = to_chars("://");
    proof {
        reveal_strlit("://");
        assert(separator@ =~= scheme_separator());
    }
    if find_sub(&chars, &separator).is_some() {
        return PathShape::Url;
    }
    if let Some(at) = find_sole_at_sign(&chars) {
        if tail_is_host_and_path(&chars, at) {
            let len = chars.len();
            match find_char(&chars, ':', at + 1) {
                Some(colon) => {
                    return PathShape::SshStyle { colon };
                },
                None => {
                    proof {
                        let tail = chars@.skip(at + 1);
                        let i = choose|i: int| 0 <= i < tail.len() && tail[i] == ':';
                        assert(chars@[i + at + 1] == ':');
                    }
                },
            }
        }
        proof {
            assert forall|other: int| sole_at_sign(chars@, other) implies other == at by {}
        }
    }
    PathShape::Local
}

/// Makes a remote location of a URL that was parsed, or an error of the
/// parser's message. `given` is the string that was parsed; `ssh_path` is
/// set for the `user@host:path` form and holds its path, which then stands
/// for the location's path and fixes the protocol to SSH.
pub fn remote_from_url(
    given: &str,
    parsed: Result<RemoteUrl, String>,
    ssh_path: Option<String>,
) -> (made: Result<Path, PathParseError>)
    ensures
        match parsed {
            Ok(url) => made matches Ok(Path::Remote(remote)) && remote.url@ == url@ && match ssh_path {
                Some(path) => remote.protocol == Protocol::Ssh && remote.path@ == path@,
                None => {
                    &&& remote.protocol.name() == unicode_lowercase(url@.scheme)
                    &&& remote.protocol is Unknown <==> !is_known_name(
                        unicode_lowercase(url@.scheme),
                    )
                    &&& remote.path@ == url@.path
                },
            },
            Err(why) => made matches Err(PathParseError::InvalidUrl { path, error }) && path@
                == given@ && error@ == why@,
        },
{
    match parsed {
        Ok(url) => {
            let remote = match ssh_path {
                Some(path) => RemotePath { protocol: Protocol::Ssh, url, path },
                None => {
                    let protocol = Protocol::from_str(url.scheme());
                    let path = String::from_str(url.path());
                    RemotePath { protocol, url, path }
                },
            };
            Ok(Path::Remote(remote))
        },
        Err(why) => Err(
            PathParseError::InvalidUrl { path: String::from_str(given), error: why },
        ),
    }
}

/// The URL that stands for a location of the form `user@host:path`.
pub open spec fn ssh_url_text(s: Seq<char>) -> Seq<char> {
    "ssh://"@ + s
}

/// Reads a location: a URL where the string has `://` in it, an SSH location
/// where it has the form `user@host:path`, and a local path otherwise.
///
/// What the URL parser makes of a URL is not stated here; see
/// [`remote_from_url`] for what becomes of its answer.
pub fn parse_path(path_str: &str) -> (parsed: Result<Path, PathParseError>)
    ensures
        contains_sub(path_str@, scheme_separator()) ==> match url_parse(path_str@) {
            Ok(url) => parsed matches Ok(Path::Remote(remote)) && remote.url@ == url
                && remote.path@ == url.path && remote.protocol.name() == unicode_lowercase(
                url.scheme,
            ),
            Err(why) => parsed matches Err(PathParseError::InvalidUrl { path, error }) && path@
                == path_str@ && error@ == why,
        },
        !contains_sub(path_str@, scheme_separator()) && ssh_style(path_str@) ==> match url_parse(
            ssh_url_text(path_str@),
        ) {
            Ok(url) => parsed matches Ok(Path::Remote(remote)) && remote.url@ == url
                && remote.protocol == Protocol::Ssh && exists|colon: int|
                host_ends_at(path_str@, colon) && remote.path@ == path_str@.skip(colon + 1),
            Err(why) => parsed matches Err(PathParseError::InvalidUrl { path, error }) && path@
                == path_str@ && error@ == why,
        },
        !contains_sub(path_str@, scheme_separator()) && !ssh_style(path_str@) ==> (parsed matches Ok(
            Path::Local(local),
        ) && local@ == path_str@),
{
    match classify(path_str) {
        PathShape::Url => remote_from_url(path_str, parse_url(path_str), None),
        PathShape::SshStyle { colon } => {
            let chars = to_chars(path_str);
            let len = chars.len();
            assert(colon < len);
            let path = String::from_str(path_str.substring_char(colon + 1, len));
            let mut url_text = String::from_str("ssh://");
            url_text.append(path_str);
            remote_from_url(path_str, parse_url(url_text.as_str()), Some(path))
        },
        PathShape::Local => match LocalPath::parse(path_str) {
            Ok(local) => Ok(Path::Local(local)),
            Err(e) => Err(PathParseError::LocalPathError(e)),
        },
    }
}

} // verus!
