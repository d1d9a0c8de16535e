use crate::backend::cli::push_arg;
use crate::backend::error::BackendError;
use crate::operations::sync::paths;
use crate::protocol::RemotePath;
use crate::text::str_starts_with;
use vstd::prelude::*;
use vstd::string::*;

verus! {

/// `text` is the URL of a web resource: it begins with `http://` or
/// `https://`.
pub open spec fn is_web_url(text: Seq<char>) -> bool {
    "http://"@.is_prefix_of(text) || "https://"@.is_prefix_of(text)
}

/// The flag that sets how much a download tool prints: the tool's own flag
/// for a progress bar, or its flag for silence unless verbose.
pub open spec fn noise_flag(
    verbose: bool,
    progress: bool,
    bar: Seq<char>,
    silent: Seq<char>,
) -> Seq<Seq<char>> {
    if progress {
        seq![bar]
    } else if !verbose {
        seq![silent]
    } else {
        Seq::empty()
    }
}

/// The arguments with which `curl` fetches `url` to `dst`: follow
/// redirections, fail on an error status, write to `dst`.
pub fn curl_arguments(url: &str, dst: &str, verbose: bool, progress: bool) -> (args: Vec<String>)
    ensures
        paths(args@) == seq!["-L"@, "-f"@, "-o"@, dst@, url@] + noise_flag(
            verbose,
            progress,
            "--progress-bar"@,
            "-s"@,
        ),
{
    let mut args: Vec<String> = Vec::new();
    assert(paths(args@) =~= Seq::<Seq<char>>::empty());
    push_arg(&mut args, "-L");
    push_arg(&mut args, "-f");
    push_arg(&mut args, "-o");
    push_arg(&mut args, dst);
    push_arg(&mut args, url);
    if progress {
        push_arg(&mut args, "--progress-bar");
    } else if !verbose {
        push_arg(&mut args, "-s");
    }
    assert(paths(args@) =~= seq!["-L"@, "-f"@, "-o"@, dst@, url@] + noise_flag(
        verbose,
        progress,
        "--progress-bar"@,
        "-s"@,
    ));
    args
}

/// The arguments with which `wget` fetches `url` to `dst`.
pub fn wget_arguments(url: &str, dst: &str, verbose: bool, progress: bool) -> (args: Vec<String>)
    ensures
        paths(args@) == seq!["-O"@, dst@, url@] + noise_flag(
            verbose,
            progress,
            "--progress=bar"@,
            "-q"@,
        ),
{
    let mut args: Vec<String> = Vec::new();
    assert(paths(args@) =~= Seq::<Seq<char>>::empty());
    push_arg(&mut args, "-O");
    push_arg(&mut args, dst);
    push_arg(&mut args, url);
    if progress {
        push_arg(&mut args, "--progress=bar");
    } else if !verbose {
        push_arg(&mut args, "-q");
    }
    assert(paths(args@) =~= seq!["-O"@, dst@, url@] + noise_flag(
        verbose,
        progress,
        "--progress=bar"@,
        "-q"@,
    ));
    args
}

/// What a web server cannot be asked for.
#[derive(Debug, Clone, Copy, PartialEq, Eq, Structural)]
pub enum WebRefusal {
    DirectoryCopy,
    Listing,
    Delete,
}

/// The rules of a web server that is read with a download tool.
#[derive(Debug, Clone)]
pub struct HttpBackend {
    remote_path: RemotePath,
}

impl HttpBackend {
    /// The location that the backend was made for.
    pub closed spec fn location(&self) -> RemotePath {
        self.remote_path
    }

    /// The host, or nothing where the URL names none.
    pub open spec fn host_or_empty(&self) -> Seq<char> {
        match self.location().url@.host {
            Some(host) => host,
            None => Seq::empty(),
        }
    }

    /// The URL of the resource at `path`: `path` itself where it is a URL
    /// already, else `path` on the host of the backend, by its scheme.
    pub open spec fn spec_url(&self, path: Seq<char>) -> Seq<char> {
        if is_web_url(path) {
            path
        } else {
            self.location().url@.scheme + "://"@ + self.host_or_empty() + path
        }
    }

    pub fn new(remote_path: RemotePath) -> (backend: Self)
        ensures
            backend.location() == remote_path,
    {
        Self { remote_path }
    }

    /// Short name of the location kind.
    pub fn name(&self) -> (name: &str)
        ensures
            name@ == "http"@,
    {
        "http"
    }

    /// The URL of the resource at `path`.
    pub fn url(&self, path: &str) -> (url: String)
        ensures
            url@ == self.spec_url(path@),
    {
        if str_starts_with(path, "http://") || str_starts_with(path, "https://") {
            String::from_str(path)
        } else {
            let mut url = String::from_str(self.remote_path.url.scheme());
            url.append("://");
            if let Some(host) = self.remote_path.url.host_str() {
                url.append(host);
            }
            url.append(path);
            assert(url@ =~= self.spec_url(path@));
            url
        }
    }

    /// The failure that answers what a web server cannot be asked for.
    pub fn refuse(&self, what: WebRefusal) -> (failure: BackendError)
        ensures
            failure matches BackendError::UnsupportedOperation(why) && why@ == match what {
                WebRefusal::DirectoryCopy => "HTTP/HTTPS does not support directory operations"@,
                WebRefusal::Listing => "HTTP/HTTPS does not support listing"@,
                WebRefusal::Delete => "HTTP/HTTPS does not support delete operations"@,
            },
    {
        BackendError::UnsupportedOperation(
            String::from_str(
                match what {
                    WebRefusal::DirectoryCopy => "HTTP/HTTPS does not support directory operations",
                    WebRefusal::Listing => "HTTP/HTTPS does not support listing",
                    WebRefusal::Delete => "HTTP/HTTPS does not support delete operations",
                },
            ),
        )
    }
}

} // verus!
