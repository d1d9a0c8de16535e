use crate::protocol::{Path, Protocol};
use vstd::prelude::*;
use vstd::string::*;

verus! {

/// The kind of backend that serves a location.
#[derive(Debug, Clone, Copy, PartialEq, Eq, Structural)]
pub enum BackendKind {
    Local,
    Ssh,
    S3,
    Http,
}

/// The kind of backend that serves `protocol`, if any does.
pub open spec fn kind_of_protocol(protocol: Protocol) -> Option<BackendKind> {
    match protocol {
        Protocol::Ssh | Protocol::Sftp => Some(BackendKind::Ssh),
        Protocol::S3 => Some(BackendKind::S3),
        Protocol::Http | Protocol::Https => Some(BackendKind::Http),
        Protocol::File | Protocol::Unknown(_) => None,
    }
}

/// Picks the kind of backend for `path`: the local one for a local path, and
/// for a remote location the one that serves its protocol. A protocol that
/// none serves is refused by name.
pub fn backend_kind(path: &Path) -> (kind: Result<BackendKind, String>)
    ensures
        match path {
            Path::Local(_) => kind == Ok::<BackendKind, String>(BackendKind::Local),
            Path::Remote(remote) => match kind_of_protocol(remote.protocol) {
                Some(k) => kind == Ok::<BackendKind, String>(k),
                None => kind matches Err(why) && why@ == "Unsupported protocol: "@
                    + remote.protocol.name(),
            },
        },
{
    match path {
        Path::Local(_) => Ok(BackendKind::Local),
        Path::Remote(remote) => match &remote.protocol {
            Protocol::Ssh | Protocol::Sftp => Ok(BackendKind::Ssh),
            Protocol::S3 => Ok(BackendKind::S3),
            Protocol::Http | Protocol::Https => Ok(BackendKind::Http),
            other => {
                let mut why = String::from_str("Unsupported protocol: ");
                why.append(other.as_str());
                Err(why)
            },
        },
    }
}

} // verus!
