use crate::backend::cli::push_arg;
use crate::operations::sync::paths;
use crate::protocol::{Protocol, RemotePath, UrlParts};
use crate::scan::{copy_range, is_space, is_whitespace, string_of};
use crate::text::{
    decimal_digits, push_decimal, str_contains_char, str_ends_with_char, to_chars,
};
use vstd::prelude::*;
use vstd::string::*;

verus! {

/// Why a transfer that involves a remote endpoint failed.
#[derive(Debug)]
pub enum RemoteCopyError {
    NotImplemented(String),
    UnsupportedProtocol { src: String, dst: String },
    ConnectionError(String),
    AuthenticationError(String),
    IoError { message: String, error: String },
}

impl RemoteCopyError {
    /// The one-line diagnostic of this error.
    pub open spec fn display_text(&self) -> Seq<char> {
        match self {
            RemoteCopyError::NotImplemented(msg) => "Feature not yet implemented: "@ + msg@,
            RemoteCopyError::UnsupportedProtocol { src, dst } =>
                "Unsupported protocol combination: "@ + src@ + " -> "@ + dst@,
            RemoteCopyError::ConnectionError(msg) => "Connection error: "@ + msg@,
            RemoteCopyError::AuthenticationError(msg) => "Authentication error: "@ + msg@,
            RemoteCopyError::IoError { message, error } => message@ + ": "@ + error@,
        }
    }

    /// Renders the error as a one-line diagnostic.
    pub fn to_string(&self) -> (text: String)
        ensures
            text@ == self.display_text(),
    {
        match self {
            RemoteCopyError::NotImplemented(msg) => {
                let mut text = String::from_str("Feature not yet implemented: ");
                text.append(msg.as_str());
                text
            },
            RemoteCopyError::UnsupportedProtocol { src, dst } => {
                let mut text = String::from_str("Unsupported protocol combination: ");
                text.append(src.as_str());
                text.append(" -> ");
                text.append(dst.as_str());
                text
            },
            RemoteCopyError::ConnectionError(msg) => {
                let mut text = String::from_str("Connection error: ");
                text.append(msg.as_str());
                text
            },
            RemoteCopyError::AuthenticationError(msg) => {
                let mut text = String::from_str("Authentication error: ");
                text.append(msg.as_str());
                text
            },
            RemoteCopyError::IoError { message, error } => {
                let mut text = String::from_str(message.as_str());
                text.append(": ");
                text.append(error.as_str());
                text
            },
        }
    }
}

/// The protocol is one of the two that run over SSH.
pub open spec fn over_ssh(protocol: Protocol) -> bool {
    protocol is Ssh || protocol is Sftp
}

/// Whether `protocol` runs over SSH.
pub fn is_over_ssh(protocol: &Protocol) -> (yes: bool)
    ensures
        yes == over_ssh(*protocol),
{
    match protocol {
        Protocol::Ssh | Protocol::Sftp => true,
        _ => false,
    }
}

/// Why a copy between two remote locations with these protocols is refused.
/// No such copy is provided; the reason says what to use in its place where
/// there is something.
pub open spec fn remote_refusal(src: Protocol, dst: Protocol) -> Seq<char> {
    if over_ssh(src) && over_ssh(dst) {
        "SSH to SSH copy is not yet fully implemented"@
    } else if src is S3 && dst is S3 {
        "S3 to S3 copy is not yet implemented"@
    } else if over_ssh(src) {
        "Use copy_from_ssh_to_file for file operations"@
    } else {
        "Use copy_file_to_ssh for file operations"@
    }
}

/// Copies from one remote location to another. Not provided for any pair of
/// protocols: between two that run over SSH, two object stores, or with SSH
/// on one side the answer is `NotImplemented` with the reason; any other pair
/// is an unsupported combination, named by its two protocols.
pub fn copy_remote(
    src: &RemotePath,
    dst: &RemotePath,
    verbose: bool,
    ssh_opts: &[String],
    progress: bool,
) -> (done: Result<(), RemoteCopyError>)
    ensures
        done is Err,
        over_ssh(src.protocol) || over_ssh(dst.protocol) || (src.protocol is S3
            && dst.protocol is S3) ==> (done matches Err(RemoteCopyError::NotImplemented(why))
            && why@ == remote_refusal(src.protocol, dst.protocol)),
        !(over_ssh(src.protocol) || over_ssh(dst.protocol) || (src.protocol is S3
            && dst.protocol is S3)) ==> (done matches Err(
            RemoteCopyError::UnsupportedProtocol { src: from, dst: to },
        ) && from@ == src.protocol.name() && to@ == dst.protocol.name()),
{
    let src_ssh = is_over_ssh(&src.protocol);
    let dst_ssh = is_over_ssh(&dst.protocol);
    let both_s3 = match (&src.protocol, &dst.protocol) {
        (Protocol::S3, Protocol::S3) => true,
        _ => false,
    };
    if src_ssh && dst_ssh {
        copy_ssh_to_ssh(src, dst, verbose, ssh_opts, progress)
    } else if both_s3 {
        Err(RemoteCopyError::NotImplemented(String::from_str("S3 to S3 copy is not yet implemented")))
    } else if src_ssh {
        copy_from_ssh(src, dst, verbose)
    } else if dst_ssh {
        copy_to_ssh(src, dst, verbose)
    } else {
        Err(
            RemoteCopyError::UnsupportedProtocol {
                src: src.protocol.to_string(),
                dst: dst.protocol.to_string(),
            },
        )
    }
}

/// Copies from an SSH location to another remote location. Not provided.
pub fn copy_from_ssh(src: &RemotePath, dst: &RemotePath, verbose: bool) -> (done: Result<
    (),
    RemoteCopyError,
>)
    ensures
        done matches Err(RemoteCopyError::NotImplemented(why)) && why@
            == "Use copy_from_ssh_to_file for file operations"@,
{
    Err(
        RemoteCopyError::NotImplemented(
            String::from_str("Use copy_from_ssh_to_file for file operations"),
        ),
    )
}

/// Copies from a remote location to an SSH location. Not provided.
pub fn copy_to_ssh(src: &RemotePath, dst: &RemotePath, verbose: bool) -> (done: Result<
    (),
    RemoteCopyError,
>)
    ensures
        done matches Err(RemoteCopyError::NotImplemented(why)) && why@
            == "Use copy_file_to_ssh for file operations"@,
{
    Err(
        RemoteCopyError::NotImplemented(String::from_str("Use copy_file_to_ssh for file operations")),
    )
}

/// Copies between two SSH locations. Not provided.
pub fn copy_ssh_to_ssh(
    src: &RemotePath,
    dst: &RemotePath,
    verbose: bool,
    ssh_opts: &[String],
    progress: bool,
) -> (done: Result<(), RemoteCopyError>)
    ensures
        done matches Err(RemoteCopyError::NotImplemented(why)) && why@
            == "SSH to SSH copy is not yet fully implemented"@,
{
    Err(
        RemoteCopyError::NotImplemented(
            String::from_str("SSH to SSH copy is not yet fully implemented"),
        ),
    )
}

/// The port that secure copy uses unless told otherwise.
pub const DEFAULT_SSH_PORT: u16 = 22;

/// `-o` in front of each option, in order.
pub open spec fn option_flags(ssh_opts: Seq<Seq<char>>) -> Seq<Seq<char>>
    decreases ssh_opts.len(),
{
    if ssh_opts.len() == 0 {
        Seq::empty()
    } else {
        option_flags(ssh_opts.drop_last()).push("-o"@).push(ssh_opts.last())
    }
}

/// The flags of a secure-copy call: the port where it is not the usual one,
/// then `-v` for progress or `-q` unless verbose, then the options.
pub open spec fn scp_flags(port: Option<u16>, verbose: bool, progress: bool, ssh_opts: Seq<Seq<char>>) -> Seq<
    Seq<char>,
> {
    let port_flags = match port {
        Some(p) if p != DEFAULT_SSH_PORT => seq!["-P"@, decimal_digits(p as nat)],
        _ => Seq::empty(),
    };
    let noise = if progress {
        seq!["-v"@]
    } else if !verbose {
        seq!["-q"@]
    } else {
        Seq::empty()
    };
    port_flags + noise + option_flags(ssh_opts)
}

/// How secure copy names `path` on the host of `url`.
pub open spec fn remote_spec(url: UrlParts, host: Seq<char>, path: Seq<char>) -> Seq<char> {
    url.username + "@"@ + host + ":"@ + path
}

/// Builds the flags of a secure-copy call.
fn build_scp_flags(port: Option<u16>, verbose: bool, progress: bool, ssh_opts: &[String]) -> (flags:
    Vec<String>)
    ensures
        paths(flags@) == scp_flags(port, verbose, progress, paths(ssh_opts@)),
{
    let mut flags: Vec<String> = Vec::new();
    assert(paths(flags@) =~= Seq::<Seq<char>>::empty());
    if let Some(p) = port {
        if p != DEFAULT_SSH_PORT {
            let mut number = String::new();
            push_decimal(&mut number, p as usize);
            assert(number@ =~= decimal_digits(p as nat));
            flags.push(String::from_str("-P"));
            flags.push(number);
            assert(paths(flags@) =~= seq!["-P"@, decimal_digits(p as nat)]);
        }
    }
    let ghost port_flags = paths(flags@);
    if progress {
        flags.push(String::from_str("-v"));
        assert(paths(flags@) =~= port_flags + seq!["-v"@]);
    } else if !verbose {
        flags.push(String::from_str("-q"));
        assert(paths(flags@) =~= port_flags + seq!["-q"@]);
    } else {
        assert(paths(flags@) =~= port_flags + Seq::<Seq<char>>::empty());
    }
    let ghost fixed = paths(flags@);
    let ghost opts = paths(ssh_opts@);
    let mut i: usize = 0;
    assert(opts.take(0) =~= Seq::<Seq<char>>::empty());
    assert(paths(flags@) =~= fixed + option_flags(opts.take(0)));
    while i < ssh_opts.len()
        invariant
            i <= ssh_opts@.len(),
            opts == paths(ssh_opts@),
            paths(flags@) == fixed + option_flags(opts.take(i as int)),
        decreases ssh_opts@.len() - i,
    {
        proof {
            assert(opts.take(i + 1).drop_last() == opts.take(i as int));
            assert(opts.take(i + 1).last() == ssh_opts@[i as int]@);
        }
        let ghost before = paths(flags@);
        flags.push(String::from_str("-o"));
        flags.push(ssh_opts[i].clone());
        assert(paths(flags@) =~= before.push("-o"@).push(ssh_opts@[i as int]@));
        assert(before.push("-o"@).push(ssh_opts@[i as int]@) =~= fixed + option_flags(
            opts.take(i + 1),
        ));
        i += 1;
    }
    assert(opts.take(ssh_opts@.len() as int) == opts);
    flags
}

/// Names `path` on the host of `remote`, or fails where the URL has no host.
fn build_remote_spec(remote: &RemotePath) -> (spec: Result<String, RemoteCopyError>)
    ensures
        match remote.url@.host {
            Some(host) => spec matches Ok(text) && text@ == remote_spec(
                remote.url@,
                host,
                remote.path@,
            ),
            None => spec matches Err(RemoteCopyError::ConnectionError(why)) && why@
                == "No host specified in SSH URL"@,
        },
{
    match remote.url.host_str() {
        Some(host) => {
            let mut text = String::from_str(remote.url.username());
            text.append("@");
            text.append(host);
            text.append(":");
            text.append(remote.path.as_str());
            Ok(text)
        },
        None => Err(
            RemoteCopyError::ConnectionError(String::from_str("No host specified in SSH URL")),
        ),
    }
}

/// The arguments with which secure copy fetches `src` to the local path
/// `dst_path`: the flags, then the remote file, then the local path. A URL
/// without a host is refused.
pub fn scp_download_arguments(
    src: &RemotePath,
    dst_path: &str,
    verbose: bool,
    ssh_opts: &[String],
    progress: bool,
) -> (planned: Result<Vec<String>, RemoteCopyError>)
    ensures
        match src.url@.host {
            Some(host) => planned matches Ok(args) && paths(args@) == scp_flags(
                src.url@.port,
                verbose,
                progress,
                paths(ssh_opts@),
            ) + seq![remote_spec(src.url@, host, src.path@), dst_path@],
            None => planned matches Err(RemoteCopyError::ConnectionError(why)) && why@
                == "No host specified in SSH URL"@,
        },
{
    let remote = match build_remote_spec(src) {
        Ok(text) => text,
        Err(e) => {
            return Err(e);
        },
    };
    let mut args = build_scp_flags(src.url.port(), verbose, progress, ssh_opts);
    let ghost flags = paths(args@);
    let local = String::from_str(dst_path);
    args.push(remote);
    args.push(local);
    assert(paths(args@) =~= flags + seq![remote@, local@]);
    Ok(args)
}

/// The arguments with which secure copy sends the local file `src_path` to
/// `dst`: the flags, then the local path, then the remote file. A URL without
/// a host is refused.
pub fn scp_upload_arguments(
    src_path: &str,
    dst: &RemotePath,
    verbose: bool,
    ssh_opts: &[String],
    progress: bool,
) -> (planned: Result<Vec<String>, RemoteCopyError>)
    ensures
        match dst.url@.host {
            Some(host) => planned matches Ok(args) && paths(args@) == scp_flags(
                dst.url@.port,
                verbose,
                progress,
                paths(ssh_opts@),
            ) + seq![src_path@, remote_spec(dst.url@, host, dst.path@)],
            None => planned matches Err(RemoteCopyError::ConnectionError(why)) && why@
                == "No host specified in SSH URL"@,
        },
{
    let remote = match build_remote_spec(dst) {
        Ok(text) => text,
        Err(e) => {
            return Err(e);
        },
    };
    let mut args = build_scp_flags(dst.url.port(), verbose, progress, ssh_opts);
    let ghost flags = paths(args@);
    let local = String::from_str(src_path);
    args.push(local);
    args.push(remote);
    assert(paths(args@) =~= flags + seq![local@, remote@]);
    Ok(args)
}

/// Writes the text that reports an exit code.
pub fn exit_code_string(code: Option<i32>) -> (text: String)
    ensures
        text@ == exit_code_text(code),
{
    let mut text = String::from_str("Exit code: ");
    match code {
        Some(c) => {
            if c < 0 {
                text.append("-");
                // The magnitude of the smallest value is one more than the largest.
                let magnitude: usize = if c == i32::MIN {
                    2147483648
                } else {
                    (-c) as usize
                };
                push_decimal(&mut text, magnitude);
            } else {
                push_decimal(&mut text, c as usize);
            }
        },
        None => {
            text.append("-1");
        },
    }
    proof {
        reveal_strlit("-1");
        reveal_strlit("-");
        assert("-1"@ =~= seq!['-', '1']);
        assert(decimal_digits(1) =~= seq!['1']);
        assert(text@ =~= exit_code_text(code));
    }
    text
}

/// What to make of the exit of an external tool: success, or an I/O failure
/// that names the tool's trouble and its exit code (-1 where it has none).
pub fn judge_exit(success: bool, code: Option<i32>, trouble: &str) -> (judged: Result<
    (),
    RemoteCopyError,
>)
    ensures
        success ==> judged is Ok,
        !success ==> (judged matches Err(RemoteCopyError::IoError { message, error }) && message@
            == trouble@ && error@ == exit_code_text(code)),
{
    if success {
        return Ok(());
    }
    Err(RemoteCopyError::IoError { message: String::from_str(trouble), error: exit_code_string(code) })
}

/// `n` in decimal, with a minus sign in front where it is negative.
pub open spec fn signed_decimal(n: int) -> Seq<char> {
    if n < 0 {
        "-"@ + decimal_digits((-n) as nat)
    } else {
        decimal_digits(n as nat)
    }
}

/// The text that reports an exit code; a tool that ended without one is
/// reported with -1.
pub open spec fn exit_code_text(code: Option<i32>) -> Seq<char> {
    "Exit code: "@ + signed_decimal(
        match code {
            Some(c) => c as int,
            None => -1,
        },
    )
}

/// What the environment says of how the object store is to be reached.
#[derive(Debug, Clone)]
pub struct StoreSettings {
    /// The named set of credentials to use.
    pub profile: Option<String>,
    pub region: Option<String>,
    /// The address of a store that is not the usual one.
    pub endpoint: Option<String>,
}

/// `flag` and `value` where there is a value.
pub open spec fn flag_with(flag: Seq<char>, value: Option<String>) -> Seq<Seq<char>> {
    match value {
        Some(v) => seq![flag, v@],
        None => Seq::empty(),
    }
}

/// The flags of a call of the object store's client: the settings that are
/// there, then `--quiet` unless progress is wanted, and with progress and
/// verbosity no limit on the time to read.
pub open spec fn store_flags(settings: StoreSettings, verbose: bool, progress: bool) -> Seq<Seq<char>> {
    let noise = if !progress {
        seq!["--quiet"@]
    } else if verbose {
        seq!["--cli-read-timeout"@, "0"@]
    } else {
        Seq::empty()
    };
    flag_with("--profile"@, settings.profile) + flag_with("--region"@, settings.region) + flag_with(
        "--endpoint-url"@,
        settings.endpoint,
    ) + noise
}

/// Puts `flag` and its value behind `args`, where there is a value.
fn push_flag_with(args: &mut Vec<String>, flag: &str, value: &Option<String>)
    ensures
        paths(final(args)@) == paths(old(args)@) + flag_with(flag@, *value),
{
    let ghost before = paths(args@);
    match value {
        Some(v) => {
            push_arg(args, flag);
            push_arg(args, v.as_str());
            assert(paths(args@) =~= before + flag_with(flag@, *value));
        },
        None => {
            assert(paths(args@) =~= before + flag_with(flag@, *value));
        },
    }
}

/// The arguments with which the object store's client runs `subcommand`
/// from `from` to `to`.
pub fn store_arguments(
    subcommand: &str,
    settings: &StoreSettings,
    verbose: bool,
    progress: bool,
    from: &str,
    to: &str,
) -> (args: Vec<String>)
    ensures
        paths(args@) == seq!["s3"@, subcommand@] + store_flags(*settings, verbose, progress) + seq![
            from@,
            to@,
        ],
{
    let mut args: Vec<String> = Vec::new();
    assert(paths(args@) =~= Seq::<Seq<char>>::empty());
    push_arg(&mut args, "s3");
    push_arg(&mut args, subcommand);
    push_flag_with(&mut args, "--profile", &settings.profile);
    push_flag_with(&mut args, "--region", &settings.region);
    push_flag_with(&mut args, "--endpoint-url", &settings.endpoint);
    let ghost set = paths(args@);
    if !progress {
        push_arg(&mut args, "--quiet");
    } else if verbose {
        push_arg(&mut args, "--cli-read-timeout");
        push_arg(&mut args, "0");
    }
    assert(paths(args@) =~= seq!["s3"@, subcommand@] + store_flags(*settings, verbose, progress));
    push_arg(&mut args, from);
    push_arg(&mut args, to);
    assert(paths(args@) =~= seq!["s3"@, subcommand@] + store_flags(*settings, verbose, progress)
        + seq![from@, to@]);
    args
}

/// The location names many objects: its URL holds a wildcard, or the URL or
/// the path ends with `/`.
pub open spec fn names_many(url: Seq<char>, path: Seq<char>) -> bool {
    ||| url.contains('*')
    ||| url.contains('?')
    ||| (url.len() > 0 && url.last() == '/')
    ||| (path.len() > 0 && path.last() == '/')
}

/// Whether a download from `src` fetches many objects, which takes a
/// synchronization, or one, which takes a copy.
pub fn fetches_many(src: &RemotePath) -> (many: bool)
    ensures
        many == names_many(src.url@.text, src.path@),
{
    let url = src.url.as_str();
    str_contains_char(url, '*') || str_contains_char(url, '?') || str_ends_with_char(url, '/')
        || str_ends_with_char(src.path.as_str(), '/')
}

/// `s` without the white space at its start.
pub open spec fn trim_start(s: Seq<char>) -> Seq<char>
    decreases s.len(),
{
    if s.len() > 0 && is_space(s[0]) {
        trim_start(s.drop_first())
    } else {
        s
    }
}

/// `s` without the white space at its end.
pub open spec fn trim_end(s: Seq<char>) -> Seq<char>
    decreases s.len(),
{
    if s.len() > 0 && is_space(s.last()) {
        trim_end(s.drop_last())
    } else {
        s
    }
}

/// `s` without the white space at its start and at its end.
pub open spec fn trimmed(s: Seq<char>) -> Seq<char> {
    trim_end(trim_start(s))
}

proof fn lemma_trim_start_skip(s: Seq<char>, k: int)
    requires
        0 <= k <= s.len(),
        forall|j: int| 0 <= j < k ==> is_space(s[j]),
        k < s.len() ==> !is_space(s[k]),
    ensures
        trim_start(s) == s.skip(k),
    decreases k,
{
    if k > 0 {
        assert(s.drop_first().skip(k - 1) == s.skip(k));
        lemma_trim_start_skip(s.drop_first(), k - 1);
    } else {
        assert(s.skip(0) == s);
    }
}

proof fn lemma_trim_end_take(s: Seq<char>, k: int)
    requires
        0 <= k <= s.len(),
        forall|j: int| k <= j < s.len() ==> is_space(s[j]),
        k > 0 ==> !is_space(s[k - 1]),
    ensures
        trim_end(s) == s.take(k),
    decreases s.len() - k,
{
    if k < s.len() {
        assert(s.drop_last().take(k) == s.take(k));
        lemma_trim_end_take(s.drop_last(), k);
    } else {
        assert(s.take(k) == s);
    }
}

/// Takes the white space off both ends of `text`.
pub fn trim(text: &str) -> (inner: String)
    ensures
        inner@ == trimmed(text@),
{
    let chars = to_chars(text);
    let mut start: usize = 0;
    while start < chars.len() && is_whitespace(chars[start])
        invariant
            start <= chars@.len(),
            forall|j: int| 0 <= j < start ==> is_space(chars@[j]),
        decreases chars@.len() - start,
    {
        start += 1;
    }
    let mut end: usize = chars.len();
    while end > start && is_whitespace(chars[end - 1])
        invariant
            start <= end <= chars@.len(),
            forall|j: int| end <= j < chars@.len() ==> is_space(chars@[j]),
        decreases end,
    {
        end -= 1;
    }
    let inner = copy_range(&chars, start, end);
    proof {
        lemma_trim_start_skip(chars@, start as int);
        let rest = chars@.skip(start as int);
        assert forall|j: int| end - start <= j < rest.len() implies is_space(rest[j]) by {
            assert(rest[j] == chars@[j + start]);
        }
        if end > start {
            assert(rest[end - start - 1] == chars@[end - 1]);
        }
        lemma_trim_end_take(rest, end - start);
        assert(inner@ =~= rest.take(end - start));
    }
    string_of(&inner)
}

/// What to make of the end of the object store's client: success, or an I/O
/// failure that names the trouble and gives what the client wrote about it,
/// white space at the ends set aside, or its exit code where it wrote
/// nothing.
pub fn judge_store_exit(success: bool, code: Option<i32>, complaint: &str, trouble: &str) -> (judged:
    Result<(), RemoteCopyError>)
    ensures
        success ==> judged is Ok,
        !success ==> (judged matches Err(RemoteCopyError::IoError { message, error }) && message@
            == trouble@ && error@ == if trimmed(complaint@).len() == 0 {
            exit_code_text(code)
        } else {
            trimmed(complaint@)
        }),
{
    if success {
        return Ok(());
    }
    Err(
        RemoteCopyError::IoError {
            message: String::from_str(trouble),
            error: complaint_or_exit_code(complaint, code),
        },
    )
}

/// What a tool that failed has to say: what it wrote, white space at the
/// ends set aside, or its exit code where it wrote nothing.
pub fn complaint_or_exit_code(complaint: &str, code: Option<i32>) -> (detail: String)
    ensures
        detail@ == if trimmed(complaint@).len() == 0 {
            exit_code_text(code)
        } else {
            trimmed(complaint@)
        },
{
    let detail = trim(complaint);
    if detail.as_str().unicode_len() == 0 {
        exit_code_string(code)
    } else {
        detail
    }
}

} // verus!
