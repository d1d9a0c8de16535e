use crate::backend::cli::{described, listed_path, make_listed_path, push_arg};
use crate::backend::error::BackendError;
use crate::backend::traits::{entries, ChecksumAlgorithm, CopyOptions, FileEntry, FileInfo};
use crate::operations::sync::paths;
use crate::protocol::RemotePath;
use crate::remote::{option_flags, DEFAULT_SSH_PORT};
use crate::scan::{
    fields, join_from, joined, lines, parse_u64, split_fields, split_lines, string_of,
    unsigned_number, views,
};
use crate::text::{decimal_digits, push_decimal, str_contains_char, str_starts_with, to_chars};
use vstd::prelude::*;
use vstd::string::*;

verus! {

/// `text` names a file on a remote host: it is an SSH URL or holds an `@`.
pub open spec fn names_remote(text: Seq<char>) -> bool {
    "ssh://"@.is_prefix_of(text) || text.contains('@')
}

/// Whether `text` names a file on a remote host.
pub fn is_remote_name(text: &str) -> (yes: bool)
    ensures
        yes == names_remote(text@),
{
    str_starts_with(text, "ssh://") || str_contains_char(text, '@')
}

/// The program that digests a file on the remote host.
pub open spec fn digest_program(algorithm: ChecksumAlgorithm) -> Seq<char> {
    match algorithm {
        ChecksumAlgorithm::Md5 => "md5sum"@,
        ChecksumAlgorithm::Sha1 => "sha1sum"@,
        ChecksumAlgorithm::Sha256 => "sha256sum"@,
    }
}

/// What one line of a long directory listing describes: with nine fields or
/// more, an entry that is a directory when the first field begins with `d`,
/// has the size that the fifth field writes (0 where it writes no number),
/// and is named by the ninth field and what follows it. A shorter line
/// describes nothing.
pub open spec fn long_listing_entry(dir: Seq<char>, line: Seq<char>) -> Option<FileEntry> {
    let parts = fields(line);
    if parts.len() >= 9 {
        Some(
            FileEntry {
                path: listed_path(dir, joined(parts.skip(8))),
                size: match unsigned_number(parts[4]) {
                    Some(size) => size,
                    None => 0,
                },
                is_dir: parts[0].len() > 0 && parts[0][0] == 'd',
                modified: None,
            },
        )
    } else {
        None
    }
}

/// The lines of a long listing that describe entries: all but the first,
/// which holds the total.
pub open spec fn listing_lines(output: Seq<char>) -> Seq<Seq<char>> {
    if lines(output).len() == 0 {
        Seq::empty()
    } else {
        lines(output).drop_first()
    }
}

/// The rules of a host reached with secure copy and a remote shell.
#[derive(Debug, Clone)]
pub struct SshBackend {
    remote_path: RemotePath,
}

impl SshBackend {
    /// The location that the backend was made for.
    pub closed spec fn location(&self) -> RemotePath {
        self.remote_path
    }

    /// The host, or nothing where the URL names none.
    pub open spec fn host_or_empty(&self) -> Seq<char> {
        match self.location().url@.host {
            Some(host) => host,
            None => Seq::empty(),
        }
    }

    /// The port to connect to.
    pub open spec fn spec_port(&self) -> u16 {
        match self.location().url@.port {
            Some(port) => port,
            None => DEFAULT_SSH_PORT,
        }
    }

    /// How secure copy names `path` on the host.
    pub open spec fn spec_remote_spec(&self, path: Seq<char>) -> Seq<char> {
        self.location().url@.username + "@"@ + self.host_or_empty() + ":"@ + path
    }

    /// The flags that select the port, for a tool that takes it behind `flag`.
    pub open spec fn port_flags(&self, flag: Seq<char>) -> Seq<Seq<char>> {
        if self.spec_port() != DEFAULT_SSH_PORT {
            seq![flag, decimal_digits(self.spec_port() as nat)]
        } else {
            Seq::empty()
        }
    }

    /// The arguments of a secure copy of `src` to `dst`: `-r` for a tree, the
    /// port where it is not the usual one, `-v` for progress or `-q` unless
    /// verbose, the options, then the source, by its name on the host unless
    /// it names a remote file already, and the destination.
    pub open spec fn spec_copy_arguments(
        &self,
        src: Seq<char>,
        dst: Seq<char>,
        opts: CopyOptions,
        recursive: bool,
    ) -> Seq<Seq<char>> {
        let tree = if recursive {
            seq!["-r"@]
        } else {
            Seq::empty()
        };
        let noise = if opts.progress {
            seq!["-v"@]
        } else if !opts.verbose {
            seq!["-q"@]
        } else {
            Seq::empty()
        };
        let from = if names_remote(src) {
            src
        } else {
            self.spec_remote_spec(src)
        };
        tree + self.port_flags("-P"@) + noise + option_flags(paths(opts.ssh_opts@)) + seq![from, dst]
    }

    /// The arguments of a remote shell that runs `command` on the host.
    pub open spec fn spec_shell_arguments(&self, command: Seq<char>) -> Seq<Seq<char>> {
        self.port_flags("-p"@) + seq![
            self.location().url@.username + "@"@ + self.host_or_empty(),
            command,
        ]
    }

    pub fn new(remote_path: RemotePath) -> (backend: Self)
        ensures
            backend.location() == remote_path,
    {
        Self { remote_path }
    }

    /// Short name of the location kind.
    pub fn name(&self) -> (name: &str)
        ensures
            name@ == "ssh"@,
    {
        "ssh"
    }

    /// The host; a URL without one cannot be connected to.
    pub fn host(&self) -> (host: Result<&str, BackendError>)
        ensures
            match self.location().url@.host {
                Some(name) => host matches Ok(h) && h@ == name,
                None => host matches Err(BackendError::ConnectionError(why)) && why@
                    == "No host specified"@,
            },
    {
        match self.remote_path.url.host_str() {
            Some(host) => Ok(host),
            None => Err(BackendError::ConnectionError(String::from_str("No host specified"))),
        }
    }

    /// The port to connect to: that of the URL, or the usual one.
    pub fn port(&self) -> (port: u16)
        ensures
            port == self.spec_port(),
    {
        match self.remote_path.url.port() {
            Some(port) => port,
            None => DEFAULT_SSH_PORT,
        }
    }

    /// The user to log in as; empty where the URL names none.
    pub fn username(&self) -> (user: &str)
        ensures
            user@ == self.location().url@.username,
    {
        self.remote_path.url.username()
    }

    /// How secure copy names `path` on the host.
    pub fn remote_spec(&self, path: &str) -> (spec: String)
        ensures
            spec@ == self.spec_remote_spec(path@),
    {
        let mut spec = String::from_str(self.username());
        spec.append("@");
        if let Some(host) = self.remote_path.url.host_str() {
            spec.append(host);
        }
        spec.append(":");
        spec.append(path);
        assert(spec@ =~= self.spec_remote_spec(path@));
        spec
    }

    /// Puts the flags that select the port behind `args`.
    fn push_port(&self, args: &mut Vec<String>, flag: &str)
        ensures
            paths(final(args)@) == paths(old(args)@) + self.port_flags(flag@),
    {
        let ghost before = paths(args@);
        let port = self.port();
        if port != DEFAULT_SSH_PORT {
            let mut number = String::new();
            push_decimal(&mut number, port as usize);
            assert(number@ =~= decimal_digits(port as nat));
            push_arg(args, flag);
            push_arg(args, number.as_str());
            assert(paths(args@) =~= before + self.port_flags(flag@));
        } else {
            assert(paths(args@) =~= before + self.port_flags(flag@));
        }
    }

    /// The arguments of a secure copy of `src` to `dst`.
    pub fn copy_arguments(&self, src: &str, dst: &str, opts: &CopyOptions, recursive: bool) -> (args:
        Vec<String>)
        ensures
            paths(args@) == self.spec_copy_arguments(src@, dst@, *opts, recursive),
    {
        let mut args: Vec<String> = Vec::new();
        assert(paths(args@) =~= Seq::<Seq<char>>::empty());
        if recursive {
            push_arg(&mut args, "-r");
        }
        let ghost tree = paths(args@);
        assert(tree =~= if recursive {
            seq!["-r"@]
        } else {
            Seq::<Seq<char>>::empty()
        });
        self.push_port(&mut args, "-P");
        let ghost ported = paths(args@);
        if opts.progress {
            push_arg(&mut args, "-v");
        } else if !opts.verbose {
            push_arg(&mut args, "-q");
        }
        let ghost noise: Seq<Seq<char>> = if opts.progress {
            seq!["-v"@]
        } else if !opts.verbose {
            seq!["-q"@]
        } else {
            Seq::empty()
        };
        assert(paths(args@) =~= ported + noise);
        let ghost fixed = paths(args@);
        let ghost given = paths(opts.ssh_opts@);
        let mut i: usize = 0;
        assert(given.take(0) =~= Seq::<Seq<char>>::empty());
        assert(paths(args@) =~= fixed + option_flags(given.take(0)));
        while i < opts.ssh_opts.len()
            invariant
                i <= opts.ssh_opts@.len(),
                given == paths(opts.ssh_opts@),
                paths(args@) == fixed + option_flags(given.take(i as int)),
            decreases opts.ssh_opts@.len() - i,
        {
            proof {
                assert(given.take(i + 1).drop_last() == given.take(i as int));
                assert(given.take(i + 1).last() == opts.ssh_opts@[i as int]@);
            }
            let ghost before = paths(args@);
            push_arg(&mut args, "-o");
            push_arg(&mut args, opts.ssh_opts[i].as_str());
            assert(before.push("-o"@).push(opts.ssh_opts@[i as int]@) =~= fixed + option_flags(
                given.take(i + 1),
            ));
            i += 1;
        }
        assert(given.take(opts.ssh_opts@.len() as int) == given);
        let ghost flagged = paths(args@);
        if is_remote_name(src) {
            push_arg(&mut args, src);
        } else {
            let spec = self.remote_spec(src);
            push_arg(&mut args, spec.as_str());
        }
        push_arg(&mut args, dst);
        assert(paths(args@) =~= self.spec_copy_arguments(src@, dst@, *opts, recursive));
        args
    }

    /// The local path whose size tells how much a copy of `src` to `dst`
    /// moved: the source where the destination is remote, else the
    /// destination.
    pub fn sized_by<'a>(&self, src: &'a str, dst: &'a str) -> (path: &'a str)
        ensures
            path@ == if names_remote(dst@) {
                src@
            } else {
                dst@
            },
    {
        if is_remote_name(dst) {
            src
        } else {
            dst
        }
    }

    /// The arguments of a remote shell that runs `command` on the host. A
    /// URL without a host cannot be connected to.
    pub fn shell_arguments(&self, command: &str) -> (planned: Result<Vec<String>, BackendError>)
        ensures
            match self.location().url@.host {
                Some(_) => planned matches Ok(args) && paths(args@) == self.spec_shell_arguments(
                    command@,
                ),
                None => planned matches Err(BackendError::ConnectionError(why)) && why@
                    == "No host specified"@,
            },
    {
        let host = match self.host() {
            Ok(host) => host,
            Err(e) => {
                return Err(e);
            },
        };
        let mut args: Vec<String> = Vec::new();
        assert(paths(args@) =~= Seq::<Seq<char>>::empty());
        self.push_port(&mut args, "-p");
        let ghost ported = paths(args@);
        let mut login = String::from_str(self.username());
        login.append("@");
        login.append(host);
        push_arg(&mut args, login.as_str());
        push_arg(&mut args, command);
        assert(paths(args@) =~= self.spec_shell_arguments(command@));
        Ok(args)
    }

    /// The command that lists `path` in the long form.
    pub fn list_command(&self, path: &str) -> (command: String)
        ensures
            command@ == "ls -la "@ + path@,
    {
        let mut command = String::from_str("ls -la ");
        command.append(path);
        command
    }

    /// The command that removes `path` with everything below it.
    pub fn delete_command(&self, path: &str) -> (command: String)
        ensures
            command@ == "rm -rf "@ + path@,
    {
        let mut command = String::from_str("rm -rf ");
        command.append(path);
        command
    }

    /// The command that digests `path`.
    pub fn checksum_command(&self, path: &str, algorithm: ChecksumAlgorithm) -> (command: String)
        ensures
            command@ == digest_program(algorithm) + " "@ + path@,
    {
        let mut command = String::from_str(
            match algorithm {
                ChecksumAlgorithm::Md5 => "md5sum",
                ChecksumAlgorithm::Sha1 => "sha1sum",
                ChecksumAlgorithm::Sha256 => "sha256sum",
            },
        );
        command.append(" ");
        command.append(path);
        command
    }

    /// Reads the long listing of the directory `path`.
    pub fn parse_listing(&self, path: &str, output: &str) -> (files: Vec<FileInfo>)
        ensures
            entries(files@) == described(
                |line: Seq<char>| long_listing_entry(path@, line),
                listing_lines(output@),
            ),
    {
        let text = to_chars(output);
        let all = split_lines(&text);
        let ghost entry = |line: Seq<char>| long_listing_entry(path@, line);
        let ghost wanted = listing_lines(output@);
        let mut files: Vec<FileInfo> = Vec::new();
        assert(entries(files@) =~= Seq::<FileEntry>::empty());
        if all.len() == 0 {
            return files;
        }
        assert(wanted =~= views(all@).subrange(1, all@.len() as int));
        let mut i: usize = 1;
        assert(wanted.take(0) =~= Seq::<Seq<char>>::empty());
        while i < all.len()
            invariant
                1 <= i <= all@.len(),
                wanted == views(all@).subrange(1, all@.len() as int),
                entry == (|line: Seq<char>| long_listing_entry(path@, line)),
                entries(files@) == described(entry, wanted.take(i - 1)),
            decreases all@.len() - i,
        {
            proof {
                assert(wanted.take(i as int).drop_last() == wanted.take(i - 1));
                assert(wanted.take(i as int).last() == all@[i as int]@);
            }
            let parts = split_fields(&all[i]);
            if parts.len() >= 9 {
                let is_dir = parts[0].len() > 0 && parts[0][0] == 'd';
                let size = match parse_u64(&parts[4]) {
                    Some(size) => size,
                    None => 0,
                };
                let name = join_from(&parts, 8);
                let file = FileInfo {
                    path: make_listed_path(path, &name),
                    size,
                    is_dir,
                    modified: None,
                };
                assert(views(parts@)[0] == parts@[0]@);
                assert(views(parts@)[4] == parts@[4]@);
                assert(Some(file@) == entry(all@[i as int]@));
                assert(entries(files@.push(file)) =~= entries(files@).push(file@));
                files.push(file);
            } else {
                assert(entry(all@[i as int]@) is None);
            }
            i += 1;
        }
        assert(wanted.take(all@.len() - 1) == wanted);
        files
    }

    /// Reads the output of a digest program: the digest is its first field.
    pub fn parse_checksum(&self, output: &str) -> (digest: Result<String, BackendError>)
        ensures
            fields(output@).len() > 0 ==> (digest matches Ok(text) && text@ == fields(output@)[0]),
            fields(output@).len() == 0 ==> (digest matches Err(BackendError::Other(why)) && why@
                == "Failed to parse checksum"@),
    {
        let text = to_chars(output);
        let parts = split_fields(&text);
        if parts.len() > 0 {
            assert(views(parts@)[0] == parts@[0]@);
            Ok(string_of(&parts[0]))
        } else {
            Err(BackendError::Other(String::from_str("Failed to parse checksum")))
        }
    }
}

} // verus!
