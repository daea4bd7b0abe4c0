//! Copying store paths between this machine and others.
use vstd::prelude::*;
use vstd::slice::*;
use vstd::string::*;
use vstd::utf8::*;

use crate::text::{has_prefix, strip_prefix, trim, trim_line_end, trimmed, trimmed_is_trimmed, views, without_line_end};

verus! {

/// How the store of another machine is reached.
#[derive(Debug, Clone, Copy, PartialEq, Eq, Structural)]
pub enum StoreScheme {
    Ssh,
    SshNg,
}

impl StoreScheme {
    /// What the address of a store begins with.
    pub open spec fn prefix(self) -> Seq<char> {
        match self {
            StoreScheme::Ssh => "ssh://"@,
            StoreScheme::SshNg => "ssh-ng://"@,
        }
    }

    /// What the address of a store begins with.
    pub fn as_str(self) -> (r: &'static str)
        ensures
            r@ == self.prefix(),
    {
        match self {
            StoreScheme::Ssh => "ssh://",
            StoreScheme::SshNg => "ssh-ng://",
        }
    }
}

/// A machine that is reached over SSH.
#[derive(Debug, Clone, PartialEq, Eq)]
pub struct RemoteHost {
    scheme: StoreScheme,
    host: String,
}

/// No machine was named.
#[derive(Debug, Clone, Copy, PartialEq, Eq)]
pub struct EmptyHost;

/// The scheme in front of `input`; without one, it is `ssh-ng`.
pub open spec fn scheme_of(input: Seq<char>) -> StoreScheme {
    if has_prefix(input, "ssh://"@) {
        StoreScheme::Ssh
    } else {
        StoreScheme::SshNg
    }
}

/// The machine that `input` names, without a scheme in front.
pub open spec fn host_of(input: Seq<char>) -> Seq<char> {
    if has_prefix(input, "ssh://"@) {
        input.skip("ssh://"@.len() as int)
    } else if has_prefix(input, "ssh-ng://"@) {
        input.skip("ssh-ng://"@.len() as int)
    } else {
        input
    }
}

impl RemoteHost {
    /// How the machine's store is reached.
    pub closed spec fn scheme(&self) -> StoreScheme {
        self.scheme
    }

    /// The machine, with the user in front where one is given.
    pub closed spec fn host(&self) -> Seq<char> {
        self.host@
    }

    /// The address of the machine's store.
    pub open spec fn uri(&self) -> Seq<char> {
        self.scheme().prefix() + self.host()
    }

    /// The machine that `input` names, with or without a scheme in front.
    pub fn parse(input: &str) -> (r: Result<Self, EmptyHost>)
        ensures
            r is Ok <==> host_of(input@).len() > 0,
            r matches Ok(remote) ==> remote.scheme() == scheme_of(input@) && remote.host() == host_of(input@),
    {
        let remote = if let Some(host) = strip_prefix(input, "ssh://") {
            RemoteHost { scheme: StoreScheme::Ssh, host }
        } else if let Some(host) = strip_prefix(input, "ssh-ng://") {
            RemoteHost { scheme: StoreScheme::SshNg, host }
        } else {
            RemoteHost { scheme: StoreScheme::SshNg, host: input.to_owned() }
        };
        if remote.host.as_str().is_empty() {
            Err(EmptyHost)
        } else {
            Ok(remote)
        }
    }

    /// The machine, as it is shown to the user.
    pub fn name(&self) -> (r: &str)
        ensures
            r@ == self.host(),
    {
        self.host.as_str()
    }

    /// The address of the machine's store.
    pub fn nix_store_uri(&self) -> (r: String)
        ensures
            r@ == self.uri(),
    {
        let mut out = self.scheme.as_str().to_owned();
        out.append(self.host.as_str());
        out
    }
}

/// A scheme that is given stays in the address, and a machine without one
/// gets `ssh-ng`.
pub proof fn scheme_is_preserved(input: Seq<char>)
    ensures
        has_prefix(input, "ssh://"@) || has_prefix(input, "ssh-ng://"@) ==> scheme_of(input).prefix() + host_of(
            input,
        ) == input,
        !has_prefix(input, "ssh://"@) && !has_prefix(input, "ssh-ng://"@) ==> scheme_of(input).prefix()
            + host_of(input) == "ssh-ng://"@ + input,
{
    if has_prefix(input, "ssh://"@) {
        assert("ssh://"@ + input.skip("ssh://"@.len() as int) =~= input.take("ssh://"@.len() as int)
            + input.skip("ssh://"@.len() as int));
        assert(input.take("ssh://"@.len() as int) + input.skip("ssh://"@.len() as int) =~= input);
    } else if has_prefix(input, "ssh-ng://"@) {
        assert(input.take("ssh-ng://"@.len() as int) + input.skip("ssh-ng://"@.len() as int) =~= input);
    }
}

/// From where to where a store path is copied. Where another machine
/// receives it, that machine may fetch what it can from its own caches.
#[derive(Debug, Clone, Copy)]
pub enum CopyDirection<'a> {
    FromRemote(&'a RemoteHost),
    ToRemote { host: &'a RemoteHost, use_substitutes: bool },
    BetweenRemotes { from_host: &'a RemoteHost, to_host: &'a RemoteHost, use_substitutes: bool },
}

/// `args`, and the word that lets the receiver use its caches, if it may.
pub open spec fn with_substitutes(args: Seq<Seq<char>>, use_substitutes: bool) -> Seq<Seq<char>> {
    if use_substitutes {
        args.push("--substitute-on-destination"@)
    } else {
        args
    }
}

/// Adds the word that lets the receiver use its caches, if it may.
pub fn push_substitute_on_destination(args: &mut Vec<String>, use_substitutes: bool)
    ensures
        views(final(args)@) == with_substitutes(views(old(args)@), use_substitutes),
{
    let ghost before = views(args@);
    if use_substitutes {
        args.push("--substitute-on-destination".to_owned());
        assert(views(args@) =~= before.push("--substitute-on-destination"@));
    }
}

/// The address of a machine's store.
pub fn store_uri(host: &RemoteHost) -> (r: String)
    ensures
        r@ == host.uri(),
{
    host.nix_store_uri()
}

impl<'a> CopyDirection<'a> {
    /// The words that tell `nix` what to copy from where to where.
    pub open spec fn words(self) -> Seq<Seq<char>> {
        match self {
            CopyDirection::FromRemote(host) => seq!["copy"@, "--no-check-sigs"@, "--from"@, host.uri()],
            CopyDirection::ToRemote { host, use_substitutes } => with_substitutes(
                seq!["copy"@, "--no-check-sigs"@, "--to"@, host.uri()],
                use_substitutes,
            ),
            CopyDirection::BetweenRemotes { from_host, to_host, use_substitutes } => with_substitutes(
                seq!["copy"@, "--no-check-sigs"@, "--from"@, from_host.uri(), "--to"@, to_host.uri()],
                use_substitutes,
            ),
        }
    }

    /// Whether the receiver may use its caches.
    pub open spec fn substitutes(self) -> bool {
        match self {
            CopyDirection::FromRemote(_) => false,
            CopyDirection::ToRemote { use_substitutes, .. } => use_substitutes,
            CopyDirection::BetweenRemotes { use_substitutes, .. } => use_substitutes,
        }
    }

    /// The words that tell `nix` what to copy from where to where.
    pub fn args(self) -> (r: Vec<String>)
        ensures
            views(r@) == self.words(),
    {
        let mut args: Vec<String> = Vec::new();
        args.push("copy".to_owned());
        args.push("--no-check-sigs".to_owned());
        match self {
            CopyDirection::FromRemote(host) => {
                args.push("--from".to_owned());
                args.push(store_uri(host));
                assert(views(args@) =~= self.words());
            },
            CopyDirection::ToRemote { host, use_substitutes } => {
                args.push("--to".to_owned());
                args.push(store_uri(host));
                assert(views(args@) =~= seq!["copy"@, "--no-check-sigs"@, "--to"@, host.uri()]);
                push_substitute_on_destination(&mut args, use_substitutes);
            },
            CopyDirection::BetweenRemotes { from_host, to_host, use_substitutes } => {
                args.push("--from".to_owned());
                args.push(store_uri(from_host));
                args.push("--to".to_owned());
                args.push(store_uri(to_host));
                assert(views(args@) =~= seq![
                    "copy"@,
                    "--no-check-sigs"@,
                    "--from"@,
                    from_host.uri(),
                    "--to"@,
                    to_host.uri(),
                ]);
                push_substitute_on_destination(&mut args, use_substitutes);
            },
        }
        args
    }
}

/// The receiver uses its caches if and only if it is another machine and was
/// told that it may.
pub proof fn substitutes_only_where_allowed(direction: CopyDirection)
    ensures
        direction.words().contains("--substitute-on-destination"@) <==> direction.substitutes(),
{
    reveal_strlit("--substitute-on-destination");
    reveal_strlit("copy");
    reveal_strlit("--no-check-sigs");
    reveal_strlit("--from");
    reveal_strlit("--to");
    reveal_strlit("ssh://");
    reveal_strlit("ssh-ng://");
    let words = direction.words();
    let word = "--substitute-on-destination"@;
    match direction {
        CopyDirection::FromRemote(host) => {
            assert(host.uri()[0] == 's');
        },
        CopyDirection::ToRemote { host, use_substitutes } => {
            assert(host.uri()[0] == 's');
            if use_substitutes {
                assert(words[4] == word);
            }
        },
        CopyDirection::BetweenRemotes { from_host, to_host, use_substitutes } => {
            assert(from_host.uri()[0] == 's');
            assert(to_host.uri()[0] == 's');
            if use_substitutes {
                assert(words[6] == word);
            }
        },
    }
    if words.contains(word) && !direction.substitutes() {
        let i = choose|i: int| 0 <= i < words.len() && words[i] == word;
        assert(words[i].len() == 27);
        assert(words[i][0] == '-');
    }
}

/// The program that copies.
pub const NIX: &'static str = "nix";

/// The variable that holds the options for SSH.
pub const SSH_OPTS_ENV: &'static str = "NIX_SSHOPTS";

/// A call of `nix`: its arguments, the store path behind them, as bytes, and
/// the options for SSH.
#[derive(Debug, Clone, PartialEq, Eq)]
pub struct CopyCommand {
    pub args: Vec<String>,
    pub path: Vec<u8>,
    pub ssh_opts: String,
}

/// The call that copies `path`. `flake_flags` go in front of all other
/// arguments.
pub fn build_nix_copy_command(
    flake_flags: &[String],
    direction: CopyDirection<'_>,
    path: &[u8],
    ssh_opts: &str,
) -> (r: CopyCommand)
    ensures
        views(r.args@) == views(flake_flags@) + direction.words(),
        r.path@ == path@,
        r.ssh_opts@ == ssh_opts@,
{
    let mut args: Vec<String> = Vec::new();
    let mut i: usize = 0;
    while i < flake_flags.len()
        invariant
            0 <= i <= flake_flags@.len(),
            views(args@) == views(flake_flags@).take(i as int),
        decreases flake_flags@.len() - i,
    {
        let ghost before = views(args@);
        args.push(flake_flags[i].clone());
        assert(views(args@) =~= before.push(flake_flags@[i as int]@));
        assert(views(args@) =~= views(flake_flags@).take(i + 1));
        i += 1;
    }
    let mut words = direction.args();
    let ghost flags = views(args@);
    let ghost tail = views(words@);
    args.append(&mut words);
    assert(views(args@) =~= flags + tail);
    assert(flags =~= views(flake_flags@));
    CopyCommand { args, path: slice_to_vec(path), ssh_opts: ssh_opts.to_owned() }
}

/// A copy to make, and what to tell the user about it.
#[derive(Debug, Clone, PartialEq, Eq)]
pub struct CopyJob {
    pub command: CopyCommand,
    /// To show while the copy is made, with a spinner where there is one.
    pub opening: String,
    pub spinner: bool,
    /// The error where the call cannot be made.
    pub not_run: &'static str,
    /// The error where the call fails.
    pub failure: String,
    /// To log where the call fails.
    pub failed_notice: Option<String>,
    /// To log where the call succeeds.
    pub done_notice: Option<String>,
}

/// `before`, the name of a machine in quotes, and `after`.
pub open spec fn quoted(before: Seq<char>, name: Seq<char>, after: Seq<char>) -> Seq<char> {
    before + "'"@ + name + "'"@ + after
}

fn quote(before: &str, name: &str, after: &str) -> (r: String)
    ensures
        r@ == quoted(before@, name@, after@),
{
    let mut out = before.to_owned();
    out.append("'");
    out.append(name);
    out.append("'");
    out.append(after);
    out
}

/// Whether `job` is the call for `direction`, with these arguments.
pub open spec fn calls(
    job: CopyJob,
    direction: CopyDirection,
    path: Seq<u8>,
    flake_flags: Seq<Seq<char>>,
    ssh_opts: Seq<char>,
) -> bool {
    &&& views(job.command.args@) == flake_flags + direction.words()
    &&& job.command.path@ == path
    &&& job.command.ssh_opts@ == ssh_opts
}

/// How to copy a store path, with all it needs, from `host` to this machine.
pub fn copy_closure_from(host: &RemoteHost, path: &[u8], flake_flags: &[String], ssh_opts: &str) -> (r: CopyJob)
    ensures
        calls(r, CopyDirection::FromRemote(host), path@, views(flake_flags@), ssh_opts@),
        r.opening@ == quoted("Copying result from build host "@, host.host(), ""@),
        !r.spinner,
        r.not_run@ == "Failed to copy closure from remote host"@,
        r.failure@ == quoted("nix copy --from "@, host.host(), " failed"@),
        r.failed_notice is None,
        r.done_notice is None,
{
    CopyJob {
        command: build_nix_copy_command(flake_flags, CopyDirection::FromRemote(host), path, ssh_opts),
        opening: quote("Copying result from build host ", host.name(), ""),
        spinner: false,
        not_run: "Failed to copy closure from remote host",
        failure: quote("nix copy --from ", host.name(), " failed"),
        failed_notice: None,
        done_notice: None,
    }
}

/// How to copy a store path, with all it needs, from this machine to `host`.
/// With `use_substitutes`, the machine fetches what it can from its own
/// caches.
pub fn copy_to_remote(
    host: &RemoteHost,
    path: &[u8],
    use_substitutes: bool,
    flake_flags: &[String],
    ssh_opts: &str,
) -> (r: CopyJob)
    ensures
        calls(r, CopyDirection::ToRemote { host, use_substitutes }, path@, views(flake_flags@), ssh_opts@),
        r.opening@ == quoted("Copying closure to remote host "@, host.host(), "..."@),
        r.spinner,
        r.not_run@ == "Failed to copy closure to remote host"@,
        r.failure@ == quoted("nix copy --to "@, host.host(), " failed"@),
        r.failed_notice matches Some(notice) && notice@ == quoted(
            "Failed to copy closure to remote host "@,
            host.host(),
            ""@,
        ),
        r.done_notice matches Some(notice) && notice@ == quoted(
            "Copied closure to remote host "@,
            host.host(),
            ""@,
        ),
{
    CopyJob {
        command: build_nix_copy_command(
            flake_flags,
            CopyDirection::ToRemote { host, use_substitutes },
            path,
            ssh_opts,
        ),
        opening: quote("Copying closure to remote host ", host.name(), "..."),
        spinner: true,
        not_run: "Failed to copy closure to remote host",
        failure: quote("nix copy --to ", host.name(), " failed"),
        failed_notice: Some(quote("Failed to copy closure to remote host ", host.name(), "")),
        done_notice: Some(quote("Copied closure to remote host ", host.name(), "")),
    }
}

/// How to copy a store path, with all it needs, from one other machine to
/// another.
pub fn copy_closure_between_remotes(
    from_host: &RemoteHost,
    to_host: &RemoteHost,
    path: &[u8],
    use_substitutes: bool,
    flake_flags: &[String],
    ssh_opts: &str,
) -> (r: CopyJob)
    ensures
        calls(
            r,
            CopyDirection::BetweenRemotes { from_host, to_host, use_substitutes },
            path@,
            views(flake_flags@),
            ssh_opts@,
        ),
        r.opening@ == quoted(quoted("Copying closure from "@, from_host.host(), " to "@), to_host.host(), ""@),
        !r.spinner,
        r.not_run@ == "Failed to copy closure between remote hosts"@,
        r.failure@ == quoted(
            quoted("nix copy from "@, from_host.host(), " to "@),
            to_host.host(),
            " failed"@,
        ),
        r.failed_notice is None,
        r.done_notice is None,
{
    CopyJob {
        command: build_nix_copy_command(
            flake_flags,
            CopyDirection::BetweenRemotes { from_host, to_host, use_substitutes },
            path,
            ssh_opts,
        ),
        opening: quote(
            quote("Copying closure from ", from_host.name(), " to ").as_str(),
            to_host.name(),
            "",
        ),
        spinner: false,
        not_run: "Failed to copy closure between remote hosts",
        failure: quote(
            quote("nix copy from ", from_host.name(), " to ").as_str(),
            to_host.name(),
            " failed",
        ),
        failed_notice: None,
        done_notice: None,
    }
}

/// What to tell the user of a call that failed: what failed, how it ended,
/// and what it wrote to its error output, if anything.
pub open spec fn copy_failure(message: Seq<char>, status: Seq<char>, stderr: Seq<char>) -> Seq<char> {
    let head = message + " (exit status: "@ + status + ")"@;
    if trimmed(stderr).len() == 0 {
        head
    } else {
        head + "\nstderr:\n"@ + trimmed(stderr)
    }
}

/// What to tell the user of a call that failed.
pub fn format_copy_failure(message: &str, exit_status: &str, stderr: &str) -> (r: String)
    ensures
        r@ == copy_failure(message@, exit_status@, stderr@),
{
    let stderr = trim(stderr);
    let mut out = message.to_owned();
    out.append(" (exit status: ");
    out.append(exit_status);
    out.append(")");
    if !stderr.as_str().is_empty() {
        out.append("\nstderr:\n");
        out.append(stderr.as_str());
    }
    out
}

/// What came of a copy: nothing to report where the call succeeded, and an
/// error otherwise.
pub fn conclude_copy(job: &CopyJob, success: bool, exit_status: &str, stderr: &str) -> (r: Result<(), String>)
    ensures
        r is Ok <==> success,
        r matches Err(error) ==> error@ == copy_failure(job.failure@, exit_status@, stderr@),
{
    if success {
        Ok(())
    } else {
        Err(format_copy_failure(job.failure.as_str(), exit_status, stderr))
    }
}

/// The text that `bytes` hold, with a replacement character for what is not
/// UTF-8.
pub uninterp spec fn lossy_text(bytes: Seq<u8>) -> Seq<char>;

/// `String::from_utf8_lossy` reads bytes as UTF-8. Bytes that are UTF-8 are
/// read as what they encode; what stands for others depends on the bytes
/// alone.
#[verifier::external_body]
fn read_lossy(bytes: &[u8]) -> (r: String)
    ensures
        r@ == lossy_text(bytes@),
        valid_utf8(bytes@) ==> r@ == decode_utf8(bytes@),
{
    String::from_utf8_lossy(bytes).into_owned()
}

/// What a running program has written so far.
#[derive(Debug, Clone, PartialEq, Eq)]
pub struct StreamLog {
    output: String,
}

impl StreamLog {
    /// What the program has written.
    pub closed spec fn text(&self) -> Seq<char> {
        self.output@
    }

    /// Nothing was written yet.
    pub fn new() -> (r: Self)
        ensures
            r.text() == Seq::<char>::empty(),
    {
        StreamLog { output: String::new() }
    }

    /// Takes in a line of text, with the line feed that ends it, and returns
    /// it as it is to be shown.
    pub fn take_text(&mut self, text: &str) -> (r: String)
        ensures
            final(self).text() == old(self).text() + text@,
            r@ == without_line_end(text@),
    {
        self.output.append(text);
        trim_line_end(text)
    }

    /// Takes in a line, with the line feed that ends it, and returns it as it
    /// is to be shown.
    pub fn take_line(&mut self, line: &[u8]) -> (r: String)
        ensures
            final(self).text() == old(self).text() + lossy_text(line@),
            r@ == without_line_end(lossy_text(line@)),
            valid_utf8(line@) ==> lossy_text(line@) == decode_utf8(line@),
    {
        let text = read_lossy(line);
        self.take_text(text.as_str())
    }

    /// What the program has written.
    pub fn into_output(self) -> (r: String)
        ensures
            r@ == self.text(),
    {
        self.output
    }
}

/// The address of a machine is what was given for it, where that has a scheme,
/// and otherwise what was given with `ssh-ng` in front.
pub proof fn address_is_as_given(remote: RemoteHost, input: Seq<char>)
    requires
        remote.scheme() == scheme_of(input),
        remote.host() == host_of(input),
    ensures
        has_prefix(input, "ssh://"@) || has_prefix(input, "ssh-ng://"@) ==> remote.uri() == input,
        !has_prefix(input, "ssh://"@) && !has_prefix(input, "ssh-ng://"@) ==> remote.uri() == "ssh-ng://"@
            + input,
        scheme_of(remote.uri()) == remote.scheme(),
        host_of(remote.uri()) == remote.host(),
{
    scheme_is_preserved(input);
    reveal_strlit("ssh://");
    reveal_strlit("ssh-ng://");
    let uri = remote.uri();
    let host = remote.host();
    if remote.scheme() == StoreScheme::Ssh {
        assert(uri.take(6) =~= "ssh://"@);
        assert(uri.skip(6) =~= host);
    } else {
        assert(uri[3] == '-');
        assert(uri.take(6)[3] == '-');
        assert(uri.take(9) =~= "ssh-ng://"@);
        assert(uri.skip(9) =~= host);
    }
}

/// What is copied from one machine to another is named by their addresses: the
/// word behind `--from` is the address of the machine that sends, the word
/// behind `--to` that of the machine that receives, and neither flag stands
/// where this machine is meant.
pub proof fn flags_name_the_machines(direction: CopyDirection)
    ensures
        direction.words().len() >= 4,
        direction.words()[0] == "copy"@,
        direction.words()[1] == "--no-check-sigs"@,
        match direction {
            CopyDirection::FromRemote(host) => {
                &&& direction.words().len() == 4
                &&& direction.words()[2] == "--from"@
                &&& direction.words()[3] == host.uri()
                &&& !direction.words().contains("--to"@)
            },
            CopyDirection::ToRemote { host, use_substitutes } => {
                &&& direction.words()[2] == "--to"@
                &&& direction.words()[3] == host.uri()
                &&& !direction.words().contains("--from"@)
                &&& direction.words().len() == if use_substitutes { 5nat } else { 4nat }
                &&& use_substitutes ==> direction.words()[4] == "--substitute-on-destination"@
            },
            CopyDirection::BetweenRemotes { from_host, to_host, use_substitutes } => {
                &&& direction.words()[2] == "--from"@
                &&& direction.words()[3] == from_host.uri()
                &&& direction.words()[4] == "--to"@
                &&& direction.words()[5] == to_host.uri()
                &&& direction.words().len() == if use_substitutes { 7nat } else { 6nat }
                &&& use_substitutes ==> direction.words()[6] == "--substitute-on-destination"@
            },
        },
{
    reveal_strlit("--substitute-on-destination");
    reveal_strlit("copy");
    reveal_strlit("--no-check-sigs");
    reveal_strlit("--from");
    reveal_strlit("--to");
    reveal_strlit("ssh://");
    reveal_strlit("ssh-ng://");
    let words = direction.words();
    match direction {
        CopyDirection::FromRemote(host) => {
            assert(host.uri()[0] == 's');
            if words.contains("--to"@) {
                let i = choose|i: int| 0 <= i < words.len() && words[i] == "--to"@;
                assert(words[i].len() == 4 && words[i][0] == '-');
            }
        },
        CopyDirection::ToRemote { host, use_substitutes } => {
            assert(host.uri()[0] == 's');
            if words.contains("--from"@) {
                let i = choose|i: int| 0 <= i < words.len() && words[i] == "--from"@;
                assert(words[i].len() == 6 && words[i][0] == '-');
            }
        },
        CopyDirection::BetweenRemotes { .. } => {},
    }
}

/// For machines that were named with a scheme, the words behind the flags are
/// what was given for them.
pub proof fn given_addresses_are_copied_between(from: RemoteHost, to: RemoteHost, a: Seq<char>, b: Seq<char>, s: bool)
    requires
        from.scheme() == scheme_of(a) && from.host() == host_of(a),
        to.scheme() == scheme_of(b) && to.host() == host_of(b),
        has_prefix(a, "ssh://"@) || has_prefix(a, "ssh-ng://"@),
        has_prefix(b, "ssh://"@) || has_prefix(b, "ssh-ng://"@),
    ensures
        CopyDirection::FromRemote(&from).words()[3] == a,
        (CopyDirection::ToRemote { host: &to, use_substitutes: s }).words()[3] == b,
        (CopyDirection::BetweenRemotes { from_host: &from, to_host: &to, use_substitutes: s }).words()[3] == a,
        (CopyDirection::BetweenRemotes { from_host: &from, to_host: &to, use_substitutes: s }).words()[5] == b,
{
    address_is_as_given(from, a);
    address_is_as_given(to, b);
    flags_name_the_machines(CopyDirection::FromRemote(&from));
    flags_name_the_machines(CopyDirection::ToRemote { host: &to, use_substitutes: s });
    flags_name_the_machines(
        CopyDirection::BetweenRemotes { from_host: &from, to_host: &to, use_substitutes: s },
    );
}

/// A call hands on all it is given: first the flags of the user, in order, then
/// the words of the direction, and the path and the options for SSH unchanged.
pub proof fn call_hands_on_its_arguments(
    job: CopyJob,
    direction: CopyDirection,
    path: Seq<u8>,
    flake_flags: Seq<Seq<char>>,
    ssh_opts: Seq<char>,
)
    requires
        calls(job, direction, path, flake_flags, ssh_opts),
    ensures
        job.command.args@.len() == flake_flags.len() + direction.words().len(),
        forall|i: int| 0 <= i < flake_flags.len() ==> (#[trigger] job.command.args@[i])@ == flake_flags[i],
        forall|i: int|
            0 <= i < direction.words().len() ==> (#[trigger] job.command.args@[flake_flags.len() + i])@
                == direction.words()[i],
        job.command.path@ == path,
        job.command.ssh_opts@ == ssh_opts,
{
    let all = views(job.command.args@);
    assert(all.len() == job.command.args@.len());
    assert forall|i: int| 0 <= i < flake_flags.len() implies (#[trigger] job.command.args@[i])@
        == flake_flags[i] by {
        assert(all[i] == flake_flags[i]);
    }
    assert forall|i: int| 0 <= i < direction.words().len() implies (#[trigger] job.command.args@[flake_flags.len()
        + i])@ == direction.words()[i] by {
        assert(all[flake_flags.len() + i] == direction.words()[i]);
    }
}

/// What is told of a failed call begins with what failed, names how it ended,
/// and ends with what the call wrote to its error output, trimmed, if it wrote
/// anything.
pub proof fn failure_tells_all(message: Seq<char>, status: Seq<char>, stderr: Seq<char>)
    ensures
        has_prefix(copy_failure(message, status, stderr), message),
        copy_failure(message, status, stderr).skip(message.len() as int) == " (exit status: "@ + status + ")"@ + (
        if trimmed(stderr).len() > 0 {
            "\nstderr:\n"@ + trimmed(stderr)
        } else {
            Seq::empty()
        }),
        copy_failure(message, status, trimmed(stderr)) == copy_failure(message, status, stderr),
{
    trimmed_is_trimmed(stderr);
    let all = copy_failure(message, status, stderr);
    assert(all.take(message.len() as int) =~= message);
    assert(all.skip(message.len() as int) =~= " (exit status: "@ + status + ")"@ + (if trimmed(stderr).len() > 0 {
        "\nstderr:\n"@ + trimmed(stderr)
    } else {
        Seq::empty()
    }));
}

/// A machine is named in quotes, between what is said before and after it.
pub proof fn name_is_quoted(before: Seq<char>, name: Seq<char>, after: Seq<char>)
    ensures
        quoted(before, name, after).take(before.len() as int) == before,
        quoted(before, name, after).skip(before.len() as int) == "'"@ + name + "'"@ + after,
{
    let all = quoted(before, name, after);
    assert(all.take(before.len() as int) =~= before);
    assert(all.skip(before.len() as int) =~= "'"@ + name + "'"@ + after);
}

} // verus!
