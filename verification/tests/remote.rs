use nh::remote::{
    build_nix_copy_command, conclude_copy, copy_closure_between_remotes, copy_closure_from, copy_to_remote,
    format_copy_failure, CopyDirection, EmptyHost, RemoteHost, StreamLog,
};

#[test]
fn test_copy_direction_to_remote_args() {
    let host = RemoteHost::parse("build.example").unwrap();

    assert_eq!(
        CopyDirection::ToRemote { host: &host, use_substitutes: true }.args(),
        vec!["copy", "--no-check-sigs", "--to", "ssh-ng://build.example", "--substitute-on-destination"]
    );
}

#[test]
fn test_copy_direction_preserves_ssh_store_scheme() {
    let host = RemoteHost::parse("ssh://build.example").unwrap();

    assert_eq!(
        CopyDirection::ToRemote { host: &host, use_substitutes: true }.args(),
        vec!["copy", "--no-check-sigs", "--to", "ssh://build.example", "--substitute-on-destination"]
    );
}

#[test]
fn test_copy_direction_from_remote_cannot_take_substitute_policy() {
    let host = RemoteHost::parse("build.example").unwrap();

    assert_eq!(
        CopyDirection::FromRemote(&host).args(),
        vec!["copy", "--no-check-sigs", "--from", "ssh-ng://build.example"]
    );
}

#[test]
fn test_copy_direction_between_remotes_args() {
    let from_host = RemoteHost::parse("build.example").unwrap();
    let to_host = RemoteHost::parse("target.example").unwrap();

    assert_eq!(
        CopyDirection::BetweenRemotes { from_host: &from_host, to_host: &to_host, use_substitutes: true }.args(),
        vec![
            "copy",
            "--no-check-sigs",
            "--from",
            "ssh-ng://build.example",
            "--to",
            "ssh-ng://target.example",
            "--substitute-on-destination",
        ]
    );
}

#[test]
fn test_copy_direction_preserves_ipv6_store_uri_brackets() {
    let host = RemoteHost::parse("user@[2001:db8::1]").unwrap();

    assert_eq!(
        CopyDirection::ToRemote { host: &host, use_substitutes: false }.args(),
        vec!["copy", "--no-check-sigs", "--to", "ssh-ng://user@[2001:db8::1]"]
    );
}

#[test]
fn a_given_scheme_stays() {
    for address in ["ssh://a", "ssh-ng://b"] {
        assert_eq!(RemoteHost::parse(address).unwrap().nix_store_uri(), address);
    }
    let host = RemoteHost::parse("ssh-ng://me@c").unwrap();
    assert_eq!(host.name(), "me@c");
}

#[test]
fn a_machine_needs_a_name() {
    assert_eq!(RemoteHost::parse(""), Err(EmptyHost));
    assert_eq!(RemoteHost::parse("ssh://"), Err(EmptyHost));
    assert_eq!(RemoteHost::parse("ssh-ng://"), Err(EmptyHost));
}

#[test]
fn flake_flags_come_first() {
    let host = RemoteHost::parse("h").unwrap();
    let flags = vec!["--extra-experimental-features".to_string(), "nix-command flakes".to_string()];
    let command = build_nix_copy_command(&flags, CopyDirection::FromRemote(&host), b"/nix/store/x", "-p 22");
    assert_eq!(
        command.args,
        vec![
            "--extra-experimental-features",
            "nix-command flakes",
            "copy",
            "--no-check-sigs",
            "--from",
            "ssh-ng://h",
        ]
    );
    assert_eq!(command.path, b"/nix/store/x".to_vec());
    assert_eq!(command.ssh_opts, "-p 22");
}

#[test]
fn copies_say_what_they_do() {
    let a = RemoteHost::parse("a").unwrap();
    let b = RemoteHost::parse("ssh://b").unwrap();

    let from = copy_closure_from(&a, b"/p", &[], "");
    assert_eq!(from.opening, "Copying result from build host 'a'");
    assert_eq!(from.failure, "nix copy --from 'a' failed");
    assert_eq!(from.not_run, "Failed to copy closure from remote host");
    assert!(!from.spinner);

    let to = copy_to_remote(&b, b"/p", true, &[], "");
    assert_eq!(to.opening, "Copying closure to remote host 'b'...");
    assert_eq!(to.failed_notice, Some("Failed to copy closure to remote host 'b'".to_string()));
    assert_eq!(to.done_notice, Some("Copied closure to remote host 'b'".to_string()));
    assert!(to.spinner);

    let between = copy_closure_between_remotes(&a, &b, b"/p", false, &[], "");
    assert_eq!(between.opening, "Copying closure from 'a' to 'b'");
    assert_eq!(between.failure, "nix copy from 'a' to 'b' failed");
    assert_eq!(
        between.command.args,
        vec!["copy", "--no-check-sigs", "--from", "ssh-ng://a", "--to", "ssh://b"]
    );
}

#[test]
fn a_failed_copy_shows_the_error_output() {
    let a = RemoteHost::parse("a").unwrap();
    let job = copy_closure_from(&a, b"/p", &[], "");
    assert_eq!(conclude_copy(&job, true, "Exited(0)", "warning"), Ok(()));
    assert_eq!(
        conclude_copy(&job, false, "Exited(1)", "\n no route \n"),
        Err("nix copy --from 'a' failed (exit status: Exited(1))\nstderr:\nno route".to_string())
    );
    assert_eq!(format_copy_failure("m", "Exited(1)", " \n"), "m (exit status: Exited(1))");
}

#[test]
fn output_is_shown_line_by_line_and_kept() {
    let mut log = StreamLog::new();
    assert_eq!(log.take_line("copying gr\u{fc}n\r\n".as_bytes()), "copying gr\u{fc}n");
    assert_eq!(log.take_line(b"bad \xff byte\n"), "bad \u{fffd} byte");
    assert_eq!(log.take_line(b"end"), "end");
    assert_eq!(log.into_output(), "copying gr\u{fc}n\r\nbad \u{fffd} byte\nend");
}
