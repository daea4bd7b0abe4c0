use nh::config::{default_config_path, parse_document, save_failure, Config, ConfigError, ConfigStore};
use nh::files::{FileStep, ReadOutcome};

fn contents(text: &str) -> ReadOutcome {
    ReadOutcome::Contents(text.to_string())
}

fn written(steps: &[FileStep]) -> String {
    for step in steps {
        if let FileStep::Write { contents } = step {
            return String::from_utf8(contents.clone()).unwrap();
        }
    }
    panic!("nothing is written");
}

#[test]
fn missing_file_loads_as_default_config() {
    let path = b"/tmp/x/config.toml".to_vec();

    let store = ConfigStore::load_from(path.clone(), &ReadOutcome::NotFound).unwrap_or_else(|_| unreachable!());

    assert_eq!(store.config(), Ok(Config {}));
    assert_eq!(store.path(), path.as_slice());
    assert_eq!(written(&store.save(None)), "");
}

#[test]
fn save_preserves_comments_and_unknown_fields() {
    let raw = "# keep me\n[unknown]\nvalue = 1\n";
    let store =
        ConfigStore::load_from(b"config.toml".to_vec(), &contents(raw)).unwrap_or_else(|_| unreachable!());

    let written = written(&store.save(None));

    assert!(written.contains("# keep me"));
    assert!(written.contains("[unknown]"));
    assert!(written.contains("value = 1"));
}

#[test]
fn save_creates_private_file() {
    let store = ConfigStore::load_from(b"/tmp/x/nh/config.toml".to_vec(), &ReadOutcome::NotFound)
        .unwrap_or_else(|_| unreachable!());
    let steps = store.save(Some(b"/tmp/x/nh"));

    assert_eq!(
        steps,
        vec![
            FileStep::CreateDir { path: b"/tmp/x/nh".to_vec(), mode: 0o700 },
            FileStep::Open { path: b"/tmp/x/nh/config.toml".to_vec(), mode: 0o600 },
            FileStep::Write { contents: Vec::new() },
            FileStep::SetMode { mode: 0o600 },
        ]
    );
    for step in &steps {
        let mode = match step {
            FileStep::CreateDir { mode, .. } | FileStep::Open { mode, .. } | FileStep::SetMode { mode } => *mode,
            _ => 0,
        };
        assert_eq!(0, mode & 0o077);
    }
}

#[test]
fn nh_config_overrides_default_path() {
    let path = b"/tmp/x/custom.toml";
    assert_eq!(Ok(path.to_vec()), default_config_path(Some(path), Some(b"/etc/xdg"), Some(b"/home/me")));
}

#[test]
fn xdg_config_home_falls_back_when_no_override_exists() {
    assert_eq!(
        Ok(b"/tmp/x/nh/config.toml".to_vec()),
        default_config_path(None, Some(b"/tmp/x"), Some(b"/home/me"))
    );
}

#[test]
fn home_is_the_last_place_for_the_configuration() {
    assert_eq!(
        Ok(b"/home/me/.config/nh/config.toml".to_vec()),
        default_config_path(None, Some(b""), Some(b"/home/me"))
    );
    assert_eq!(
        Ok(b"/home/me/.config/nh/config.toml".to_vec()),
        default_config_path(None, None, Some(b"/home/me/"))
    );
}

#[test]
fn a_configuration_needs_a_place() {
    let empty = default_config_path(Some(b""), Some(b"/tmp/x"), Some(b"/home/me")).unwrap_err();
    assert_eq!(empty, ConfigError::EmptyOverride);
    assert_eq!(empty.message(""), "NH_CONFIG is set but empty");
    let none = default_config_path(None, None, Some(b"")).unwrap_err();
    assert_eq!(none, ConfigError::NoPath);
    assert_eq!(none.message(""), "could not determine NH configuration path; set NH_CONFIG");
}

#[test]
fn an_unchanged_configuration_is_saved_as_it_was() {
    for raw in [
        "",
        "\n\n  \n",
        "# only a comment\n",
        "a = 1 # one\n\n\t b=  'two'\n[ table ] # head\n  # inside\nlist = [ 1,\n  2, # two\n]\nt = { x = 1 , y = [] }\n\n# end\n",
        "[b]\nx = \"\"\"\n# no comment\n\"\"\"\n[a]\n",
        "\"x y\"\t= -1_000\n'z' = 1979-05-27 # day\nu = [ [1], [ 2 ,3,] , ] \nv = { a = {} , b = [ # c\n ] }\n",
        "a=true\n\n\n[t]\n\n[ s ]\t\nb = '''\nraw '''\n   # tail\n   \n",
    ] {
        let store = ConfigStore::load_from(b"c".to_vec(), &contents(raw)).unwrap_or_else(|_| unreachable!());
        assert_eq!(written(&store.save(None)), raw);
    }
}

#[test]
fn dots_outside_keys_change_nothing() {
    for raw in [
        "# see https://nixos.org and a.b.c\nv = 1.5 # x.y\ns = \"a.b\"\n[t] # t.u\n# {not.a.table}\n",
        "a = { x = 1 }\nlist = [1.0, 2.5,\n]\nwhen = 1979-05-27T00:32:00.5Z\n[s]\nt = \"\"\"\nk = x.y\n# z.w \"\"\"\n",
        "[programs.nh] # a.b 'c'\n  clean = true\n[ x ]\n[y.z-1._w]\t\n",
        "[p.q.r]\na = 1\n[p]\nb = 2\nc = 3\n\n[p.q]\nd = \"e.f\"\n[ s ]\n[s.t]\n",
        "m = [[1, 2], [3.5]]\nn = [ { y = 2 },\n  { z = 3 } ]\n",
    ] {
        let store = ConfigStore::load_from(b"c".to_vec(), &contents(raw)).unwrap_or_else(|_| unreachable!());
        assert_eq!(written(&store.save(None)), raw);
    }
}

#[test]
fn dotted_keys_are_moved_together() {
    for raw in [
        "x.a = 1\ny = 2\nx.b = 3\n",
        "t = {\n q = 1, x.a = 1, y = 2, x.b = 3\n}\n",
        "t = { s = \"\"\"\n# \"\"\", x.a = 1, y = 2, x.b = 3 }\n",
    ] {
        let store = ConfigStore::load_from(b"c".to_vec(), &contents(raw)).unwrap_or_else(|_| unreachable!());
        let saved = written(&store.save(None));
        assert_ne!(saved, raw);
        assert!(saved.find("x.b").unwrap() < saved.find("y = 2").unwrap());
    }
}

#[test]
fn a_key_is_written_alike_in_all_headers() {
    for raw in ["[\"a\"]\n[a.b]\n", "[a.b]\n[\"a\"]\n"] {
        let store = ConfigStore::load_from(b"c".to_vec(), &contents(raw)).unwrap_or_else(|_| unreachable!());
        let saved = written(&store.save(None));
        assert!(saved.contains("[\"a\".b]"));
    }
}

#[test]
fn a_missing_line_end_is_added() {
    let store = ConfigStore::load_from(b"c".to_vec(), &contents("a = 1")).unwrap_or_else(|_| unreachable!());
    assert_eq!(written(&store.save(None)), "a = 1\n");
}

#[test]
fn a_malformed_configuration_is_refused() {
    let error = match ConfigStore::load_from(b"/c".to_vec(), &contents("a = = 1\n")) {
        Ok(_) => unreachable!(),
        Err(error) => error,
    };
    assert_eq!(error.message("/c"), "failed to parse NH configuration at /c");
    match error {
        ConfigError::Malformed { path, reason } => {
            assert_eq!(path, b"/c".to_vec());
            assert!(reason.contains("TOML parse error"));
        }
        _ => unreachable!(),
    }
    assert!(parse_document(b"/c", "a = 1\n").is_ok());
}

#[test]
fn an_unreadable_configuration_is_refused() {
    let error = match ConfigStore::load_from(b"/c".to_vec(), &ReadOutcome::Failed) {
        Ok(_) => unreachable!(),
        Err(error) => error,
    };
    assert_eq!(error, ConfigError::Unreadable { path: b"/c".to_vec() });
    assert_eq!(error.message("/c"), "failed to read /c");
}

#[test]
fn each_step_of_saving_can_fail() {
    let dir = FileStep::CreateDir { path: b"/d".to_vec(), mode: 0o700 };
    assert_eq!(save_failure(&dir, "/d"), "failed to create /d");
    let open = FileStep::Open { path: b"/f".to_vec(), mode: 0o600 };
    assert_eq!(save_failure(&open, "/f"), "failed to open /f");
    let write = FileStep::Write { contents: Vec::new() };
    assert_eq!(save_failure(&write, "/f"), "failed to write /f");
    let mode = FileStep::SetMode { mode: 0o600 };
    assert_eq!(save_failure(&mode, "/f"), "failed to set private permissions on /f");
}
