use charon::action::{InstallAction, InstallDir, InstallFile};
use charon::manifest::{parse_install_file, write_fatal};
use charon::opts::{parse_opts, Opts};
use charon::paths::{Halt, PathFact, PathKind};
use charon::resolve::{
    create_util_dir, expand_mythos_shortcut, parse_dest, parse_target, Locations,
};

fn locations() -> Locations {
    Locations {
        alias: Some("/etc/profile.d".to_string()),
        bin: Some("/bin".to_string()),
        config: Some("/etc/mythos".to_string()),
        data: Some("/usr/share/mythos".to_string()),
        lib: Some("/usr/lib/mythos".to_string()),
        local_config: Some("/home/u/.config/mythos".to_string()),
        local_data: Some("/home/u/.local/share/mythos".to_string()),
        home: Some("/home/u".to_string()),
    }
}

fn fact(path: &str, kind: PathKind) -> PathFact {
    PathFact { path: path.to_string(), kind }
}

fn disk(path: &str) -> PathKind {
    match path {
        "/m/" | "/m/src" | "/m/conf" | "/etc/mythos/unit" | "/opt/tools" => PathKind::Dir,
        "/m/conf/app.toml" | "/m/readme.md" | "/usr/share/mythos/unit" => PathKind::File,
        _ => PathKind::Missing,
    }
}

fn compile(contents: &str, unit: &str) -> Result<Vec<InstallAction>, Halt> {
    let mut facts: Vec<PathFact> = Vec::new();
    for _ in 0..100 {
        match parse_install_file(contents, "/m", unit, &locations(), &facts) {
            Err(Halt::Ask(path)) => {
                let kind = disk(&path);
                facts.push(PathFact { path, kind });
            }
            other => return other,
        }
    }
    panic!("the compiler kept asking");
}

fn defaults() -> Opts {
    Opts {
        strip_ext: false,
        copy_underscore_files: false,
        copy_dot_files: false,
        perms: 0,
        overwrite: false,
        create_path: false,
    }
}

#[test]
fn parse_opts_none_gives_defaults() {
    assert_eq!(parse_opts(None), Ok(defaults()));
    assert_eq!(parse_opts(Some("")), Ok(defaults()));
}

#[test]
fn parse_opts_reads_octal_digits_left_to_right() {
    assert_eq!(parse_opts(Some("755")).unwrap().perms, 0o755);
    assert_eq!(parse_opts(Some("755")).unwrap().perms, 493);
    let o = parse_opts(Some("7e")).unwrap();
    assert_eq!(o.perms, 7);
    assert!(o.strip_ext);
    assert_eq!(parse_opts(Some("6e4")).unwrap().perms, 0o64);
}

#[test]
fn parse_opts_flags_toggle() {
    let o = parse_opts(Some("eop_.")).unwrap();
    assert_eq!(
        o,
        Opts {
            strip_ext: true,
            copy_underscore_files: true,
            copy_dot_files: true,
            perms: 0,
            overwrite: true,
            create_path: true,
        }
    );
    let o = parse_opts(Some("eEoOpP")).unwrap();
    assert_eq!(o, defaults());
    let o = parse_opts(Some("Ee")).unwrap();
    assert!(o.strip_ext);
}

#[test]
fn parse_opts_names_the_first_unknown_character() {
    assert_eq!(parse_opts(Some("7x8")), Err("Unknown opt: 'x'".to_string()));
    assert_eq!(parse_opts(Some("8")), Err("Unknown opt: '8'".to_string()));
    assert_eq!(parse_opts(Some("e q")), Err("Unknown opt: ' '".to_string()));
}

#[test]
fn parse_opts_wraps_within_32_bits() {
    assert_eq!(parse_opts(Some("37777777777")).unwrap().perms, u32::MAX);
    assert_eq!(parse_opts(Some("40000000000")).unwrap().perms, 0);
    assert_eq!(parse_opts(Some("40000000001")).unwrap().perms, 1);
}

#[test]
fn shortcuts_resolve_by_name() {
    let l = locations();
    assert_eq!(expand_mythos_shortcut("$A", &l), Some("/etc/profile.d".to_string()));
    assert_eq!(expand_mythos_shortcut("ALIAS", &l), Some("/etc/profile.d".to_string()));
    assert_eq!(expand_mythos_shortcut("$B", &l), Some("/bin".to_string()));
    assert_eq!(expand_mythos_shortcut("$$BIN", &l), Some("/bin".to_string()));
    assert_eq!(expand_mythos_shortcut("C", &l), Some("/etc/mythos".to_string()));
    assert_eq!(expand_mythos_shortcut("$CONFIG", &l), Some("/etc/mythos".to_string()));
    assert_eq!(expand_mythos_shortcut("$D", &l), Some("/usr/share/mythos".to_string()));
    assert_eq!(expand_mythos_shortcut("DATA", &l), Some("/usr/share/mythos".to_string()));
    assert_eq!(expand_mythos_shortcut("$LB", &l), Some("/usr/lib/mythos".to_string()));
    assert_eq!(expand_mythos_shortcut("LIB", &l), Some("/usr/lib/mythos".to_string()));
    assert_eq!(expand_mythos_shortcut("$LC", &l), Some("/home/u/.config/mythos".to_string()));
    assert_eq!(expand_mythos_shortcut("LCONFIG", &l), Some("/home/u/.config/mythos".to_string()));
    assert_eq!(
        expand_mythos_shortcut("LOCALCONFIG", &l),
        Some("/home/u/.config/mythos".to_string())
    );
    assert_eq!(expand_mythos_shortcut("$LD", &l), Some("/home/u/.local/share/mythos".to_string()));
    assert_eq!(expand_mythos_shortcut("LDATA", &l), Some("/home/u/.local/share/mythos".to_string()));
    assert_eq!(
        expand_mythos_shortcut("$LOCALDATA", &l),
        Some("/home/u/.local/share/mythos".to_string())
    );
    assert_eq!(expand_mythos_shortcut("$HOME", &l), Some("/home/u".to_string()));
    assert_eq!(expand_mythos_shortcut("~", &l), Some("/home/u".to_string()));
    assert_eq!(expand_mythos_shortcut("$X", &l), None);
    assert_eq!(expand_mythos_shortcut("bin", &l), None);
    assert_eq!(expand_mythos_shortcut("", &l), None);
    let mut unresolved = locations();
    unresolved.bin = None;
    assert_eq!(expand_mythos_shortcut("$B", &unresolved), None);
}

#[test]
fn parse_target_asks_then_resolves() {
    let mut facts: Vec<PathFact> = Vec::new();
    assert_eq!(parse_target("src/*", "/m", &facts), Err(Halt::Ask("/m/src".to_string())));
    facts.push(fact("/m/src", PathKind::Dir));
    assert_eq!(
        parse_target("src/*", "/m", &facts),
        Ok(("/m/src".to_string(), "*".to_string()))
    );
}

#[test]
fn parse_target_checks_a_plain_name() {
    let mut facts = vec![fact("/m/conf", PathKind::Dir)];
    assert_eq!(
        parse_target("conf/app.toml", "/m", &facts),
        Err(Halt::Ask("/m/conf/app.toml".to_string()))
    );
    facts.push(fact("/m/conf/app.toml", PathKind::Missing));
    assert_eq!(
        parse_target("conf/app.toml", "/m", &facts),
        Err(Halt::Fail("\"/m/conf/app.toml\" could not be found".to_string()))
    );
    facts.push(fact("/m/conf/app.toml", PathKind::File));
    assert_eq!(
        parse_target("conf/app.toml", "/m", &facts),
        Ok(("/m/conf".to_string(), "app.toml".to_string()))
    );
}

#[test]
fn parse_target_without_a_slash_or_a_name() {
    let facts = vec![fact("/m/", PathKind::Dir), fact("/m/readme.md", PathKind::File)];
    assert_eq!(
        parse_target("readme.md", "/m", &facts),
        Ok(("/m/".to_string(), "readme.md".to_string()))
    );
    let facts = vec![fact("/m/src", PathKind::Dir)];
    assert_eq!(parse_target("src/", "/m", &facts), Ok(("/m/src".to_string(), "".to_string())));
    let facts = vec![fact("/m/a/b", PathKind::Dir)];
    assert_eq!(
        parse_target("a/b/*.rs", "/m", &facts),
        Ok(("/m/a/b".to_string(), "*.rs".to_string()))
    );
}

#[test]
fn parse_target_gives_the_joined_directory() {
    let facts = vec![
        fact("/m/src", PathKind::Dir),
        fact("/m/src/.", PathKind::Dir),
        fact("/m/src/..", PathKind::Dir),
        fact("/m/src/a.txt", PathKind::File),
    ];
    assert_eq!(parse_target("src/.", "/m", &facts), Ok(("/m/src".to_string(), ".".to_string())));
    assert_eq!(parse_target("src/..", "/m", &facts), Ok(("/m/src".to_string(), "..".to_string())));
    assert_eq!(
        parse_target("src/a.txt", "/m", &facts),
        Ok(("/m/src".to_string(), "a.txt".to_string()))
    );
    assert_eq!(
        parse_target("/abs/*", "/m", &vec![fact("/abs", PathKind::Dir)]),
        Ok(("/abs".to_string(), "*".to_string()))
    );
}

#[test]
fn parse_target_names_a_missing_directory() {
    let facts = vec![fact("/m/gone", PathKind::Missing)];
    assert_eq!(
        parse_target("gone/*", "/m", &facts),
        Err(Halt::Fail("\"/m/gone\" could not be found".to_string()))
    );
}

#[test]
fn parse_dest_prefers_shortcuts() {
    let facts = vec![fact("$B/tools", PathKind::Dir)];
    assert_eq!(parse_dest("$B/tools", &locations(), &facts), Ok("/bin/tools".to_string()));
    assert_eq!(parse_dest("$B", &locations(), &facts), Ok("/bin".to_string()));
    assert_eq!(parse_dest("~/bin/x", &locations(), &facts), Ok("/home/u/bin/x".to_string()));
    assert_eq!(parse_dest("$C/", &locations(), &facts), Ok("/etc/mythos".to_string()));
}

#[test]
fn parse_dest_falls_back_to_a_path_that_exists() {
    let mut facts: Vec<PathFact> = Vec::new();
    assert_eq!(parse_dest("/opt/tools", &locations(), &facts), Err(Halt::Ask("/opt/tools".to_string())));
    facts.push(fact("/opt/tools", PathKind::Missing));
    assert_eq!(
        parse_dest("/opt/tools", &locations(), &facts),
        Err(Halt::Fail("Could not parse destination".to_string()))
    );
    facts.push(fact("/opt/tools", PathKind::Dir));
    assert_eq!(parse_dest("/opt/tools", &locations(), &facts), Ok("/opt/tools".to_string()));
}

#[test]
fn create_util_dir_records_what_stands_there() {
    let facts = vec![
        fact("/etc/mythos/unit", PathKind::Dir),
        fact("/usr/share/mythos/unit", PathKind::File),
        fact("/bin/unit", PathKind::Missing),
    ];
    assert_eq!(
        create_util_dir("/etc/mythos", "unit", &facts),
        Ok(InstallDir::new(
            "/etc/mythos/unit".to_string(),
            "/etc/mythos/unit\n\t# Did not create: Directory exists.\n".to_string()
        ))
    );
    assert_eq!(
        create_util_dir("/usr/share/mythos", "unit", &facts).unwrap().get_msg(),
        "/usr/share/mythos/unit\n\t# Did not create: File exists with that name.\n"
    );
    assert_eq!(
        create_util_dir("/bin", "unit", &facts).unwrap().get_msg(),
        "/bin/unit\n\t# Created directory!\n"
    );
    assert_eq!(
        create_util_dir("/lib", "unit", &facts),
        Err(Halt::Ask("/lib/unit".to_string()))
    );
}

#[test]
fn read_install_file() {
    let contents = "# what to install\n@ C D\nsrc/* $B 755o\n\n  conf/app.toml\t$C/app e  \n";
    let actions = compile(contents, "unit").unwrap();
    assert_eq!(actions.len(), 4);
    assert_eq!(
        actions[0],
        InstallAction::Dir(InstallDir::new(
            "/etc/mythos/unit".to_string(),
            "/etc/mythos/unit\n\t# Did not create: Directory exists.\n".to_string()
        ))
    );
    assert_eq!(
        actions[1],
        InstallAction::Dir(InstallDir::new(
            "/usr/share/mythos/unit".to_string(),
            "/usr/share/mythos/unit\n\t# Did not create: File exists with that name.\n".to_string()
        ))
    );
    let mut opts = defaults();
    opts.perms = 0o755;
    opts.overwrite = true;
    assert_eq!(
        actions[2],
        InstallAction::File(InstallFile::new("/m/src".to_string(), "*", "/bin".to_string(), opts))
    );
    let mut opts = defaults();
    opts.strip_ext = true;
    assert_eq!(
        actions[3],
        InstallAction::File(InstallFile::new(
            "/m/conf".to_string(),
            "app.toml",
            "/etc/mythos/app".to_string(),
            opts
        ))
    );
}

#[test]
fn create_new_dirs() {
    let contents = "@ C\n@ LD\nsrc/* $LD/test3\n";
    let actions = compile(contents, "test3").unwrap();
    assert_eq!(actions.len(), 3);
    let p = match &actions[2] {
        InstallAction::File(file) => file,
        InstallAction::Dir(_) => panic!(""),
    };
    let dest = p.get_dest();
    assert_eq!(
        std::path::Path::new(&dest).file_name(),
        Some(std::path::Path::new("test3").as_os_str())
    );
    match &actions[1] {
        InstallAction::Dir(dir) => {
            assert_eq!(dir.get_dir(), "/home/u/.local/share/mythos/test3")
        }
        InstallAction::File(_) => panic!(""),
    }
}

#[test]
fn manifest_errors_name_the_line() {
    assert_eq!(
        compile("\n\nsrc/* $B 75x\n", "unit"),
        Err(Halt::Fail("CHARON (Fatal Error on line 3): Unknown opt: 'x'".to_string()))
    );
    assert_eq!(
        compile("src/*\n", "unit"),
        Err(Halt::Fail(
            "CHARON (Fatal Error on line 1): Expected a path to destination directory."
                .to_string()
        ))
    );
    assert_eq!(
        compile("# ok\nsrc/* /nowhere\n", "unit"),
        Err(Halt::Fail("CHARON (Fatal Error on line 2): Could not parse destination".to_string()))
    );
    assert_eq!(
        compile("src/* $B\ngone/* $B\nsrc/* $B z\n", "unit"),
        Err(Halt::Fail(
            "CHARON (Fatal Error on line 2): \"/m/gone\" could not be found".to_string()
        ))
    );
    assert_eq!(
        compile("@ C NOPE D\n", "unit"),
        Err(Halt::Fail("CHARON (Fatal Error on line 1): Could not read dir to create".to_string()))
    );
}

#[test]
fn manifest_keeps_line_order_and_skips_comments() {
    let actions = compile("#a\n   \n\t# b\nsrc/* $B\n#c\nsrc/ $C\n@\n", "unit").unwrap();
    assert_eq!(actions.len(), 2);
    assert_eq!(
        actions[0],
        InstallAction::File(InstallFile::new(
            "/m/src".to_string(),
            "*",
            "/bin".to_string(),
            defaults()
        ))
    );
    assert_eq!(
        actions[1],
        InstallAction::File(InstallFile::new(
            "/m/src".to_string(),
            "",
            "/etc/mythos".to_string(),
            defaults()
        ))
    );
    assert_eq!(compile("", "unit"), Ok(vec![]));
}

#[test]
fn fatal_message_counts_in_decimal() {
    assert_eq!(write_fatal(0, "x"), "CHARON (Fatal Error on line 0): x");
    assert_eq!(write_fatal(10, "x"), "CHARON (Fatal Error on line 10): x");
    assert_eq!(write_fatal(1207, "y z"), "CHARON (Fatal Error on line 1207): y z");
}

#[test]
fn permissions_written_in_octal_read_back() {
    for perms in [0u32, 7, 8, 0o644, 0o755, 0o7777, 1 << 31, u32::MAX] {
        let token = charon::text::string_of(&charon::text::octal_chars(perms));
        let opts = parse_opts(Some(&token)).unwrap();
        assert_eq!(opts.perms, perms);
        assert_eq!(Opts { perms: 0, ..opts }, defaults());
    }
}

#[test]
fn the_last_switch_decides_a_flag() {
    assert!(parse_opts(Some("Ee7E5e")).unwrap().strip_ext);
    assert!(!parse_opts(Some("e7E")).unwrap().strip_ext);
    assert!(parse_opts(Some("OoO_o")).unwrap().overwrite);
    assert!(!parse_opts(Some("pP")).unwrap().create_path);
    assert!(parse_opts(Some("_E")).unwrap().copy_underscore_files);
    assert!(!parse_opts(Some("eop")).unwrap().copy_dot_files);
}

#[test]
fn lines_and_targets_split_where_they_should() {
    let lines: Vec<String> = charon::text::lines(&charon::text::chars_of("a\n\nb c\n"))
        .iter()
        .map(|l| charon::text::string_of(l))
        .collect();
    assert_eq!(lines, vec!["a".to_string(), "".to_string(), "b c".to_string(), "".to_string()]);
    assert_eq!(lines.join("\n"), "a\n\nb c\n");
    assert_eq!(charon::resolve::cut_target("a/b/c"), ("a/b".to_string(), "c".to_string()));
    assert_eq!(charon::resolve::cut_target("c"), ("".to_string(), "c".to_string()));
    assert_eq!(charon::resolve::cut_target("a/"), ("a".to_string(), "".to_string()));
    assert_eq!(charon::resolve::cut_dest("$B/x/y"), ("$B".to_string(), "x/y".to_string()));
    assert_eq!(charon::resolve::cut_dest("$B"), ("$B".to_string(), "".to_string()));
    assert_eq!(charon::resolve::cut_dest("/x"), ("".to_string(), "x".to_string()));
}
