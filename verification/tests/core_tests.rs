use charon::cli::{clean_args, read_reply};
use charon::dirs::{
    env_var_name, expand_mythos_shortcut, expand_path, get_default_dir, get_path, home_source,
    DirEnv, HomeSource, MythosDir,
};
use charon::locate::{find_charon_file, get_install_file_path, is_charon_file};
use charon::logger::{error, fatal, format_entry, info, log_file_name, set_id, warn, LogLevel};
use charon::paths::{Halt, PathFact, PathKind};
use charon::text::{chars_of, decimal_chars, octal_chars, string_of, tokens};

fn bare() -> DirEnv {
    DirEnv {
        config: None,
        data: None,
        bin: None,
        lib: None,
        alias: None,
        local_data: None,
        local_config: None,
        log: None,
        home: None,
    }
}

fn setup() -> DirEnv {
    DirEnv {
        config: Some("tests/config".to_string()),
        data: Some("tests/data".to_string()),
        bin: Some("tests/bin".to_string()),
        lib: Some("tests/lib".to_string()),
        alias: Some("tests/alias".to_string()),
        local_data: Some("tests/ldata".to_string()),
        local_config: Some("tests/lconfig".to_string()),
        log: None,
        home: Some("/home/u".to_string()),
    }
}

fn fact(path: &str, kind: PathKind) -> PathFact {
    PathFact { path: path.to_string(), kind }
}

#[test]
fn clean_cli_args() {
    let args = clean_args(vec!["-abc".into(), "--def".into(), "ghi".into()]);
    let mut args = args.into_iter();
    assert_eq!(args.next().unwrap(), "-a".to_string());
    assert_eq!(args.next().unwrap(), "-b".to_string());
    assert_eq!(args.next().unwrap(), "-c".to_string());
    assert_eq!(args.next().unwrap(), "--def".to_string());
    assert_eq!(args.next().unwrap(), "ghi".to_string());
}

#[test]
fn clean_args_edge_cases() {
    assert_eq!(clean_args(vec![]), Vec::<String>::new());
    assert_eq!(clean_args(vec!["-".into(), "--".into(), "".into()]), vec!["--".to_string(), "".to_string()]);
    assert_eq!(clean_args(vec!["-n".into(), "a-b".into()]), vec!["-n".to_string(), "a-b".to_string()]);
}

#[test]
fn replies_mean_yes_no_or_nothing() {
    assert_eq!(read_reply("n"), Some(false));
    assert_eq!(read_reply("no"), Some(false));
    assert_eq!(read_reply("y"), Some(true));
    assert_eq!(read_reply("yes"), Some(true));
    assert_eq!(read_reply(""), Some(true));
    assert_eq!(read_reply("\n"), Some(true));
    assert_eq!(read_reply("maybe"), None);
    assert_eq!(read_reply("Y"), None);
}

#[test]
fn test_get_path_core() {
    let facts = vec![fact("/etc/mythos", PathKind::Dir)];
    assert_eq!(
        get_path(MythosDir::Config, "".into(), &bare(), &facts),
        Ok(Some("/etc/mythos".to_string()))
    );
}

#[test]
fn check_test_env() {
    let env = setup();
    assert_eq!(expand_path(MythosDir::Alias, "".into(), &env), "tests/alias".to_string());
    assert_eq!(expand_path(MythosDir::Bin, "".into(), &env), "tests/bin".to_string());
    assert_eq!(expand_path(MythosDir::Config, "".into(), &env), "tests/config".to_string());
    assert_eq!(expand_path(MythosDir::Data, "".into(), &env), "tests/data".to_string());
    assert_eq!(expand_path(MythosDir::Lib, "".into(), &env), "tests/lib".to_string());
    assert_eq!(expand_path(MythosDir::LocalData, "".into(), &env), "tests/ldata".to_string());
    assert_eq!(expand_path(MythosDir::LocalConfig, "".into(), &env), "tests/lconfig".to_string());
}

#[test]
fn test_get_path() {
    let env = setup();
    assert_eq!(expand_path(MythosDir::Config, "arachne", &env), "tests/config/arachne".to_string());
}

#[test]
fn get_dir_that_exists() {
    let env = setup();
    let facts = vec![fact("tests/config/arachne", PathKind::Dir)];
    let path = get_path(MythosDir::Config, "arachne", &env, &facts);
    assert_eq!(path, Ok(Some("tests/config/arachne".to_string())));
}

#[test]
fn get_dir_that_dne() {
    let env = setup();
    let mut facts = vec![fact("tests/config/nonameutil", PathKind::Missing)];
    assert_eq!(
        get_path(MythosDir::Config, "nonameutil", &env, &facts),
        Err(Halt::Ask("tests/config".to_string()))
    );
    facts.push(fact("tests/config", PathKind::Dir));
    let path = get_path(MythosDir::Config, "nonameutil", &env, &facts);
    assert_eq!(path, Ok(Some("tests/config".to_string())));
    facts.push(fact("tests/config", PathKind::Missing));
    assert_eq!(get_path(MythosDir::Config, "nonameutil", &env, &facts), Ok(None));
    assert_eq!(
        get_path(MythosDir::Data, "x", &env, &facts),
        Err(Halt::Ask("tests/data/x".to_string()))
    );
}

#[test]
fn expand_path_defaults_and_home() {
    let mut env = bare();
    assert_eq!(expand_path(MythosDir::LocalConfig, "", &env), "//.config/mythos");
    env.home = Some("/home/u".to_string());
    assert_eq!(expand_path(MythosDir::LocalConfig, "", &env), "/home/u/.config/mythos");
    assert_eq!(expand_path(MythosDir::LocalData, "x", &env), "/home/u/.local/share/mythos/x");
    assert_eq!(expand_path(MythosDir::Log, "CoRe", &env), "/home/u/.local/share/mythos/logs");
    assert_eq!(expand_path(MythosDir::Bin, "x", &env), "/bin");
    env.data = Some("$HOME/share".to_string());
    assert_eq!(expand_path(MythosDir::Data, "x", &env), "/home/u/share/x");
    assert_eq!(get_default_dir(MythosDir::Alias), "/etc/profile.d");
    assert_eq!(get_default_dir(MythosDir::Lib), "/usr/lib/mythos");
    assert_eq!(env_var_name(MythosDir::LocalData), "MYTHOS_LOCAL_DATA_DIR");
}

#[test]
fn dirs_shortcuts_ignore_case() {
    let env = setup();
    assert_eq!(expand_mythos_shortcut("$c", "u", &env), Some("tests/config/u".to_string()));
    assert_eq!(expand_mythos_shortcut("Alias", "", &env), Some("tests/alias".to_string()));
    assert_eq!(expand_mythos_shortcut("b", "u", &env), Some("tests/bin".to_string()));
    assert_eq!(expand_mythos_shortcut("LO", "u", &env), Some("/home/u/.local/share/mythos/logs/u".to_string()));
    assert_eq!(expand_mythos_shortcut("home", "u", &env), Some("/home/u".to_string()));
    assert_eq!(expand_mythos_shortcut("~", "u", &bare()), None);
    assert_eq!(expand_mythos_shortcut("nope", "u", &env), None);
}

#[test]
fn test_logger() {
    let logger = set_id("TEST");
    assert_eq!(logger.get_id(), "TEST");
    assert_eq!(logger.dir_name(), "test");
    let line = info("Test entry");
    assert!(line.ends_with(" Info: Test entry\n"));
    assert!(line.len() > " Info: Test entry\n".len());
    assert!(logger.write("x", LogLevel::Warn).ends_with(" Warn: x\n"));
}

#[test]
fn test_print_info() {
    let show = |switch: bool, res: String| {
        if switch {
            let line = info(&res);
            assert!(line.ends_with(&format!(" Info: {}\n", res)));
            println!("{}", res);
        }
    };
    show(true, format!("Do print {}.", "this"));
    show(false, format!("Do not print {}.", "this"));
    show(true, format!("This be valid"));
    show(true, format!("This should be valid too {}.", 0));
}

#[test]
fn log_entries_carry_time_level_and_message() {
    assert_eq!(format_entry("12:00", LogLevel::Info, "m"), "12:00 Info: m\n");
    assert_eq!(format_entry("", LogLevel::Fatal, ""), " Fatal: \n");
    assert!(warn("w").ends_with(" Warn: w\n"));
    assert!(error("e").ends_with(" Error: e\n"));
    assert!(fatal("f").ends_with(" Fatal: f\n"));
    assert_eq!(log_file_name(true), "debug.log");
    assert_eq!(log_file_name(false), "log");
}

#[test]
fn numbers_are_written_without_leading_zeros() {
    assert_eq!(string_of(&octal_chars(0)), "0");
    assert_eq!(string_of(&octal_chars(0o755)), "755");
    assert_eq!(string_of(&octal_chars(8)), "10");
    assert_eq!(string_of(&octal_chars(u32::MAX)), "37777777777");
    assert_eq!(string_of(&decimal_chars(0)), "0");
    assert_eq!(string_of(&decimal_chars(9)), "9");
    assert_eq!(string_of(&decimal_chars(120)), "120");
}

#[test]
fn tokens_are_runs_between_blanks() {
    let toks: Vec<String> = tokens(&chars_of(" a\tbc  d \r")).iter().map(|t| string_of(t)).collect();
    assert_eq!(toks, vec!["a".to_string(), "bc".to_string(), "d".to_string()]);
    assert_eq!(chars_of("héllo"), vec!['h', 'é', 'l', 'l', 'o']);
    assert!(tokens(&chars_of("   ")).is_empty());
}

#[test]
fn try_open_dir_as_file() {
    let env = setup();
    let facts = vec![
        fact("tests/lconfig/empty_dir", PathKind::Dir),
        fact("tests/lconfig/empty_dir/config", PathKind::Missing),
        fact("tests/config/empty_dir", PathKind::Missing),
        fact("tests/config/empty_dir.conf", PathKind::Missing),
        fact("tests/config/empty_dir.ini", PathKind::Missing),
        fact("tests/config/empty_dir.toml", PathKind::Missing),
    ];
    let dir = charon::conf::try_get_file("empty_dir", false, &env, &facts);
    assert_eq!(dir, Ok(None));
}

#[test]
fn get_file_with_no_ext() {
    let env = setup();
    let facts = vec![
        fact("tests/config/config_tester", PathKind::Missing),
        fact("tests/config/config_tester.conf", PathKind::File),
        fact("tests/config/arachne", PathKind::File),
    ];
    let root = expand_path(MythosDir::Config, "config_tester", &env);
    assert_eq!(
        charon::conf::clean_and_validate(root, false, &facts),
        Ok(Some("tests/config/config_tester.conf".to_string()))
    );
    let root = expand_path(MythosDir::Config, "arachne", &env);
    assert_eq!(
        charon::conf::clean_and_validate(root, false, &facts),
        Ok(Some("tests/config/arachne".to_string()))
    );
}

#[test]
fn defaults_to_local_config() {
    let env = setup();
    let facts = vec![
        fact("tests/lconfig/config_tester", PathKind::Missing),
        fact("tests/lconfig/config_tester.conf", PathKind::Missing),
        fact("tests/lconfig/config_tester.ini", PathKind::Missing),
        fact("tests/lconfig/config_tester.toml", PathKind::File),
        fact("tests/config/config_tester.conf", PathKind::File),
    ];
    let file = charon::conf::try_get_file("config_tester", false, &env, &facts);
    assert_eq!(file, Ok(Some("tests/lconfig/config_tester.toml".to_string())));
}

#[test]
fn get_file_named_config() {
    let env = setup();
    let facts = vec![
        fact("tests/lconfig/config_tester_dir", PathKind::Dir),
        fact("tests/lconfig/config_tester_dir/config", PathKind::File),
    ];
    let file = charon::conf::try_get_file("config_tester_dir", false, &env, &facts);
    assert_eq!(file, Ok(Some("tests/lconfig/config_tester_dir/config".to_string())));
    let dir = charon::conf::try_get_file("config_tester_dir", true, &env, &facts);
    assert_eq!(dir, Ok(Some("tests/lconfig/config_tester_dir".to_string())));
}

#[test]
fn config_file_lookup_asks_in_order() {
    let env = setup();
    let mut facts: Vec<PathFact> = Vec::new();
    let mut asked: Vec<String> = Vec::new();
    let found = loop {
        match charon::conf::try_get_file("x", false, &env, &facts) {
            Err(Halt::Ask(path)) => {
                asked.push(path.clone());
                let kind = if path == "tests/config/x.ini" { PathKind::File } else { PathKind::Missing };
                facts.push(PathFact { path, kind });
            }
            other => break other,
        }
    };
    assert_eq!(found, Ok(Some("tests/config/x.ini".to_string())));
    assert_eq!(
        asked,
        vec![
            "tests/lconfig/x".to_string(),
            "tests/lconfig/x.conf".to_string(),
            "tests/lconfig/x.ini".to_string(),
            "tests/lconfig/x.toml".to_string(),
            "tests/config/x".to_string(),
            "tests/config/x.conf".to_string(),
            "tests/config/x.ini".to_string(),
        ]
    );
}

#[test]
fn test_get_home() {
    assert_eq!(
        home_source(Some("user".to_string()), Some("noname".to_string())),
        HomeSource::Passwd("user".to_string())
    );
    assert_eq!(home_source(None, Some("/home/u".to_string())), HomeSource::Given("/home/u".to_string()));
    assert_eq!(home_source(None, None), HomeSource::Unknown);
}

#[test]
fn manifest_is_found_by_its_extension() {
    assert_eq!(get_install_file_path("/abs/unit", Some("/cwd")), Ok("/abs/unit".to_string()));
    assert_eq!(get_install_file_path("/abs/unit", None), Ok("/abs/unit".to_string()));
    assert_eq!(get_install_file_path("rel/unit", Some("/cwd")), Ok("/cwd/rel/unit".to_string()));
    assert_eq!(get_install_file_path("", Some("/cwd")), Ok("/cwd".to_string()));
    assert_eq!(get_install_file_path("", None), Err("Could not get CWD".to_string()));
    assert_eq!(get_install_file_path("rel", None), Err("Could not get CWD".to_string()));
    assert!(is_charon_file("/u/unit.charon"));
    assert!(!is_charon_file("/u/unit.charon.bak"));
    assert!(!is_charon_file("/u/.charon"));
    assert!(!is_charon_file("/u/charon"));
    let entries = vec!["/u/a.txt".to_string(), "/u/b.charon".to_string(), "/u/c.charon".to_string()];
    assert_eq!(find_charon_file(&entries), Some(1));
    assert_eq!(find_charon_file(&entries[..1].to_vec()), None);
    assert_eq!(find_charon_file(&Vec::new()), None);
}
