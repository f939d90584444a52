use charon::action::{InstallAction, InstallDir, InstallFile};
use charon::engine::{claim, CopyReport, Observation};
use charon::opts::{parse_opts, Opts};
use charon::paths::PathKind;
use charon::record::{
    baseline_file_name, orphans, oversized_lines, parse_uninstall_file, record_file_name,
    record_text,
};

fn strings(items: &[&str]) -> Vec<String> {
    items.iter().map(|s| s.to_string()).collect()
}

fn file(opts: &str) -> InstallFile {
    let opts: Opts = parse_opts(Some(opts)).unwrap();
    InstallFile::new("/m/src".to_string(), "*", "/dst".to_string(), opts)
}

fn report(target: &str, dest_exists: bool, copy_error: Option<&str>) -> CopyReport {
    CopyReport {
        target: target.to_string(),
        dest_exists,
        copy_error: copy_error.map(|e| e.to_string()),
    }
}

#[test]
fn read_uninstall_file() {
    let contents = "include/this/1\nignore include/this/2 ignore\n";
    let paths = parse_uninstall_file(contents);
    assert_eq!(paths, vec!["include/this/1".to_string(), "include/this/2".to_string()]);
}

#[test]
fn uninstall_file_skips_comments_blanks_and_long_lines() {
    let contents = "# head\n\n  a/b  \nx c/d\none two three four\n\t# Copied! \t755\ne f g\n";
    assert_eq!(parse_uninstall_file(contents), strings(&["a/b", "c/d", "f"]));
    assert_eq!(oversized_lines(contents), vec![4]);
    assert_eq!(parse_uninstall_file(""), Vec::<String>::new());
    assert_eq!(oversized_lines("a b c d e\n# a b c d e\nf g h i"), vec![5, 4]);
}

#[test]
fn record_of_a_run_reads_back_as_its_destinations() {
    let f = file("644");
    let mut old: Vec<String> = Vec::new();
    let log = f
        .execute(
            true,
            &mut old,
            &vec![report("/m/src/a.txt", false, None), report("/m/src/b.txt", true, None)],
        )
        .unwrap();
    assert_eq!(parse_uninstall_file(&log), strings(&["/dst/a.txt", "/dst/b.txt"]));
}

#[test]
fn check_old_files() {
    let f = InstallAction::File(file(""));
    let d = InstallAction::Dir(InstallDir::new("/etc/mythos/test2".to_string(), String::new()));
    let mut old_files =
        parse_uninstall_file("/dst/a.txt\nthis/file/should/be/here\n/etc/mythos/test2\n");
    let seen = Observation {
        kind: PathKind::Missing,
        create_error: None,
        copies: vec![report("/m/src/a.txt", false, None)],
    };
    f.execute(true, &mut old_files, &seen).unwrap();
    d.execute(true, &mut old_files, &seen).unwrap();
    assert_eq!(old_files, vec!["this/file/should/be/here".to_string()]);
}

#[test]
fn orphans_are_what_no_action_claims() {
    let f = file("");
    let mut old = strings(&["/dst/A", "/dst/B", "/dst/C"]);
    f.execute(
        false,
        &mut old,
        &vec![report("/m/src/A", true, None), report("/m/src/C", false, None)],
    )
    .unwrap();
    assert_eq!(old, strings(&["/dst/B"]));
    assert_eq!(orphans(false, true, old.clone()), strings(&["/dst/B"]));
    assert_eq!(orphans(true, true, old.clone()), Vec::<String>::new());
    assert_eq!(orphans(false, false, old.clone()), Vec::<String>::new());
    assert_eq!(orphans(true, false, old), Vec::<String>::new());
}

#[test]
fn claim_compares_paths_by_components() {
    let mut old = strings(&["/dst/a", "/dst//a", "/dst/a/", "/dst/b", "/dst/./a", "dst/a"]);
    claim(&mut old, "/dst/a");
    assert_eq!(old, strings(&["/dst/b", "dst/a"]));
    claim(&mut old, "/dst/a");
    assert_eq!(old, strings(&["/dst/b", "dst/a"]));
}

#[test]
fn sources_with_underscore_or_dot_need_their_flag() {
    let matches = strings(&["/m/src/a.txt", "/m/src/_b.txt", "/m/src/.c.txt", "/m/src/.."]);
    assert_eq!(file("").get_targets(&matches), strings(&["/m/src/a.txt"]));
    assert_eq!(file("_").get_targets(&matches), strings(&["/m/src/a.txt", "/m/src/_b.txt"]));
    assert_eq!(file(".").get_targets(&matches), strings(&["/m/src/a.txt", "/m/src/.c.txt"]));
    assert_eq!(
        file("_.").get_targets(&matches),
        strings(&["/m/src/a.txt", "/m/src/_b.txt", "/m/src/.c.txt"])
    );
    assert_eq!(file("_.").get_targets(&Vec::new()), Vec::<String>::new());
}

#[test]
fn destination_keeps_or_strips_the_extension() {
    assert_eq!(file("").dest_path("/m/src/a.tar.gz"), Some("/dst/a.tar.gz".to_string()));
    assert_eq!(file("e").dest_path("/m/src/a.tar.gz"), Some("/dst/a.tar".to_string()));
    assert_eq!(file("e").dest_path("/m/src/run.sh"), Some("/dst/run".to_string()));
    assert_eq!(file("e").dest_path("/m/src/.profile"), Some("/dst/.profile".to_string()));
    assert_eq!(file("").dest_path("/m/src/.."), None);
    assert_eq!(file("").dest_path("/"), None);
}

#[test]
fn glob_pattern_is_the_joined_target() {
    assert_eq!(file("").glob_pattern(), Some("/m/src/*".to_string()));
    let f = InstallFile::new("/m/src".to_string(), "a[", "/dst".to_string(), file("").get_opts());
    assert_eq!(f.glob_pattern(), None);
    let f = InstallFile::new("/m/src".to_string(), "a***", "/dst".to_string(), file("").get_opts());
    assert_eq!(f.glob_pattern(), None);
    let f = InstallFile::new("/m/src".to_string(), "", "/dst".to_string(), file("").get_opts());
    assert_eq!(f.glob_pattern(), Some("/m/src/".to_string()));
}

#[test]
fn copy_is_ordered_only_where_allowed() {
    assert!(file("").should_copy(false, false));
    assert!(!file("").should_copy(false, true));
    assert!(file("o").should_copy(false, true));
    assert!(!file("o").should_copy(true, true));
    assert!(!file("o").should_copy(true, false));
    assert!(!file("").should_copy(true, false));
}

#[test]
fn file_log_has_one_entry_for_each_source() {
    let mut old: Vec<String> = Vec::new();
    let log = file("755")
        .execute(
            false,
            &mut old,
            &vec![
                report("/m/src/a.txt", false, None),
                report("/m/src/b.txt", true, None),
                report("/m/src/c.txt", false, Some("disk \"full\"")),
            ],
        )
        .unwrap();
    assert_eq!(
        log,
        "/dst/a.txt\n\t# Copied! \t755\n\
         /dst/b.txt\n\t# Did not copy: File exists && !overwrite\n\
         /dst/c.txt\n\t# Did not copy. Error: disk \"full\"\n"
    );
    let log = file("o640e")
        .execute(false, &mut old, &vec![report("/m/src/b.txt", true, None)])
        .unwrap();
    assert_eq!(log, "/dst/b\n\t# Copied! File was overwritten.\t640\n");
    let log = file("").execute(false, &mut old, &vec![report("/m/src/b", false, None)]).unwrap();
    assert_eq!(log, "/dst/b\n\t# Copied! \t0\n");
    let log = file("").execute(false, &mut old, &Vec::new()).unwrap();
    assert_eq!(log, "");
}

#[test]
fn dry_run_log_ignores_copy_errors() {
    let mut old: Vec<String> = Vec::new();
    let log = file("o7")
        .execute(true, &mut old, &vec![report("/m/src/a", true, Some("never tried"))])
        .unwrap();
    assert_eq!(log, "/dst/a\n\t# Copied! File was overwritten.\t7\n");
}

#[test]
fn directory_is_created_once() {
    let d = InstallDir::new("/etc/mythos/unit".to_string(), String::new());
    let mut old = strings(&["/etc/mythos/unit", "/x"]);
    assert!(d.should_create(false, PathKind::Missing));
    assert!(d.should_create(false, PathKind::Other));
    assert_eq!(
        d.execute(false, &mut old, PathKind::Missing, &None),
        Ok("/etc/mythos/unit\n\t# Created directory!\n".to_string())
    );
    assert_eq!(old, strings(&["/x"]));
    assert!(!d.should_create(false, PathKind::Dir));
    assert_eq!(
        d.execute(false, &mut old, PathKind::Dir, &None),
        Ok("/etc/mythos/unit\n\t# Did not create: Directory exists.\n".to_string())
    );
    assert_eq!(
        d.execute(true, &mut old, PathKind::Dir, &None),
        Ok("/etc/mythos/unit\n\t# Did not create: Directory exists.\n".to_string())
    );
    assert_eq!(old, strings(&["/x"]));
}

#[test]
fn directory_conflicts_and_failures() {
    let d = InstallDir::new("/etc/mythos/unit".to_string(), String::new());
    let mut old = strings(&["/etc/mythos/unit/"]);
    assert!(!d.should_create(false, PathKind::File));
    assert!(!d.should_create(true, PathKind::Missing));
    assert_eq!(
        d.execute(false, &mut old, PathKind::File, &None),
        Ok("/etc/mythos/unit\n\t# Did not create: File exists with that name.\n".to_string())
    );
    assert_eq!(old, Vec::<String>::new());
    assert_eq!(
        d.execute(true, &mut old, PathKind::Missing, &None),
        Ok("/etc/mythos/unit\n\t# \n".to_string())
    );
    assert_eq!(
        d.execute(false, &mut old, PathKind::Missing, &Some("denied".to_string())),
        Err("CHARON (Error): Could not create dir \"/etc/mythos/unit\". Error: denied".to_string())
    );
}

#[test]
fn record_names_and_text() {
    assert_eq!(record_file_name("unit", false), "unit.charon");
    assert_eq!(record_file_name("unit", true), "unit.dryrun.charon");
    assert_eq!(baseline_file_name("unit", true, true), Some("unit.charon".to_string()));
    assert_eq!(baseline_file_name("unit", true, false), Some("unit.charon".to_string()));
    assert_eq!(baseline_file_name("unit", false, true), Some("unit.dryrun.charon".to_string()));
    assert_eq!(baseline_file_name("unit", false, false), None);
    let results = vec![
        Ok("a\n\t# Copied! \t0\n".to_string()),
        Err("failed".to_string()),
        Ok("b\n\t# Created directory!\n".to_string()),
    ];
    assert_eq!(record_text(&results), "a\n\t# Copied! \t0\nb\n\t# Created directory!\n");
    assert_eq!(record_text(&Vec::new()), "");
}

#[test]
fn a_run_gives_each_result_and_the_orphans() {
    let actions = vec![
        InstallAction::Dir(InstallDir::new("/etc/mythos/unit".to_string(), String::new())),
        InstallAction::File(file("o600")),
        InstallAction::Dir(InstallDir::new("/var/unit".to_string(), String::new())),
    ];
    let seen = vec![
        Observation { kind: PathKind::Dir, create_error: None, copies: Vec::new() },
        Observation {
            kind: PathKind::Missing,
            create_error: None,
            copies: vec![report("/m/src/A", true, None), report("/m/src/C", false, None)],
        },
        Observation {
            kind: PathKind::Missing,
            create_error: Some("denied".to_string()),
            copies: Vec::new(),
        },
    ];
    let mut old = strings(&["/dst/A", "/dst/B", "/etc/mythos/unit", "/dst/C", "/var/unit"]);
    let results = charon::engine::execute_actions(&actions, false, &mut old, &seen);
    assert_eq!(
        results,
        vec![
            Ok("/etc/mythos/unit\n\t# Did not create: Directory exists.\n".to_string()),
            Ok("/dst/A\n\t# Copied! File was overwritten.\t600\n/dst/C\n\t# Copied! \t600\n"
                .to_string()),
            Err("CHARON (Error): Could not create dir \"/var/unit\". Error: denied".to_string()),
        ]
    );
    assert_eq!(old, strings(&["/dst/B"]));
    assert_eq!(
        parse_uninstall_file(&record_text(&results)),
        strings(&["/etc/mythos/unit", "/dst/A", "/dst/C"])
    );

    let mut old = strings(&["/dst/A", "/etc/mythos/unit"]);
    let results = charon::engine::execute_actions(&actions, true, &mut old, &seen[..1].to_vec());
    assert_eq!(results.len(), 1);
    assert_eq!(old, strings(&["/dst/A"]));
}
