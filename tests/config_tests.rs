use taskmaster::config::{
    default_autorestart, default_autostart, default_exitcodes, default_numprocs, default_startretries,
    default_starttime, default_stopsignal, default_stoptime, default_umask, default_workingdir, parse_umask,
    Autorestart, Config, Sigtype,
};

fn base(cmd: &str) -> Config {
    Config {
        cmd: cmd.to_string(),
        numprocs: default_numprocs(),
        umask: default_umask(),
        workingdir: default_workingdir(),
        autostart: default_autostart(),
        autorestart: default_autorestart(),
        exitcodes: default_exitcodes(),
        startretries: default_startretries(),
        starttime: default_starttime(),
        stopsignal: default_stopsignal(),
        stoptime: default_stoptime(),
        stdout: None,
        stderr: None,
        env: None,
    }
}

#[test]
fn defaults_match_documented_values() {
    assert_eq!(default_numprocs(), 1);
    assert_eq!(default_umask(), 0o022);
    assert_eq!(default_workingdir(), ".");
    assert!(default_autostart());
    assert_eq!(default_autorestart(), Autorestart::Unexpected);
    assert_eq!(default_exitcodes(), vec![0]);
    assert_eq!(default_startretries(), 3);
    assert_eq!(default_starttime(), 1);
    assert_eq!(default_stopsignal(), Sigtype::TERM);
    assert_eq!(default_stoptime(), 10);
}

#[test]
fn umask_parses_octal() {
    assert_eq!(parse_umask("022"), Some(18));
    assert_eq!(parse_umask("777"), Some(511));
    assert_eq!(parse_umask("0"), Some(0));
    assert_eq!(parse_umask("37777777777"), Some(u32::MAX));
}

#[test]
fn umask_rejects_non_octal() {
    assert_eq!(parse_umask(""), None);
    assert_eq!(parse_umask("8"), None);
    assert_eq!(parse_umask("02a"), None);
    assert_eq!(parse_umask("+7"), None);
    assert_eq!(parse_umask("é"), None);
    assert_eq!(parse_umask("40000000000"), None);
}

#[test]
fn signal_table_round_trips() {
    assert_eq!(Sigtype::TERM.code(), 15);
    assert_eq!(Sigtype::KILL.code(), 9);
    assert_eq!(Sigtype::SYS.code(), 31);
    assert_eq!(Sigtype::from(1), Sigtype::HUP);
    assert_eq!(Sigtype::from(15), Sigtype::TERM);
    assert_eq!(Sigtype::from(0), Sigtype::KILL);
    assert_eq!(Sigtype::from(64), Sigtype::KILL);
    assert_eq!(Sigtype::USR2.name(), "USR2");
    assert_eq!(Sigtype::VTALRM.name(), "VTALRM");
    for c in 1..=31 {
        assert_eq!(Sigtype::from(c).code(), c);
    }
}

#[test]
fn config_equal_to_itself() {
    let a = base("/bin/sleep 60");
    let b = base("/bin/sleep 60");
    assert!(a.same_as(&b));
}

#[test]
fn config_exitcodes_compare_as_sets() {
    let mut a = base("/bin/true");
    let mut b = base("/bin/true");
    a.exitcodes = vec![0, 2, 2];
    b.exitcodes = vec![2, 0];
    assert!(a.same_as(&b));
    b.exitcodes = vec![2];
    assert!(!a.same_as(&b));
}

#[test]
fn config_env_compares_without_order() {
    let mut a = base("/bin/true");
    let mut b = base("/bin/true");
    a.env = Some(vec![("A".to_string(), "1".to_string()), ("B".to_string(), "2".to_string())]);
    b.env = Some(vec![("B".to_string(), "2".to_string()), ("A".to_string(), "1".to_string())]);
    assert!(a.same_as(&b));
    b.env = Some(vec![("B".to_string(), "2".to_string()), ("A".to_string(), "3".to_string())]);
    assert!(!a.same_as(&b));
    b.env = None;
    assert!(!a.same_as(&b));
}

#[test]
fn config_differs_on_any_field() {
    let a = base("/bin/true");
    let mut b = base("/bin/true");
    b.numprocs = 2;
    assert!(!a.same_as(&b));
    let mut c = base("/bin/true");
    c.stdout = Some("/tmp/out".to_string());
    assert!(!a.same_as(&c));
    let d = base("/bin/false");
    assert!(!a.same_as(&d));
    let mut e = base("/bin/true");
    e.stopsignal = Sigtype::INT;
    assert!(!a.same_as(&e));
}

#[test]
fn env_names_must_be_unique() {
    let mut a = base("/bin/true");
    assert!(a.has_unique_env_names());
    a.env = Some(vec![("A".to_string(), "1".to_string()), ("B".to_string(), "1".to_string())]);
    assert!(a.has_unique_env_names());
    a.env = Some(vec![("A".to_string(), "1".to_string()), ("A".to_string(), "2".to_string())]);
    assert!(!a.has_unique_env_names());
}
