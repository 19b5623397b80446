use taskmaster::config::Configuration;
use taskmaster::config::AutoRestart;
use taskmaster::config::StopSignal;
use taskmaster::config::parse_octal_u32;
use taskmaster::config::validate_configurations;
use taskmaster::config::validate_umask;

fn named(name: &str, cfg: Configuration) -> Vec<(String, Configuration)> {
    vec![(name.to_string(), cfg)]
}

#[test]
fn cmd_empty_should_return_error() {
    let mut cfg = Configuration::default();
    cfg.cmd = String::new();

    let error = validate_configurations(&named("task1", cfg));

    assert!(error.is_some());
    assert_eq!("task1: \"cmd: can't be empty\"", error.unwrap());
}

#[test]
fn cmd_not_provided_should_return_error() {
    // a description whose command was never filled in keeps the default,
    // which is empty
    let cfg = Configuration::default();

    let error = validate_configurations(&named("task1", cfg));

    assert!(error.is_some());
    assert_eq!("task1: \"cmd: can't be empty\"", error.unwrap());
}

#[test]
fn only_cmd_cfg_should_put_default_values() {
    let mut cfg = Configuration::default();
    cfg.cmd = String::from("only_cmd_is_present");

    assert_eq!(cfg.cmd, "only_cmd_is_present");
    assert_eq!(cfg.num_procs, 1);
    assert_eq!(cfg.umask, 0o022);
    assert!(cfg.working_dir.is_none());
    assert!(cfg.auto_start);
    assert_eq!(cfg.auto_restart, AutoRestart::Unexpected);
    assert_eq!(cfg.exit_codes, vec![0]);
    assert_eq!(cfg.start_retries, 3);
    assert_eq!(cfg.start_time, 1);
    assert!(matches!(cfg.stop_signal, StopSignal::TERM));
    assert_eq!(cfg.stop_time, 10);
    assert!(cfg.stdout.is_none());
    assert!(cfg.stderr.is_none());
    assert!(cfg.env.is_empty());
}

#[test]
fn umask_unvalid_1_should_return_error() {
    let mut cfg = Configuration::default();
    cfg.cmd = String::from("cmd");
    cfg.umask = 0o1777;

    let error = validate_configurations(&named("task1", cfg));

    assert!(error.is_some());
    assert_eq!("task1: \"Invalid umask\"", error.unwrap());
}

#[test]
fn umask_unvalid_2_should_return_error() {
    // a mask that is not an octal numeral is rejected at the parse
    assert!(parse_octal_u32("abc").is_none());
    assert!(parse_octal_u32("98").is_none());
}

#[test]
fn parse_octal_reads_valid_masks() {
    assert_eq!(parse_octal_u32("777"), Some(0o777));
    assert_eq!(parse_octal_u32("22"), Some(0o22));
    assert_eq!(parse_octal_u32("0"), Some(0));
    assert_eq!(parse_octal_u32("022"), Some(0o22));
}

#[test]
fn parse_octal_rejects_empty_and_overflow() {
    assert!(parse_octal_u32("").is_none());
    assert!(parse_octal_u32("77777777777777777777").is_none());
    assert_eq!(parse_octal_u32("37777777777"), Some(u32::MAX));
    assert!(parse_octal_u32("40000000000").is_none());
}

#[test]
fn umask_validation_accepts_permission_bits_only() {
    assert!(validate_umask(0o777));
    assert!(validate_umask(0));
    assert!(validate_umask(0o022));
    assert!(!validate_umask(0o1000));
}

#[test]
fn replica_count_of_zero_is_rejected() {
    let mut cfg = Configuration::default();
    cfg.cmd = String::from("cmd");
    cfg.num_procs = 0;

    let error = validate_configurations(&named("task1", cfg));

    assert!(error.is_some());
    assert_eq!("task1: \"range\"", error.unwrap());
}

#[test]
fn first_failing_task_is_reported() {
    let mut good = Configuration::default();
    good.cmd = String::from("fine");
    let bad = Configuration::default();
    let specs = vec![
        ("task1".to_string(), good),
        ("task2".to_string(), bad),
    ];

    let error = validate_configurations(&specs);

    assert_eq!("task2: \"cmd: can't be empty\"", error.unwrap());
}

#[test]
fn valid_set_passes() {
    let mut cfg = Configuration::default();
    cfg.cmd = String::from("sleep 5");

    assert!(validate_configurations(&named("task1", cfg)).is_none());
}

#[test]
fn configuration_renders_as_json() {
    let mut cfg = Configuration::default();
    cfg.cmd = String::from("echo \"hi\"");
    cfg.working_dir = Some(String::from("/tmp"));
    cfg.env = vec![("KEY".to_string(), "value".to_string())];

    let json = cfg.to_json();

    assert_eq!(
        json,
        "{\"cmd\":\"echo \\\"hi\\\"\",\"num_procs\":1,\"umask\":18,\
         \"working_dir\":\"/tmp\",\"auto_start\":true,\"auto_restart\":\"unexpected\",\
         \"exit_codes\":[0],\"start_retries\":3,\"start_time\":1,\"stop_signal\":\"TERM\",\
         \"stop_time\":10,\"stdout\":null,\"stderr\":null,\"env\":{\"KEY\":\"value\"}}"
    );
}

#[test]
fn command_line_splits_into_words() {
    let mut cfg = Configuration::default();
    cfg.cmd = String::from("  while true;  do echo hi; done \t");
    assert_eq!(
        cfg.argv(),
        vec!["while", "true;", "do", "echo", "hi;", "done"]
    );

    cfg.cmd = String::from("true");
    assert_eq!(cfg.argv(), vec!["true"]);

    cfg.cmd = String::from("   ");
    assert!(cfg.argv().is_empty());
}

#[test]
fn signal_names_render() {
    assert_eq!(StopSignal::TERM.name(), "TERM");
    assert_eq!(StopSignal::KILL.name(), "KILL");
    assert_eq!(StopSignal::USR2.name(), "USR2");
    assert_eq!(StopSignal::OTHER("WINCH".to_string()).name(), "WINCH");
}
