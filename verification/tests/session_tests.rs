use blob_dl::errors::{classify, init_error_msg_lut, DownloadError};
use blob_dl::retry::{ask_for_redownload, resolve_retries, SELECT_ALL, SELECT_NOTHING};
use blob_dl::runner::{echo_for, run_command, Echo, RunLog, Verbosity};
use blob_dl::session::{run_and_observe, Action, Event, Stage};

const LINES: [&str; 6] = [
    "[youtube] Extracting URL",
    "ERROR: [youtube] aaa: Video unavailable",
    "[download]  42.0% of 10.00MiB",
    "ERROR: [youtube] bbb: Unable to download webpage: timed out",
    "ERROR: [youtube] ccc: <urlopen error [Errno -3] Temporary failure in name resolution>",
    "[download] ERROR: both markers",
];

fn errors_of_run() -> Vec<DownloadError> {
    let mut log = RunLog::new();
    for line in LINES.iter().take(5) {
        log.observe(line, &Verbosity::Quiet);
    }
    log.finish().unwrap()
}

#[test]
fn retry_all_leaves_out_the_unrecoverable() {
    let table = init_error_msg_lut();
    let errors = errors_of_run();
    assert_eq!(errors.len(), 3);
    let menu = ask_for_redownload(&errors, &table);
    assert_eq!(menu.unrecoverable.len(), 1);
    assert_eq!(menu.unrecoverable[0].video_id(), "aaa");
    assert_eq!(menu.recoverable.len(), 2);
    assert!(menu.needs_prompt());
    let targets = resolve_retries(&menu.recoverable, &vec![0]);
    assert_eq!(targets, vec!["bbb", "ccc"]);
}

#[test]
fn retry_list_has_two_fixed_lines_then_the_offered() {
    let menu = ask_for_redownload(&errors_of_run(), &init_error_msg_lut());
    assert_eq!(
        menu.options,
        vec![
            SELECT_ALL.to_string(),
            SELECT_NOTHING.to_string(),
            String::from("bbb: Unable to download webpage: timed out"),
            String::from("ccc: <urlopen error [Errno -3] Temporary failure in name resolution>"),
        ]
    );
}

#[test]
fn picks_are_resolved_in_their_order() {
    let menu = ask_for_redownload(&errors_of_run(), &init_error_msg_lut());
    let offered = &menu.recoverable;
    assert_eq!(resolve_retries(offered, &vec![]), Vec::<String>::new());
    assert_eq!(resolve_retries(offered, &vec![1]), Vec::<String>::new());
    assert_eq!(resolve_retries(offered, &vec![1, 2, 3]), Vec::<String>::new());
    assert_eq!(resolve_retries(offered, &vec![0, 1]), vec!["bbb", "ccc"]);
    assert_eq!(resolve_retries(offered, &vec![3, 0]), vec!["bbb", "ccc"]);
    assert_eq!(resolve_retries(offered, &vec![2]), vec!["bbb"]);
    assert_eq!(resolve_retries(offered, &vec![3]), vec!["ccc"]);
    assert_eq!(resolve_retries(offered, &vec![3, 2, 3]), vec!["ccc", "bbb", "ccc"]);
    assert_eq!(resolve_retries(offered, &vec![4, 2, usize::MAX]), vec!["bbb"]);
    assert_eq!(resolve_retries(&vec![], &vec![0]), Vec::<String>::new());
}

#[test]
fn no_recoverable_error_means_no_prompt() {
    let table = init_error_msg_lut();
    let errors = vec![
        classify("ERROR: [youtube] a: Private video").unwrap(),
        classify("ERROR: [youtube] b: Video unavailable").unwrap(),
    ];
    let menu = ask_for_redownload(&errors, &table);
    assert!(!menu.needs_prompt());
    assert_eq!(menu.options.len(), 2);
    assert_eq!(menu.unrecoverable, errors);
    assert_eq!(resolve_retries(&menu.recoverable, &vec![0]).len(), 0);

    let none = ask_for_redownload(&vec![], &table);
    assert!(!none.needs_prompt());
    assert!(none.unrecoverable.is_empty());
}

#[test]
fn echo_depends_on_verbosity() {
    let quiet: Vec<Echo> = LINES.iter().map(|l| echo_for(l, &Verbosity::Quiet)).collect();
    assert_eq!(quiet, vec![Echo::Silent; 6]);
    let default: Vec<Echo> = LINES.iter().map(|l| echo_for(l, &Verbosity::Default)).collect();
    assert_eq!(
        default,
        vec![Echo::Silent, Echo::Highlighted, Echo::Plain, Echo::Highlighted, Echo::Highlighted, Echo::Plain]
    );
    let verbose: Vec<Echo> = LINES.iter().map(|l| echo_for(l, &Verbosity::Verbose)).collect();
    assert_eq!(
        verbose,
        vec![Echo::Plain, Echo::Highlighted, Echo::Plain, Echo::Highlighted, Echo::Highlighted, Echo::Highlighted]
    );
}

#[test]
fn errors_are_recorded_whatever_the_verbosity() {
    let lines: Vec<String> = LINES.iter().map(|l| l.to_string()).collect();
    let (_, quiet) = run_command(&lines, &Verbosity::Quiet);
    let (_, default) = run_command(&lines, &Verbosity::Default);
    let (echoes, verbose) = run_command(&lines, &Verbosity::Verbose);
    assert_eq!(quiet, default);
    assert_eq!(default, verbose);
    let errors = quiet.unwrap();
    assert_eq!(errors.len(), 4);
    assert_eq!(errors[0].video_id(), "aaa");
    assert_eq!(errors[3].error_msg(), "both markers");
    assert_eq!(echoes.len(), 6);
}

#[test]
fn run_without_errors_reports_nothing() {
    let lines = vec![String::from("[download] 100%"), String::from("done")];
    let (echoes, errors) = run_command(&lines, &Verbosity::Default);
    assert_eq!(errors, None);
    assert_eq!(echoes, vec![Echo::Plain, Echo::Silent]);
    assert_eq!(RunLog::new().finish(), None);
    assert_eq!(run_command(&vec![], &Verbosity::Verbose), (vec![], None));
}

#[test]
fn run_log_says_how_to_show_each_line() {
    let mut log = RunLog::new();
    assert_eq!(log.observe(LINES[1], &Verbosity::Default), Echo::Highlighted);
    assert_eq!(log.observe(LINES[2], &Verbosity::Default), Echo::Plain);
    assert_eq!(log.observe(LINES[0], &Verbosity::Default), Echo::Silent);
    assert_eq!(log.finish().unwrap().len(), 1);
}

fn launched(action: &Action) -> String {
    match action {
        Action::Launch { item } => item.clone(),
        _ => panic!("expected a launch"),
    }
}

#[test]
fn session_retries_each_chosen_item_once() {
    let table = init_error_msg_lut();
    let (stage, action) = run_and_observe(Stage::FirstPass, Event::RunEnded(Some(errors_of_run())), &table);
    match &action {
        Action::Ask { unrecoverable, options } => {
            assert_eq!(unrecoverable.len(), 1);
            assert_eq!(options.len(), 4);
        }
        _ => panic!("expected a question"),
    }
    let (stage, action) = run_and_observe(stage, Event::Chosen(vec![0]), &table);
    assert_eq!(launched(&action), "bbb");
    // The retried run fails again: the failure is not offered a second time.
    let again = Some(vec![classify("ERROR: [youtube] bbb: timed out").unwrap()]);
    let (stage, action) = run_and_observe(stage, Event::RunEnded(again), &table);
    assert_eq!(launched(&action), "ccc");
    let (stage, action) = run_and_observe(stage, Event::RunEnded(None), &table);
    assert!(matches!(action, Action::Stop));
    assert!(matches!(stage, Stage::Finished));
    let (stage, action) = run_and_observe(stage, Event::RunEnded(Some(errors_of_run())), &table);
    assert!(matches!(action, Action::Stop));
    assert!(matches!(stage, Stage::Finished));
}

#[test]
fn session_ends_after_a_clean_run() {
    let table = init_error_msg_lut();
    let (stage, action) = run_and_observe(Stage::FirstPass, Event::RunEnded(None), &table);
    assert!(matches!(stage, Stage::Finished));
    assert!(matches!(action, Action::Stop));
    let (stage, action) = run_and_observe(Stage::FirstPass, Event::RunEnded(Some(vec![])), &table);
    assert!(matches!(stage, Stage::Finished));
    assert!(matches!(action, Action::Stop));
}

#[test]
fn session_only_reports_what_cannot_be_retried() {
    let table = init_error_msg_lut();
    let errors = vec![classify("ERROR: [youtube] a: Private video").unwrap()];
    let (stage, action) = run_and_observe(Stage::FirstPass, Event::RunEnded(Some(errors.clone())), &table);
    assert!(matches!(stage, Stage::Finished));
    match action {
        Action::Report { unrecoverable } => assert_eq!(unrecoverable, errors),
        _ => panic!("expected a report"),
    }
}

#[test]
fn session_ends_on_retry_none_and_on_single_picks() {
    let table = init_error_msg_lut();
    let (stage, _) = run_and_observe(Stage::FirstPass, Event::RunEnded(Some(errors_of_run())), &table);
    let (stage, action) = run_and_observe(stage, Event::Chosen(vec![1, 2]), &table);
    assert!(matches!(stage, Stage::Finished));
    assert!(matches!(action, Action::Stop));

    let (stage, _) = run_and_observe(Stage::FirstPass, Event::RunEnded(Some(errors_of_run())), &table);
    let (stage, action) = run_and_observe(stage, Event::Chosen(vec![3]), &table);
    assert_eq!(launched(&action), "ccc");
    let (stage, action) = run_and_observe(stage, Event::RunEnded(None), &table);
    assert!(matches!(stage, Stage::Finished));
    assert!(matches!(action, Action::Stop));
}

#[test]
fn session_ends_on_an_event_it_does_not_wait_for() {
    let table = init_error_msg_lut();
    let (stage, action) = run_and_observe(Stage::FirstPass, Event::Chosen(vec![0]), &table);
    assert!(matches!(stage, Stage::Finished));
    assert!(matches!(action, Action::Stop));
    let waiting = Stage::AwaitingChoice { offered: errors_of_run() };
    let (stage, action) = run_and_observe(waiting, Event::RunEnded(None), &table);
    assert!(matches!(stage, Stage::Finished));
    assert!(matches!(action, Action::Stop));
    let past = Stage::Retrying { targets: vec![String::from("a")], next: 7 };
    let (stage, action) = run_and_observe(past, Event::RunEnded(None), &table);
    assert!(matches!(stage, Stage::Finished));
    assert!(matches!(action, Action::Stop));
}
