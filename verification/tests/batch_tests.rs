use fencryption::actions::{ActionError, Failure};
use fencryption::batch::{
    headline, line_kind, outcome_of, BatchItem, BatchReport, Job, Outcome, PathState, ReportLine,
    Status, Task, Verb,
};
use fencryption::commands::decrypt;
use fencryption::commands::encrypt;
use fencryption::commands::{any_missing, check_key, check_keys, state_at};
use fencryption::log::LogKind;

fn strings(items: &[&str]) -> Vec<String> {
    items.iter().map(|s| s.to_string()).collect()
}

fn enc(paths: &[&str], output: Option<&str>, overwrite: bool, delete: bool) -> encrypt::Command {
    encrypt::Command {
        paths: strings(paths),
        output_path: output.map(|s| s.to_string()),
        overwrite,
        delete_original: delete,
        debug: false,
    }
}

fn dec(paths: &[&str], output: Option<&str>) -> decrypt::Command {
    decrypt::Command {
        paths: strings(paths),
        output_path: output.map(|s| s.to_string()),
        overwrite: false,
        debug: false,
    }
}

fn job(task: Task, source: &str, destination: &str, delete_original: bool) -> Job {
    Job { task, source: source.to_string(), destination: destination.to_string(), delete_original }
}

fn line(kind: LogKind, text: &str) -> ReportLine {
    ReportLine { kind, text: text.to_string() }
}

#[test]
fn encrypt_needs_a_path() {
    let error = encrypt::execute(&enc(&[], None, false, false), &vec![], false).unwrap_err();
    assert_eq!(error, ActionError::new(Failure::NoPaths));
}

#[test]
fn encrypt_needs_every_path_to_exist() {
    let states = vec![PathState::File, PathState::Missing, PathState::Directory];
    let error =
        encrypt::execute(&enc(&["a", "b", "c"], None, false, false), &states, false).unwrap_err();
    assert_eq!(error.failure, Failure::MissingPath);
}

#[test]
fn encrypt_counts_unknown_paths_as_missing() {
    let error = encrypt::execute(&enc(&["a", "b"], None, false, false), &vec![PathState::File], false)
        .unwrap_err();
    assert_eq!(error.failure, Failure::MissingPath);
}

#[test]
fn encrypt_allows_an_output_path_for_one_input_only() {
    let states = vec![PathState::File, PathState::File];
    let error =
        encrypt::execute(&enc(&["a", "b"], Some("o"), false, false), &states, false).unwrap_err();
    assert_eq!(error.failure, Failure::OutputWithManyInputs);
}

#[test]
fn encrypt_protects_an_existing_output() {
    let states = vec![PathState::File];
    let error = encrypt::execute(&enc(&["a"], Some("o"), false, false), &states, true).unwrap_err();
    assert_eq!(error.failure, Failure::OutputExists);
    let jobs = encrypt::execute(&enc(&["a"], Some("o"), true, false), &states, true).unwrap();
    assert_eq!(jobs, vec![job(Task::EncryptFile, "a", "o", false)]);
    let jobs = encrypt::execute(&enc(&["a"], Some("o"), false, false), &states, false).unwrap();
    assert_eq!(jobs, vec![job(Task::EncryptFile, "a", "o", false)]);
}

#[test]
fn encrypt_checks_in_order() {
    let missing = vec![PathState::Missing, PathState::File];
    let error =
        encrypt::execute(&enc(&["a", "b"], Some("o"), false, false), &missing, true).unwrap_err();
    assert_eq!(error.failure, Failure::MissingPath);
}

#[test]
fn encrypt_plans_one_job_for_each_path_in_order() {
    let states = vec![PathState::File, PathState::Directory, PathState::Other, PathState::File];
    let jobs = encrypt::execute(
        &enc(&["notes.txt", "docs/", "/dev/null", "x/y"], None, false, true),
        &states,
        false,
    )
    .unwrap();
    assert_eq!(
        jobs,
        vec![
            job(Task::EncryptFile, "notes.txt", "notes.txt.enc", false),
            job(Task::PackDirectory, "docs/", "docs.pack", true),
            job(Task::Skip, "/dev/null", "/dev/null.enc", false),
            job(Task::EncryptFile, "x/y", "x/y.enc", false),
        ]
    );
}

#[test]
fn encrypt_keeps_directories_unless_asked() {
    let jobs =
        encrypt::execute(&enc(&["docs"], None, false, false), &vec![PathState::Directory], false)
            .unwrap();
    assert_eq!(jobs, vec![job(Task::PackDirectory, "docs", "docs.pack", false)]);
    assert_eq!(
        encrypt::plan(&"docs".to_string(), PathState::Directory, &None, true),
        job(Task::PackDirectory, "docs", "docs.pack", true)
    );
}

#[test]
fn decrypt_checks_its_request() {
    assert_eq!(
        decrypt::execute(&dec(&[], None), &vec![]).unwrap_err().failure,
        Failure::NoPaths
    );
    assert_eq!(
        decrypt::execute(&dec(&["a"], None), &vec![PathState::Missing]).unwrap_err().failure,
        Failure::MissingPath
    );
    assert_eq!(
        decrypt::execute(&dec(&["a", "b"], Some("o")), &vec![PathState::File, PathState::File])
            .unwrap_err()
            .failure,
        Failure::OutputWithManyInputs
    );
}

#[test]
fn decrypt_plans_one_job_for_each_path_in_order() {
    let states = vec![PathState::File, PathState::File, PathState::Directory, PathState::File];
    let jobs =
        decrypt::execute(&dec(&["notes.txt.enc", "docs.pack", "dir", "raw"], None), &states)
            .unwrap();
    assert_eq!(
        jobs,
        vec![
            job(Task::DecryptFile, "notes.txt.enc", "notes.txt", false),
            job(Task::UnpackPack, "docs.pack", "docs", false),
            job(Task::Skip, "dir", "dir.dec", false),
            job(Task::DecryptFile, "raw", "raw.dec", false),
        ]
    );
    assert_eq!(
        decrypt::plan(&"docs.pack".to_string(), PathState::File, &Some("out".to_string())),
        job(Task::UnpackPack, "docs.pack", "out", false)
    );
}

#[test]
fn key_checks() {
    assert_eq!(check_key("k"), Ok(()));
    assert_eq!(check_key(""), Err(ActionError::new(Failure::EmptyKey)));
    assert_eq!(check_keys(&"k".to_string(), &"k".to_string()), Ok(()));
    assert_eq!(
        check_keys(&"k".to_string(), &"j".to_string()),
        Err(ActionError::new(Failure::KeysDiffer))
    );
    assert_eq!(
        check_keys(&"".to_string(), &"".to_string()),
        Err(ActionError::new(Failure::EmptyKey))
    );
    assert_eq!(
        check_keys(&"".to_string(), &"x".to_string()),
        Err(ActionError::new(Failure::KeysDiffer))
    );
}

#[test]
fn states_default_to_missing() {
    let states = vec![PathState::File, PathState::Other];
    assert_eq!(state_at(&states, 1), PathState::Other);
    assert_eq!(state_at(&states, 2), PathState::Missing);
    assert!(!any_missing(&states, 2));
    assert!(any_missing(&states, 3));
    assert!(!any_missing(&states, 0));
}

#[test]
fn record_classifies_each_job() {
    let mut report = BatchReport::new();
    report.record(&job(Task::EncryptFile, "a", "a.enc", false), Ok(()));
    report.record(&job(Task::Skip, "b", "b.enc", false), Ok(()));
    report.record(
        &job(Task::PackDirectory, "c", "c.pack", false),
        Err(ActionError::new(Failure::CreatePack)),
    );
    report.record(&job(Task::Skip, "d", "d.enc", false), Err(ActionError::new(Failure::ReadFile)));
    assert_eq!(
        report.items,
        vec![
            BatchItem { path: "a".to_string(), status: Status::Success { output: "a.enc".to_string() } },
            BatchItem { path: "b".to_string(), status: Status::Skipped },
            BatchItem {
                path: "c".to_string(),
                status: Status::Failed { error: ActionError::new(Failure::CreatePack) }
            },
            BatchItem { path: "d".to_string(), status: Status::Skipped },
        ]
    );
    assert_eq!(report.counts(), (1, 2, 1));
    assert_eq!(report.count(Outcome::Skipped), 2);
}

#[test]
fn counts_add_up_to_the_number_of_paths() {
    let paths = ["f1", "d1", "odd", "f2", "d2", "f3"];
    let states = vec![
        PathState::File,
        PathState::Directory,
        PathState::Other,
        PathState::File,
        PathState::Directory,
        PathState::File,
    ];
    let jobs = encrypt::execute(&enc(&paths, None, false, false), &states, false).unwrap();
    let mut report = BatchReport::new();
    for (i, job) in jobs.iter().enumerate() {
        let result = if i % 2 == 0 { Ok(()) } else { Err(ActionError::new(Failure::EncryptFile)) };
        report.record(job, result);
    }
    let (success, skipped, failed) = report.counts();
    assert_eq!(success + skipped + failed, paths.len());
    assert_eq!((success, skipped, failed), (2, 1, 3));
    let recorded: Vec<&str> = report.items.iter().map(|item| item.path.as_str()).collect();
    assert_eq!(recorded, paths.to_vec());
}

#[test]
fn outcome_and_line_kind() {
    assert_eq!(outcome_of(&Status::Skipped), Outcome::Skipped);
    assert_eq!(outcome_of(&Status::Success { output: String::new() }), Outcome::Success);
    assert_eq!(
        outcome_of(&Status::Failed { error: ActionError::new(Failure::ReadFile) }),
        Outcome::Failed
    );
    assert_eq!(line_kind(Outcome::Success), LogKind::Success);
    assert_eq!(line_kind(Outcome::Skipped), LogKind::Info);
    assert_eq!(line_kind(Outcome::Failed), LogKind::Error);
}

#[test]
fn headlines() {
    assert_eq!(headline(Verb::Encrypt, Outcome::Success, 3, "2s 0ms"), "Encrypted 3 files in 2s 0ms");
    assert_eq!(headline(Verb::Decrypt, Outcome::Success, 1, "0ms"), "Decrypted 1 files in 0ms");
    assert_eq!(headline(Verb::Encrypt, Outcome::Failed, 2, ""), "Failed to encrypt 2 files");
    assert_eq!(headline(Verb::Decrypt, Outcome::Failed, 10, ""), "Failed to decrypt 10 files");
    assert_eq!(headline(Verb::Encrypt, Outcome::Skipped, 1, ""), "1 entry were skipped (unknown type)");
    assert_eq!(
        headline(Verb::Encrypt, Outcome::Skipped, 2, ""),
        "2 entries were skipped (unknown type)"
    );
}

fn mixed_report() -> BatchReport {
    let mut report = BatchReport::new();
    report.record(&job(Task::EncryptFile, "a", "a.enc", false), Ok(()));
    report.record(&job(Task::Skip, "odd", "", false), Ok(()));
    report.record(&job(Task::EncryptFile, "b", "b.enc", false), Err(ActionError::new(Failure::ReadFile)));
    report.record(&job(Task::PackDirectory, "c", "c.pack", false), Ok(()));
    report
}

#[test]
fn summary_without_details() {
    assert_eq!(
        mixed_report().summary(Verb::Encrypt, 125_000, false),
        vec![
            line(LogKind::Success, "Encrypted 2 files in 2m 5s 0ms"),
            line(LogKind::Error, "Failed to encrypt 1 files"),
            line(LogKind::Info, "1 entry were skipped (unknown type)"),
        ]
    );
}

#[test]
fn summary_with_details() {
    assert_eq!(
        mixed_report().summary_with(Verb::Decrypt, "5s 0ms", true),
        vec![
            line(LogKind::Success, "Decrypted 2 files in 5s 0ms"),
            line(LogKind::Success, "     a"),
            line(LogKind::Success, "     c"),
            line(LogKind::Error, "Failed to decrypt 1 files"),
            line(LogKind::Error, "     b"),
            line(LogKind::Info, "1 entry were skipped (unknown type)"),
            line(LogKind::Info, "     odd"),
        ]
    );
}

#[test]
fn summary_leaves_out_empty_sections() {
    let mut report = BatchReport::new();
    assert_eq!(report.summary(Verb::Encrypt, 0, true), vec![]);
    report.record(&job(Task::Skip, "x", "", false), Ok(()));
    report.record(&job(Task::Skip, "y", "", false), Ok(()));
    assert_eq!(
        report.summary(Verb::Encrypt, 0, false),
        vec![line(LogKind::Info, "2 entries were skipped (unknown type)")]
    );
}

#[test]
fn summary_formats_the_elapsed_time() {
    let mut report = BatchReport::new();
    report.record(&job(Task::DecryptFile, "a.enc", "a", false), Ok(()));
    assert_eq!(
        report.summary(Verb::Decrypt, 30_005, false),
        vec![line(LogKind::Success, "Decrypted 1 files in 30s 5ms")]
    );
    assert_eq!(
        report.summary(Verb::Decrypt, 0, false),
        vec![line(LogKind::Success, "Decrypted 1 files in 0ms")]
    );
}
