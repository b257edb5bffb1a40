use fencryption::actions::{ActionError, ErrorKind, Failure};
use fencryption::commands::unpack::{action, Command, Event, Phase, Step};

fn args(path: &str) -> Command {
    Command { path: path.to_string(), overwrite: false, debug: false }
}

fn run(command: &Command, events: Vec<Event>) -> Vec<Step> {
    let mut steps = Vec::new();
    let mut phase = Phase::Start;
    for event in events {
        let (next, step) = action(command, phase, event);
        phase = next;
        steps.push(step);
    }
    steps
}

fn remove(directory: &str) -> Step {
    Step::RemoveDirectory { directory: directory.to_string() }
}

fn failed(failure: Failure) -> Event {
    Event::Failed(ActionError::new_with_error(failure, "cause".to_string()))
}

fn fail(failure: Failure) -> Step {
    Step::Fail(ActionError::new_with_error(failure, "cause".to_string()))
}

fn absent() -> Event {
    Event::Target { present: false, empty: false }
}

#[test]
fn discarding_leaves_the_pack_alone() {
    let steps = run(
        &args("vault/docs.pack"),
        vec![
            Event::Begin,
            Event::Key("correct horse".to_string()),
            Event::Done,
            absent(),
            Event::Done,
            Event::Pressed('q'),
            Event::Done,
        ],
    );
    assert_eq!(
        steps,
        vec![
            Step::ReadKey,
            Step::Decrypt { pack: "vault/docs.pack".to_string() },
            Step::Inspect { directory: "docs".to_string() },
            Step::Unpack { directory: "docs".to_string() },
            Step::AwaitKey,
            remove("docs"),
            Step::Succeed,
        ]
    );
}

#[test]
fn any_key_but_u_discards() {
    for key in ['U', 'n', ' ', '\n', 'ü', '\u{1b}'] {
        let (phase, step) = action(&args("docs.pack"), Phase::Open, Event::Pressed(key));
        assert_eq!(phase, Phase::Cleaning);
        assert_eq!(step, remove("docs"));
    }
}

#[test]
fn updating_reseals_in_order() {
    let steps = run(
        &args("docs.pack"),
        vec![
            Event::Begin,
            Event::Key("k".to_string()),
            Event::Done,
            absent(),
            Event::Done,
            Event::Pressed('u'),
            Event::Done,
            Event::Done,
            Event::Done,
            Event::Done,
        ],
    );
    assert_eq!(
        steps,
        vec![
            Step::ReadKey,
            Step::Decrypt { pack: "docs.pack".to_string() },
            Step::Inspect { directory: "docs".to_string() },
            Step::Unpack { directory: "docs".to_string() },
            Step::AwaitKey,
            Step::Repack { directory: "docs".to_string() },
            Step::RemovePack { pack: "docs.pack".to_string() },
            Step::Encrypt { pack: "docs.pack".to_string() },
            remove("docs"),
            Step::Succeed,
        ]
    );
}

#[test]
fn existing_directory_is_protected() {
    let command = args("docs.pack");
    let (phase, step) =
        action(&command, Phase::Inspecting, Event::Target { present: true, empty: false });
    assert_eq!(phase, Phase::Finished);
    assert_eq!(step, Step::Fail(ActionError::new(Failure::TargetExists)));
    assert_eq!(ActionError::new(Failure::TargetExists).kind(), ErrorKind::OutputExists);
}

#[test]
fn existing_directory_may_be_empty_or_overwritten() {
    let (phase, step) =
        action(&args("docs.pack"), Phase::Inspecting, Event::Target { present: true, empty: true });
    assert_eq!(phase, Phase::Unpacking { created: false });
    assert_eq!(step, Step::Unpack { directory: "docs".to_string() });
    let command = Command { path: "docs.pack".to_string(), overwrite: true, debug: true };
    let (phase, step) =
        action(&command, Phase::Inspecting, Event::Target { present: true, empty: false });
    assert_eq!(phase, Phase::Unpacking { created: false });
    assert_eq!(step, Step::Unpack { directory: "docs".to_string() });
    let (phase, _) = action(&command, Phase::Inspecting, absent());
    assert_eq!(phase, Phase::Unpacking { created: true });
}

#[test]
fn empty_key_stops_the_command() {
    let steps = run(&args("docs.pack"), vec![Event::Begin, Event::Key(String::new())]);
    assert_eq!(steps[1], Step::Fail(ActionError::new(Failure::EmptyKey)));
}

#[test]
fn failures_while_opening_are_fatal() {
    let (phase, step) = action(&args("docs.pack"), Phase::ReadingKey, failed(Failure::ReadKey));
    assert_eq!((phase, step), (Phase::Finished, fail(Failure::ReadKey)));
    let (phase, step) = action(&args("docs.pack"), Phase::Decrypting, failed(Failure::DecryptPack));
    assert_eq!((phase, step), (Phase::Finished, fail(Failure::DecryptPack)));
    assert_eq!(ActionError::new(Failure::DecryptPack).kind(), ErrorKind::Authentication);
    let (phase, step) = action(&args("docs.pack"), Phase::Inspecting, failed(Failure::ReadPack));
    assert_eq!((phase, step), (Phase::Finished, fail(Failure::ReadPack)));
}

#[test]
fn failed_unpacking_removes_what_it_created_and_keeps_its_error() {
    let command = args("docs.pack");
    let (phase, step) =
        action(&command, Phase::Unpacking { created: true }, failed(Failure::Unpack));
    assert_eq!(step, remove("docs"));
    for outcome in [Event::Done, Event::NotFound, failed(Failure::RemoveOriginal)] {
        let (next, last) = action(&command, phase.clone(), outcome);
        assert_eq!(next, Phase::Finished);
        assert_eq!(last, fail(Failure::Unpack));
    }
}

#[test]
fn failed_unpacking_keeps_a_directory_that_was_there() {
    let (phase, step) =
        action(&args("docs.pack"), Phase::Unpacking { created: false }, failed(Failure::Unpack));
    assert_eq!((phase, step), (Phase::Finished, fail(Failure::Unpack)));
}

#[test]
fn pack_without_a_stem_has_no_working_directory() {
    let (phase, step) = action(&args(".."), Phase::Decrypting, Event::Done);
    assert_eq!(phase, Phase::Finished);
    assert_eq!(step, Step::Fail(ActionError::new(Failure::OutputPath)));
}

#[test]
fn failed_key_press_is_read_again() {
    let (phase, step) = action(&args("docs.pack"), Phase::Open, failed(Failure::ReadKey));
    assert_eq!((phase, step), (Phase::Open, Step::AwaitKey));
}

#[test]
fn failed_packing_keeps_pack_and_directory() {
    let command = args("docs.pack");
    let (phase, step) = action(&command, Phase::Open, Event::Pressed('u'));
    assert_eq!(step, Step::Repack { directory: "docs".to_string() });
    let (next, last) = action(&command, phase, failed(Failure::UpdatePack));
    assert_eq!((next, last), (Phase::Finished, fail(Failure::UpdatePack)));
}

#[test]
fn failures_while_resealing_keep_the_directory() {
    let command = args("docs.pack");
    for (phase, failure) in [
        (Phase::Repacking, Failure::UpdatePack),
        (Phase::RemovingPack, Failure::RemoveOutdatedPack),
        (Phase::Encrypting, Failure::EncryptUpdatedPack),
    ] {
        let (next, step) = action(&command, phase, failed(failure));
        assert_eq!(next, Phase::Finished);
        assert_eq!(step, fail(failure));
    }
}

#[test]
fn cleaning_tolerates_a_missing_directory() {
    let command = args("docs.pack");
    assert_eq!(action(&command, Phase::Cleaning, Event::NotFound), (Phase::Finished, Step::Succeed));
    assert_eq!(action(&command, Phase::Cleaning, Event::Done), (Phase::Finished, Step::Succeed));
    assert_eq!(
        action(&command, Phase::Cleaning, failed(Failure::RemoveOriginal)),
        (Phase::Finished, fail(Failure::RemoveOriginal))
    );
}

#[test]
fn events_out_of_turn_stop_the_command() {
    let command = args("docs.pack");
    let unexpected = (Phase::Finished, Step::Fail(ActionError::new(Failure::UnexpectedEvent)));
    assert_eq!(action(&command, Phase::Start, Event::Done), unexpected);
    assert_eq!(action(&command, Phase::Open, Event::Done), unexpected);
    assert_eq!(action(&command, Phase::Finished, Event::Begin), unexpected);
    assert_eq!(action(&command, Phase::Decrypting, Event::Pressed('u')), unexpected);
    assert_eq!(action(&command, Phase::Unpacking { created: true }, absent()), unexpected);
}
