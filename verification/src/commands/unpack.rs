//! The `unpack` command: a pack is opened into a working directory, the
//! user edits what is in it, and one key press decides whether the pack is
//! sealed again from the directory or the directory is thrown away.
//!
//! The command is a state machine. Its caller performs each step and hands
//! back what happened; `action` says what comes next.
//!
//! Nothing is removed before what replaces it is there: the pack file goes
//! only when the new container is made, the working directory only when the
//! new pack is written. A directory that was there before the command is
//! never removed on its failure.

use crate::actions::{ActionError, Failure};
use crate::container::check_target;
use crate::paths::{file_stem, spec_file_stem};
use vstd::prelude::*;
use vstd::string::*;

verus! {

/// Opens a pack: creates a directory where the decrypted files appear.
#[derive(Clone, Debug, PartialEq, Eq)]
pub struct Command {
    /// Path of the pack to open.
    pub path: String,
    /// Whether to overwrite the output directory or not.
    pub overwrite: bool,
    pub debug: bool,
}

/// Where the command stands: the step that was asked for last.
#[derive(Clone, Debug, PartialEq, Eq)]
pub enum Phase {
    /// Nothing was asked for yet.
    Start,
    ReadingKey,
    Decrypting,
    /// The place of the working directory is being looked at.
    Inspecting,
    /// The pack is being unpacked; `created` says that the working
    /// directory was not there before.
    Unpacking { created: bool },
    /// Unpacking failed, and what it left is being removed.
    Abandoning { error: ActionError },
    /// The working directory is there, and the key press is awaited.
    Open,
    Repacking,
    RemovingPack,
    Encrypting,
    /// The working directory is being removed, as the last step.
    Cleaning,
    Finished,
}

/// What happened when the last step was performed.
#[derive(Clone, Debug, PartialEq, Eq)]
pub enum Event {
    /// The command was started.
    Begin,
    /// The key was read.
    Key(String),
    /// The place of the working directory was looked at: whether something
    /// is there, and whether it is an empty directory.
    Target { present: bool, empty: bool },
    /// The step was done.
    Done,
    /// The step found nothing to remove.
    NotFound,
    /// The step failed.
    Failed(ActionError),
    /// A key was pressed.
    Pressed(char),
}

/// What is to be done next.
#[derive(Clone, Debug, PartialEq, Eq)]
pub enum Step {
    /// Ask for the key.
    ReadKey,
    /// Open the stream in the pack file into a temporary file.
    Decrypt { pack: String },
    /// Look at the place of the working directory.
    Inspect { directory: String },
    /// Unpack the temporary file into the working directory.
    Unpack { directory: String },
    /// Wait for one key press.
    AwaitKey,
    /// Pack the working directory into a new temporary file.
    Repack { directory: String },
    /// Remove the pack file.
    RemovePack { pack: String },
    /// Seal the new temporary file into the pack file.
    Encrypt { pack: String },
    /// Remove the working directory and all that is in it.
    RemoveDirectory { directory: String },
    /// Stop: all went well.
    Succeed,
    /// Stop, with this error.
    Fail(ActionError),
}

/// A step as contracts see it: its paths as sequences of characters.
pub enum StepModel {
    ReadKey,
    Decrypt { pack: Seq<char> },
    Inspect { directory: Seq<char> },
    Unpack { directory: Seq<char> },
    AwaitKey,
    Repack { directory: Seq<char> },
    RemovePack { pack: Seq<char> },
    Encrypt { pack: Seq<char> },
    RemoveDirectory { directory: Seq<char> },
    Succeed,
    Fail(ActionError),
}

impl View for Step {
    type V = StepModel;

    open spec fn view(&self) -> StepModel {
        match *self {
            Step::ReadKey => StepModel::ReadKey,
            Step::Decrypt { pack } => StepModel::Decrypt { pack: pack@ },
            Step::Inspect { directory } => StepModel::Inspect { directory: directory@ },
            Step::Unpack { directory } => StepModel::Unpack { directory: directory@ },
            Step::AwaitKey => StepModel::AwaitKey,
            Step::Repack { directory } => StepModel::Repack { directory: directory@ },
            Step::RemovePack { pack } => StepModel::RemovePack { pack: pack@ },
            Step::Encrypt { pack } => StepModel::Encrypt { pack: pack@ },
            Step::RemoveDirectory { directory } => StepModel::RemoveDirectory {
                directory: directory@,
            },
            Step::Succeed => StepModel::Succeed,
            Step::Fail(error) => StepModel::Fail(error),
        }
    }
}

/// The steps that work on the working directory.
#[derive(Clone, Copy, Debug, PartialEq, Eq, Structural)]
pub enum DirectoryStep {
    Inspect,
    Unpack,
    Repack,
    Remove,
}

/// The error that stops the command with no more to say than its message.
pub open spec fn spec_plain(failure: Failure) -> ActionError {
    ActionError { failure, detail: None }
}

/// Moves to `next` with a step on the working directory, which is named by
/// the stem of the pack's file name; stops where the pack's path has none.
pub open spec fn spec_enter(path: Seq<char>, next: Phase, step: DirectoryStep) -> (Phase, StepModel) {
    match spec_file_stem(path) {
        None => (Phase::Finished, StepModel::Fail(spec_plain(Failure::OutputPath))),
        Some(directory) => (
            next,
            match step {
                DirectoryStep::Inspect => StepModel::Inspect { directory },
                DirectoryStep::Unpack => StepModel::Unpack { directory },
                DirectoryStep::Repack => StepModel::Repack { directory },
                DirectoryStep::Remove => StepModel::RemoveDirectory { directory },
            },
        ),
    }
}

/// Stops the command because this event cannot follow the last step.
pub open spec fn spec_unexpected() -> (Phase, StepModel) {
    (Phase::Finished, StepModel::Fail(spec_plain(Failure::UnexpectedEvent)))
}

/// The working directory may not be unpacked into: something is there, it
/// is not an empty directory, and overwriting was not asked for.
pub open spec fn spec_target_refused(present: bool, empty: bool, overwrite: bool) -> bool {
    present && !empty && !overwrite
}

/// The next phase and step of the command for the pack at `path`.
///
/// Opening: the key is read and must not be empty; the pack is decrypted;
/// the place of the working directory is looked at, and the command stops
/// there, touching nothing, where it may not be unpacked into; the pack is
/// unpacked. A failure stops the command. After a failed unpacking the
/// working directory is removed first if this command created it, and the
/// error of the unpacking is the one reported; a directory that was there
/// before is left as it is.
///
/// Open: the key `u` starts the resealing, any other key the discarding; a
/// failed read of the key press is tried again.
///
/// Resealing: the directory is packed, the pack file is removed, the new
/// pack is sealed into the pack file, the directory is removed. A failure
/// stops the command at once, with the directory still there.
///
/// Discarding: the directory is removed. It is no failure if the directory
/// is no longer there when it is to be removed.
pub open spec fn spec_action(path: Seq<char>, overwrite: bool, phase: Phase, event: Event) -> (
    Phase,
    StepModel,
) {
    match phase {
        Phase::Start => match event {
            Event::Begin => (Phase::ReadingKey, StepModel::ReadKey),
            _ => spec_unexpected(),
        },
        Phase::ReadingKey => match event {
            Event::Key(key) => if key@.len() < 1 {
                (Phase::Finished, StepModel::Fail(spec_plain(Failure::EmptyKey)))
            } else {
                (Phase::Decrypting, StepModel::Decrypt { pack: path })
            },
            Event::Failed(error) => (Phase::Finished, StepModel::Fail(error)),
            _ => spec_unexpected(),
        },
        Phase::Decrypting => match event {
            Event::Done => spec_enter(path, Phase::Inspecting, DirectoryStep::Inspect),
            Event::Failed(error) => (Phase::Finished, StepModel::Fail(error)),
            _ => spec_unexpected(),
        },
        Phase::Inspecting => match event {
            Event::Target { present, empty } => if spec_target_refused(present, empty, overwrite) {
                (Phase::Finished, StepModel::Fail(spec_plain(Failure::TargetExists)))
            } else {
                spec_enter(path, Phase::Unpacking { created: !present }, DirectoryStep::Unpack)
            },
            Event::Failed(error) => (Phase::Finished, StepModel::Fail(error)),
            _ => spec_unexpected(),
        },
        Phase::Unpacking { created } => match event {
            Event::Done => (Phase::Open, StepModel::AwaitKey),
            Event::Failed(error) => if created {
                spec_enter(path, Phase::Abandoning { error }, DirectoryStep::Remove)
            } else {
                (Phase::Finished, StepModel::Fail(error))
            },
            _ => spec_unexpected(),
        },
        Phase::Abandoning { error } => (Phase::Finished, StepModel::Fail(error)),
        Phase::Open => match event {
            Event::Pressed(c) => if c == 'u' {
                spec_enter(path, Phase::Repacking, DirectoryStep::Repack)
            } else {
                spec_enter(path, Phase::Cleaning, DirectoryStep::Remove)
            },
            Event::Failed(_) => (Phase::Open, StepModel::AwaitKey),
            _ => spec_unexpected(),
        },
        Phase::Repacking => match event {
            Event::Done => (Phase::RemovingPack, StepModel::RemovePack { pack: path }),
            Event::Failed(error) => (Phase::Finished, StepModel::Fail(error)),
            _ => spec_unexpected(),
        },
        Phase::RemovingPack => match event {
            Event::Done => (Phase::Encrypting, StepModel::Encrypt { pack: path }),
            Event::Failed(error) => (Phase::Finished, StepModel::Fail(error)),
            _ => spec_unexpected(),
        },
        Phase::Encrypting => match event {
            Event::Done => spec_enter(path, Phase::Cleaning, DirectoryStep::Remove),
            Event::Failed(error) => (Phase::Finished, StepModel::Fail(error)),
            _ => spec_unexpected(),
        },
        Phase::Cleaning => match event {
            Event::Done | Event::NotFound => (Phase::Finished, StepModel::Succeed),
            Event::Failed(error) => (Phase::Finished, StepModel::Fail(error)),
            _ => spec_unexpected(),
        },
        Phase::Finished => spec_unexpected(),
    }
}

/// Moves to `next` with a step on the working directory.
fn enter(args: &Command, next: Phase, step: DirectoryStep) -> (r: (Phase, Step))
    ensures
        (r.0, r.1@) == spec_enter(args.path@, next, step),
{
    match file_stem(args.path.as_str()) {
        None => (Phase::Finished, Step::Fail(ActionError::new(Failure::OutputPath))),
        Some(directory) => (
            next,
            match step {
                DirectoryStep::Inspect => Step::Inspect { directory },
                DirectoryStep::Unpack => Step::Unpack { directory },
                DirectoryStep::Repack => Step::Repack { directory },
                DirectoryStep::Remove => Step::RemoveDirectory { directory },
            },
        ),
    }
}

/// Stops the command because this event cannot follow the last step.
fn unexpected() -> (r: (Phase, Step))
    ensures
        (r.0, r.1@) == spec_unexpected(),
{
    (Phase::Finished, Step::Fail(ActionError::new(Failure::UnexpectedEvent)))
}

/// Stops the command with the error of the step that failed.
fn fail(error: ActionError) -> (r: (Phase, Step))
    ensures
        r.0 == Phase::Finished,
        r.1@ == StepModel::Fail(error),
{
    (Phase::Finished, Step::Fail(error))
}

/// Says what comes next: the new phase, and the step to perform. The
/// command starts in `Phase::Start` with `Event::Begin`, and is over once a
/// step `Succeed` or `Fail` comes out.
pub fn action(args: &Command, phase: Phase, event: Event) -> (r: (Phase, Step))
    ensures
        (r.0, r.1@) == spec_action(args.path@, args.overwrite, phase, event),
{
    match phase {
        Phase::Start => match event {
            Event::Begin => (Phase::ReadingKey, Step::ReadKey),
            _ => unexpected(),
        },
        Phase::ReadingKey => match event {
            Event::Key(key) => if key.as_str().is_empty() {
                fail(ActionError::new(Failure::EmptyKey))
            } else {
                (Phase::Decrypting, Step::Decrypt { pack: args.path.clone() })
            },
            Event::Failed(error) => fail(error),
            _ => unexpected(),
        },
        Phase::Decrypting => match event {
            Event::Done => enter(args, Phase::Inspecting, DirectoryStep::Inspect),
            Event::Failed(error) => fail(error),
            _ => unexpected(),
        },
        Phase::Inspecting => match event {
            Event::Target { present, empty } => match check_target(present, empty, args.overwrite) {
                Err(_) => fail(ActionError::new(Failure::TargetExists)),
                Ok(_) => enter(args, Phase::Unpacking { created: !present }, DirectoryStep::Unpack),
            },
            Event::Failed(error) => fail(error),
            _ => unexpected(),
        },
        Phase::Unpacking { created } => match event {
            Event::Done => (Phase::Open, Step::AwaitKey),
            Event::Failed(error) => if created {
                enter(args, Phase::Abandoning { error }, DirectoryStep::Remove)
            } else {
                fail(error)
            },
            _ => unexpected(),
        },
        Phase::Abandoning { error } => fail(error),
        Phase::Open => match event {
            Event::Pressed(c) => if c == 'u' {
                enter(args, Phase::Repacking, DirectoryStep::Repack)
            } else {
                enter(args, Phase::Cleaning, DirectoryStep::Remove)
            },
            Event::Failed(_) => (Phase::Open, Step::AwaitKey),
            _ => unexpected(),
        },
        Phase::Repacking => match event {
            Event::Done => (Phase::RemovingPack, Step::RemovePack { pack: args.path.clone() }),
            Event::Failed(error) => fail(error),
            _ => unexpected(),
        },
        Phase::RemovingPack => match event {
            Event::Done => (Phase::Encrypting, Step::Encrypt { pack: args.path.clone() }),
            Event::Failed(error) => fail(error),
            _ => unexpected(),
        },
        Phase::Encrypting => match event {
            Event::Done => enter(args, Phase::Cleaning, DirectoryStep::Remove),
            Event::Failed(error) => fail(error),
            _ => unexpected(),
        },
        Phase::Cleaning => match event {
            Event::Done | Event::NotFound => (Phase::Finished, Step::Succeed),
            Event::Failed(error) => fail(error),
            _ => unexpected(),
        },
        Phase::Finished => unexpected(),
    }
}

/// A step that touches the pack file: it removes it or writes it.
pub open spec fn spec_touches_pack(step: StepModel) -> bool {
    step is RemovePack || step is Encrypt
}

/// A step that ends the command.
pub open spec fn spec_ends(step: StepModel) -> bool {
    step is Succeed || step is Fail
}

/// After any key but `u` the pack file is left as it is: the one step that
/// follows removes the working directory, and whatever comes of it ends the
/// command.
pub proof fn lemma_discard_leaves_pack(path: Seq<char>, overwrite: bool, key: char, after: Event)
    requires
        key != 'u',
    ensures
        ({
            let first = spec_action(path, overwrite, Phase::Open, Event::Pressed(key));
            let second = spec_action(path, overwrite, first.0, after);
            &&& !spec_touches_pack(first.1)
            &&& first.1 is RemoveDirectory || spec_ends(first.1)
            &&& first.1 is RemoveDirectory ==> first.0 == Phase::Cleaning
            &&& spec_ends(second.1)
            &&& second.0 == Phase::Finished
        }),
{
}

/// A working directory that was there before is kept. Where it is not
/// empty and may not be overwritten, the command stops without a step on
/// it; where it was unpacked into and the unpacking failed, the command
/// stops at once with the error of the unpacking.
pub proof fn lemma_existing_directory_is_kept(
    path: Seq<char>,
    overwrite: bool,
    empty: bool,
    error: ActionError,
)
    ensures
        !empty && !overwrite ==> spec_action(
            path,
            overwrite,
            Phase::Inspecting,
            Event::Target { present: true, empty },
        ) == (Phase::Finished, StepModel::Fail(spec_plain(Failure::TargetExists))),
        ({
            let entered = spec_action(
                path,
                overwrite,
                Phase::Inspecting,
                Event::Target { present: true, empty },
            );
            entered.1 is Unpack ==> entered.0 == Phase::Unpacking { created: false }
        }),
        spec_action(path, overwrite, Phase::Unpacking { created: false }, Event::Failed(error))
            == (Phase::Finished, StepModel::Fail(error)),
{
}

/// The pack file is removed only once the working directory has been
/// packed anew, and written only once the old pack file has been removed.
pub proof fn lemma_pack_touched_only_to_reseal(
    path: Seq<char>,
    overwrite: bool,
    phase: Phase,
    event: Event,
)
    ensures
        ({
            let next = spec_action(path, overwrite, phase, event);
            &&& next.1 is RemovePack ==> phase == Phase::Repacking && event == Event::Done
            &&& next.1 is Encrypt ==> phase == Phase::RemovingPack && event == Event::Done
        }),
{
}

/// The working directory is removed only after a failed unpacking that
/// created it, after a key press other than `u`, or once the new pack has
/// been written: while resealing, it is the last thing to go.
pub proof fn lemma_directory_removed_last(
    path: Seq<char>,
    overwrite: bool,
    phase: Phase,
    event: Event,
)
    ensures
        spec_action(path, overwrite, phase, event).1 is RemoveDirectory ==> {
            ||| phase == Phase::Unpacking { created: true } && event is Failed
            ||| phase == Phase::Open && event is Pressed && event != Event::Pressed('u')
            ||| phase == Phase::Encrypting && event == Event::Done
        },
{
}

/// A failure while resealing stops the command at once, with its error and
/// with no step that removes anything.
pub proof fn lemma_reseal_failure_removes_nothing(
    path: Seq<char>,
    overwrite: bool,
    phase: Phase,
    error: ActionError,
)
    requires
        phase == Phase::Repacking || phase == Phase::RemovingPack || phase == Phase::Encrypting,
    ensures
        spec_action(path, overwrite, phase, Event::Failed(error)) == (
            Phase::Finished,
            StepModel::Fail(error),
        ),
{
}

/// A pack that does not open stops the command at once, with the error of
/// the decryption: nothing is unpacked and no key press is awaited.
pub proof fn lemma_failed_decryption_stops(path: Seq<char>, overwrite: bool, error: ActionError)
    ensures
        spec_action(path, overwrite, Phase::Decrypting, Event::Failed(error)) == (
            Phase::Finished,
            StepModel::Fail(error),
        ),
{
}

} // verus!
