//! The `decrypt` command: a sealed pack is opened and unpacked, any other
//! file is opened, anything else is skipped.

use crate::actions::{spec_text, ActionError, Failure};
use crate::batch::{Job, JobModel, PathState, Task};
use crate::commands::{any_missing, spec_any_missing, spec_state_at, state_at};
use crate::paths::{spec_has_suffix, spec_trim_separators, spec_without_suffix, without_suffix};
use crate::text::join;
use vstd::prelude::*;
use vstd::string::*;

verus! {

/// Decrypt specified file/directory using the passed key.
#[derive(Clone, Debug, PartialEq, Eq)]
pub struct Command {
    /// Paths of the encrypted file(s)/directory(ies) to decrypt.
    pub paths: Vec<String>,
    /// Set output path (only supported when one input path provided).
    pub output_path: Option<String>,
    /// Whether to overwrite the output file/directory.
    pub overwrite: bool,
    pub debug: bool,
}

/// What is wrong with a request before any work begins, if anything, in the
/// order in which it is checked: no path; a missing path; an output path
/// with more or less than one input path.
pub open spec fn spec_precheck(paths: int, states: Seq<PathState>, has_output: bool) -> Option<
    Failure,
> {
    if paths == 0 {
        Some(Failure::NoPaths)
    } else if spec_any_missing(states, paths) {
        Some(Failure::MissingPath)
    } else if has_output && paths != 1 {
        Some(Failure::OutputWithManyInputs)
    } else {
        None
    }
}

/// Where what a file holds goes, when no output path is given: a pack to
/// the directory of its name without `.pack`, a file named with `.enc` to
/// its name without it, any other file to its name with `.dec` added.
pub open spec fn spec_destination(path: Seq<char>) -> Seq<char> {
    match spec_without_suffix(path, ".pack"@) {
        Some(directory) => directory,
        None => match spec_without_suffix(path, ".enc"@) {
            Some(file) => file,
            None => path + ".dec"@,
        },
    }
}

/// The job for one input path. Only files are opened; one whose name ends
/// in `.pack` is unpacked as well.
pub open spec fn spec_job(path: Seq<char>, state: PathState, output_path: Option<Seq<char>>) -> JobModel {
    JobModel {
        task: if state != PathState::File {
            Task::Skip
        } else if spec_has_suffix(path, ".pack"@) {
            Task::UnpackPack
        } else {
            Task::DecryptFile
        },
        source: path,
        destination: match output_path {
            Some(output) => output,
            None => spec_destination(path),
        },
        delete_original: false,
    }
}

/// The job for one input path.
pub fn plan(path: &String, state: PathState, output_path: &Option<String>) -> (job: Job)
    ensures
        job@ == spec_job(path@, state, spec_text(*output_path)),
{
    let unpacked = without_suffix(path.as_str(), ".pack");
    let task = if state != PathState::File {
        Task::Skip
    } else if unpacked.is_some() {
        Task::UnpackPack
    } else {
        Task::DecryptFile
    };
    let destination = match output_path {
        Some(output) => output.clone(),
        None => match unpacked {
            Some(directory) => directory,
            None => match without_suffix(path.as_str(), ".enc") {
                Some(file) => file,
                None => join(path.as_str(), ".dec"),
            },
        },
    };
    Job { task, source: path.clone(), destination, delete_original: false }
}

/// Checks a request and plans its jobs, one for each input path and in
/// their order. `states` says what each path leads to. Nothing is planned
/// unless every check passes.
pub fn execute(args: &Command, states: &Vec<PathState>) -> (r: Result<Vec<Job>, ActionError>)
    ensures
        match r {
            Ok(jobs) => {
                &&& spec_precheck(args.paths@.len() as int, states@, args.output_path is Some)
                    is None
                &&& jobs@.len() == args.paths@.len()
                &&& forall|i: int|
                    0 <= i < jobs@.len() ==> (#[trigger] jobs@[i])@ == spec_job(
                        args.paths@[i]@,
                        spec_state_at(states@, i),
                        spec_text(args.output_path),
                    )
            },
            Err(e) => e.detail is None && spec_precheck(
                args.paths@.len() as int,
                states@,
                args.output_path is Some,
            ) == Some(e.failure),
        },
{
    let n = args.paths.len();
    if n == 0 {
        return Err(ActionError::new(Failure::NoPaths));
    }
    if any_missing(states, n) {
        return Err(ActionError::new(Failure::MissingPath));
    }
    if args.output_path.is_some() && n != 1 {
        return Err(ActionError::new(Failure::OutputWithManyInputs));
    }
    let mut jobs: Vec<Job> = Vec::new();
    let mut i: usize = 0;
    while i < n
        invariant
            i <= n,
            n == args.paths@.len(),
            jobs@.len() == i,
            forall|k: int|
                0 <= k < i ==> (#[trigger] jobs@[k])@ == spec_job(
                    args.paths@[k]@,
                    spec_state_at(states@, k),
                    spec_text(args.output_path),
                ),
        decreases n - i,
    {
        let job = plan(&args.paths[i], state_at(states, i), &args.output_path);
        jobs.push(job);
        i += 1;
    }
    Ok(jobs)
}

/// Decrypting puts back what encrypting took: the job for what the
/// encryption of a file or a directory left, beside it, leads back to its
/// path, and a pack is unpacked where a file is only opened.
pub proof fn lemma_destination_inverts(path: Seq<char>, state: PathState)
    requires
        state == PathState::File || state == PathState::Directory,
        spec_trim_separators(path).len() >= 1,
        spec_trim_separators(path).last() != '/',
    ensures
        ({
            let sealed = crate::commands::encrypt::spec_job(path, state, None, false).destination;
            let back = spec_job(sealed, PathState::File, None);
            &&& back.destination == spec_trim_separators(path)
            &&& back.task == if state == PathState::Directory {
                Task::UnpackPack
            } else {
                Task::DecryptFile
            }
        }),
{
    reveal_strlit(".pack");
    reveal_strlit(".enc");
    let name = spec_trim_separators(path);
    let pack = name + ".pack"@;
    let enc = name + ".enc"@;
    assert(pack.skip(pack.len() - 5) =~= ".pack"@);
    assert(pack.take(pack.len() - 5) =~= name);
    assert(enc.skip(enc.len() - 4) =~= ".enc"@);
    assert(enc.take(enc.len() - 4) =~= name);
    assert(enc.skip(enc.len() - 5)[4] == 'c');
    assert(".pack"@[4] == 'k');
}

} // verus!
