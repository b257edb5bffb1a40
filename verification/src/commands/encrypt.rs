//! The `encrypt` command: files are sealed, directories are packed and
//! sealed, anything else is skipped.

use crate::actions::{spec_text, ActionError, Failure};
use crate::batch::{Job, JobModel, PathState, Task};
use crate::commands::{any_missing, spec_any_missing, spec_state_at, state_at};
use crate::paths::{spec_with_suffix, with_suffix};
use vstd::prelude::*;
use vstd::string::*;

verus! {

/// Encrypt specified file/directory using the passed key.
#[derive(Clone, Debug, PartialEq, Eq)]
pub struct Command {
    /// Paths of the file(s)/directory(ies) to encrypt.
    pub paths: Vec<String>,
    /// Set output path (only supported when one input path provided).
    pub output_path: Option<String>,
    /// Whether to overwrite the output file/directory.
    pub overwrite: bool,
    /// Delete the original directory after encrypting.
    pub delete_original: bool,
    pub debug: bool,
}

/// What is wrong with a request before any work begins, if anything, in the
/// order in which it is checked: no path; a missing path; an output path
/// with more or less than one input path; an output path that exists and
/// may not be overwritten.
pub open spec fn spec_precheck(
    paths: int,
    states: Seq<PathState>,
    has_output: bool,
    output_exists: bool,
    overwrite: bool,
) -> Option<Failure> {
    if paths == 0 {
        Some(Failure::NoPaths)
    } else if spec_any_missing(states, paths) {
        Some(Failure::MissingPath)
    } else if has_output && paths != 1 {
        Some(Failure::OutputWithManyInputs)
    } else if has_output && output_exists && !overwrite {
        Some(Failure::OutputExists)
    } else {
        None
    }
}

/// The job for one input path. A file is sealed and a directory packed
/// into the output path, or beside itself under its name with `.enc` or
/// `.pack` added. Only a directory is ever removed afterwards.
pub open spec fn spec_job(
    path: Seq<char>,
    state: PathState,
    output_path: Option<Seq<char>>,
    delete_original: bool,
) -> JobModel {
    JobModel {
        task: match state {
            PathState::File => Task::EncryptFile,
            PathState::Directory => Task::PackDirectory,
            _ => Task::Skip,
        },
        source: path,
        destination: match output_path {
            Some(output) => output,
            None => if state == PathState::Directory {
                spec_with_suffix(path, ".pack"@)
            } else {
                spec_with_suffix(path, ".enc"@)
            },
        },
        delete_original: state == PathState::Directory && delete_original,
    }
}

/// The job for one input path.
pub fn plan(path: &String, state: PathState, output_path: &Option<String>, delete_original: bool) -> (job:
    Job)
    ensures
        job@ == spec_job(path@, state, spec_text(*output_path), delete_original),
{
    let task = match state {
        PathState::File => Task::EncryptFile,
        PathState::Directory => Task::PackDirectory,
        _ => Task::Skip,
    };
    let destination = match output_path {
        Some(output) => output.clone(),
        None => if state == PathState::Directory {
            with_suffix(path.as_str(), ".pack")
        } else {
            with_suffix(path.as_str(), ".enc")
        },
    };
    Job {
        task,
        source: path.clone(),
        destination,
        delete_original: state == PathState::Directory && delete_original,
    }
}

/// Checks a request and plans its jobs, one for each input path and in
/// their order. `states` says what each path leads to, and `output_exists`
/// whether the output path, if one is given, exists. Nothing is planned
/// unless every check passes.
pub fn execute(args: &Command, states: &Vec<PathState>, output_exists: bool) -> (r: Result<
    Vec<Job>,
    ActionError,
>)
    ensures
        match r {
            Ok(jobs) => {
                &&& spec_precheck(
                    args.paths@.len() as int,
                    states@,
                    args.output_path is Some,
                    output_exists,
                    args.overwrite,
                ) is None
                &&& jobs@.len() == args.paths@.len()
                &&& forall|i: int|
                    0 <= i < jobs@.len() ==> (#[trigger] jobs@[i])@ == spec_job(
                        args.paths@[i]@,
                        spec_state_at(states@, i),
                        spec_text(args.output_path),
                        args.delete_original,
                    )
            },
            Err(e) => e.detail is None && spec_precheck(
                args.paths@.len() as int,
                states@,
                args.output_path is Some,
                output_exists,
                args.overwrite,
            ) == Some(e.failure),
        },
{
    let n = args.paths.len();
    if n == 0 {
        return Err(ActionError::new(Failure::NoPaths));
    }
    if any_missing(states, n) {
        return Err(ActionError::new(Failure::MissingPath));
    }
    if args.output_path.is_some() {
        if n != 1 {
            return Err(ActionError::new(Failure::OutputWithManyInputs));
        }
        if output_exists && !args.overwrite {
            return Err(ActionError::new(Failure::OutputExists));
        }
    }
    let mut jobs: Vec<Job> = Vec::new();
    let mut i: usize = 0;
    while i < n
        invariant
            i <= n,
            n == args.paths@.len(),
            jobs@.len() == i,
            forall|k: int|
                0 <= k < i ==> (#[trigger] jobs@[k])@ == spec_job(
                    args.paths@[k]@,
                    spec_state_at(states@, k),
                    spec_text(args.output_path),
                    args.delete_original,
                ),
        decreases n - i,
    {
        let job = plan(&args.paths[i], state_at(states, i), &args.output_path, args.delete_original);
        jobs.push(job);
        i += 1;
    }
    Ok(jobs)
}

/// An output path that exists is never written to unless overwriting was
/// asked for: the request fails before anything is planned.
pub proof fn lemma_overwrite_protection(paths: int, states: Seq<PathState>)
    requires
        paths >= 0,
    ensures
        spec_precheck(paths, states, true, true, false) is Some,
        paths == 1 && !spec_any_missing(states, 1) ==> spec_precheck(
            paths,
            states,
            true,
            true,
            false,
        ) == Some(Failure::OutputExists),
{
}

} // verus!
