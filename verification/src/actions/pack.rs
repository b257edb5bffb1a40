//! Packing a directory: the tree becomes one sealed file beside it. What
//! is to be done on disk comes out as steps in order: the pack is written
//! first, and only then is the directory removed, where that was asked for.

use crate::actions::{seal_pack, ActionError, Failure};
use crate::batch::Job;
use crate::container::{spec_encode_pack, spec_pack_valid, Pack};
use crate::crypto::{spec_derive_key, Crypto};
use crate::paths::{spec_with_suffix, with_suffix};
use crate::stream::sealed_stream;
use vstd::prelude::*;
use vstd::string::*;

verus! {

/// One thing to do on disk. A step is taken only when the one before it
/// is done.
#[derive(Clone, Debug, PartialEq, Eq)]
pub enum PackStep {
    /// Write the sealed pack to the file at `path`.
    Write { path: String, bytes: Vec<u8> },
    /// Remove the directory at `path` and all that is in it.
    RemoveDirectory { path: String },
}

/// A step as contracts see it.
pub enum PackStepModel {
    Write { path: Seq<char>, bytes: Seq<u8> },
    RemoveDirectory { path: Seq<char> },
}

impl View for PackStep {
    type V = PackStepModel;

    open spec fn view(&self) -> PackStepModel {
        match *self {
            PackStep::Write { path, bytes } => PackStepModel::Write { path: path@, bytes: bytes@ },
            PackStep::RemoveDirectory { path } => PackStepModel::RemoveDirectory { path: path@ },
        }
    }
}

/// The views of a list of steps.
pub open spec fn spec_step_views(steps: Seq<PackStep>) -> Seq<PackStepModel> {
    Seq::new(steps.len(), |i: int| steps[i]@)
}

/// Where the pack of a directory goes: beside it, with `.pack` added to
/// its name.
pub open spec fn spec_pack_path(input_path: Seq<char>) -> Seq<char> {
    spec_with_suffix(input_path, ".pack"@)
}

/// The steps that put a sealed pack in place of a directory: the pack is
/// written, and then, only where `delete_original` is set, the directory is
/// removed.
pub open spec fn spec_steps(
    pack_path: Seq<char>,
    sealed: Seq<u8>,
    directory: Seq<char>,
    delete_original: bool,
) -> Seq<PackStepModel> {
    let write = PackStepModel::Write { path: pack_path, bytes: sealed };
    if delete_original {
        seq![write, PackStepModel::RemoveDirectory { path: directory }]
    } else {
        seq![write]
    }
}

/// What the steps of a packing write: the bytes of their first step.
pub open spec fn spec_written(steps: Seq<PackStep>) -> Seq<u8> {
    match steps[0] {
        PackStep::Write { bytes, .. } => bytes@,
        PackStep::RemoveDirectory { .. } => Seq::empty(),
    }
}

/// The directory is never removed before the pack is written: a step that
/// removes stands after the step that writes, and there is one exactly
/// where `delete_original` is set.
pub proof fn lemma_write_before_remove(
    pack_path: Seq<char>,
    sealed: Seq<u8>,
    directory: Seq<char>,
    delete_original: bool,
)
    ensures
        ({
            let steps = spec_steps(pack_path, sealed, directory, delete_original);
            &&& steps[0] == PackStepModel::Write { path: pack_path, bytes: sealed }
            &&& forall|i: int|
                0 <= i < steps.len() && #[trigger] steps[i] is RemoveDirectory ==> i == 1
                    && delete_original
            &&& delete_original ==> steps.len() == 2 && steps[1]
                == PackStepModel::RemoveDirectory { path: directory }
            &&& !delete_original ==> steps.len() == 1
        }),
{
}

/// The steps that put a sealed pack in place of a directory.
pub fn steps(pack_path: String, sealed: Vec<u8>, directory: &str, delete_original: bool) -> (steps:
    Vec<PackStep>)
    ensures
        spec_step_views(steps@) == spec_steps(
            pack_path@,
            sealed@,
            directory@,
            delete_original,
        ),
        spec_written(steps@) == sealed@,
{
    let mut steps: Vec<PackStep> = Vec::new();
    steps.push(PackStep::Write { path: pack_path, bytes: sealed });
    if delete_original {
        steps.push(PackStep::RemoveDirectory { path: directory.to_owned() });
    }
    assert(spec_step_views(steps@) =~= spec_steps(
        pack_path@,
        sealed@,
        directory@,
        delete_original,
    ));
    steps
}

/// Packs the tree found at `input_path` and seals it with `key`. `tree` is
/// `None` where the path does not lead to a directory.
///
/// The checks are made in this order, before anything is sealed: the path
/// leads to a directory; the key is not empty; the container can hold the
/// tree. After them only the random source can fail. What comes out is the
/// steps to take on disk, in order.
pub fn pack(input_path: &str, tree: &Option<Pack>, key: &str, delete_original: bool) -> (r: Result<
    Vec<PackStep>,
    ActionError,
>)
    ensures
        match r {
            Ok(steps) => {
                &&& tree matches Some(t)
                &&& key@.len() >= 1
                &&& spec_pack_valid(t@)
                &&& sealed_stream(
                    spec_derive_key(key.spec_bytes()),
                    spec_encode_pack(t@),
                    spec_written(steps@),
                )
                &&& spec_step_views(steps@) == spec_steps(
                    spec_pack_path(input_path@),
                    spec_written(steps@),
                    input_path@,
                    delete_original,
                )
            },
            Err(e) => {
                &&& e.detail is None
                &&& e.failure == match tree {
                    None => Failure::NotADirectory,
                    Some(t) => if key@.len() == 0 {
                        Failure::EmptyKey
                    } else if !spec_pack_valid(t@) {
                        Failure::CreatePack
                    } else {
                        Failure::EncryptPack
                    },
                }
            },
        },
{
    match tree {
        None => Err(ActionError::new(Failure::NotADirectory)),
        Some(t) => {
            if key.is_empty() {
                return Err(ActionError::new(Failure::EmptyKey));
            }
            match Crypto::new(key.as_bytes()) {
                Err(_) => {
                    proof {
                        lemma_text_has_bytes(key@);
                    }
                    Err(ActionError::new(Failure::EmptyKey))
                },
                Ok(crypto) => match seal_pack(&crypto, t) {
                    Err(e) => Err(e),
                    Ok(sealed) => Ok(
                        steps(with_suffix(input_path, ".pack"), sealed, input_path, delete_original),
                    ),
                },
            }
        },
    }
}

/// Packs the tree found at the source of a job of a batch and seals it:
/// the steps write the pack to the job's destination and then, where the
/// job says so, remove the source.
pub fn pack_job(crypto: &Crypto, job: &Job, tree: &Pack) -> (r: Result<Vec<PackStep>, ActionError>)
    ensures
        match r {
            Ok(steps) => {
                &&& spec_pack_valid(tree@)
                &&& sealed_stream(crypto.key(), spec_encode_pack(tree@), spec_written(steps@))
                &&& spec_step_views(steps@) == spec_steps(
                    job.destination@,
                    spec_written(steps@),
                    job.source@,
                    job.delete_original,
                )
            },
            Err(e) => e.detail is None && e.failure == if spec_pack_valid(tree@) {
                Failure::EncryptPack
            } else {
                Failure::CreatePack
            },
        },
{
    match seal_pack(crypto, tree) {
        Err(e) => Err(e),
        Ok(sealed) => Ok(
            steps(job.destination.clone(), sealed, job.source.as_str(), job.delete_original),
        ),
    }
}

/// A text that is not empty is not empty as bytes.
pub proof fn lemma_text_has_bytes(text: Seq<char>)
    requires
        text.len() > 0,
    ensures
        vstd::utf8::encode_utf8(text).len() > 0,
{
}

} // verus!
