//! What the commands do once they know what to do: the failures they
//! report, and the sealing and opening of whole directory trees.

pub mod pack;

use crate::container::{
    decode_pack, encode_pack, spec_decode_pack, spec_encode_pack, spec_pack_valid, Pack,
    PackModel,
};
use crate::crypto::{Crypto, CryptoError};
use crate::stream::{lemma_stream_round_trip, sealed_stream, spec_decrypt_stream};
use crate::text::join;
use vstd::prelude::*;
use vstd::string::*;

verus! {

/// What went wrong, by the step that failed.
#[derive(Clone, Copy, Debug, PartialEq, Eq, Structural)]
pub enum Failure {
    NoPaths,
    MissingPath,
    OutputWithManyInputs,
    OutputExists,
    ReadKey,
    ReadConfirmKey,
    KeysDiffer,
    EmptyKey,
    NotADirectory,
    CreateCipher,
    CreateTempDir,
    CreatePack,
    RemoveOriginal,
    ReadPack,
    CreateDestination,
    EncryptPack,
    CreateTempFile,
    DecryptPack,
    OutputPath,
    Unpack,
    RemoveOutdatedPack,
    UpdatePack,
    UpdatePackFile,
    EncryptUpdatedPack,
    ReadFile,
    WriteFile,
    EncryptFile,
    DecryptFile,
    UnexpectedEvent,
    TargetExists,
}

/// The classes of errors.
#[derive(Clone, Copy, Debug, PartialEq, Eq, Structural)]
pub enum ErrorKind {
    /// Bad paths, an empty key, flags that contradict each other.
    InvalidInput,
    /// The file system refused to read, write, create or remove.
    Io,
    /// The cipher could not do its work.
    Crypto,
    /// Wrong key, or corrupted data.
    Authentication,
    /// The pack is not a container.
    MalformedContainer,
    /// The output exists and may not be overwritten.
    OutputExists,
}

/// A failure, with what the failing step said where it said anything.
#[derive(Clone, Debug, PartialEq, Eq)]
pub struct ActionError {
    pub failure: Failure,
    pub detail: Option<String>,
}

/// The message of a failure.
pub open spec fn spec_message(failure: Failure) -> Seq<char> {
    match failure {
        Failure::NoPaths => "You must provide at least one path"@,
        Failure::MissingPath => "One or more provided paths don't exist"@,
        Failure::OutputWithManyInputs => "Only one input path can be provided when setting an output path"@,
        Failure::OutputExists => "The specified custom output file/directory already exists, please remove it"@,
        Failure::ReadKey => "Failed to read key"@,
        Failure::ReadConfirmKey => "Failed to read confirm key"@,
        Failure::KeysDiffer => "The two keys don't match"@,
        Failure::EmptyKey => "The key cannot be less than 1 character long"@,
        Failure::NotADirectory => "The path must lead to a directory"@,
        Failure::CreateCipher => "Failed to create cipher"@,
        Failure::CreateTempDir => "Failed to create temporary directory"@,
        Failure::CreatePack => "Failed to create pack"@,
        Failure::RemoveOriginal => "Failed to remove original directory"@,
        Failure::ReadPack => "Failed to read pack file"@,
        Failure::CreateDestination => "Failed to read/create destination file"@,
        Failure::EncryptPack => "Failed to encrypt pack"@,
        Failure::CreateTempFile => "Failed to read/create temporary decrypted pack file"@,
        Failure::DecryptPack => "Failed to decrypt pack"@,
        Failure::OutputPath => "Failed to get output path"@,
        Failure::Unpack => "Failed to unpack pack"@,
        Failure::RemoveOutdatedPack => "Failed to remove outdated pack"@,
        Failure::UpdatePack => "Failed to update pack"@,
        Failure::UpdatePackFile => "Failed to update pack file"@,
        Failure::EncryptUpdatedPack => "Failed to encrypt updated pack"@,
        Failure::ReadFile => "Failed to read source file"@,
        Failure::WriteFile => "Failed to write destination file"@,
        Failure::EncryptFile => "Failed to encrypt file"@,
        Failure::DecryptFile => "Failed to decrypt file"@,
        Failure::UnexpectedEvent => "Unexpected event"@,
        Failure::TargetExists => "The output directory already exists and is not empty"@,
    }
}

/// The class of a failure.
pub open spec fn spec_kind(failure: Failure) -> ErrorKind {
    match failure {
        Failure::NoPaths
        | Failure::MissingPath
        | Failure::OutputWithManyInputs
        | Failure::KeysDiffer
        | Failure::EmptyKey
        | Failure::NotADirectory
        | Failure::OutputPath
        | Failure::UnexpectedEvent => ErrorKind::InvalidInput,
        Failure::OutputExists | Failure::TargetExists => ErrorKind::OutputExists,
        Failure::CreateCipher
        | Failure::EncryptPack
        | Failure::EncryptUpdatedPack
        | Failure::EncryptFile => ErrorKind::Crypto,
        Failure::DecryptPack | Failure::DecryptFile => ErrorKind::Authentication,
        Failure::Unpack => ErrorKind::MalformedContainer,
        Failure::ReadKey
        | Failure::ReadConfirmKey
        | Failure::CreateTempDir
        | Failure::CreatePack
        | Failure::RemoveOriginal
        | Failure::ReadPack
        | Failure::CreateDestination
        | Failure::CreateTempFile
        | Failure::RemoveOutdatedPack
        | Failure::UpdatePack
        | Failure::UpdatePackFile
        | Failure::ReadFile
        | Failure::WriteFile => ErrorKind::Io,
    }
}

/// What is shown of an error: its message and, where details are asked for
/// and there are any, a second line with them.
pub open spec fn spec_describe(failure: Failure, detail: Option<Seq<char>>, debug: bool) -> Seq<
    char,
> {
    match detail {
        Some(text) if debug => spec_message(failure) + "\n  - "@ + text,
        _ => spec_message(failure),
    }
}

/// The view of an optional string.
pub open spec fn spec_text(text: Option<String>) -> Option<Seq<char>> {
    match text {
        Some(s) => Some(s@),
        None => None,
    }
}

/// The message of a failure.
pub fn message(failure: Failure) -> (text: String)
    ensures
        text@ == spec_message(failure),
{
    match failure {
        Failure::NoPaths => "You must provide at least one path",
        Failure::MissingPath => "One or more provided paths don't exist",
        Failure::OutputWithManyInputs => "Only one input path can be provided when setting an output path",
        Failure::OutputExists => "The specified custom output file/directory already exists, please remove it",
        Failure::ReadKey => "Failed to read key",
        Failure::ReadConfirmKey => "Failed to read confirm key",
        Failure::KeysDiffer => "The two keys don't match",
        Failure::EmptyKey => "The key cannot be less than 1 character long",
        Failure::NotADirectory => "The path must lead to a directory",
        Failure::CreateCipher => "Failed to create cipher",
        Failure::CreateTempDir => "Failed to create temporary directory",
        Failure::CreatePack => "Failed to create pack",
        Failure::RemoveOriginal => "Failed to remove original directory",
        Failure::ReadPack => "Failed to read pack file",
        Failure::CreateDestination => "Failed to read/create destination file",
        Failure::EncryptPack => "Failed to encrypt pack",
        Failure::CreateTempFile => "Failed to read/create temporary decrypted pack file",
        Failure::DecryptPack => "Failed to decrypt pack",
        Failure::OutputPath => "Failed to get output path",
        Failure::Unpack => "Failed to unpack pack",
        Failure::RemoveOutdatedPack => "Failed to remove outdated pack",
        Failure::UpdatePack => "Failed to update pack",
        Failure::UpdatePackFile => "Failed to update pack file",
        Failure::EncryptUpdatedPack => "Failed to encrypt updated pack",
        Failure::ReadFile => "Failed to read source file",
        Failure::WriteFile => "Failed to write destination file",
        Failure::EncryptFile => "Failed to encrypt file",
        Failure::DecryptFile => "Failed to decrypt file",
        Failure::UnexpectedEvent => "Unexpected event",
        Failure::TargetExists => "The output directory already exists and is not empty",
    }.to_owned()
}

/// The class of a failure.
pub fn kind(failure: Failure) -> (kind: ErrorKind)
    ensures
        kind == spec_kind(failure),
{
    match failure {
        Failure::NoPaths
        | Failure::MissingPath
        | Failure::OutputWithManyInputs
        | Failure::KeysDiffer
        | Failure::EmptyKey
        | Failure::NotADirectory
        | Failure::OutputPath
        | Failure::UnexpectedEvent => ErrorKind::InvalidInput,
        Failure::OutputExists | Failure::TargetExists => ErrorKind::OutputExists,
        Failure::CreateCipher
        | Failure::EncryptPack
        | Failure::EncryptUpdatedPack
        | Failure::EncryptFile => ErrorKind::Crypto,
        Failure::DecryptPack | Failure::DecryptFile => ErrorKind::Authentication,
        Failure::Unpack => ErrorKind::MalformedContainer,
        Failure::ReadKey
        | Failure::ReadConfirmKey
        | Failure::CreateTempDir
        | Failure::CreatePack
        | Failure::RemoveOriginal
        | Failure::ReadPack
        | Failure::CreateDestination
        | Failure::CreateTempFile
        | Failure::RemoveOutdatedPack
        | Failure::UpdatePack
        | Failure::UpdatePackFile
        | Failure::ReadFile
        | Failure::WriteFile => ErrorKind::Io,
    }
}

impl ActionError {
    /// An error with nothing more to say than its message.
    pub fn new(failure: Failure) -> (error: ActionError)
        ensures
            error.failure == failure,
            error.detail is None,
    {
        ActionError { failure, detail: None }
    }

    /// An error that carries what the failing step said.
    pub fn new_with_error(failure: Failure, detail: String) -> (error: ActionError)
        ensures
            error.failure == failure,
            error.detail == Some(detail),
    {
        ActionError { failure, detail: Some(detail) }
    }

    /// The message of the error.
    pub fn message(&self) -> (text: String)
        ensures
            text@ == spec_message(self.failure),
    {
        message(self.failure)
    }

    /// The class of the error.
    pub fn kind(&self) -> (kind: ErrorKind)
        ensures
            kind == spec_kind(self.failure),
    {
        kind(self.failure)
    }

    /// What is shown of the error: the details only where `debug` is set.
    pub fn describe(&self, debug: bool) -> (text: String)
        ensures
            text@ == spec_describe(self.failure, spec_text(self.detail), debug),
    {
        let head = message(self.failure);
        match &self.detail {
            Some(detail) => {
                if debug {
                    let lead = join(head.as_str(), "\n  - ");
                    join(lead.as_str(), detail.as_str())
                } else {
                    head
                }
            },
            None => head,
        }
    }
}

/// The tree that a sealed pack holds under `key`, or `None` where the
/// stream is not authentic or what it holds is not a container.
pub open spec fn spec_open_pack(key: Seq<u8>, sealed: Seq<u8>) -> Option<PackModel> {
    match spec_decrypt_stream(key, sealed) {
        Some(container) => spec_decode_pack(container),
        None => None,
    }
}

/// Writes a directory tree as a container and seals the container as a
/// stream. A tree that the container cannot hold fails with `CreatePack`;
/// a valid one fails only where the random source does, with `EncryptPack`.
pub fn seal_pack(crypto: &Crypto, tree: &Pack) -> (r: Result<Vec<u8>, ActionError>)
    ensures
        match r {
            Ok(sealed) => spec_pack_valid(tree@) && sealed_stream(
                crypto.key(),
                spec_encode_pack(tree@),
                sealed@,
            ),
            Err(e) => e.detail is None && (if spec_pack_valid(tree@) {
                e.failure == Failure::EncryptPack
            } else {
                e.failure == Failure::CreatePack
            }),
        },
{
    match encode_pack(tree) {
        Err(_) => Err(ActionError::new(Failure::CreatePack)),
        Ok(container) => match crypto.encrypt_stream(container.as_slice()) {
            Ok(sealed) => Ok(sealed),
            Err(_) => Err(ActionError::new(Failure::EncryptPack)),
        },
    }
}

/// Opens a sealed pack: the stream is opened, then the container is read.
/// It fails with `DecryptPack` where the stream is not authentic, and with
/// `Unpack` where what it holds is not a container.
pub fn open_pack(crypto: &Crypto, sealed: &[u8]) -> (r: Result<Pack, ActionError>)
    ensures
        match r {
            Ok(tree) => spec_open_pack(crypto.key(), sealed@) == Some(tree@),
            Err(e) => {
                &&& e.detail is None
                &&& spec_open_pack(crypto.key(), sealed@) is None
                &&& e.failure == if spec_decrypt_stream(crypto.key(), sealed@) is None {
                    Failure::DecryptPack
                } else {
                    Failure::Unpack
                }
            },
        },
{
    match crypto.decrypt_stream(sealed) {
        Err(_) => Err(ActionError::new(Failure::DecryptPack)),
        Ok(container) => match decode_pack(container.as_slice()) {
            Ok(tree) => Ok(tree),
            Err(_) => Err(ActionError::new(Failure::Unpack)),
        },
    }
}

/// Opening a pack that was sealed under the same key gives back the tree
/// that was sealed: the same root, paths and contents.
pub proof fn lemma_sealed_pack_round_trip(key: Seq<u8>, tree: PackModel, sealed: Seq<u8>)
    requires
        spec_pack_valid(tree),
        sealed_stream(key, spec_encode_pack(tree), sealed),
    ensures
        spec_open_pack(key, sealed) == Some(tree),
{
    lemma_stream_round_trip(key, spec_encode_pack(tree), sealed);
    crate::container::lemma_pack_round_trip(tree);
}

} // verus!
