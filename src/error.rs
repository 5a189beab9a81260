use vstd::prelude::*;

use crate::mode::ClipboardMode;

verus! {

/// A failed remote call, as the RPC layer reports it.
#[verifier::external_type_specification]
#[verifier::external_body]
pub struct ExStatus(tonic::Status);

/// Why `get` produced no entry.
#[derive(Debug)]
pub enum GetClipError {
    /// The call failed; `id` is the entry that was asked for.
    Status { source: tonic::Status, id: u64 },
    /// No entry has that id.
    Empty,
}

/// Why `get_current_clip` produced no entry.
#[derive(Debug)]
pub enum GetCurrentClipError {
    /// The call failed; `mode` is the buffer that was asked for.
    Status { source: tonic::Status, mode: ClipboardMode },
    /// The buffer holds no entry.
    Empty,
}

/// Why `update` failed.
#[derive(Debug)]
pub enum UpdateClipError {
    Status { source: tonic::Status },
}

/// Why `mark` failed.
#[derive(Debug)]
pub enum MarkClipError {
    /// The call failed; `id` and `mode` are those of the request.
    Status { source: tonic::Status, id: u64, mode: ClipboardMode },
}

/// Why `insert` failed.
#[derive(Debug)]
pub enum InsertClipError {
    Status { source: tonic::Status },
}

/// Why `length` failed.
#[derive(Debug)]
pub enum GetLengthError {
    Status { source: tonic::Status },
}

/// Why `list` failed.
#[derive(Debug)]
pub enum ListClipError {
    Status { source: tonic::Status },
}

/// Why `remove` failed.
#[derive(Debug)]
pub enum RemoveClipError {
    Status { source: tonic::Status },
}

/// Why `batch_remove` failed.
#[derive(Debug)]
pub enum BatchRemoveClipError {
    Status { source: tonic::Status },
}

/// Why `clear` failed.
#[derive(Debug)]
pub enum ClearClipError {
    Status { source: tonic::Status },
}

} // verus!
