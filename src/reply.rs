//! Turning the service's replies into results: each function takes what one
//! remote call returned (its reply, or the failure of the call) together with
//! the request's parameters, and gives the operation's result.
use vstd::prelude::*;

use crate::entry::{is_ordered, sort_entries, ClipEntry};
use crate::error::{
    BatchRemoveClipError, ClearClipError, GetClipError, GetCurrentClipError, GetLengthError,
    InsertClipError, ListClipError, MarkClipError, RemoveClipError, UpdateClipError,
};
use crate::mode::ClipboardMode;

verus! {

/// The history size that a count from the wire stands for: the count itself
/// where it is a valid size, zero where it is negative or too large.
pub open spec fn coerced_length(count: i64) -> int {
    if 0 <= count && count <= usize::MAX {
        count as int
    } else {
        0
    }
}

/// Result of `get(id)`: the entry of the reply, `Empty` where the reply holds
/// none, the failure with `id` where the call failed.
pub fn get_reply(id: u64, reply: Result<Option<ClipEntry>, tonic::Status>) -> (r: Result<
    ClipEntry,
    GetClipError,
>)
    ensures
        match reply {
            Ok(Some(e)) => r == Ok::<ClipEntry, GetClipError>(e),
            Ok(None) => r == Err::<ClipEntry, GetClipError>(GetClipError::Empty),
            Err(source) => r == Err::<ClipEntry, GetClipError>(
                GetClipError::Status { source, id },
            ),
        },
{
    match reply {
        Ok(Some(e)) => Ok(e),
        Ok(None) => Err(GetClipError::Empty),
        Err(source) => Err(GetClipError::Status { source, id }),
    }
}

/// Result of `get_current_clip(mode)`: the entry of the reply, `Empty` where
/// the reply holds none, the failure with `mode` where the call failed.
pub fn get_current_clip_reply(
    mode: ClipboardMode,
    reply: Result<Option<ClipEntry>, tonic::Status>,
) -> (r: Result<ClipEntry, GetCurrentClipError>)
    ensures
        match reply {
            Ok(Some(e)) => r == Ok::<ClipEntry, GetCurrentClipError>(e),
            Ok(None) => r == Err::<ClipEntry, GetCurrentClipError>(GetCurrentClipError::Empty),
            Err(source) => r == Err::<ClipEntry, GetCurrentClipError>(
                GetCurrentClipError::Status { source, mode },
            ),
        },
{
    match reply {
        Ok(Some(e)) => Ok(e),
        Ok(None) => Err(GetCurrentClipError::Empty),
        Err(source) => Err(GetCurrentClipError::Status { source, mode }),
    }
}

/// Result of `update`: the reply's flag and resulting id, or the failure.
pub fn update_reply(reply: Result<(bool, u64), tonic::Status>) -> (r: Result<
    (bool, u64),
    UpdateClipError,
>)
    ensures
        match reply {
            Ok(p) => r == Ok::<(bool, u64), UpdateClipError>(p),
            Err(source) => r == Err::<(bool, u64), UpdateClipError>(
                UpdateClipError::Status { source },
            ),
        },
{
    match reply {
        Ok(p) => Ok(p),
        Err(source) => Err(UpdateClipError::Status { source }),
    }
}

/// Result of `mark(id, mode)`: the reply's flag, or the failure with `id` and
/// `mode`.
pub fn mark_reply(id: u64, mode: ClipboardMode, reply: Result<bool, tonic::Status>) -> (r:
    Result<bool, MarkClipError>)
    ensures
        match reply {
            Ok(ok) => r == Ok::<bool, MarkClipError>(ok),
            Err(source) => r == Err::<bool, MarkClipError>(
                MarkClipError::Status { source, id, mode },
            ),
        },
{
    match reply {
        Ok(ok) => Ok(ok),
        Err(source) => Err(MarkClipError::Status { source, id, mode }),
    }
}

/// Result of `insert`: the id of the reply, or the failure.
pub fn insert_reply(reply: Result<u64, tonic::Status>) -> (r: Result<u64, InsertClipError>)
    ensures
        match reply {
            Ok(id) => r == Ok::<u64, InsertClipError>(id),
            Err(source) => r == Err::<u64, InsertClipError>(InsertClipError::Status { source }),
        },
{
    match reply {
        Ok(id) => Ok(id),
        Err(source) => Err(InsertClipError::Status { source }),
    }
}

/// Result of `length`: the count of the reply as a size, zero where the count
/// is no valid size; or the failure.
pub fn length_reply(reply: Result<i64, tonic::Status>) -> (r: Result<usize, GetLengthError>)
    ensures
        match reply {
            Ok(count) => r matches Ok(n) && n == coerced_length(count),
            Err(source) => r == Err::<usize, GetLengthError>(GetLengthError::Status { source }),
        },
{
    match reply {
        Ok(count) => {
            if count < 0 {
                Ok(0)
            } else if count as u64 <= usize::MAX as u64 {
                Ok(count as usize)
            } else {
                Ok(0)
            }
        },
        Err(source) => Err(GetLengthError::Status { source }),
    }
}

/// Result of `list`: the entries of the reply in presentation order, or the
/// failure.
pub fn list_reply(reply: Result<Vec<ClipEntry>, tonic::Status>) -> (r: Result<
    Vec<ClipEntry>,
    ListClipError,
>)
    ensures
        match reply {
            Ok(v) => r matches Ok(s) && is_ordered(s@) && s@.to_multiset() == v@.to_multiset(),
            Err(source) => r == Err::<Vec<ClipEntry>, ListClipError>(
                ListClipError::Status { source },
            ),
        },
{
    match reply {
        Ok(v) => Ok(sort_entries(v)),
        Err(source) => Err(ListClipError::Status { source }),
    }
}

/// Result of `remove`: the reply's flag, or the failure.
pub fn remove_reply(reply: Result<bool, tonic::Status>) -> (r: Result<bool, RemoveClipError>)
    ensures
        match reply {
            Ok(ok) => r == Ok::<bool, RemoveClipError>(ok),
            Err(source) => r == Err::<bool, RemoveClipError>(RemoveClipError::Status { source }),
        },
{
    match reply {
        Ok(ok) => Ok(ok),
        Err(source) => Err(RemoveClipError::Status { source }),
    }
}

/// Result of `batch_remove`: the ids of the reply, or the failure.
pub fn batch_remove_reply(reply: Result<Vec<u64>, tonic::Status>) -> (r: Result<
    Vec<u64>,
    BatchRemoveClipError,
>)
    ensures
        match reply {
            Ok(ids) => r matches Ok(s) && s@ == ids@,
            Err(source) => r == Err::<Vec<u64>, BatchRemoveClipError>(
                BatchRemoveClipError::Status { source },
            ),
        },
{
    match reply {
        Ok(ids) => Ok(ids),
        Err(source) => Err(BatchRemoveClipError::Status { source }),
    }
}

/// Result of `clear`: nothing, or the failure.
pub fn clear_reply(reply: Result<(), tonic::Status>) -> (r: Result<(), ClearClipError>)
    ensures
        match reply {
            Ok(_) => r is Ok,
            Err(source) => r == Err::<(), ClearClipError>(ClearClipError::Status { source }),
        },
{
    match reply {
        Ok(_) => Ok(()),
        Err(source) => Err(ClearClipError::Status { source }),
    }
}

} // verus!
