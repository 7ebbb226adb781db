//! What holds of the operations on a file, whatever the store held before.
//!
//! Each statement is over the model of the store, in the terms in which the
//! contracts of the operations themselves are written.

use crate::disk::{beyond, overlay, Access, Disk};
use crate::error::IoError;
use crate::opener::{FileOpener, OpenFlags};
use vstd::prelude::*;
use vstd::utf8::{encode_utf8, encode_utf8_decode_utf8, encode_utf8_valid_utf8};

verus! {

/// Each of the five ready-made configurations asks for some access, and
/// an open call accepts its switches.
pub proof fn lemma_ready_made_openers_are_accepted()
    ensures
        FileOpener::appending().grants_access() && FileOpener::appending().flags().accepted(),
        FileOpener::truncate().grants_access() && FileOpener::truncate().flags().accepted(),
        FileOpener::overwrite().grants_access() && FileOpener::overwrite().flags().accepted(),
        FileOpener::append_or_create().grants_access()
            && FileOpener::append_or_create().flags().accepted(),
        FileOpener::readonly().grants_access() && FileOpener::readonly().flags().accepted(),
{
}

/// A configuration that asks for no access at all is accepted by no open
/// call.
pub proof fn lemma_no_access_is_refused(disk: Disk, path: Seq<char>, opener: FileOpener)
    requires
        !opener.grants_access(),
    ensures
        disk.open_error(path, opener.flags()) == Some(IoError::Other),
        disk.after_open(path, opener.flags()) == disk,
{
}

/// Opening a file, writing through the fresh handle and forcing the file to
/// the device, one call after the other, comes to what `after_write_all`
/// says in one step; and where one of the calls fails, none has changed the
/// store.
pub proof fn lemma_write_all_in_steps(
    disk: Disk,
    path: Seq<char>,
    bytes: Seq<u8>,
    flags: OpenFlags,
)
    ensures
        disk.write_all_error(path, flags) == if disk.open_error(path, flags) is Some {
            disk.open_error(path, flags)
        } else {
            disk.after_open(path, flags).write_error(Access::opened(path, flags))
        },
        disk.write_all_error(path, flags) is None ==> disk.after_write_all(path, bytes, flags)
            == disk.after_open(path, flags).after_write(
            Access::opened(path, flags),
            bytes,
        ).after_sync(path),
        disk.write_all_error(path, flags) is Some ==> disk.after_open(path, flags) == disk,
{
    if disk.write_all_error(path, flags) is None {
        let stepwise = disk.after_open(path, flags).after_write(
            Access::opened(path, flags),
            bytes,
        ).after_sync(path);
        assert(stepwise.files =~= disk.after_write_all(path, bytes, flags).files);
    }
}

/// Reading all of a file is opening it with `FileOpener::readonly()` and
/// reading through the fresh handle to the end; neither call changes the
/// store.
pub proof fn lemma_read_all_in_steps(disk: Disk, path: Seq<char>)
    ensures
        disk.after_open(path, FileOpener::readonly().flags()) == disk,
        disk.read_all(path) == match disk.open_error(path, FileOpener::readonly().flags()) {
            Some(error) => Err::<Seq<u8>, IoError>(error),
            None => Ok::<Seq<u8>, IoError>(
                disk.remaining(Access::opened(path, FileOpener::readonly().flags())),
            ),
        },
        disk.read_error(Access::opened(path, FileOpener::readonly().flags())) == if disk.contains(
            path,
        ) {
            None
        } else {
            Some(IoError::NotFound)
        },
{
    if disk.contains(path) {
        assert(beyond(disk.content(path), 0) =~= disk.content(path));
    }
}

/// Appending is opening with `FileOpener::appending()`, writing and forcing
/// to the device.
pub proof fn lemma_append_is_write_all(disk: Disk, path: Seq<char>, bytes: Seq<u8>)
    ensures
        disk.after_append(path, bytes) == disk.after_write_all(
            path,
            bytes,
            FileOpener::appending().flags(),
        ),
        disk.write_all_error(path, FileOpener::appending().flags()) == if disk.contains(path) {
            None
        } else {
            Some(IoError::NotFound)
        },
{
    if disk.contains(path) {
        let content = disk.content(path);
        assert(overlay(content, content.len(), bytes) =~= content + bytes);
    }
}

/// Overwriting is opening with `FileOpener::overwrite()`, writing and
/// forcing to the device; it never fails.
pub proof fn lemma_overwrite_is_write_all(disk: Disk, path: Seq<char>, bytes: Seq<u8>)
    ensures
        disk.after_overwrite(path, bytes) == disk.after_write_all(
            path,
            bytes,
            FileOpener::overwrite().flags(),
        ),
        disk.write_all_error(path, FileOpener::overwrite().flags()) is None,
{
    let base = disk.content_or_empty(path);
    assert(overlay(base, 0, bytes) =~= bytes + beyond(base, bytes.len()));
}

/// Truncating is opening with `FileOpener::truncate()`, writing and forcing
/// to the device; it never fails.
pub proof fn lemma_truncate_is_write_all(disk: Disk, path: Seq<char>, bytes: Seq<u8>)
    ensures
        disk.after_truncate(path, bytes) == disk.after_write_all(
            path,
            bytes,
            FileOpener::truncate().flags(),
        ),
        disk.write_all_error(path, FileOpener::truncate().flags()) is None,
{
    assert(overlay(Seq::empty(), 0, bytes) =~= bytes);
}

/// After a file was truncated to `bytes`, reading all of it returns exactly
/// `bytes`; truncating never fails.
pub proof fn lemma_truncate_then_read_all(disk: Disk, path: Seq<char>, bytes: Seq<u8>)
    ensures
        disk.write_all_error(path, FileOpener::truncate().flags()) is None,
        disk.after_truncate(path, bytes).read_all(path) == Ok::<Seq<u8>, IoError>(bytes),
{
}

/// After a file was truncated to the UTF-8 encoding of `text`, reading it as
/// text returns exactly `text`.
pub proof fn lemma_truncate_then_read_string(disk: Disk, path: Seq<char>, text: Seq<char>)
    ensures
        disk.after_truncate(path, encode_utf8(text)).read_string(path) == Ok::<
            Seq<char>,
            IoError,
        >(text),
{
    encode_utf8_valid_utf8(text);
    encode_utf8_decode_utf8(text);
}

/// After `first` was written over a file that was absent or no longer than
/// `first`, and `second` was appended, reading all of it returns `first`
/// followed by `second`; neither write fails.
pub proof fn lemma_overwrite_then_append(
    disk: Disk,
    path: Seq<char>,
    first: Seq<u8>,
    second: Seq<u8>,
)
    requires
        disk.content_or_empty(path).len() <= first.len(),
    ensures
        disk.write_all_error(path, FileOpener::overwrite().flags()) is None,
        disk.after_overwrite(path, first).write_all_error(path, FileOpener::appending().flags())
            is None,
        disk.after_overwrite(path, first).after_append(path, second).read_all(path) == Ok::<
            Seq<u8>,
            IoError,
        >(first + second),
{
}

/// Whatever a file held, after `first` was written over it and `second` was
/// appended, reading all of it returns what the overwrite left, followed by
/// `second`.
pub proof fn lemma_append_after_overwrite(
    disk: Disk,
    path: Seq<char>,
    first: Seq<u8>,
    second: Seq<u8>,
)
    ensures
        disk.after_overwrite(path, first).after_append(path, second).read_all(path) == Ok::<
            Seq<u8>,
            IoError,
        >(first + beyond(disk.content_or_empty(path), first.len()) + second),
{
}

/// After `long` was written over a file and the file was then truncated to
/// `short`, reading all of it returns exactly `short`, whatever the length
/// of `long`.
pub proof fn lemma_truncate_after_overwrite(
    disk: Disk,
    path: Seq<char>,
    long: Seq<u8>,
    short: Seq<u8>,
)
    ensures
        disk.after_overwrite(path, long).after_truncate(path, short).read_all(path) == Ok::<
            Seq<u8>,
            IoError,
        >(short),
{
}

/// Opening an absent file read-only fails with `NotFound` and does not
/// create it.
pub proof fn lemma_readonly_never_creates(disk: Disk, path: Seq<char>)
    requires
        !disk.contains(path),
    ensures
        disk.open_error(path, FileOpener::readonly().flags()) == Some(IoError::NotFound),
        disk.after_open(path, FileOpener::readonly().flags()) == disk,
        !disk.after_open(path, FileOpener::readonly().flags()).contains(path),
{
}

/// Whatever the configuration, a policy of never creating fails with
/// `NotFound` on an absent file if it is accepted at all, and a policy of
/// creating anew fails with `AlreadyExists` on an existing one; neither
/// failure changes the store.
pub proof fn lemma_creation_policy(disk: Disk, path: Seq<char>, flags: OpenFlags)
    requires
        flags.accepted(),
    ensures
        !disk.contains(path) && !flags.creates() ==> disk.open_error(path, flags) == Some(
            IoError::NotFound,
        ),
        disk.contains(path) && flags.create_new ==> disk.open_error(path, flags) == Some(
            IoError::AlreadyExists,
        ),
        disk.open_error(path, flags) is Some ==> disk.after_open(path, flags) == disk,
        disk.open_error(path, flags) is None ==> disk.after_open(path, flags).contains(path),
{
}

/// Appending to an absent file fails with `NotFound` and leaves no file
/// created.
pub proof fn lemma_append_requires_existence(disk: Disk, path: Seq<char>, bytes: Seq<u8>)
    requires
        !disk.contains(path),
    ensures
        disk.write_all_error(path, FileOpener::appending().flags()) == Some(IoError::NotFound),
        disk.after_append(path, bytes) == disk,
        !disk.after_append(path, bytes).contains(path),
{
}

/// Writing the same bytes over a file a second time changes nothing: nothing
/// accumulates.
pub proof fn lemma_overwrite_twice(disk: Disk, path: Seq<char>, bytes: Seq<u8>)
    ensures
        disk.after_overwrite(path, bytes).after_overwrite(path, bytes) == disk.after_overwrite(
            path,
            bytes,
        ),
{
    let once = disk.after_overwrite(path, bytes);
    let twice = once.after_overwrite(path, bytes);
    assert(bytes + beyond(once.content(path), bytes.len()) =~= once.content(path));
    assert(twice.files =~= once.files);
}

/// Where the file was absent or no longer than `bytes`, writing `bytes` over
/// it once or twice leaves exactly `bytes` in it.
pub proof fn lemma_overwrite_twice_reads_back(disk: Disk, path: Seq<char>, bytes: Seq<u8>)
    requires
        disk.content_or_empty(path).len() <= bytes.len(),
    ensures
        disk.after_overwrite(path, bytes).read_all(path) == Ok::<Seq<u8>, IoError>(bytes),
        disk.after_overwrite(path, bytes).after_overwrite(path, bytes).read_all(path) == Ok::<
            Seq<u8>,
            IoError,
        >(bytes),
{
}

/// Once opening, writing and forcing to the device has reported success, a
/// loss of power loses nothing of the file.
pub proof fn lemma_written_survives_crash(
    disk: Disk,
    path: Seq<char>,
    bytes: Seq<u8>,
    flags: OpenFlags,
)
    requires
        disk.write_all_error(path, flags) is None,
    ensures
        disk.after_write_all(path, bytes, flags).is_durable(path),
        disk.after_write_all(path, bytes, flags).crashed().read_all(path) == disk.after_write_all(
            path,
            bytes,
            flags,
        ).read_all(path),
{
}

/// Without the sync call nothing is promised: what was written through a
/// handle alone does not outlive a loss of power.
pub proof fn lemma_unsynced_write_is_lost(disk: Disk, handle: Access, bytes: Seq<u8>)
    ensures
        disk.after_write(handle, bytes).crashed() == disk.crashed(),
{
    assert(disk.after_write(handle, bytes).crashed().files =~= disk.crashed().files);
}

/// A handle that was not opened for writing rejects every write, and no
/// byte is written.
pub proof fn lemma_read_only_handle_rejects_writes(
    disk: Disk,
    path: Seq<char>,
    flags: OpenFlags,
    bytes: Seq<u8>,
)
    requires
        !flags.grants_write(),
    ensures
        disk.write_error(Access::opened(path, flags)) == Some(IoError::PermissionDenied),
        disk.after_write(Access::opened(path, flags), bytes) == disk,
{
}

/// A failed attempt to open, write and sync changes nothing.
pub proof fn lemma_failed_write_changes_nothing(
    disk: Disk,
    path: Seq<char>,
    bytes: Seq<u8>,
    flags: OpenFlags,
)
    requires
        disk.write_all_error(path, flags) is Some,
    ensures
        disk.after_write_all(path, bytes, flags) == disk,
{
}

} // verus!
