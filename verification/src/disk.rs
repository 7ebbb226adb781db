//! The mathematical model of a file store: which paths hold which bytes,
//! what of that has been forced to the device, and how the primitive calls
//! (open, read, write, sync) and a loss of power change it.

use crate::error::IoError;
use crate::opener::OpenFlags;
use vstd::prelude::*;
use vstd::utf8::{decode_utf8, valid_utf8};

verus! {

/// What the store holds for one path.
pub struct FileState {
    /// The bytes that a read sees.
    pub content: Seq<u8>,
    /// The bytes that were last forced to the device, if any ever were.
    pub durable: Option<Seq<u8>>,
}

/// The state of a handle: which path it was opened on, what it may do, and
/// where its next read or write starts.
pub struct Access {
    pub path: Seq<char>,
    pub readable: bool,
    pub writable: bool,
    pub append: bool,
    pub position: nat,
}

/// The state of a file store.
pub struct Disk {
    pub files: Map<Seq<char>, FileState>,
}

/// `data` after `bytes` were written at offset `at`: the written bytes in
/// their range, the old bytes elsewhere, zeros in a gap between the old end
/// and `at`. Writing nothing changes nothing.
pub open spec fn overlay(data: Seq<u8>, at: nat, bytes: Seq<u8>) -> Seq<u8> {
    if bytes.len() == 0 {
        data
    } else {
        Seq::new(
            if data.len() >= at + bytes.len() {
                data.len()
            } else {
                at + bytes.len()
            },
            |i: int|
                if at <= i < at + bytes.len() {
                    bytes[i - at]
                } else if i < data.len() {
                    data[i]
                } else {
                    0u8
                },
        )
    }
}

/// The bytes of `data` from offset `from` on; none if `data` is shorter.
pub open spec fn beyond(data: Seq<u8>, from: nat) -> Seq<u8> {
    if from <= data.len() {
        data.subrange(from as int, data.len() as int)
    } else {
        Seq::empty()
    }
}

impl Access {
    /// The state of a handle that was just opened.
    pub open spec fn opened(path: Seq<char>, flags: OpenFlags) -> Access {
        Access {
            path,
            readable: flags.read,
            writable: flags.grants_write(),
            append: flags.append,
            position: 0,
        }
    }

    /// The same handle with its position moved.
    pub open spec fn at(self, position: nat) -> Access {
        Access { position, ..self }
    }
}

impl Disk {
    /// The store that holds no file.
    pub open spec fn empty() -> Disk {
        Disk { files: Map::empty() }
    }

    /// Whether a file exists at `path`.
    pub open spec fn contains(self, path: Seq<char>) -> bool {
        self.files.contains_key(path)
    }

    /// The bytes that a read of `path` sees.
    pub open spec fn content(self, path: Seq<char>) -> Seq<u8>
        recommends
            self.contains(path),
    {
        self.files[path].content
    }

    /// Whether `path` would survive a loss of power with exactly the bytes
    /// that a read sees now.
    pub open spec fn is_durable(self, path: Seq<char>) -> bool {
        self.contains(path) && self.files[path].durable == Some(self.files[path].content)
    }

    /// The store with `path` holding `content`, not yet forced to the device.
    pub open spec fn with_content(self, path: Seq<char>, content: Seq<u8>) -> Disk {
        let durable = if self.contains(path) {
            self.files[path].durable
        } else {
            None
        };
        Disk { files: self.files.insert(path, FileState { content, durable }) }
    }

    /// The store with `path` holding `content`, forced to the device.
    pub open spec fn put(self, path: Seq<char>, content: Seq<u8>) -> Disk {
        Disk { files: self.files.insert(path, FileState { content, durable: Some(content) }) }
    }

    /// Why an open call on `path` with `flags` is refused, if it is.
    pub open spec fn open_error(self, path: Seq<char>, flags: OpenFlags) -> Option<IoError> {
        if !flags.accepted() {
            Some(IoError::Other)
        } else if self.contains(path) {
            if flags.create_new {
                Some(IoError::AlreadyExists)
            } else {
                None
            }
        } else if flags.creates() {
            None
        } else {
            Some(IoError::NotFound)
        }
    }

    /// The store after an open call on `path` with `flags`. A refused call
    /// changes nothing; an accepted one creates an absent file empty and
    /// empties an existing one if asked to truncate.
    pub open spec fn after_open(self, path: Seq<char>, flags: OpenFlags) -> Disk {
        if self.open_error(path, flags) is Some {
            self
        } else if !self.contains(path) || flags.truncate {
            self.with_content(path, Seq::empty())
        } else {
            self
        }
    }

    /// Why a read through `handle` is refused, if it is.
    pub open spec fn read_error(self, handle: Access) -> Option<IoError> {
        if !handle.readable {
            Some(IoError::PermissionDenied)
        } else if !self.contains(handle.path) {
            Some(IoError::NotFound)
        } else {
            None
        }
    }

    /// The bytes from the position of `handle` to the end of its file.
    pub open spec fn remaining(self, handle: Access) -> Seq<u8> {
        beyond(self.content(handle.path), handle.position)
    }

    /// Where `handle` stands after it was read to the end of its file.
    pub open spec fn read_end(self, handle: Access) -> nat {
        let len = self.content(handle.path).len();
        if handle.position <= len {
            len
        } else {
            handle.position
        }
    }

    /// Why a write through `handle` is refused, if it is.
    pub open spec fn write_error(self, handle: Access) -> Option<IoError> {
        if !handle.writable {
            Some(IoError::PermissionDenied)
        } else if !self.contains(handle.path) {
            Some(IoError::NotFound)
        } else {
            None
        }
    }

    /// The offset at which a write through `handle` starts: the end of the
    /// file when appending, the handle's position otherwise.
    pub open spec fn write_start(self, handle: Access) -> nat {
        if handle.append {
            self.content(handle.path).len()
        } else {
            handle.position
        }
    }

    /// Where `handle` stands after `bytes` were written through it.
    pub open spec fn write_end(self, handle: Access, bytes: Seq<u8>) -> nat {
        self.write_start(handle) + bytes.len()
    }

    /// The store after `bytes` were written through `handle`.
    pub open spec fn after_write(self, handle: Access, bytes: Seq<u8>) -> Disk {
        if self.write_error(handle) is Some {
            self
        } else {
            self.with_content(
                handle.path,
                overlay(self.content(handle.path), self.write_start(handle), bytes),
            )
        }
    }

    /// The store after the file at `path` was forced to the device.
    pub open spec fn after_sync(self, path: Seq<char>) -> Disk {
        if self.contains(path) {
            self.put(path, self.content(path))
        } else {
            self
        }
    }

    /// Why opening `path` with `flags` and writing through the fresh handle
    /// fails, if it does: the open call is refused, or the handle may not
    /// write.
    pub open spec fn write_all_error(self, path: Seq<char>, flags: OpenFlags) -> Option<IoError> {
        if self.open_error(path, flags) is Some {
            self.open_error(path, flags)
        } else if !flags.grants_write() {
            Some(IoError::PermissionDenied)
        } else {
            None
        }
    }

    /// The store after `path` was opened with `flags`, `bytes` were written
    /// through the fresh handle and the file was forced to the device. The
    /// bytes land on what the file held before, or on nothing if it was
    /// absent or is truncated; at its end when appending, at its start
    /// otherwise. A failure changes nothing.
    pub open spec fn after_write_all(
        self,
        path: Seq<char>,
        bytes: Seq<u8>,
        flags: OpenFlags,
    ) -> Disk {
        if self.write_all_error(path, flags) is Some {
            self
        } else {
            let base = if self.contains(path) && !flags.truncate {
                self.content(path)
            } else {
                Seq::empty()
            };
            let start = if flags.append {
                base.len()
            } else {
                0
            };
            self.put(path, overlay(base, start, bytes))
        }
    }

    /// What a write lands on where the file may be absent: its bytes, or
    /// none.
    pub open spec fn content_or_empty(self, path: Seq<char>) -> Seq<u8> {
        if self.contains(path) {
            self.content(path)
        } else {
            Seq::empty()
        }
    }

    /// The store after `bytes` were appended to `path`: an absent file is not
    /// created, and nothing changes.
    pub open spec fn after_append(self, path: Seq<char>, bytes: Seq<u8>) -> Disk {
        if self.contains(path) {
            self.put(path, self.content(path) + bytes)
        } else {
            self
        }
    }

    /// The store after `bytes` were written over the start of `path`: the
    /// file holds `bytes`, then what it held beyond their length.
    pub open spec fn after_overwrite(self, path: Seq<char>, bytes: Seq<u8>) -> Disk {
        self.put(path, bytes + beyond(self.content_or_empty(path), bytes.len()))
    }

    /// The store after `path` was truncated to `bytes`: the file holds
    /// `bytes` and nothing else.
    pub open spec fn after_truncate(self, path: Seq<char>, bytes: Seq<u8>) -> Disk {
        self.put(path, bytes)
    }

    /// What reading all of `path` returns.
    pub open spec fn read_all(self, path: Seq<char>) -> Result<Seq<u8>, IoError> {
        if self.contains(path) {
            Ok(self.content(path))
        } else {
            Err(IoError::NotFound)
        }
    }

    /// What reading all of `path` as UTF-8 text returns.
    pub open spec fn read_string(self, path: Seq<char>) -> Result<Seq<char>, IoError> {
        match self.read_all(path) {
            Ok(bytes) => if valid_utf8(bytes) {
                Ok(decode_utf8(bytes))
            } else {
                Err(IoError::InvalidData)
            },
            Err(error) => Err(error),
        }
    }

    /// The store after a loss of power: every file holds what was last
    /// forced to the device, and a file never forced there is gone.
    pub open spec fn crashed(self) -> Disk {
        Disk {
            files: Map::new(
                |path: Seq<char>| self.contains(path) && self.files[path].durable is Some,
                |path: Seq<char>|
                    FileState {
                        content: self.files[path].durable->0,
                        durable: self.files[path].durable,
                    },
            ),
        }
    }
}

} // verus!
