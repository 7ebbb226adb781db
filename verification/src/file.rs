//! The file facade: a path, and the operations that open, read and write
//! the file at that path in a store.

use crate::disk::Access;
use crate::error::IoError;
use crate::laws::{
    lemma_append_is_write_all, lemma_overwrite_is_write_all, lemma_read_all_in_steps,
    lemma_truncate_is_write_all, lemma_write_all_in_steps,
};
use crate::opener::FileOpener;
use crate::store::{is_open_result, Handle, Store};
use crate::text::decode;
use vstd::prelude::*;

verus! {

/// A file, named by its path. It holds nothing else: every operation opens
/// the file, does its work and lets the handle go.
#[derive(Debug, Eq, Hash, Ord, PartialOrd)]
pub struct File {
    pub path: String,
}

/// Opens `path` in `store` for writing as `opt` says.
pub fn buf_writer_with(store: &mut Store, path: &str, opt: FileOpener) -> (opened: Result<
    Handle,
    IoError,
>)
    ensures
        is_open_result(old(store)@, path@, opt.flags(), opened),
        final(store)@ == old(store)@.after_open(path@, opt.flags()),
{
    opt.open(store, path)
}

impl File {
    /// The file at `path`.
    pub fn new(path: &str) -> (file: File)
        ensures
            file.path@ == path@,
    {
        File { path: path.to_owned() }
    }

    /// Opens the file as `opt` says and hands out the handle.
    pub fn open_with(&self, store: &mut Store, opt: FileOpener) -> (opened: Result<
        Handle,
        IoError,
    >)
        ensures
            is_open_result(old(store)@, self.path@, opt.flags(), opened),
            final(store)@ == old(store)@.after_open(self.path@, opt.flags()),
    {
        opt.open(store, self.path.as_str())
    }

    /// Makes sure that the file exists: creates it empty if it is absent and
    /// leaves it as it is otherwise. The handle appends.
    pub fn create_if_absent(&self, store: &mut Store) -> (opened: Result<Handle, IoError>)
        ensures
            opened matches Ok(handle) && handle@ == Access::opened(
                self.path@,
                FileOpener::append_or_create().flags(),
            ),
            final(store)@ == if old(store)@.contains(self.path@) {
                old(store)@
            } else {
                old(store)@.with_content(self.path@, Seq::empty())
            },
    {
        self.open_with(store, FileOpener::append_or_create())
    }

    /// Opens the file for reading only. The store is not changed.
    pub fn buf_reader(&self, store: &mut Store) -> (opened: Result<Handle, IoError>)
        ensures
            match opened {
                Ok(handle) => old(store)@.contains(self.path@) && handle@ == Access::opened(
                    self.path@,
                    FileOpener::readonly().flags(),
                ),
                Err(error) => !old(store)@.contains(self.path@) && error == IoError::NotFound,
            },
            final(store)@ == old(store)@,
    {
        FileOpener::readonly().open(store, self.path.as_str())
    }

    /// Opens the file for writing as `opt` says.
    pub fn buf_writer(&self, store: &mut Store, opt: FileOpener) -> (opened: Result<
        Handle,
        IoError,
    >)
        ensures
            is_open_result(old(store)@, self.path@, opt.flags(), opened),
            final(store)@ == old(store)@.after_open(self.path@, opt.flags()),
    {
        opt.open(store, self.path.as_str())
    }

    /// Reads every byte of the file. The store is not changed.
    pub fn read_all(&self, store: &mut Store) -> (read: Result<Vec<u8>, IoError>)
        ensures
            match read {
                Ok(bytes) => old(store)@.read_all(self.path@) == Ok::<Seq<u8>, IoError>(bytes@),
                Err(error) => old(store)@.read_all(self.path@) == Err::<Seq<u8>, IoError>(error),
            },
            final(store)@ == old(store)@,
    {
        proof {
            lemma_read_all_in_steps(store@, self.path@);
        }
        let mut reader = self.buf_reader(store)?;
        let bytes = reader.read_to_end(store)?;
        Ok(bytes)
    }

    /// Reads the file as UTF-8 text. Bytes that are not text are an error.
    /// The store is not changed.
    pub fn read_string(&self, store: &mut Store) -> (read: Result<String, IoError>)
        ensures
            match read {
                Ok(text) => old(store)@.read_string(self.path@) == Ok::<Seq<char>, IoError>(text@),
                Err(error) => old(store)@.read_string(self.path@) == Err::<Seq<char>, IoError>(
                    error,
                ),
            },
            final(store)@ == old(store)@,
    {
        let bytes = self.read_all(store)?;
        decode(bytes)
    }

    /// Appends `buf` to the file and forces it to the device. The file is
    /// not created: if it is absent, nothing changes.
    pub fn append(&self, store: &mut Store, buf: &[u8]) -> (written: Result<(), IoError>)
        ensures
            written == if old(store)@.contains(self.path@) {
                Ok::<(), IoError>(())
            } else {
                Err::<(), IoError>(IoError::NotFound)
            },
            final(store)@ == old(store)@.after_append(self.path@, buf@),
    {
        proof {
            lemma_append_is_write_all(store@, self.path@, buf@);
        }
        self.write_all_with(store, buf, FileOpener::appending())
    }

    /// Writes `buf` over the start of the file, creating it if it is absent,
    /// and forces it to the device. What the file held beyond `buf` stays.
    pub fn overwrite(&self, store: &mut Store, buf: &[u8]) -> (written: Result<(), IoError>)
        ensures
            written is Ok,
            final(store)@ == old(store)@.after_overwrite(self.path@, buf@),
    {
        proof {
            lemma_overwrite_is_write_all(store@, self.path@, buf@);
        }
        self.write_all_with(store, buf, FileOpener::overwrite())
    }

    /// Makes `buf` the whole content of the file, creating it if it is
    /// absent, and forces it to the device.
    pub fn truncate(&self, store: &mut Store, buf: &[u8]) -> (written: Result<(), IoError>)
        ensures
            written is Ok,
            final(store)@ == old(store)@.after_truncate(self.path@, buf@),
    {
        proof {
            lemma_truncate_is_write_all(store@, self.path@, buf@);
        }
        self.write_all_with(store, buf, FileOpener::truncate())
    }

    /// Opens the file as `opt` says, writes all of `buf` and forces the file
    /// to the device before it reports success. The first failure is
    /// returned, and then nothing has changed.
    pub fn write_all_with(&self, store: &mut Store, buf: &[u8], opt: FileOpener) -> (written:
        Result<(), IoError>)
        ensures
            written == match old(store)@.write_all_error(self.path@, opt.flags()) {
                Some(error) => Err::<(), IoError>(error),
                None => Ok::<(), IoError>(()),
            },
            final(store)@ == old(store)@.after_write_all(self.path@, buf@, opt.flags()),
    {
        proof {
            lemma_write_all_in_steps(store@, self.path@, buf@, opt.flags());
        }
        let mut writer = self.buf_writer(store, opt)?;
        writer.write_all(store, buf)?;
        writer.sync_all(store)?;
        Ok(())
    }
}

impl PartialEq for File {
    /// Two files are equal where their paths are.
    fn eq(&self, other: &File) -> (equal: bool) {
        self.path == other.path
    }
}

impl vstd::std_specs::cmp::PartialEqSpecImpl for File {
    open spec fn obeys_eq_spec() -> bool {
        true
    }

    open spec fn eq_spec(&self, other: &File) -> bool {
        self.path@ == other.path@
    }
}

impl Clone for File {
    fn clone(&self) -> (file: File)
        ensures
            file.path@ == self.path@,
    {
        File { path: self.path.clone() }
    }
}

impl core::ops::Deref for File {
    type Target = str;

    /// The path, for everything that reads a path.
    fn deref(&self) -> (path: &str)
        ensures
            path@ == self.path@,
    {
        self.path.as_str()
    }
}

impl AsRef<str> for File {
    fn as_ref(&self) -> (path: &str)
        ensures
            path@ == self.path@,
    {
        self.path.as_str()
    }
}

impl From<String> for File {
    fn from(path: String) -> (file: File) {
        File { path }
    }
}

impl vstd::std_specs::convert::FromSpecImpl<String> for File {
    open spec fn obeys_from_spec() -> bool {
        true
    }

    open spec fn from_spec(path: String) -> File {
        File { path }
    }
}

impl Default for File {
    /// The file with the empty path.
    fn default() -> (file: File)
        ensures
            file.path@ == Seq::<char>::empty(),
    {
        File { path: String::new() }
    }
}

} // verus!
