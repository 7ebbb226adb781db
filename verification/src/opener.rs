//! Open-mode configuration: creation policy, read permission and write
//! discipline, and the primitive switches of an open call that they stand
//! for.

use crate::error::IoError;
use crate::store::{is_open_result, Handle, Store};
use vstd::prelude::*;

verus! {

/// Whether opening a file may, or must, create it.
#[derive(Clone, Copy, Debug, PartialEq, Eq, Structural)]
pub enum CreateMode {
    /// The file is created by this open; opening fails if it already exists.
    CreateNew,
    /// The file is created if it is absent, and opened as it is otherwise.
    IfNotExists,
    /// The file is never created; opening fails if it does not exist.
    Never,
}

/// Where the bytes of a write land.
#[derive(Clone, Copy, Debug, PartialEq, Eq, Structural)]
pub enum WriteOption {
    /// Every write lands at the end of the file.
    Append,
    /// Writes start at the beginning; bytes beyond the written range stay.
    Overwrite,
    /// The file is emptied when it is opened; writes start at the beginning.
    Truncate,
}

/// The primitive switches of an open call, all off unless set.
#[derive(Clone, Copy, Debug, PartialEq, Eq, Structural)]
pub struct OpenFlags {
    pub read: bool,
    pub write: bool,
    pub append: bool,
    pub truncate: bool,
    pub create: bool,
    pub create_new: bool,
}

impl OpenFlags {
    /// The flag set with every switch off.
    pub open spec fn none() -> OpenFlags {
        OpenFlags {
            read: false,
            write: false,
            append: false,
            truncate: false,
            create: false,
            create_new: false,
        }
    }

    /// A flag set with every switch off.
    pub fn new() -> (flags: OpenFlags)
        ensures
            flags == OpenFlags::none(),
    {
        OpenFlags {
            read: false,
            write: false,
            append: false,
            truncate: false,
            create: false,
            create_new: false,
        }
    }

    /// `grants_write`, as contracts read it.
    pub open spec fn spec_grants_write(&self) -> bool {
        self.write || self.append || self.truncate
    }

    /// `creates`, as contracts read it.
    pub open spec fn spec_creates(&self) -> bool {
        self.create || self.create_new
    }

    /// `accepted`, as contracts read it.
    pub open spec fn spec_accepted(&self) -> bool {
        &&& self.read || self.grants_write()
        &&& self.creates() ==> self.grants_write()
    }

    /// Whether a handle opened with these switches may write. Appending and
    /// truncating are ways of writing.
    #[verifier::when_used_as_spec(spec_grants_write)]
    pub fn grants_write(&self) -> (granted: bool)
        ensures
            granted == self.spec_grants_write(),
    {
        self.write || self.append || self.truncate
    }

    /// Whether the open call may create the file.
    #[verifier::when_used_as_spec(spec_creates)]
    pub fn creates(&self) -> (created: bool)
        ensures
            created == self.spec_creates(),
    {
        self.create || self.create_new
    }

    /// Whether an open call accepts this combination at all: it must ask for
    /// some access, and may create a file only together with write access.
    #[verifier::when_used_as_spec(spec_accepted)]
    pub fn accepted(&self) -> (accepted: bool)
        ensures
            accepted == self.spec_accepted(),
    {
        (self.read || self.grants_write()) && (!self.creates() || self.grants_write())
    }
}

/// How to open a file: creation policy, whether reading is permitted, and
/// the write discipline, if writing is requested at all.
#[derive(Clone, Copy, Debug, PartialEq, Eq)]
pub struct FileOpener(pub CreateMode, pub bool, pub Option<WriteOption>);

impl FileOpener {
    /// The primitive switches that this configuration stands for.
    pub open spec fn flags(self) -> OpenFlags {
        OpenFlags {
            read: self.1,
            write: self.2 == Some(WriteOption::Overwrite),
            append: self.2 == Some(WriteOption::Append),
            truncate: self.2 == Some(WriteOption::Truncate),
            create: self.0 == CreateMode::IfNotExists,
            create_new: self.0 == CreateMode::CreateNew,
        }
    }

    /// Whether the configuration is readable or writable. One that is neither
    /// is refused by every open call; none of the ready-made ones is.
    pub open spec fn grants_access(self) -> bool {
        self.1 || self.2 is Some
    }

    /// `appending`, as contracts read it.
    pub open spec fn spec_appending() -> FileOpener {
        FileOpener(CreateMode::Never, false, Some(WriteOption::Append))
    }

    /// `truncate`, as contracts read it.
    pub open spec fn spec_truncate() -> FileOpener {
        FileOpener(CreateMode::IfNotExists, false, Some(WriteOption::Truncate))
    }

    /// `overwrite`, as contracts read it.
    pub open spec fn spec_overwrite() -> FileOpener {
        FileOpener(CreateMode::IfNotExists, false, Some(WriteOption::Overwrite))
    }

    /// `append_or_create`, as contracts read it.
    pub open spec fn spec_append_or_create() -> FileOpener {
        FileOpener(CreateMode::IfNotExists, false, Some(WriteOption::Append))
    }

    /// `readonly`, as contracts read it.
    pub open spec fn spec_readonly() -> FileOpener {
        FileOpener(CreateMode::Never, true, None)
    }

    /// Open for appending; fails if the file does not exist.
    #[verifier::when_used_as_spec(spec_appending)]
    pub fn appending() -> (opener: FileOpener)
        ensures
            opener == FileOpener(CreateMode::Never, false, Some(WriteOption::Append)),
    {
        FileOpener(CreateMode::Never, false, Some(WriteOption::Append))
    }

    /// Open for writing, creating the file if it does not exist; what the
    /// file held is discarded.
    #[verifier::when_used_as_spec(spec_truncate)]
    pub fn truncate() -> (opener: FileOpener)
        ensures
            opener == FileOpener(CreateMode::IfNotExists, false, Some(WriteOption::Truncate)),
    {
        FileOpener(CreateMode::IfNotExists, false, Some(WriteOption::Truncate))
    }

    /// Open for writing from the start, creating the file if it does not
    /// exist; what the file held beyond the written range stays.
    #[verifier::when_used_as_spec(spec_overwrite)]
    pub fn overwrite() -> (opener: FileOpener)
        ensures
            opener == FileOpener(CreateMode::IfNotExists, false, Some(WriteOption::Overwrite)),
    {
        FileOpener(CreateMode::IfNotExists, false, Some(WriteOption::Overwrite))
    }

    /// Open for appending, creating the file if it does not exist.
    #[verifier::when_used_as_spec(spec_append_or_create)]
    pub fn append_or_create() -> (opener: FileOpener)
        ensures
            opener == FileOpener(CreateMode::IfNotExists, false, Some(WriteOption::Append)),
    {
        FileOpener(CreateMode::IfNotExists, false, Some(WriteOption::Append))
    }

    /// Open for reading; fails if the file does not exist.
    #[verifier::when_used_as_spec(spec_readonly)]
    pub fn readonly() -> (opener: FileOpener)
        ensures
            opener == FileOpener(CreateMode::Never, true, None::<WriteOption>),
    {
        FileOpener(CreateMode::Never, true, None)
    }

    /// The primitive switches for this configuration. Nothing is validated
    /// here: whoever opens the file decides what to refuse.
    pub fn into_open_options(&self) -> (opts: OpenFlags)
        ensures
            opts == self.flags(),
    {
        let mut opts = OpenFlags::new();
        match self.0 {
            CreateMode::CreateNew => {
                opts.create_new = true;
            },
            CreateMode::IfNotExists => {
                opts.create = true;
            },
            CreateMode::Never => {},
        }
        opts.read = self.1;
        match self.2 {
            Some(WriteOption::Append) => {
                opts.append = true;
            },
            Some(WriteOption::Overwrite) => {
                opts.write = true;
            },
            Some(WriteOption::Truncate) => {
                opts.truncate = true;
            },
            None => {},
        }
        opts
    }

    /// Opens `path` in `store` as this configuration says.
    pub fn open(&self, store: &mut Store, path: &str) -> (opened: Result<Handle, IoError>)
        ensures
            is_open_result(old(store)@, path@, self.flags(), opened),
            final(store)@ == old(store)@.after_open(path@, self.flags()),
    {
        store.open(path, self.into_open_options())
    }
}

} // verus!
