//! An in-memory file store and the handles opened on it.
//!
//! The store holds each file once, under its path, with the bytes that a
//! read sees and the bytes that were last forced to the device. Its view is
//! a [`Disk`]; every operation is stated as a step of that model.

use crate::disk::{overlay, Access, Disk, FileState};
use crate::error::IoError;
use crate::opener::OpenFlags;
use vstd::prelude::*;

verus! {

struct Entry {
    path: String,
    data: Vec<u8>,
    synced: Option<Vec<u8>>,
}

/// A file store. No path occurs twice in it. Where an operation changes an
/// entry, it takes the entries out of the store, changes them, and puts
/// them back, so that the store is never seen half changed.
pub struct Store {
    entries: Vec<Entry>,
}

/// An open file: the path it was opened on, what it may do, and where its
/// next read or write starts. A handle owns nothing of the store; it is
/// checked against the store each time it is used.
#[derive(Debug)]
pub struct Handle {
    path: String,
    readable: bool,
    writable: bool,
    append: bool,
    position: usize,
}

spec fn path_at(entries: Seq<Entry>, i: int) -> Seq<char> {
    entries[i].path@
}

spec fn state_of(entry: Entry) -> FileState {
    FileState {
        content: entry.data@,
        durable: match entry.synced {
            Some(bytes) => Some(bytes@),
            None => None,
        },
    }
}

spec fn distinct(entries: Seq<Entry>) -> bool {
    forall|i: int, j: int|
        0 <= i < j < entries.len() ==> #[trigger] path_at(entries, i) != #[trigger] path_at(
            entries,
            j,
        )
}

spec fn holds(entries: Seq<Entry>, path: Seq<char>) -> bool {
    exists|i: int| 0 <= i < entries.len() && #[trigger] path_at(entries, i) == path
}

spec fn slot(entries: Seq<Entry>, path: Seq<char>) -> int {
    choose|i: int| 0 <= i < entries.len() && #[trigger] path_at(entries, i) == path
}

spec fn disk_of(entries: Seq<Entry>) -> Disk {
    Disk {
        files: Map::new(
            |path: Seq<char>| holds(entries, path),
            |path: Seq<char>| state_of(entries[slot(entries, path)]),
        ),
    }
}

proof fn lemma_slot(entries: Seq<Entry>, i: int)
    requires
        distinct(entries),
        0 <= i < entries.len(),
    ensures
        holds(entries, path_at(entries, i)),
        slot(entries, path_at(entries, i)) == i,
{
    let k = slot(entries, path_at(entries, i));
    assert(0 <= k < entries.len() && path_at(entries, k) == path_at(entries, i));
}

/// Replacing the state of the entry at `i`, its path kept, replaces the
/// state of that path and of no other.
proof fn lemma_replace(before: Seq<Entry>, after: Seq<Entry>, i: int)
    requires
        distinct(before),
        0 <= i < before.len(),
        after.len() == before.len(),
        forall|j: int| 0 <= j < before.len() ==> path_at(after, j) == path_at(before, j),
        forall|j: int| 0 <= j < before.len() && j != i ==> after[j] == before[j],
    ensures
        distinct(after),
        disk_of(after).files == disk_of(before).files.insert(
            path_at(before, i),
            state_of(after[i]),
        ),
{
    assert(distinct(after)) by {
        assert forall|a: int, b: int| 0 <= a < b < after.len() implies path_at(after, a)
            != path_at(after, b) by {
            assert(path_at(before, a) != path_at(before, b));
        }
    }
    let lhs = disk_of(after).files;
    let rhs = disk_of(before).files.insert(path_at(before, i), state_of(after[i]));
    assert forall|path: Seq<char>| lhs.contains_key(path) <==> rhs.contains_key(path) by {
        if holds(after, path) {
            assert(path_at(before, slot(after, path)) == path);
        }
        if holds(before, path) {
            assert(path_at(after, slot(before, path)) == path);
        }
    }
    assert forall|path: Seq<char>| lhs.contains_key(path) implies lhs[path] == rhs[path] by {
        let k = slot(after, path);
        lemma_slot(after, k);
        lemma_slot(before, k);
    }
    assert(lhs =~= rhs);
}

/// Adding an entry under a path that the store does not hold adds the state
/// of that path and changes no other.
proof fn lemma_push(before: Seq<Entry>, entry: Entry)
    requires
        distinct(before),
        !holds(before, entry.path@),
    ensures
        distinct(before.push(entry)),
        disk_of(before.push(entry)).files == disk_of(before).files.insert(
            entry.path@,
            state_of(entry),
        ),
{
    let after = before.push(entry);
    let last = before.len() as int;
    assert(distinct(after)) by {
        assert forall|a: int, b: int| 0 <= a < b < after.len() implies path_at(after, a)
            != path_at(after, b) by {
            if b < last {
                assert(path_at(before, a) != path_at(before, b));
            } else {
                assert(path_at(before, a) == path_at(after, a));
            }
        }
    }
    let lhs = disk_of(after).files;
    let rhs = disk_of(before).files.insert(entry.path@, state_of(entry));
    lemma_slot(after, last);
    assert forall|path: Seq<char>| lhs.contains_key(path) <==> rhs.contains_key(path) by {
        if holds(after, path) {
            let k = slot(after, path);
            if k < last {
                assert(path_at(before, k) == path);
            }
        }
        if holds(before, path) {
            assert(path_at(after, slot(before, path)) == path);
        }
    }
    assert forall|path: Seq<char>| lhs.contains_key(path) implies lhs[path] == rhs[path] by {
        let k = slot(after, path);
        lemma_slot(after, k);
        if k < last {
            assert(path_at(before, k) == path);
            lemma_slot(before, k);
        }
    }
    assert(lhs =~= rhs);
}

/// The index of the entry for `key`, if there is one.
fn find(entries: &Vec<Entry>, key: &String) -> (found: Option<usize>)
    ensures
        match found {
            Some(i) => i < entries@.len() && path_at(entries@, i as int) == key@,
            None => !holds(entries@, key@),
        },
{
    let mut i: usize = 0;
    while i < entries.len()
        invariant
            i <= entries@.len(),
            forall|j: int| 0 <= j < i ==> path_at(entries@, j) != key@,
        decreases entries@.len() - i,
    {
        if entries[i].path == *key {
            return Some(i);
        }
        i = i + 1;
    }
    None
}

/// Writes `buf` into `data` at offset `at`, filling a gap between the end
/// of `data` and `at` with zeros.
fn write_at(data: &mut Vec<u8>, at: usize, buf: &[u8])
    ensures
        final(data)@ == overlay(old(data)@, at as nat, buf@),
{
    if buf.len() == 0 {
        return ;
    }
    let ghost before = data@;
    if data.len() < at {
        data.resize(at, 0u8);
        assert(data@.subrange(0, before.len() as int) == before);
    }
    let ghost filled = data@.len() as int;
    let mut k: usize = 0;
    let mut pos: usize = at;
    while k < buf.len()
        invariant
            k <= buf@.len(),
            pos == at + k,
            pos <= data@.len(),
            at <= filled,
            before.len() <= filled,
            data@.len() == if filled >= at + k {
                filled
            } else {
                at + k
            },
            forall|i: int|
                0 <= i < data@.len() ==> data@[i] == if at <= i < at + k {
                    buf@[i - at]
                } else if i < before.len() {
                    before[i]
                } else {
                    0u8
                },
        decreases buf@.len() - k,
    {
        if pos < data.len() {
            data.set(pos, buf[k]);
        } else {
            data.push(buf[k]);
        }
        assert(pos < data.len());
        k = k + 1;
        pos = pos + 1;
    }
    assert(data@ =~= overlay(before, at as nat, buf@));
}

/// What a file that was forced to the device holds after a loss of power.
spec fn fallen_back(state: FileState) -> FileState {
    FileState { content: state.durable->0, durable: state.durable }
}

/// Whether `entry` is what some entry of `before`, at `from` or later, that
/// was forced to the device falls back to.
spec fn survives(before: Seq<Entry>, from: int, entry: Entry) -> bool {
    exists|j: int| #[trigger] falls_back_to(before, from, j, entry)
}

/// Whether `entry` is what the entry of `before` at `j`, at `from` or later,
/// falls back to.
spec fn falls_back_to(before: Seq<Entry>, from: int, j: int, entry: Entry) -> bool {
    &&& from <= j < before.len()
    &&& path_at(before, j) == entry.path@
    &&& before[j].synced is Some
    &&& state_of(entry) == fallen_back(state_of(before[j]))
}

/// What survives from `from` on survives from any earlier index on.
proof fn lemma_survives_from_earlier(before: Seq<Entry>, from: int, earlier: int, entry: Entry)
    requires
        survives(before, from, entry),
        earlier <= from,
    ensures
        survives(before, earlier, entry),
{
    let j = choose|j: int| #[trigger] falls_back_to(before, from, j, entry);
    assert(falls_back_to(before, earlier, j, entry));
}

/// The entries that survive a loss of power, each with what was last forced
/// to the device, make up the store after it.
proof fn lemma_crashed(before: Seq<Entry>, kept: Seq<Entry>)
    requires
        distinct(before),
        distinct(kept),
        forall|k: int| 0 <= k < kept.len() ==> survives(before, 0, #[trigger] kept[k]),
        forall|j: int|
            0 <= j < before.len() && before[j].synced is Some ==> holds(
                kept,
                #[trigger] path_at(before, j),
            ),
    ensures
        disk_of(kept) == disk_of(before).crashed(),
{
    let lhs = disk_of(kept).files;
    let rhs = disk_of(before).crashed().files;
    assert forall|path: Seq<char>| lhs.contains_key(path) implies rhs.contains_key(path)
        && lhs[path] == rhs[path] by {
        let k = slot(kept, path);
        assert(survives(before, 0, kept[k]));
        let j = choose|j: int| #[trigger] falls_back_to(before, 0, j, kept[k]);
        lemma_slot(before, j);
    }
    assert forall|path: Seq<char>| rhs.contains_key(path) implies lhs.contains_key(path) by {
        assert(path_at(before, slot(before, path)) == path);
    }
    assert(lhs =~= rhs);
}

impl View for Handle {
    type V = Access;

    closed spec fn view(&self) -> Access {
        Access {
            path: self.path@,
            readable: self.readable,
            writable: self.writable,
            append: self.append,
            position: self.position as nat,
        }
    }
}

impl View for Store {
    type V = Disk;

    closed spec fn view(&self) -> Disk {
        disk_of(self.entries@)
    }
}

/// Whether `opened` is what an open call on `path` with `flags` returns
/// where the store is `disk`: a fresh handle if the call is accepted, and
/// otherwise the error that says why it is refused.
pub open spec fn is_open_result(
    disk: Disk,
    path: Seq<char>,
    flags: OpenFlags,
    opened: Result<Handle, IoError>,
) -> bool {
    match opened {
        Ok(handle) => disk.open_error(path, flags) is None && handle@ == Access::opened(
            path,
            flags,
        ),
        Err(error) => disk.open_error(path, flags) == Some(error),
    }
}

impl Store {
    #[verifier::type_invariant]
    spec fn paths_distinct(&self) -> bool {
        distinct(self.entries@)
    }

    /// A store that holds no file.
    pub fn new() -> (store: Store)
        ensures
            store@ == Disk::empty(),
    {
        let store = Store { entries: Vec::new() };
        assert(store@.files =~= Map::empty());
        store
    }

    /// Whether a file exists at `path`.
    pub fn contains(&self, path: &str) -> (found: bool)
        ensures
            found == self@.contains(path@),
    {
        let key = path.to_owned();
        find(&self.entries, &key).is_some()
    }

    /// The open call: checks `flags` against the file at `path`, creates or
    /// empties the file where they say so, and hands out a handle at
    /// position 0. A refused call changes nothing.
    pub fn open(&mut self, path: &str, flags: OpenFlags) -> (opened: Result<Handle, IoError>)
        ensures
            is_open_result(old(self)@, path@, flags, opened),
            final(self)@ == old(self)@.after_open(path@, flags),
    {
        proof {
            use_type_invariant(&*self);
        }
        if !flags.accepted() {
            return Err(IoError::Other);
        }
        let key = path.to_owned();
        match find(&self.entries, &key) {
            Some(i) => {
                if flags.create_new {
                    return Err(IoError::AlreadyExists);
                }
                if flags.truncate {
                    let ghost before = self.entries@;
                    let mut entries: Vec<Entry> = Vec::new();
                    std::mem::swap(&mut self.entries, &mut entries);
                    entries[i].data = Vec::new();
                    proof {
                        lemma_replace(before, entries@, i as int);
                    }
                    std::mem::swap(&mut self.entries, &mut entries);
                }
            },
            None => {
                if !flags.creates() {
                    return Err(IoError::NotFound);
                }
                let entry = Entry { path: key.clone(), data: Vec::new(), synced: None };
                proof {
                    lemma_push(self.entries@, entry);
                }
                let mut entries: Vec<Entry> = Vec::new();
                std::mem::swap(&mut self.entries, &mut entries);
                entries.push(entry);
                std::mem::swap(&mut self.entries, &mut entries);
            },
        }
        Ok(
            Handle {
                path: key,
                readable: flags.read,
                writable: flags.grants_write(),
                append: flags.append,
                position: 0,
            },
        )
    }

    /// A loss of power: every file falls back to the bytes that were last
    /// forced to the device, and a file that never was forced there is gone.
    pub fn crash(&mut self)
        ensures
            final(self)@ == old(self)@.crashed(),
    {
        proof {
            use_type_invariant(&*self);
        }
        let ghost before = self.entries@;
        let mut entries: Vec<Entry> = Vec::new();
        std::mem::swap(&mut self.entries, &mut entries);
        let mut kept: Vec<Entry> = Vec::new();
        while entries.len() > 0
            invariant
                distinct(before),
                distinct(kept@),
                entries@.len() <= before.len(),
                entries@ == before.subrange(0, entries@.len() as int),
                forall|k: int|
                    0 <= k < kept@.len() ==> survives(
                        before,
                        entries@.len() as int,
                        #[trigger] kept@[k],
                    ),
                forall|j: int|
                    entries@.len() <= j < before.len() && before[j].synced is Some ==> holds(
                        kept@,
                        #[trigger] path_at(before, j),
                    ),
            decreases entries@.len(),
        {
            let ghost n = entries@.len() as int;
            let ghost kept_before = kept@;
            let entry = entries.pop().unwrap();
            let Entry { path, data: _, synced } = entry;
            match synced {
                Some(bytes) => {
                    let restored = Entry { path, data: bytes.clone(), synced: Some(bytes) };
                    proof {
                        assert(falls_back_to(before, n - 1, n - 1, restored));
                        assert forall|k: int| 0 <= k < kept_before.len() implies path_at(
                            kept_before,
                            k,
                        ) != restored.path@ by {
                            let j = choose|j: int|
                                #[trigger] falls_back_to(before, n, j, kept_before[k]);
                            assert(path_at(before, n - 1) != path_at(before, j));
                        }
                        lemma_push(kept_before, restored);
                    }
                    kept.push(restored);
                    proof {
                        assert forall|k: int| 0 <= k < kept@.len() implies survives(
                            before,
                            n - 1,
                            #[trigger] kept@[k],
                        ) by {
                            if k < kept_before.len() {
                                lemma_survives_from_earlier(before, n, n - 1, kept_before[k]);
                            }
                        }
                        assert forall|j: int|
                            n - 1 <= j < before.len() && before[j].synced is Some implies holds(
                            kept@,
                            #[trigger] path_at(before, j),
                        ) by {
                            let k = if j == n - 1 {
                                kept_before.len() as int
                            } else {
                                slot(kept_before, path_at(before, j))
                            };
                            assert(path_at(kept@, k) == path_at(before, j));
                        }
                    }
                },
                None => {
                    proof {
                        assert forall|k: int| 0 <= k < kept@.len() implies survives(
                            before,
                            n - 1,
                            #[trigger] kept@[k],
                        ) by {
                            lemma_survives_from_earlier(before, n, n - 1, kept@[k]);
                        }
                    }
                },
            }
        }
        proof {
            lemma_crashed(before, kept@);
        }
        std::mem::swap(&mut self.entries, &mut kept);
    }
}

impl Handle {
    /// The read call: hands out the bytes from the handle's position to the
    /// end of its file and leaves the handle there.
    pub fn read_to_end(&mut self, store: &Store) -> (read: Result<Vec<u8>, IoError>)
        ensures
            match read {
                Ok(bytes) => store@.read_error(old(self)@) is None && bytes@ == store@.remaining(
                    old(self)@,
                ) && final(self)@ == old(self)@.at(store@.read_end(old(self)@)),
                Err(error) => store@.read_error(old(self)@) == Some(error) && final(self)@ == old(
                    self,
                )@,
            },
    {
        proof {
            use_type_invariant(store);
        }
        if !self.readable {
            return Err(IoError::PermissionDenied);
        }
        match find(&store.entries, &self.path) {
            None => Err(IoError::NotFound),
            Some(i) => {
                proof {
                    lemma_slot(store.entries@, i as int);
                }
                let data = &store.entries[i].data;
                let start = self.position;
                let mut bytes: Vec<u8> = Vec::new();
                let mut k: usize = start;
                while k < data.len()
                    invariant
                        start <= k,
                        start <= data@.len() ==> k <= data@.len() && bytes@ == data@.subrange(
                            start as int,
                            k as int,
                        ),
                        start > data@.len() ==> bytes@.len() == 0,
                    decreases data@.len() - k,
                {
                    bytes.push(data[k]);
                    k = k + 1;
                }
                if start < data.len() {
                    self.position = data.len();
                }
                Ok(bytes)
            },
        }
    }

    /// The write call: writes all of `buf`, at the end of the file if the
    /// handle appends and at its position otherwise, and moves the handle
    /// behind the written bytes. Nothing is forced to the device.
    pub fn write_all(&mut self, store: &mut Store, buf: &[u8]) -> (written: Result<(), IoError>)
        ensures
            match written {
                Ok(()) => old(store)@.write_error(old(self)@) is None && final(self)@ == old(
                    self,
                )@.at(old(store)@.write_end(old(self)@, buf@)),
                Err(error) => old(store)@.write_error(old(self)@) == Some(error) && final(self)@
                    == old(self)@,
            },
            final(store)@ == old(store)@.after_write(old(self)@, buf@),
    {
        proof {
            use_type_invariant(&*store);
        }
        if !self.writable {
            return Err(IoError::PermissionDenied);
        }
        match find(&store.entries, &self.path) {
            None => Err(IoError::NotFound),
            Some(i) => {
                let ghost before = store.entries@;
                let mut entries: Vec<Entry> = Vec::new();
                std::mem::swap(&mut store.entries, &mut entries);
                let start = if self.append {
                    entries[i].data.len()
                } else {
                    self.position
                };
                let mut data: Vec<u8> = Vec::new();
                std::mem::swap(&mut entries[i].data, &mut data);
                write_at(&mut data, start, buf);
                if buf.len() > 0 {
                    assert(start + buf@.len() <= data.len());
                    self.position = start + buf.len();
                } else {
                    self.position = start;
                }
                std::mem::swap(&mut entries[i].data, &mut data);
                proof {
                    lemma_replace(before, entries@, i as int);
                }
                std::mem::swap(&mut store.entries, &mut entries);
                Ok(())
            },
        }
    }

    /// The sync call: forces the bytes of the handle's file to the device.
    pub fn sync_all(&self, store: &mut Store) -> (synced: Result<(), IoError>)
        ensures
            synced == if old(store)@.contains(self@.path) {
                Ok::<(), IoError>(())
            } else {
                Err::<(), IoError>(IoError::NotFound)
            },
            final(store)@ == old(store)@.after_sync(self@.path),
    {
        proof {
            use_type_invariant(&*store);
        }
        match find(&store.entries, &self.path) {
            None => Err(IoError::NotFound),
            Some(i) => {
                let ghost before = store.entries@;
                let mut entries: Vec<Entry> = Vec::new();
                std::mem::swap(&mut store.entries, &mut entries);
                let copy = entries[i].data.clone();
                entries[i].synced = Some(copy);
                proof {
                    lemma_replace(before, entries@, i as int);
                }
                std::mem::swap(&mut store.entries, &mut entries);
                Ok(())
            },
        }
    }
}

} // verus!
