use good_files::text::decode;
use good_files::{CreateMode, File, FileOpener, IoError, OpenFlags, Store, WriteOption};
use std::collections::{BTreeSet, HashMap};

#[test]
fn a_new_store_holds_nothing() {
    let mut store = Store::new();
    assert!(!store.contains(""));
    assert!(!store.contains("foo.txt"));
    assert_eq!(File::new("foo.txt").read_all(&mut store), Err(IoError::NotFound));
}

#[test]
fn writes_through_one_handle_follow_each_other() {
    let mut store = Store::new();
    let f = File::new("seq");
    f.truncate(&mut store, b"0123456789").unwrap();
    let mut handle = f.open_with(&mut store, FileOpener::overwrite()).unwrap();
    handle.write_all(&mut store, b"ab").unwrap();
    handle.write_all(&mut store, b"cd").unwrap();
    handle.write_all(&mut store, b"").unwrap();
    assert_eq!(f.read_all(&mut store).unwrap(), b"abcd456789".to_vec());
}

#[test]
fn an_appending_handle_always_writes_at_the_end() {
    let mut store = Store::new();
    let f = File::new("log");
    f.truncate(&mut store, b"a").unwrap();
    let mut handle = f.open_with(&mut store, FileOpener::appending()).unwrap();
    handle.write_all(&mut store, b"b").unwrap();
    f.append(&mut store, b"c").unwrap();
    handle.write_all(&mut store, b"d").unwrap();
    assert_eq!(f.read_all(&mut store).unwrap(), b"abcd".to_vec());
}

#[test]
fn a_write_beyond_the_end_fills_the_gap_with_zeros() {
    let mut store = Store::new();
    let f = File::new("gap");
    let mut handle = f.open_with(&mut store, FileOpener::overwrite()).unwrap();
    handle.write_all(&mut store, b"abcd").unwrap();
    f.truncate(&mut store, b"x").unwrap();
    handle.write_all(&mut store, b"").unwrap();
    assert_eq!(f.read_all(&mut store).unwrap(), b"x".to_vec());
    handle.write_all(&mut store, b"Z").unwrap();
    assert_eq!(f.read_all(&mut store).unwrap(), vec![b'x', 0, 0, 0, b'Z']);
}

#[test]
fn reading_continues_where_the_handle_stands() {
    let mut store = Store::new();
    let f = File::new("r");
    f.truncate(&mut store, b"abc").unwrap();
    let both = FileOpener(CreateMode::Never, true, Some(WriteOption::Overwrite));
    let mut handle = f.open_with(&mut store, both).unwrap();
    handle.write_all(&mut store, b"X").unwrap();
    assert_eq!(handle.read_to_end(&store).unwrap(), b"bc".to_vec());
    assert_eq!(handle.read_to_end(&store).unwrap(), Vec::<u8>::new());
    f.append(&mut store, b"def").unwrap();
    assert_eq!(handle.read_to_end(&store).unwrap(), b"def".to_vec());
    f.truncate(&mut store, b"").unwrap();
    assert_eq!(handle.read_to_end(&store).unwrap(), Vec::<u8>::new());
}

#[test]
fn a_write_only_handle_rejects_reads() {
    let mut store = Store::new();
    let f = File::new("w");
    let mut handle = f.open_with(&mut store, FileOpener::overwrite()).unwrap();
    assert_eq!(handle.read_to_end(&store), Err(IoError::PermissionDenied));
}

#[test]
fn truncating_on_open_empties_the_file_at_once() {
    let mut store = Store::new();
    let f = File::new("t");
    f.truncate(&mut store, b"content").unwrap();
    let _handle = f.open_with(&mut store, FileOpener::truncate()).unwrap();
    assert_eq!(f.read_all(&mut store).unwrap(), Vec::<u8>::new());
}

#[test]
fn open_takes_switches_as_they_are() {
    let mut store = Store::new();
    let switches = OpenFlags {
        read: true,
        write: true,
        append: false,
        truncate: false,
        create: true,
        create_new: false,
    };
    let mut handle = store.open("raw", switches).unwrap();
    handle.write_all(&mut store, b"raw").unwrap();
    let mut again = store.open("raw", switches).unwrap();
    assert_eq!(again.read_to_end(&store).unwrap(), b"raw".to_vec());
    let nothing = OpenFlags::new();
    assert_eq!(store.open("raw", nothing).unwrap_err(), IoError::Other);
}

#[test]
fn what_was_written_and_synced_survives_a_crash() {
    let mut store = Store::new();
    let f = File::new("kept");
    f.overwrite(&mut store, b"durable").unwrap();
    store.crash();
    assert_eq!(f.read_all(&mut store).unwrap(), b"durable".to_vec());
    f.append(&mut store, b" twice").unwrap();
    store.crash();
    store.crash();
    assert_eq!(f.read_all(&mut store).unwrap(), b"durable twice".to_vec());
    f.truncate(&mut store, b"").unwrap();
    store.crash();
    assert_eq!(f.read_all(&mut store).unwrap(), Vec::<u8>::new());
}

#[test]
fn what_was_not_synced_is_lost_in_a_crash() {
    let mut store = Store::new();
    let kept = File::new("kept");
    let lost = File::new("lost");
    kept.truncate(&mut store, b"before").unwrap();
    let mut handle = kept.open_with(&mut store, FileOpener::appending()).unwrap();
    handle.write_all(&mut store, b" and after").unwrap();
    let mut fresh = lost.create_if_absent(&mut store).unwrap();
    fresh.write_all(&mut store, b"never synced").unwrap();
    assert_eq!(kept.read_all(&mut store).unwrap(), b"before and after".to_vec());
    assert_eq!(lost.read_all(&mut store).unwrap(), b"never synced".to_vec());
    store.crash();
    assert_eq!(kept.read_all(&mut store).unwrap(), b"before".to_vec());
    assert!(!store.contains("lost"));
    assert_eq!(fresh.write_all(&mut store, b"x"), Err(IoError::NotFound));
    assert_eq!(fresh.sync_all(&mut store), Err(IoError::NotFound));
    assert!(!store.contains("lost"));
}

#[test]
fn sync_all_makes_a_handles_writes_durable() {
    let mut store = Store::new();
    let f = File::new("synced");
    let mut handle = f.create_if_absent(&mut store).unwrap();
    handle.write_all(&mut store, b"one").unwrap();
    handle.sync_all(&mut store).unwrap();
    handle.write_all(&mut store, b"two").unwrap();
    store.crash();
    assert_eq!(f.read_all(&mut store).unwrap(), b"one".to_vec());
}

#[test]
fn decode_accepts_text_and_nothing_else() {
    assert_eq!(decode(b"plain".to_vec()).unwrap(), "plain");
    assert_eq!(decode(vec![0xe2, 0x82, 0xac]).unwrap(), "\u{20ac}");
    assert_eq!(decode(Vec::new()).unwrap(), "");
    assert_eq!(decode(vec![0x80]), Err(IoError::InvalidData));
    assert_eq!(decode(vec![0xe2, 0x82]), Err(IoError::InvalidData));
    assert_eq!(decode(vec![0xf4, 0x90, 0x80, 0x80]), Err(IoError::InvalidData));
}

#[test]
fn a_file_is_its_path() {
    let f = File::new("/path/to/some/file");
    assert_eq!(f.path, "/path/to/some/file");
    assert_eq!(&*f, "/path/to/some/file");
    assert_eq!(f.len(), 18);
    assert_eq!(File::default().path, "");
    assert_eq!(File::from(String::from("p")), File::new("p"));
    assert_eq!(f.clone(), f);
    assert_ne!(File::new("a"), File::new("b"));
    assert!(File::new("a") < File::new("b"));
    assert!(File::new("a/b") > File::new("a"));
}

#[test]
fn files_serve_as_keys() {
    let mut sizes: HashMap<File, usize> = HashMap::new();
    sizes.insert(File::new("a"), 1);
    sizes.insert(File::new("b"), 2);
    sizes.insert(File::new("a"), 3);
    assert_eq!(sizes.len(), 2);
    assert_eq!(sizes[&File::new("a")], 3);
    let mut ordered: BTreeSet<File> = BTreeSet::new();
    ordered.insert(File::new("z"));
    ordered.insert(File::new("m"));
    ordered.insert(File::new("z"));
    let paths: Vec<String> = ordered.into_iter().map(|f| f.path).collect();
    assert_eq!(paths, vec![String::from("m"), String::from("z")]);
}
