use good_files::{File, FileOpener, IoError, Store};
use std::path::Path;

#[test]
fn lib_file_object() {
    let f = File::new("/path/to/some/file");
    assert_eq!(Path::new("/path/to/some/file"), Path::new(&f.path));
}

#[test]
fn file_file_object() {
    let f = File::new("/path/to/some/file");
    let path: &str = f.as_ref();
    assert_eq!(Path::new("/path/to/some/file"), Path::new(path));
}

#[test]
#[should_panic]
fn lib_open_readonly() {
    let mut store = Store::new();
    let mut f = FileOpener::readonly()
        .open(&mut store, "panics.txt")
        .unwrap();
    let _ = f.write_all(&mut store, b"this should never be written").unwrap();
}

#[test]
#[should_panic]
fn file_open_readonly() {
    let mut store = Store::new();
    let f = File::new("panics.txt");
    let mut handle = f.open_with(&mut store, FileOpener::readonly()).unwrap();
    let _ = handle.write_all(&mut store, b"this should never be written").unwrap();
}

#[test]
fn lib_read_write_ops() {
    let mut store = Store::new();
    let f = File::new("foo.txt");

    // writing
    f.overwrite(&mut store, b"some text\n2nd line").unwrap();

    // reading
    let s = f.read_string(&mut store).unwrap();
    assert_eq!("some text\n2nd line", &s);
}

#[test]
fn file_read_write_ops() {
    let mut store = Store::new();
    let f = File::new("foo.txt");
    assert!(!store.contains("foo.txt"));

    f.overwrite(&mut store, b"some text\n2nd line").unwrap();

    let s = f.read_string(&mut store).unwrap();
    assert_eq!("some text\n2nd line", &s);
    assert_eq!(f.read_all(&mut store).unwrap(), b"some text\n2nd line".to_vec());
}

#[test]
fn readonly_open_of_a_fresh_path_fails_and_writes_nothing() {
    let mut store = Store::new();
    let f = File::new("panics.txt");
    let opened = f.open_with(&mut store, FileOpener::readonly());
    assert_eq!(opened.unwrap_err(), IoError::NotFound);
    assert!(!store.contains("panics.txt"));
}

#[test]
fn readonly_handle_rejects_writes() {
    let mut store = Store::new();
    let f = File::new("kept.txt");
    f.truncate(&mut store, b"kept").unwrap();
    let mut handle = f.open_with(&mut store, FileOpener::readonly()).unwrap();
    let written = handle.write_all(&mut store, b"this should never be written");
    assert_eq!(written, Err(IoError::PermissionDenied));
    assert_eq!(f.read_all(&mut store).unwrap(), b"kept".to_vec());
}

#[test]
fn truncate_then_read_all_round_trips() {
    let mut store = Store::new();
    let f = File::new("a/b.bin");
    let inputs: Vec<Vec<u8>> = vec![vec![], vec![0], vec![255, 0, 128, 7], b"hello".to_vec()];
    for bytes in inputs {
        f.truncate(&mut store, &bytes).unwrap();
        assert_eq!(f.read_all(&mut store).unwrap(), bytes);
    }
}

#[test]
fn overwrite_then_append_accumulates() {
    let mut store = Store::new();
    let f = File::new("log");
    f.overwrite(&mut store, b"first|").unwrap();
    f.append(&mut store, b"second").unwrap();
    assert_eq!(f.read_all(&mut store).unwrap(), b"first|second".to_vec());
    f.append(&mut store, b"").unwrap();
    f.append(&mut store, b"|third").unwrap();
    assert_eq!(f.read_all(&mut store).unwrap(), b"first|second|third".to_vec());
}

#[test]
fn overwrite_keeps_what_lies_beyond() {
    let mut store = Store::new();
    let f = File::new("data");
    f.truncate(&mut store, b"abcdef").unwrap();
    f.overwrite(&mut store, b"XY").unwrap();
    assert_eq!(f.read_all(&mut store).unwrap(), b"XYcdef".to_vec());
    f.append(&mut store, b"!").unwrap();
    assert_eq!(f.read_all(&mut store).unwrap(), b"XYcdef!".to_vec());
    f.overwrite(&mut store, b"").unwrap();
    assert_eq!(f.read_all(&mut store).unwrap(), b"XYcdef!".to_vec());
    f.overwrite(&mut store, b"0123456789").unwrap();
    assert_eq!(f.read_all(&mut store).unwrap(), b"0123456789".to_vec());
}

#[test]
fn truncate_resets_the_length() {
    let mut store = Store::new();
    let f = File::new("data");
    f.overwrite(&mut store, b"a rather long content").unwrap();
    f.truncate(&mut store, b"short").unwrap();
    assert_eq!(f.read_all(&mut store).unwrap(), b"short".to_vec());
    f.truncate(&mut store, b"").unwrap();
    assert_eq!(f.read_all(&mut store).unwrap(), Vec::<u8>::new());
    assert!(store.contains("data"));
}

#[test]
fn append_requires_existence() {
    let mut store = Store::new();
    let f = File::new("absent");
    assert_eq!(f.append(&mut store, b"bytes"), Err(IoError::NotFound));
    assert!(!store.contains("absent"));
    assert_eq!(f.read_all(&mut store), Err(IoError::NotFound));
}

#[test]
fn overwrite_twice_does_not_accumulate() {
    let mut store = Store::new();
    let f = File::new("twice");
    f.overwrite(&mut store, b"same bytes").unwrap();
    let once = f.read_all(&mut store).unwrap();
    f.overwrite(&mut store, b"same bytes").unwrap();
    let twice = f.read_all(&mut store).unwrap();
    assert_eq!(once, b"same bytes".to_vec());
    assert_eq!(twice, b"same bytes".to_vec());
}

#[test]
fn create_if_absent_creates_once() {
    let mut store = Store::new();
    let f = File::new("made");
    f.create_if_absent(&mut store).unwrap();
    assert!(store.contains("made"));
    assert_eq!(f.read_all(&mut store).unwrap(), Vec::<u8>::new());
    f.append(&mut store, b"abc").unwrap();
    let mut handle = f.create_if_absent(&mut store).unwrap();
    assert_eq!(f.read_all(&mut store).unwrap(), b"abc".to_vec());
    handle.write_all(&mut store, b"def").unwrap();
    assert_eq!(f.read_all(&mut store).unwrap(), b"abcdef".to_vec());
}

#[test]
fn files_do_not_touch_each_other() {
    let mut store = Store::new();
    let a = File::new("a");
    let b = File::new("b");
    a.truncate(&mut store, b"alpha").unwrap();
    b.truncate(&mut store, b"beta").unwrap();
    a.append(&mut store, b"!").unwrap();
    assert_eq!(a.read_all(&mut store).unwrap(), b"alpha!".to_vec());
    assert_eq!(b.read_all(&mut store).unwrap(), b"beta".to_vec());
    assert!(!store.contains("c"));
}

#[test]
fn read_string_decodes_utf8() {
    let mut store = Store::new();
    let f = File::new("text");
    f.truncate(&mut store, "h\u{e9}llo \u{2713} \u{1F600}".as_bytes()).unwrap();
    assert_eq!(f.read_string(&mut store).unwrap(), "h\u{e9}llo \u{2713} \u{1F600}");
    f.truncate(&mut store, b"").unwrap();
    assert_eq!(f.read_string(&mut store).unwrap(), "");
}

#[test]
fn read_string_reports_bytes_that_are_not_text() {
    let mut store = Store::new();
    let f = File::new("binary");
    f.truncate(&mut store, &[0x66, 0x6f, 0xff, 0x6f]).unwrap();
    assert_eq!(f.read_string(&mut store), Err(IoError::InvalidData));
    f.truncate(&mut store, &[0xc0, 0x80]).unwrap();
    assert_eq!(f.read_string(&mut store), Err(IoError::InvalidData));
    f.truncate(&mut store, &[0xed, 0xa0, 0x80]).unwrap();
    assert_eq!(f.read_string(&mut store), Err(IoError::InvalidData));
    assert_eq!(f.read_all(&mut store).unwrap(), vec![0xed, 0xa0, 0x80]);
    assert_eq!(File::new("nowhere").read_string(&mut store), Err(IoError::NotFound));
}

#[test]
fn write_all_with_follows_the_configuration() {
    let mut store = Store::new();
    let f = File::new("cfg");
    assert_eq!(
        f.write_all_with(&mut store, b"x", FileOpener::readonly()),
        Err(IoError::NotFound)
    );
    f.write_all_with(&mut store, b"one", FileOpener::append_or_create()).unwrap();
    f.write_all_with(&mut store, b"two", FileOpener::append_or_create()).unwrap();
    assert_eq!(f.read_all(&mut store).unwrap(), b"onetwo".to_vec());
    assert_eq!(
        f.write_all_with(&mut store, b"x", FileOpener::readonly()),
        Err(IoError::PermissionDenied)
    );
    assert_eq!(f.read_all(&mut store).unwrap(), b"onetwo".to_vec());
    f.write_all_with(&mut store, b"T", FileOpener::truncate()).unwrap();
    assert_eq!(f.read_all(&mut store).unwrap(), b"T".to_vec());
}

#[test]
fn buf_reader_and_buf_writer_hand_out_handles() {
    let mut store = Store::new();
    let f = File::new("buffered");
    assert_eq!(f.buf_reader(&mut store).unwrap_err(), IoError::NotFound);
    let mut writer = f.buf_writer(&mut store, FileOpener::overwrite()).unwrap();
    writer.write_all(&mut store, b"abc").unwrap();
    writer.write_all(&mut store, b"def").unwrap();
    let mut reader = f.buf_reader(&mut store).unwrap();
    assert_eq!(reader.read_to_end(&store).unwrap(), b"abcdef".to_vec());
    assert_eq!(reader.read_to_end(&store).unwrap(), Vec::<u8>::new());
    let mut other = good_files::buf_writer_with(&mut store, "other", FileOpener::truncate())
        .unwrap();
    other.write_all(&mut store, b"o").unwrap();
    assert_eq!(File::new("other").read_all(&mut store).unwrap(), b"o".to_vec());
}
