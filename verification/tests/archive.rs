use std::io::{Cursor, Write};
use undetected_chromedriver::archive::{
    archive_len, open_archive, target_of, unpack_member, Target,
};
use undetected_chromedriver::error::ChromeError;
use zip::write::SimpleFileOptions;
use zip::{CompressionMethod, ZipWriter};

fn zip_of(files: &[(&str, &[u8])], method: CompressionMethod) -> Vec<u8> {
    let mut writer = ZipWriter::new(Cursor::new(Vec::new()));
    let options = SimpleFileOptions::default().compression_method(method);
    for (name, data) in files {
        writer.start_file(*name, options).unwrap();
        writer.write_all(data).unwrap();
    }
    writer.finish().unwrap().into_inner()
}

fn strings(list: &[&str]) -> Vec<String> {
    list.iter().map(|s| s.to_string()).collect()
}

fn unpack_one(name: &str) -> Result<Target, ChromeError> {
    let bytes = zip_of(&[(name, b"x".as_slice())], CompressionMethod::Stored);
    let mut archive = open_archive(bytes).unwrap();
    unpack_member(&mut archive, 0).map(|m| m.0)
}

#[test]
fn file_goes_under_its_last_part() {
    let bytes = zip_of(
        &[("chromedriver-linux64/chromedriver", b"binary".as_slice()), ("LICENSE", b"text")],
        CompressionMethod::Deflated,
    );
    let mut archive = open_archive(bytes).unwrap();
    assert_eq!(archive_len(&archive), 2);
    let (target, data) = unpack_member(&mut archive, 0).unwrap();
    assert_eq!(target, Target::File(strings(&["chromedriver-linux64"]), "chromedriver".to_string()));
    assert_eq!(data.unwrap(), b"binary".to_vec());
    let (target, data) = unpack_member(&mut archive, 1).unwrap();
    assert_eq!(target, Target::File(Vec::new(), "LICENSE".to_string()));
    assert_eq!(data.unwrap(), b"text".to_vec());
}

#[test]
fn name_with_a_slash_at_the_end_is_a_directory() {
    let mut writer = ZipWriter::new(Cursor::new(Vec::new()));
    writer.add_directory("a/b/", SimpleFileOptions::default()).unwrap();
    let bytes = writer.finish().unwrap().into_inner();
    let mut archive = open_archive(bytes).unwrap();
    let (target, _) = unpack_member(&mut archive, 0).unwrap();
    assert_eq!(target, Target::Directory(strings(&["a", "b"])));
}

#[test]
fn parts_stay_inside() {
    let file = |dirs: &[&str], name: &str| Target::File(strings(dirs), name.to_string());
    assert_eq!(unpack_one("../../etc/passwd").unwrap(), file(&["etc"], "passwd"));
    assert_eq!(unpack_one("/abs/./x").unwrap(), file(&["abs"], "x"));
    assert_eq!(unpack_one("a\\b//c").unwrap(), file(&["a", "b"], "c"));
    assert_eq!(unpack_one("a/b\0/c").unwrap(), file(&["a"], "b"));
}

#[test]
fn file_without_a_name_is_refused() {
    for name in ["..", ".", "../.", "..\\.", "\0x"] {
        match unpack_one(name) {
            Err(ChromeError::Other(s)) => assert_eq!(s, "bad zip filename"),
            _ => panic!("not refused"),
        }
    }
}

#[test]
fn colon_behind_the_second_place_is_kept() {
    let file = |dirs: &[&str], name: &str| Target::File(strings(dirs), name.to_string());
    assert_eq!(unpack_one("ab:c").unwrap(), file(&[], "ab:c"));
    assert_eq!(unpack_one("dir:1/:x/ab:c:d").unwrap(), file(&["dir:1", ":x"], "ab:c:d"));
    match unpack_one("//server/share/ab:c").unwrap() {
        Target::File(_, name) => assert_eq!(name, "ab:c"),
        _ => panic!("no file"),
    }
}

#[test]
fn file_names_of_unusual_members_stay_here() {
    for name in ["//server/share/x", "C:x", "C:/a/x", "\\\\?\\p\\x/../x", "\\\\?\\p\\/abs/x"] {
        match unpack_one(name) {
            Ok(Target::File(_, file)) => assert!(file == "x" || file == "C:x"),
            _ => panic!("no file"),
        }
    }
    for name in ["\\\\?\\p\\x/..", "\\\\?\\p\\/.", "//server/share"] {
        match unpack_one(name) {
            Err(ChromeError::Other(s)) => assert_eq!(s, "bad zip filename"),
            _ => panic!("not refused"),
        }
    }
}

#[test]
fn bytes_that_are_no_archive_are_refused() {
    assert!(matches!(open_archive(b"no archive".to_vec()), Err(ChromeError::Zip(_))));
    assert!(matches!(open_archive(Vec::new()), Err(ChromeError::Zip(_))));
}

#[test]
fn data_that_cannot_be_read_is_an_error_of_its_own() {
    let mut bytes = zip_of(&[("f", b"some data".as_slice())], CompressionMethod::Stored);
    let at = bytes.windows(9).position(|w| w == b"some data").unwrap();
    bytes[at] = b'S';
    let mut archive = open_archive(bytes).unwrap();
    let (target, data) = unpack_member(&mut archive, 0).unwrap();
    assert_eq!(target, Target::File(Vec::new(), "f".to_string()));
    assert!(matches!(data, Err(ChromeError::Io(_))));
}

#[test]
fn targets() {
    assert_eq!(
        target_of("a/b", strings(&["a", "b"]), Some("b".to_string())).unwrap(),
        Target::File(strings(&["a"]), "b".to_string())
    );
    assert_eq!(
        target_of("a/b/", strings(&["a", "b"]), Some("b".to_string())).unwrap(),
        Target::Directory(strings(&["a", "b"]))
    );
    assert_eq!(target_of("/", Vec::new(), None).unwrap(), Target::Directory(Vec::new()));
    for parts in [strings(&[]), strings(&["a", ".."]), strings(&["/"])] {
        match target_of("x", parts, None) {
            Err(ChromeError::Other(s)) => assert_eq!(s, "bad zip filename"),
            _ => panic!("wrong result"),
        }
    }
}
