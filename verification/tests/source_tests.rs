use xva::LineEnding;
use xva::SourceFile;
use xva::SourceFilePath;
use xva::SourceId;
use xva::SourceMap;
use xva::source::get_line_ending;

#[test]
fn hash_is_the_sha256_of_the_content() {
    let file = SourceFile::new(
        String::from("greeting"),
        SourceFilePath::Virtual(String::from("greeting")),
        String::from("hello"),
    );
    let hex = file.hash_as_hex();
    assert_eq!(
        String::from_utf8(hex).unwrap(),
        "2cf24dba5fb0a30e26e83b2ac5b9e29e1b161e5c1fa7425e73043362938b9824"
    );
}

#[test]
fn line_endings_are_detected() {
    assert_eq!(get_line_ending(b"one line"), LineEnding::OneLine);
    assert_eq!(get_line_ending(b"two\nlines"), LineEnding::Unix);
    assert_eq!(get_line_ending(b"two\r\nlines"), LineEnding::Windows);
    assert_eq!(get_line_ending(b""), LineEnding::OneLine);
}

#[test]
fn line_ranges_cover_unix_lines() {
    let file = SourceFile::new(
        String::from("f"),
        SourceFilePath::Virtual(String::from("f")),
        String::from("ab\ncde\n"),
    );
    assert_eq!(file.line_ranges.len(), 2);
    assert_eq!(file.line_ranges[0].range.start, 0);
    assert_eq!(file.line_ranges[0].range.end, 2);
    assert_eq!(file.line_ranges[1].range.start, 3);
    assert_eq!(file.line_ranges[1].range.end, 6);
}

#[test]
fn source_map_stores_and_returns_files() {
    let mut map = SourceMap::default();
    let id = map.load_virtual(String::from("first"), String::from("let a = 1"));
    assert_eq!(id, SourceId::new(0));
    let id2 = map.load_virtual(String::from("second"), String::from("var b"));
    assert_eq!(id2, SourceId::new(1));

    assert_eq!(map.get_raw(&id).as_deref(), Some("let a = 1"));
    assert_eq!(map.get_name(&id2), Some("second"));
    assert_eq!(map.get_raw(&SourceId::new(5)), None);
    assert_eq!(map.get_name(&SourceId::new(5)), None);
}

#[test]
fn content_and_bytes_agree() {
    let file = SourceFile::new(
        String::from("f"),
        SourceFilePath::Virtual(String::from("f")),
        String::from("var x = 1"),
    );
    assert_eq!(file.content(), "var x = 1");
    assert_eq!(file.bytes(), b"var x = 1");
}
