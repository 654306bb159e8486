use progmem_str::grammar::{Fault, ParseError, Source};
use progmem_str::literal::str_literal_value;
use progmem_str::source::{absorb, include_path};

#[test]
fn looks_for_the_file_under_src_in_the_working_directory() {
    assert_eq!(include_path(Some("/home/me/project"), "lovecraft.txt"), "/home/me/project/src/lovecraft.txt");
}

#[test]
fn looks_under_the_current_directory_when_none_is_known() {
    assert_eq!(include_path(None, "lovecraft.txt"), "./src/lovecraft.txt");
}

#[test]
fn appends_the_file_name_as_it_stands() {
    assert_eq!(include_path(Some("/p"), "../data/a.txt"), "/p/src/../data/a.txt");
    assert_eq!(include_path(Some(""), ""), "/src/");
    assert_eq!(include_path(Some("/p/"), "/abs"), "/p//src//abs");
}

#[test]
fn absorbs_what_a_read_delivered() {
    let mut acc = vec![1u8, 2];
    let buf = [10u8, 20, 30, 40];
    assert!(absorb(&mut acc, &buf, 3));
    assert_eq!(acc, vec![1, 2, 10, 20, 30]);
    assert!(absorb(&mut acc, &buf, 4));
    assert_eq!(acc, vec![1, 2, 10, 20, 30, 10, 20, 30, 40]);
}

#[test]
fn a_read_of_nothing_ends_the_file() {
    let mut acc = vec![7u8];
    assert!(!absorb(&mut acc, &[9u8, 9], 0));
    assert_eq!(acc, vec![7]);
    assert!(!absorb(&mut acc, &[], 0));
    assert_eq!(acc, vec![7]);
}

#[test]
fn absorbs_a_file_chunk_by_chunk() {
    let file: Vec<u8> = (0..=255u8).cycle().take(10_000).collect();
    let mut acc = Vec::new();
    let mut buf = [0u8; 4096];
    let mut rest = &file[..];
    loop {
        let n = rest.len().min(buf.len());
        buf[..n].copy_from_slice(&rest[..n]);
        rest = &rest[n..];
        if !absorb(&mut acc, &buf, n) {
            break;
        }
    }
    assert_eq!(acc, file);
}

#[test]
fn a_literal_resolves_to_its_encoding() {
    let source = Source::Text("h\u{e9}llo \u{1f95e}".to_string());
    let expected = vec![b'h', 0xc3, 0xa9, b'l', b'l', b'o', b' ', 0xf0, 0x9f, 0xa5, 0x9e];
    assert_eq!(source.payload(None), Ok(expected.clone()));
    assert_eq!(source.payload(Some(vec![1, 2, 3])), Ok(expected));
}

#[test]
fn an_inclusion_resolves_to_the_contents_as_read() {
    let source = Source::File("data.bin".to_string(), 8);
    assert_eq!(source.payload(Some(vec![0xff, 0x00, 0xc3, 0x28])), Ok(vec![0xff, 0x00, 0xc3, 0x28]));
}

#[test]
fn an_unread_file_is_an_error_at_its_literal() {
    let source = Source::File("missing.txt".to_string(), 8);
    let e = source.payload(None).unwrap_err();
    assert_eq!(e, ParseError { at: 8, fault: Fault::UnreadableFile, at_end: false });
    assert_eq!(e.message(), "failed to read file");
    let elsewhere = Source::File("missing.txt".to_string(), 3);
    assert_eq!(elsewhere.payload(None).unwrap_err().at, 3);
}

#[test]
fn empty_sources_resolve_to_no_bytes() {
    assert_eq!(Source::Text(String::new()).payload(None), Ok(Vec::new()));
    assert_eq!(Source::File("empty".to_string(), 8).payload(Some(Vec::new())), Ok(Vec::new()));
}

#[test]
fn reads_string_literals() {
    assert_eq!(str_literal_value("\"bacon\""), Some("bacon".to_string()));
    assert_eq!(str_literal_value("\"\""), Some(String::new()));
    assert_eq!(str_literal_value("\"a\\\\b\""), Some("a\\b".to_string()));
    assert_eq!(str_literal_value("\"line\\\n     joined\""), Some("linejoined".to_string()));
    assert_eq!(str_literal_value("r\"raw\\n\""), Some("raw\\n".to_string()));
    assert_eq!(str_literal_value("r##\"a\"#b\"##"), Some("a\"#b".to_string()));
    assert_eq!(str_literal_value("\"suffixed\"tag"), Some("suffixed".to_string()));
}

#[test]
fn reads_nothing_else_as_a_string_literal() {
    for repr in ["", "bacon", "r", "r#raw", "42", "'c'", "b\"bytes\"", "c\"text\"", "\"open", "return", "\"a\" + \"b\""] {
        assert_eq!(str_literal_value(repr), None, "{}", repr);
    }
}
