use hacktyper::source::{full_code, repeat_text, select_source, FileText, DEFAULT_CODE, REPEAT_COUNT};

#[test]
fn no_file_types_builtin_rust() {
    let (code, ext) = select_source(None);
    assert_eq!(code, DEFAULT_CODE);
    assert_eq!(ext.as_deref(), Some("rs"));
    assert!(DEFAULT_CODE.contains("MATRIX CORE SYSTEM"));
}

#[test]
fn file_contents_and_extension_are_used() {
    let f = FileText { extension: Some("txt".to_string()), content: Some("hello".to_string()) };
    let (code, ext) = select_source(Some(f));
    assert_eq!(code, "hello");
    assert_eq!(ext.as_deref(), Some("txt"));
}

#[test]
fn unreadable_file_falls_back_but_keeps_extension() {
    let f = FileText { extension: Some("py".to_string()), content: None };
    let (code, ext) = select_source(Some(f));
    assert_eq!(code, DEFAULT_CODE);
    assert_eq!(ext.as_deref(), Some("py"));
    let f = FileText { extension: None, content: None };
    let (_, ext) = select_source(Some(f));
    assert_eq!(ext, None);
}

#[test]
fn repetition() {
    assert_eq!(repeat_text("ab", 3), "ababab");
    assert_eq!(repeat_text("ab", 0), "");
    assert_eq!(repeat_text("", 5), "");
    let full = full_code("xy\n");
    assert_eq!(REPEAT_COUNT, 100);
    assert_eq!(full.len(), 300);
    assert_eq!(full, "xy\n".repeat(100));
}
