use clippy2::clipboard_write::{choose_record, file_script, ChooseError, ClipboardWrite, RecordInput};
use clippy2::db::{add_record, init, Database, StoreError};

fn entry(id: i64, record_type: &str, value: &str) -> RecordInput {
    RecordInput { id, record_type: record_type.to_string(), value: value.to_string() }
}

fn store_with_image(value: &str) -> Option<Database> {
    let mut slot = None;
    init(&mut slot, Vec::new(), 0).unwrap();
    let record = clippy2::db::RecordInput {
        record_type: "image".to_string(),
        value: value.to_string(),
        thumbnail: None,
        size: None,
        img_size: None,
    };
    assert_eq!(add_record(&mut slot, record, 1), Ok(1));
    slot
}

#[test]
fn text_and_files_are_written_as_given() {
    let slot: Option<Database> = None;
    assert!(matches!(
        choose_record(&slot, entry(1, "text", "hello")),
        Ok(ClipboardWrite::Text(t)) if t == "hello"
    ));
    assert!(matches!(
        choose_record(&slot, entry(1, "file", "/tmp/a b")),
        Ok(ClipboardWrite::File(p)) if p == "/tmp/a b"
    ));
}

#[test]
fn an_image_is_written_from_its_stored_value() {
    let slot = store_with_image("aGVsbG8=");
    assert!(matches!(
        choose_record(&slot, entry(1, "image", "")),
        Ok(ClipboardWrite::Image(b)) if b == b"hello"
    ));
    assert!(matches!(
        choose_record(&slot, entry(1, "image", "d29ybGQ=")),
        Ok(ClipboardWrite::Image(b)) if b == b"hello"
    ));
}

#[test]
fn an_image_without_a_row_or_a_store_is_an_error() {
    let slot = store_with_image("aGVsbG8=");
    assert!(matches!(
        choose_record(&slot, entry(2, "image", "aGVsbG8=")),
        Err(ChooseError::Store(StoreError::NotFound))
    ));
    let none: Option<Database> = None;
    let error = choose_record(&none, entry(1, "image", "aGVsbG8=")).err().unwrap();
    assert!(matches!(error, ChooseError::Store(StoreError::NotInitialized)));
    assert_eq!(error.message(), "Database not initialized");
}

#[test]
fn a_stored_value_that_is_no_base64_is_an_error() {
    let slot = store_with_image("not base64!");
    let error = choose_record(&slot, entry(1, "image", "")).err().unwrap();
    assert!(matches!(error, ChooseError::InvalidImage));
    assert_eq!(error.message(), "Failed to decode base64");
}

#[test]
fn an_unknown_type_is_unsupported() {
    let slot: Option<Database> = None;
    let error = choose_record(&slot, entry(1, "audio", "x")).err().unwrap();
    assert!(matches!(&error, ChooseError::Unsupported(t) if t == "audio"));
    assert_eq!(error.message(), "Unsupported record type: audio");
    let error = choose_record(&slot, entry(1, "", "x")).err().unwrap();
    assert_eq!(error.message(), "Unsupported record type: ");
}

#[test]
fn the_script_quotes_the_path() {
    assert_eq!(file_script("/tmp/a.txt"), "set the clipboard to (POSIX file \"/tmp/a.txt\")");
    assert_eq!(
        file_script("/tmp/say \"hi\".txt"),
        "set the clipboard to (POSIX file \"/tmp/say \\\"hi\\\".txt\")"
    );
    assert_eq!(file_script(""), "set the clipboard to (POSIX file \"\")");
}
