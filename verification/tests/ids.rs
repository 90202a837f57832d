use build_watcher::build::BuildEventType;
use build_watcher::utils::{log_file_name, BuildId};

#[test]
fn id_text_is_base_62() {
    assert_eq!(BuildId { inner: 0 }.to_string(), "0");
    assert_eq!(BuildId { inner: 9 }.to_string(), "9");
    assert_eq!(BuildId { inner: 10 }.to_string(), "A");
    assert_eq!(BuildId { inner: 35 }.to_string(), "Z");
    assert_eq!(BuildId { inner: 36 }.to_string(), "a");
    assert_eq!(BuildId { inner: 61 }.to_string(), "z");
    assert_eq!(BuildId { inner: 62 }.to_string(), "10");
    assert_eq!(BuildId { inner: 1337 }.to_string(), "LZ");
    assert_eq!(BuildId { inner: 189876682536016 }.to_string(), "rustlang");
    assert_eq!(BuildId { inner: u128::MAX }.to_string(), "7n42DGM5Tflk9n8mt7Fhc7");
}

#[test]
fn id_text_is_parsed_back() {
    let mut inner: u128 = 0;
    while inner < u128::MAX / 37 {
        let id = BuildId { inner };
        assert_eq!(BuildId::parse(&id.to_string()), id);
        assert_eq!(BuildId::try_parse(&id.to_string()), Some(id));
        inner = inner * 37 + 11;
    }
    let last = BuildId { inner: u128::MAX };
    assert_eq!(BuildId::parse(&last.to_string()), last);
}

#[test]
fn leading_zeros_are_read() {
    assert_eq!(BuildId::parse("LZ").inner, 1337);
    assert_eq!(BuildId::parse("000LZ").inner, 1337);
    assert_eq!(BuildId::parse("0").inner, 0);
    assert_eq!(BuildId::parse("0000000000000000000000000000000000000000").inner, 0);
    assert_eq!(BuildId::parse("000000000000000000000000000000LZ").to_string(), "LZ");
}

#[test]
fn texts_without_leading_zeros_are_written_back() {
    for text in ["0", "z", "10", "LZ", "rustlang", "7n42DGM5Tflk9n8mt7Fhc7"] {
        assert_eq!(BuildId::parse(text).to_string(), text);
    }
}

#[test]
fn no_id_is_read_from_other_texts() {
    assert_eq!(BuildId::try_parse(""), None);
    assert_eq!(BuildId::try_parse("a-b"), None);
    assert_eq!(BuildId::try_parse("abc "), None);
    assert_eq!(BuildId::try_parse("\u{e9}"), None);
    assert_eq!(BuildId::try_parse("7n42DGM5Tflk9n8mt7Fhc8"), None);
    assert_eq!(BuildId::try_parse("10000000000000000000000"), None);
}

#[test]
fn same_text_only_for_the_same_id() {
    let a = BuildId { inner: 1 << 100 };
    let b = BuildId { inner: (1 << 100) + 1 };
    assert_ne!(a.to_string(), b.to_string());
    assert_eq!(a.to_string(), BuildId { inner: 1 << 100 }.to_string());
}

#[test]
fn fresh_ids_carry_their_version() {
    let a = BuildId::new();
    let b = BuildId::new();
    assert_eq!((a.inner >> 76) & 0xf, 7);
    assert_eq!((a.inner >> 62) & 0x3, 2);
    assert_ne!(a, b);
    assert_eq!(BuildId::parse(&a.to_string()), a);
    assert!(!a.to_string().contains('/'));
}

#[test]
fn log_files_are_named_by_stage_and_type() {
    assert_eq!(log_file_name(0, BuildEventType::Message), ".watcher_log_0");
    assert_eq!(log_file_name(0, BuildEventType::Error), ".watcher_err_0");
    assert_eq!(log_file_name(10, BuildEventType::Message), ".watcher_log_10");
    assert_eq!(log_file_name(1203, BuildEventType::Error), ".watcher_err_1203");
    assert_eq!(
        log_file_name(usize::MAX, BuildEventType::Message),
        format!(".watcher_log_{}", usize::MAX)
    );
}

#[test]
fn log_names_do_not_clash() {
    let mut names: Vec<String> = Vec::new();
    for stage in 0..120 {
        names.push(log_file_name(stage, BuildEventType::Message));
        names.push(log_file_name(stage, BuildEventType::Error));
    }
    let count = names.len();
    names.sort();
    names.dedup();
    assert_eq!(names.len(), count);
}
