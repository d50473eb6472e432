use tino::payload::{encode_request_fields, ExecOpts, Payload};

#[test]
fn empty_single_value_encodes_to_nothing() {
    for key in ["lang", ".code.tio", "TIO_CFLAGS", "x"] {
        assert_eq!(Payload::One("").encode(key), Vec::<u8>::new());
    }
}

#[test]
fn empty_list_encodes_to_nothing() {
    let empty: Vec<String> = Vec::new();
    for key in ["lang", "args", "TIO_OPTIONS", "y"] {
        assert_eq!(Payload::Many(&empty).encode(key), Vec::<u8>::new());
    }
}

#[test]
fn single_value_exact_bytes() {
    let encoded = Payload::One("python3").encode("lang");
    assert_eq!(encoded, b"Flang\x007\x00python3\x00".to_vec());
}

#[test]
fn one_item_list_exact_bytes() {
    let items = vec!["python3".to_string()];
    let encoded = Payload::Many(&items).encode("lang");
    assert_eq!(encoded, b"Vlang\x001\x00python3\x00".to_vec());
}

#[test]
fn list_items_joined_by_nul() {
    let items = vec!["a".to_string(), "bc".to_string(), "d".to_string()];
    let encoded = Payload::Many(&items).encode("args");
    assert_eq!(encoded, b"Vargs\x003\x00a\x00bc\x00d\x00".to_vec());
}

#[test]
fn value_length_is_decimal_byte_count() {
    let encoded = Payload::One("0123456789").encode("k");
    assert_eq!(encoded, b"Fk\x0010\x000123456789\x00".to_vec());
}

#[test]
fn value_length_counts_bytes_not_chars() {
    // "é" is one character but two UTF-8 bytes.
    let encoded = Payload::One("é").encode("k");
    assert_eq!(encoded, b"Fk\x002\x00\xc3\xa9\x00".to_vec());
}

#[test]
fn request_fields_in_fixed_order() {
    let opts = ExecOpts {
        code: "c".to_string(),
        lang: "py".to_string(),
        ..ExecOpts::default()
    };
    let fields = encode_request_fields(&opts);
    assert_eq!(
        fields,
        b"Vlang\x001\x00py\x00F.code.tio\x001\x00c\x00R".to_vec()
    );
}

#[test]
fn request_fields_with_every_field_set() {
    let opts = ExecOpts {
        code: "x".to_string(),
        lang: "py".to_string(),
        stdin: "in".to_string(),
        compiler_flags: vec!["-O".to_string()],
        cli_options: vec!["-q".to_string()],
        args: vec!["a".to_string(), "b".to_string()],
    };
    let fields = encode_request_fields(&opts);
    let expected = b"Vlang\x001\x00py\x00F.code.tio\x001\x00x\x00F.input.tio\x002\x00in\x00\
VTIO_CFLAGS\x001\x00-O\x00VTIO_OPTIONS\x001\x00-q\x00Vargs\x002\x00a\x00b\x00R"
        .to_vec();
    assert_eq!(fields, expected);
}

#[test]
fn empty_language_still_travels_as_one_item_list() {
    let fields = encode_request_fields(&ExecOpts::default());
    assert_eq!(fields, b"Vlang\x001\x00\x00R".to_vec());
}
