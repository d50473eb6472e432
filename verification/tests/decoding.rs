use std::io::Write;

use tino::decode::{decode_response, extract_unavailable_language, remove_token_occurrences};
use tino::error::Error;

fn gzip(text: &str) -> Vec<u8> {
    let mut enc = flate2::write::GzEncoder::new(Vec::new(), flate2::Compression::default());
    enc.write_all(text.as_bytes()).unwrap();
    enc.finish().unwrap()
}

fn chars(text: &str) -> Vec<char> {
    text.chars().collect()
}

#[test]
fn language_not_found_report_names_the_language() {
    let body = "A0A0A0A0A0A0A0A0The language 'brainfuck--' could not be found on the server";
    let result = decode_response(&gzip(body));
    assert_eq!(result, Err(Error::LanguageNotFound("brainfuck--".to_string())));
}

#[test]
fn report_with_hyphenated_name() {
    let body = "A0A0A0A0A0A0A0A0The language 'i-am-the-walrus' could not be found on the server";
    let result = decode_response(&gzip(body));
    assert_eq!(
        result,
        Err(Error::LanguageNotFound("i-am-the-walrus".to_string()))
    );
}

#[test]
fn single_line_without_pattern_is_unknown() {
    let body = "A0A0A0A0A0A0A0A0something went wrong";
    let result = decode_response(&gzip(body));
    assert_eq!(result, Err(Error::LanguageNotFound("<unknown>".to_string())));
}

#[test]
fn token_occurrences_all_removed() {
    let text = chars("T0T0T0T0T0T0T0T0helloT0T0T0T0T0T0T0T0world\n");
    let token = chars("T0T0T0T0T0T0T0T0");
    let stripped = remove_token_occurrences(&text, &token);
    assert_eq!(stripped, chars("helloworld\n"));
}

#[test]
fn multi_line_output_is_returned_token_stripped() {
    let body = "T0T0T0T0T0T0T0T0helloT0T0T0T0T0T0T0T0world\nreal time: 0.1 s\n";
    let result = decode_response(&gzip(body));
    assert_eq!(result, Ok("helloworld\nreal time: 0.1 s\n".to_string()));
}

#[test]
fn trailing_newline_output_is_returned_token_stripped() {
    // The trailing line break opens a second, empty line, so this body is
    // output, not an error report, with every token occurrence removed.
    let body = "T0T0T0T0T0T0T0T0helloT0T0T0T0T0T0T0T0world\n";
    let result = decode_response(&gzip(body));
    assert_eq!(result, Ok("helloworld\n".to_string()));
}

#[test]
fn malformed_stream_is_an_io_error() {
    let result = decode_response(&vec![1, 2, 3, 4]);
    assert!(matches!(result, Err(Error::IoError(_))));
}

#[test]
fn reply_shorter_than_a_token_is_unknown() {
    let result = decode_response(&gzip("tiny"));
    assert_eq!(result, Err(Error::LanguageNotFound("<unknown>".to_string())));
}

#[test]
fn extract_finds_the_name() {
    let text = chars("The language 'python 3' could not be found on the server");
    assert_eq!(
        extract_unavailable_language(&text),
        Some("python 3".to_string())
    );
}

#[test]
fn extract_takes_the_leftmost_report() {
    let text = chars(
        "The language 'first' could not be found on the server and \
The language 'second' could not be found on the server",
    );
    assert_eq!(extract_unavailable_language(&text), Some("first".to_string()));
}

#[test]
fn extract_needs_the_full_pattern() {
    assert_eq!(extract_unavailable_language(&chars("The language 'x' is odd")), None);
    assert_eq!(extract_unavailable_language(&chars("no report here")), None);
    assert_eq!(
        extract_unavailable_language(&chars(
            "The language '' could not be found on the server"
        )),
        None
    );
}
