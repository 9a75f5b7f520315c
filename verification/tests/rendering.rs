//! The rendered download body against what the original service sent:
//! the debug form of the decode result after its failure side is mapped
//! to the server error status paired with the fault's display text.

use file_server::render::render_decode_result;

fn renders_like_original(bytes: &[u8]) {
    let input: Vec<u8> = bytes.to_vec();
    let mine = render_decode_result(&input);
    let original_form = format!(
        "{:?}",
        String::from_utf8(input.clone()).map_err(|e| (500u16, e.to_string()))
    );
    assert_eq!(mine, original_form, "rendering differs on {:?}", bytes);
}

#[test]
fn renders_plain_text() {
    renders_like_original(b"hello");
    assert_eq!(render_decode_result(&b"hello".to_vec()), "Ok(\"hello\")");
}

#[test]
fn renders_empty_text() {
    assert_eq!(render_decode_result(&Vec::new()), "Ok(\"\")");
}

#[test]
fn escapes_quotes_and_backslashes() {
    renders_like_original(b"say \"hi\" and c:\\temp");
}

#[test]
fn keeps_single_quotes_verbatim() {
    renders_like_original(b"it's 'quoted'");
    assert_eq!(
        render_decode_result(&b"it's".to_vec()),
        "Ok(\"it's\")"
    );
}

#[test]
fn escapes_named_controls() {
    renders_like_original(b"line\nbreak\ttab\rreturn");
}

#[test]
fn escapes_other_controls_as_unicode() {
    renders_like_original(&[0x00, 0x01, 0x1f, 0x7f, 0x1b]);
    renders_like_original("c1 control: \u{85} end".as_bytes());
}

#[test]
fn escapes_grapheme_extending_characters() {
    renders_like_original("a\u{301}".as_bytes());
    assert_eq!(
        render_decode_result(&"a\u{301}".as_bytes().to_vec()),
        "Ok(\"a\\u{301}\")"
    );
}

#[test]
fn escapes_nonprintable_format_characters() {
    renders_like_original("soft\u{ad}hyphen".as_bytes());
    renders_like_original("zero\u{200b}width".as_bytes());
}

#[test]
fn keeps_printable_multibyte_text() {
    renders_like_original("héllo 日本 🦀".as_bytes());
}

#[test]
fn renders_invalid_bytes_as_mapped_failure() {
    renders_like_original(&[0xff]);
    renders_like_original(&[0x61, 0x62, 0xc3, 0x28]);
    renders_like_original(&[0xe2, 0x82]);
    renders_like_original(&[0xed, 0xa0, 0x80, 0x40]);
    assert_eq!(
        render_decode_result(&vec![0x61, 0xff]),
        "Err((500, \"invalid utf-8 sequence of 1 bytes from index 1\"))"
    );
}

#[test]
fn renders_truncated_tail_fault() {
    assert_eq!(
        render_decode_result(&vec![0x68, 0x69, 0xc3]),
        "Err((500, \"incomplete utf-8 byte sequence from index 2\"))"
    );
}

#[test]
fn renders_longer_invalid_run() {
    renders_like_original(&[0xe1, 0x80, 0x20]);
    assert_eq!(
        render_decode_result(&vec![0xe1, 0x80, 0x20]),
        "Err((500, \"invalid utf-8 sequence of 2 bytes from index 0\"))"
    );
}
