//! The decoder against the standard library's own UTF-8 decoding: same
//! acceptance, same text, and the same two fault fields on rejection.

use file_server::text::decode_bytes;

fn agrees_with_std(bytes: &[u8]) {
    let input: Vec<u8> = bytes.to_vec();
    match (decode_bytes(&input), String::from_utf8(input.clone())) {
        (Ok(mine), Ok(std_text)) => assert_eq!(mine, std_text),
        (Err(fault), Err(e)) => {
            assert_eq!(fault.valid_up_to, e.utf8_error().valid_up_to());
            assert_eq!(
                fault.error_len.map(|k| k as usize),
                e.utf8_error().error_len()
            );
        }
        (mine, std_result) => panic!(
            "acceptance differs on {:?}: mine {:?}, std {:?}",
            bytes,
            mine.is_ok(),
            std_result.is_ok()
        ),
    }
}

#[test]
fn accepts_ascii() {
    agrees_with_std(b"hello world");
}

#[test]
fn accepts_empty() {
    let input: Vec<u8> = Vec::new();
    assert_eq!(decode_bytes(&input).unwrap(), "");
}

#[test]
fn accepts_multibyte_text() {
    agrees_with_std("héllo".as_bytes());
    agrees_with_std("日本語".as_bytes());
    agrees_with_std("🦀 crab".as_bytes());
    agrees_with_std("mixed: aé日🦀z".as_bytes());
}

#[test]
fn rejects_lone_continuation() {
    agrees_with_std(&[0x80]);
    agrees_with_std(&[0x41, 0xbf, 0x41]);
}

#[test]
fn rejects_impossible_leads() {
    agrees_with_std(&[0xc0, 0xaf]);
    agrees_with_std(&[0xc1, 0x80]);
    agrees_with_std(&[0xfe]);
    agrees_with_std(&[0xff, 0x41]);
    agrees_with_std(&[0xf8, 0x80, 0x80, 0x80]);
}

#[test]
fn rejects_bad_second_byte() {
    agrees_with_std(&[0xc3, 0x28]);
    agrees_with_std(&[0xe2, 0x28, 0xa1]);
    agrees_with_std(&[0xf0, 0x28, 0x8c, 0x28]);
}

#[test]
fn rejects_bad_later_bytes() {
    agrees_with_std(&[0xe2, 0x82, 0x28]);
    agrees_with_std(&[0xf0, 0x90, 0x28, 0xbc]);
    agrees_with_std(&[0xf0, 0x90, 0x8c, 0x28]);
}

#[test]
fn rejects_surrogates() {
    agrees_with_std(&[0xed, 0xa0, 0x80]);
    agrees_with_std(&[0xed, 0xbf, 0xbf]);
    agrees_with_std(&[0x41, 0xed, 0xa0, 0x80, 0x41]);
}

#[test]
fn rejects_overlong_encodings() {
    agrees_with_std(&[0xe0, 0x80, 0xaf]);
    agrees_with_std(&[0xe0, 0x9f, 0xbf]);
    agrees_with_std(&[0xf0, 0x80, 0x80, 0x80]);
    agrees_with_std(&[0xf0, 0x8f, 0xbf, 0xbf]);
}

#[test]
fn rejects_beyond_last_scalar() {
    agrees_with_std(&[0xf4, 0x90, 0x80, 0x80]);
    agrees_with_std(&[0xf5, 0x80, 0x80, 0x80]);
}

#[test]
fn reports_truncated_tail() {
    agrees_with_std(&[0xc3]);
    agrees_with_std(&[0xe2, 0x82]);
    agrees_with_std(&[0xf0, 0x90, 0x8c]);
    agrees_with_std(&[0x41, 0x42, 0xc3]);
}

#[test]
fn reports_error_after_valid_prefix() {
    agrees_with_std(&[0x61, 0x62, 0x63, 0xff, 0x61]);
    agrees_with_std("日本".as_bytes().iter().chain(&[0x80u8]).copied().collect::<Vec<u8>>().as_slice());
}
