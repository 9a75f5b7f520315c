//! The three response builders on concrete outcomes.

use file_server::handlers::{download_response, greeting_response, upload_response};
use file_server::response::FileError;

#[test]
fn greeting_is_fixed() {
    let r = greeting_response();
    assert_eq!(r.status, 200);
    assert_eq!(r.body, "Hello, World!");
}

#[test]
fn greeting_ignores_prior_state() {
    let first = greeting_response();
    let _ = upload_response(Ok(()));
    let _ = download_response(Err(FileError::OpenFailed(String::from("gone"))));
    let second = greeting_response();
    assert_eq!(second.status, 200);
    assert_eq!(second.body, first.body);
}

#[test]
fn missing_file_is_server_error_with_text() {
    let message = String::from("No such file or directory (os error 2)");
    let r = download_response(Err(FileError::OpenFailed(message.clone())));
    assert_eq!(r.status, 500);
    assert!(!r.body.is_empty());
    assert_eq!(r.body, message);
}

#[test]
fn read_file_is_rendered_decode() {
    let r = download_response(Ok(b"hi".to_vec()));
    assert_eq!(r.status, 200);
    assert_eq!(
        r.body,
        format!(
            "{:?}",
            String::from_utf8(b"hi".to_vec()).map_err(|e| (500u16, e.to_string()))
        )
    );
    assert_eq!(r.body, "Ok(\"hi\")");
}

#[test]
fn read_file_with_invalid_bytes_is_still_success() {
    let bytes: Vec<u8> = vec![0xc3, 0x28];
    let r = download_response(Ok(bytes.clone()));
    assert_eq!(r.status, 200);
    assert_eq!(
        r.body,
        format!(
            "{:?}",
            String::from_utf8(bytes).map_err(|e| (500u16, e.to_string()))
        )
    );
    assert_eq!(
        r.body,
        "Err((500, \"invalid utf-8 sequence of 1 bytes from index 0\"))"
    );
}

#[test]
fn successful_upload_is_empty_success() {
    let r = upload_response(Ok(()));
    assert_eq!(r.status, 200);
    assert_eq!(r.body, "");
}

#[test]
fn failed_create_is_server_error_with_text() {
    let r = upload_response(Err(FileError::CreateFailed(String::from(
        "Permission denied (os error 13)",
    ))));
    assert_eq!(r.status, 500);
    assert_eq!(r.body, "Permission denied (os error 13)");
}

#[test]
fn failed_write_is_server_error_with_text() {
    let r = upload_response(Err(FileError::WriteFailed(String::from(
        "No space left on device (os error 28)",
    ))));
    assert_eq!(r.status, 500);
    assert_eq!(r.body, "No space left on device (os error 28)");
}

#[test]
fn failed_stream_is_server_error_with_text() {
    let r = upload_response(Err(FileError::StreamFailed(String::from(
        "connection reset by peer",
    ))));
    assert_eq!(r.status, 500);
    assert_eq!(r.body, "connection reset by peer");
}
