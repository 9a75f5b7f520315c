//! Response construction for the three operations the service offers.

use vstd::prelude::*;
use vstd::string::StringExecFns;
use vstd::utf8::{encode_utf8, encode_utf8_decode_utf8, encode_utf8_valid_utf8, valid_utf8};
use crate::render::{download_body_rep, ok_body_rep, render_decode_result};
use crate::response::{FileError, Response, STATUS_INTERNAL_SERVER_ERROR, STATUS_OK};

verus! {

/// The fixed body of the greeting served on the root path.
pub open spec fn greeting_rep() -> Seq<char> {
    "Hello, World!"@
}

/// Builds the answer to a request for the root path. It never depends on
/// any earlier request: the greeting and the status are fixed.
pub fn greeting_response() -> (r: Response)
    ensures
        r.status == STATUS_OK,
        r.body@ == greeting_rep(),
{
    Response { status: STATUS_OK, body: String::from_str("Hello, World!") }
}

/// Builds the answer to an upload whose outcome is already known: an
/// empty success body, or the failure's text under a server error status.
pub fn upload_response(outcome: Result<(), FileError>) -> (r: Response)
    ensures
        outcome is Ok ==> r.status == STATUS_OK && r.body@ == Seq::<char>::empty(),
        outcome matches Err(e) ==> r.status == STATUS_INTERNAL_SERVER_ERROR && r.body@
            == e.message_rep(),
{
    match outcome {
        Ok(()) => Response { status: STATUS_OK, body: String::new() },
        Err(e) => Response { status: STATUS_INTERNAL_SERVER_ERROR, body: e.message().clone() },
    }
}

/// Builds the answer to a download whose file read is already done: when
/// the read failed, the failure's text under a server error status; when
/// it succeeded, a success status whatever the bytes hold, with the
/// decode outcome rendered in its diagnostic form as the body.
pub fn download_response(read: Result<Vec<u8>, FileError>) -> (r: Response)
    ensures
        read matches Ok(b) ==> r.status == STATUS_OK && r.body@ == download_body_rep(b@),
        read matches Err(e) ==> r.status == STATUS_INTERNAL_SERVER_ERROR && r.body@
            == e.message_rep(),
{
    match read {
        Ok(bytes) => Response { status: STATUS_OK, body: render_decode_result(&bytes) },
        Err(e) => Response { status: STATUS_INTERNAL_SERVER_ERROR, body: e.message().clone() },
    }
}

/// Law: storing the UTF-8 encoding of a text and then downloading it
/// yields the quoted, escaped rendering of that text inside the success
/// wrapper — not the text itself.
pub proof fn lemma_text_round_trip(text: Seq<char>)
    ensures
        valid_utf8(encode_utf8(text)),
        download_body_rep(encode_utf8(text)) == ok_body_rep(text),
{
    encode_utf8_valid_utf8(text);
    encode_utf8_decode_utf8(text);
}

} // verus!
