//! Rendering of a decode outcome into the diagnostic text the download
//! operation sends: a quoted, escaped form of the text on success, and,
//! on failure, the server error status paired with the fault's own text,
//! as the decode outcome stands after its failure side is mapped.

use vstd::prelude::*;
use vstd::string::{StrSliceExecFns, StringExecFns};
use vstd::utf8::{decode_utf8, valid_utf8};
use crate::response::STATUS_INTERNAL_SERVER_ERROR;
use crate::text::{decode_bytes, push_char, utf8_error_len, utf8_valid_up_to};

verus! {

/// The character for one decimal digit value.
pub open spec fn dec_digit(d: int) -> char {
    if d == 0 {
        '0'
    } else if d == 1 {
        '1'
    } else if d == 2 {
        '2'
    } else if d == 3 {
        '3'
    } else if d == 4 {
        '4'
    } else if d == 5 {
        '5'
    } else if d == 6 {
        '6'
    } else if d == 7 {
        '7'
    } else if d == 8 {
        '8'
    } else {
        '9'
    }
}

/// The character for one hexadecimal digit value, in lower case.
pub open spec fn hex_digit(d: int) -> char {
    if d < 10 {
        dec_digit(d)
    } else if d == 10 {
        'a'
    } else if d == 11 {
        'b'
    } else if d == 12 {
        'c'
    } else if d == 13 {
        'd'
    } else if d == 14 {
        'e'
    } else {
        'f'
    }
}

/// The usual decimal numeral of `n`, without leading zeros.
pub open spec fn decimal_rep(n: int) -> Seq<char>
    recommends
        n >= 0,
    decreases n,
{
    if n < 10 {
        seq![dec_digit(n)]
    } else {
        decimal_rep(n / 10).push(dec_digit(n % 10))
    }
}

/// The usual hexadecimal numeral of `n`, in lower case and without
/// leading zeros.
pub open spec fn hex_rep(n: int) -> Seq<char>
    recommends
        n >= 0,
    decreases n,
{
    if n < 16 {
        seq![hex_digit(n)]
    } else {
        hex_rep(n / 16).push(hex_digit(n % 16))
    }
}

/// What the standard text formatting writes for one character in a
/// quoted string: a function of the character alone. Only characters
/// outside ASCII are rendered through this name; inside ASCII the
/// escaping is stated and proved directly in [`escape_char_rep`], where
/// the quoting context matters (the double quote is escaped there, the
/// single quote is not).
pub uninterp spec fn escape_debug_of(c: char) -> Seq<char>;

/// Relies on char::escape_debug: the debug escape of one character,
/// which depends on the character alone. Called only for characters
/// outside ASCII, where it coincides with what the standard quoted
/// string formatting writes.
#[verifier::external_body]
fn escape_debug_char(c: char) -> (r: String)
    ensures
        r@ == escape_debug_of(c),
{
    c.escape_debug().collect()
}

/// How one character appears inside the quoted text of a rendered
/// successful decode. Inside ASCII: the quote, the backslash and the
/// named control characters take their backslash escapes, the other
/// control characters take a `\u{..}` escape, and the printable
/// characters stand unchanged. Outside ASCII the character is rendered
/// as the standard quoted string formatting renders it.
pub open spec fn escape_char_rep(c: char) -> Seq<char> {
    if c == '"' {
        seq!['\\', '"']
    } else if c == '\\' {
        seq!['\\', '\\']
    } else if c == '\n' {
        seq!['\\', 'n']
    } else if c == '\r' {
        seq!['\\', 'r']
    } else if c == '\t' {
        seq!['\\', 't']
    } else if c == '\0' {
        seq!['\\', '0']
    } else if (c as u32) < 0x20 || (c as u32) == 0x7f {
        seq!['\\', 'u', '{'] + hex_rep(c as u32 as int) + seq!['}']
    } else if (c as u32) < 0x7f {
        seq![c]
    } else {
        escape_debug_of(c)
    }
}

/// The escaped form of a whole text: each character's escape in order.
pub open spec fn escape_rep(s: Seq<char>) -> Seq<char>
    decreases s.len(),
{
    if s.len() == 0 {
        Seq::empty()
    } else {
        escape_rep(s.drop_last()) + escape_char_rep(s.last())
    }
}

/// The escape of a text extended by one character is the escape of the
/// text followed by that character's escape.
proof fn lemma_escape_rep_push(s: Seq<char>, c: char)
    ensures
        escape_rep(s.push(c)) == escape_rep(s) + escape_char_rep(c),
{
    assert(s.push(c).drop_last() =~= s);
    assert(s.push(c).last() == c);
}

/// The body of a download whose bytes decode: the text, escaped, between
/// a quoted success wrapper.
pub open spec fn ok_body_rep(text: Seq<char>) -> Seq<char> {
    "Ok(\""@ + escape_rep(text) + "\")"@
}

/// The text in which a decoding fault describes itself: the length of
/// the invalid byte run and where it starts, or only where the bytes
/// ended too early.
pub open spec fn fault_message_rep(valid_up_to: int, error_len: Option<u8>) -> Seq<char> {
    match error_len {
        Some(k) => "invalid utf-8 sequence of "@ + decimal_rep(k as int)
            + " bytes from index "@ + decimal_rep(valid_up_to),
        None => "incomplete utf-8 byte sequence from index "@ + decimal_rep(valid_up_to),
    }
}

/// The body of a download whose bytes do not decode. The decode outcome
/// is first mapped to the server error status paired with the fault's
/// own text, and the body renders that pair inside the failure wrapper —
/// though the response's status stays a success.
pub open spec fn err_body_rep(bytes: Seq<u8>) -> Seq<char> {
    "Err(("@ + decimal_rep(STATUS_INTERNAL_SERVER_ERROR as int) + ", \""@ + fault_message_rep(
        utf8_valid_up_to(bytes),
        utf8_error_len(bytes.subrange(utf8_valid_up_to(bytes), bytes.len() as int)),
    ) + "\"))"@
}

/// The body of a download that could read the file: the outcome of
/// decoding the bytes as UTF-8, rendered in its diagnostic form even
/// when the decode succeeds.
pub open spec fn download_body_rep(bytes: Seq<u8>) -> Seq<char> {
    if valid_utf8(bytes) {
        ok_body_rep(decode_utf8(bytes))
    } else {
        err_body_rep(bytes)
    }
}

/// Appends the character for one decimal digit value.
fn push_dec_digit(out: &mut String, d: usize)
    requires
        d < 10,
    ensures
        final(out)@ == old(out)@ + seq![dec_digit(d as int)],
{
    let c: char = if d == 0 {
        '0'
    } else if d == 1 {
        '1'
    } else if d == 2 {
        '2'
    } else if d == 3 {
        '3'
    } else if d == 4 {
        '4'
    } else if d == 5 {
        '5'
    } else if d == 6 {
        '6'
    } else if d == 7 {
        '7'
    } else if d == 8 {
        '8'
    } else {
        '9'
    };
    push_char(out, c);
    assert(out@ =~= old(out)@ + seq![dec_digit(d as int)]);
}

/// Appends the character for one hexadecimal digit value.
fn push_hex_digit(out: &mut String, d: u32)
    requires
        d < 16,
    ensures
        final(out)@ == old(out)@ + seq![hex_digit(d as int)],
{
    if d < 10 {
        push_dec_digit(out, d as usize);
    } else {
        let c: char = if d == 10 {
            'a'
        } else if d == 11 {
            'b'
        } else if d == 12 {
            'c'
        } else if d == 13 {
            'd'
        } else if d == 14 {
            'e'
        } else {
            'f'
        };
        push_char(out, c);
        assert(out@ =~= old(out)@ + seq![hex_digit(d as int)]);
    }
}

/// Appends the decimal numeral of `n`.
fn push_decimal(out: &mut String, n: usize)
    ensures
        final(out)@ == old(out)@ + decimal_rep(n as int),
    decreases n,
{
    if n < 10 {
        push_dec_digit(out, n);
    } else {
        push_decimal(out, n / 10);
        push_dec_digit(out, n % 10);
        assert(out@ =~= old(out)@ + decimal_rep(n as int));
    }
}

/// Appends the hexadecimal numeral of `n`.
fn push_hex(out: &mut String, n: u32)
    ensures
        final(out)@ == old(out)@ + hex_rep(n as int),
    decreases n,
{
    if n < 16 {
        push_hex_digit(out, n);
    } else {
        push_hex(out, n / 16);
        push_hex_digit(out, n % 16);
        assert(out@ =~= old(out)@ + hex_rep(n as int));
    }
}

/// Appends the escape of one character.
fn push_escaped_char(out: &mut String, c: char)
    ensures
        final(out)@ == old(out)@ + escape_char_rep(c),
{
    if c == '"' {
        out.append("\\\"");
        proof {
            reveal_strlit("\\\"");
            assert("\\\""@ =~= seq!['\\', '"']);
        }
    } else if c == '\\' {
        out.append("\\\\");
        proof {
            reveal_strlit("\\\\");
            assert("\\\\"@ =~= seq!['\\', '\\']);
        }
    } else if c == '\n' {
        out.append("\\n");
        proof {
            reveal_strlit("\\n");
            assert("\\n"@ =~= seq!['\\', 'n']);
        }
    } else if c == '\r' {
        out.append("\\r");
        proof {
            reveal_strlit("\\r");
            assert("\\r"@ =~= seq!['\\', 'r']);
        }
    } else if c == '\t' {
        out.append("\\t");
        proof {
            reveal_strlit("\\t");
            assert("\\t"@ =~= seq!['\\', 't']);
        }
    } else if c == '\0' {
        out.append("\\0");
        proof {
            reveal_strlit("\\0");
            assert("\\0"@ =~= seq!['\\', '0']);
        }
    } else if (c as u32) < 0x20 || (c as u32) == 0x7f {
        out.append("\\u{");
        push_hex(out, c as u32);
        push_char(out, '}');
        proof {
            reveal_strlit("\\u{");
            assert("\\u{"@ =~= seq!['\\', 'u', '{']);
            assert(out@ =~= old(out)@ + escape_char_rep(c));
        }
    } else if (c as u32) < 0x7f {
        push_char(out, c);
        assert(out@ =~= old(out)@ + escape_char_rep(c));
    } else {
        let e = escape_debug_char(c);
        out.append(e.as_str());
        assert(out@ =~= old(out)@ + escape_char_rep(c));
    }
}

/// Appends the escaped form of a whole text.
fn push_escaped(out: &mut String, text: &str)
    ensures
        final(out)@ == old(out)@ + escape_rep(text@),
{
    let n = text.unicode_len();
    let mut i: usize = 0;
    proof {
        assert(text@.subrange(0, 0) =~= Seq::<char>::empty());
    }
    while i < n
        invariant
            n == text@.len(),
            i <= n,
            out@ == old(out)@ + escape_rep(text@.subrange(0, i as int)),
        decreases n - i,
    {
        let c = text.get_char(i);
        push_escaped_char(out, c);
        proof {
            assert(text@.subrange(0, i + 1) =~= text@.subrange(0, i as int).push(text@[i as int]));
            lemma_escape_rep_push(text@.subrange(0, i as int), c);
            assert(out@ =~= old(out)@ + escape_rep(text@.subrange(0, i + 1)));
        }
        i = i + 1;
    }
    proof {
        assert(text@.subrange(0, n as int) =~= text@);
    }
}

/// Decodes the bytes of a read file and renders the outcome in its
/// diagnostic form: the success wrapper around the escaped text when the
/// bytes are valid UTF-8, and the byte-and-fault report otherwise.
pub fn render_decode_result(bytes: &Vec<u8>) -> (r: String)
    ensures
        r@ == download_body_rep(bytes@),
{
    match decode_bytes(bytes) {
        Ok(text) => {
            let mut out = String::from_str("Ok(\"");
            push_escaped(&mut out, text.as_str());
            out.append("\")");
            assert(out@ =~= ok_body_rep(decode_utf8(bytes@)));
            out
        },
        Err(fault) => {
            let mut out = String::from_str("Err((");
            push_decimal(&mut out, STATUS_INTERNAL_SERVER_ERROR as usize);
            out.append(", \"");
            match fault.error_len {
                Some(k) => {
                    out.append("invalid utf-8 sequence of ");
                    push_decimal(&mut out, k as usize);
                    out.append(" bytes from index ");
                    push_decimal(&mut out, fault.valid_up_to);
                },
                None => {
                    out.append("incomplete utf-8 byte sequence from index ");
                    push_decimal(&mut out, fault.valid_up_to);
                },
            }
            out.append("\"))");
            assert(out@ =~= err_body_rep(bytes@));
            out
        },
    }
}

} // verus!
