//! A UTF-8 decoder that reports failures the way the standard library's
//! `String::from_utf8` does: with the length of the valid prefix and the
//! length of the offending byte run.

use vstd::prelude::*;
use vstd::utf8::*;

verus! {

/// Where and how a byte sequence stops being valid UTF-8. The fields
/// mirror what `String::from_utf8` reports on failure: `valid_up_to` is
/// the length of the longest valid prefix, and `error_len` is the length
/// of the invalid byte run after it, or `None` when the bytes simply end
/// before an encoding is complete.
#[derive(Debug)]
pub struct Utf8Fault {
    pub valid_up_to: usize,
    pub error_len: Option<u8>,
}

/// Length of the longest prefix of `bytes` that is valid UTF-8.
pub open spec fn utf8_valid_up_to(bytes: Seq<u8>) -> int
    decreases bytes.len(),
{
    if bytes.len() == 0 || !valid_first_scalar(bytes) {
        0
    } else {
        let k = length_of_first_scalar(bytes);
        k + utf8_valid_up_to(bytes.subrange(k, bytes.len() as int))
    }
}

/// The range allowed for the second byte of a multi-byte encoding led by
/// `b0`: narrower than a plain continuation byte exactly where an
/// overlong encoding, a surrogate, or a value above the last Unicode
/// scalar would otherwise arise.
pub open spec fn utf8_second_byte_ok(b0: u8, b1: u8) -> bool {
    if b0 == 0xe0 {
        0xa0 <= b1 && b1 <= 0xbf
    } else if b0 == 0xed {
        0x80 <= b1 && b1 <= 0x9f
    } else if b0 == 0xf0 {
        0x90 <= b1 && b1 <= 0xbf
    } else if b0 == 0xf4 {
        0x80 <= b1 && b1 <= 0x8f
    } else {
        is_continuation_byte(b1)
    }
}

/// The length of the invalid byte run at the start of `bytes`, or `None`
/// when the bytes end before the first encoding is complete. This mirrors
/// how the standard library fills `error_len` of a `Utf8Error`.
pub open spec fn utf8_error_len(bytes: Seq<u8>) -> Option<u8>
    recommends
        bytes.len() > 0,
        !valid_first_scalar(bytes),
{
    let b0 = bytes[0];
    if b0 < 0x80 {
        None
    } else if 0xc2 <= b0 && b0 <= 0xdf {
        if bytes.len() < 2 {
            None
        } else if !is_continuation_byte(bytes[1]) {
            Some(1u8)
        } else {
            None
        }
    } else if 0xe0 <= b0 && b0 <= 0xef {
        if bytes.len() < 2 {
            None
        } else if !utf8_second_byte_ok(b0, bytes[1]) {
            Some(1u8)
        } else if bytes.len() < 3 {
            None
        } else if !is_continuation_byte(bytes[2]) {
            Some(2u8)
        } else {
            None
        }
    } else if 0xf0 <= b0 && b0 <= 0xf4 {
        if bytes.len() < 2 {
            None
        } else if !utf8_second_byte_ok(b0, bytes[1]) {
            Some(1u8)
        } else if bytes.len() < 3 {
            None
        } else if !is_continuation_byte(bytes[2]) {
            Some(2u8)
        } else if bytes.len() < 4 {
            None
        } else if !is_continuation_byte(bytes[3]) {
            Some(3u8)
        } else {
            None
        }
    } else {
        Some(1u8)
    }
}

/// Relies on char::from_u32: it returns the character with the given
/// scalar value whenever that value is a Unicode scalar value.
#[verifier::external_body]
fn char_from_u32(v: u32) -> (c: char)
    requires
        is_scalar(v),
    ensures
        c as u32 == v,
{
    char::from_u32(v).unwrap()
}

/// Relies on String::push: it appends exactly the given character.
#[verifier::external_body]
pub(crate) fn push_char(s: &mut String, c: char)
    ensures
        final(s)@ == old(s)@.push(c),
{
    s.push(c);
}

/// A byte below 0x80 encodes itself.
proof fn lemma_scalar_width_1(b0: u8)
    by (bit_vector)
    requires
        b0 < 0x80,
    ensures
        codepoint_width_1(b0) == b0 as u32,
        not_surrogate(codepoint_width_1(b0)),
        is_scalar(codepoint_width_1(b0)),
{
}

/// A two-byte encoding led by 0xc2 through 0xdf is never overlong and
/// never a surrogate.
proof fn lemma_scalar_width_2(b0: u8, b1: u8)
    by (bit_vector)
    requires
        0xc2 <= b0,
        b0 <= 0xdf,
        is_continuation_byte(b1),
    ensures
        not_overlong_encoding(codepoint_width_2(b0, b1), 2),
        not_surrogate(codepoint_width_2(b0, b1)),
        is_scalar(codepoint_width_2(b0, b1)),
{
}

/// A two-byte encoding led by 0xc0 or 0xc1 is always overlong.
proof fn lemma_overlong_width_2(b0: u8, b1: u8)
    by (bit_vector)
    requires
        0xc0 <= b0,
        b0 <= 0xc1,
        is_continuation_byte(b1),
    ensures
        !not_overlong_encoding(codepoint_width_2(b0, b1), 2),
{
}

/// For a three-byte encoding, the narrowed second-byte range rules out
/// exactly the overlong encodings and the surrogates.
proof fn lemma_scalar_width_3(b0: u8, b1: u8, b2: u8)
    by (bit_vector)
    requires
        0xe0 <= b0,
        b0 <= 0xef,
        is_continuation_byte(b1),
        is_continuation_byte(b2),
    ensures
        utf8_second_byte_ok(b0, b1) <==> (not_overlong_encoding(codepoint_width_3(b0, b1, b2), 3)
            && not_surrogate(codepoint_width_3(b0, b1, b2))),
        utf8_second_byte_ok(b0, b1) ==> is_scalar(codepoint_width_3(b0, b1, b2)),
{
}

/// For a four-byte encoding led by 0xf0 through 0xf4, the narrowed
/// second-byte range rules out exactly the overlong encodings and the
/// values beyond the last Unicode scalar.
proof fn lemma_scalar_width_4(b0: u8, b1: u8, b2: u8, b3: u8)
    by (bit_vector)
    requires
        0xf0 <= b0,
        b0 <= 0xf4,
        is_continuation_byte(b1),
        is_continuation_byte(b2),
        is_continuation_byte(b3),
    ensures
        utf8_second_byte_ok(b0, b1) <==> not_overlong_encoding(
            codepoint_width_4(b0, b1, b2, b3),
            4,
        ),
        utf8_second_byte_ok(b0, b1) ==> (not_surrogate(codepoint_width_4(b0, b1, b2, b3))
            && is_scalar(codepoint_width_4(b0, b1, b2, b3))),
{
}

/// A four-byte encoding led by 0xf5 through 0xf7 always lies beyond the
/// last Unicode scalar.
proof fn lemma_beyond_width_4(b0: u8, b1: u8, b2: u8, b3: u8)
    by (bit_vector)
    requires
        0xf5 <= b0,
        b0 <= 0xf7,
        is_continuation_byte(b1),
        is_continuation_byte(b2),
        is_continuation_byte(b3),
    ensures
        !not_overlong_encoding(codepoint_width_4(b0, b1, b2, b3), 4),
{
}

/// A byte that is a continuation byte, an overlong two-byte lead, or a
/// lead beyond the last Unicode scalar never starts a well-formed
/// encoding.
proof fn lemma_bad_lead(s: Seq<u8>)
    requires
        s.len() > 0,
        !(s[0] < 0x80),
        !(0xc2 <= s[0] && s[0] <= 0xdf),
        !(0xe0 <= s[0] && s[0] <= 0xef),
        !(0xf0 <= s[0] && s[0] <= 0xf4),
    ensures
        !valid_first_scalar(s),
{
    if valid_first_scalar(s) {
        let b0 = s[0];
        if is_leading_byte_width_2(b0) {
            lemma_overlong_width_2(b0, s[1]);
        } else if is_leading_byte_width_4(b0) {
            lemma_beyond_width_4(b0, s[1], s[2], s[3]);
        }
        assert(false);
    }
}

/// A three-byte lead followed by a continuation byte outside the narrowed
/// range never starts a well-formed encoding.
proof fn lemma_bad_second_width_3(s: Seq<u8>)
    requires
        s.len() > 1,
        0xe0 <= s[0] && s[0] <= 0xef,
        is_continuation_byte(s[1]),
        !utf8_second_byte_ok(s[0], s[1]),
    ensures
        !valid_first_scalar(s),
{
    if valid_first_scalar(s) {
        lemma_scalar_width_3(s[0], s[1], s[2]);
        assert(false);
    }
}

/// A four-byte lead followed by a continuation byte outside the narrowed
/// range never starts a well-formed encoding.
proof fn lemma_bad_second_width_4(s: Seq<u8>)
    requires
        s.len() > 1,
        0xf0 <= s[0] && s[0] <= 0xf4,
        is_continuation_byte(s[1]),
        !utf8_second_byte_ok(s[0], s[1]),
    ensures
        !valid_first_scalar(s),
{
    if valid_first_scalar(s) {
        lemma_scalar_width_4(s[0], s[1], s[2], s[3]);
        assert(false);
    }
}

/// Taking the first `k` bytes of a sequence that starts with a
/// well-formed scalar encoding of length `k` yields a complete valid
/// encoding of that one scalar.
proof fn lemma_first_scalar_take(s: Seq<u8>, k: int)
    requires
        valid_first_scalar(s),
        length_of_first_scalar(s) == k,
    ensures
        valid_utf8(s.subrange(0, k)),
        decode_utf8(s.subrange(0, k)) =~= seq![decode_first_scalar(s) as char],
{
    let t = s.subrange(0, k);
    assert(forall|j: int| 0 <= j < k ==> t[j] == s[j]);
    assert(valid_first_scalar(t));
    assert(length_of_first_scalar(t) == k);
    assert(decode_first_scalar(t) == decode_first_scalar(s));
    assert(pop_first_scalar(t) =~= Seq::<u8>::empty());
    reveal_with_fuel(valid_utf8, 2);
    assert(valid_utf8(t));
    reveal_with_fuel(decode_utf8, 2);
}

/// Consuming one well-formed scalar encoding extends the valid prefix,
/// its decoding, and the greedy valid-prefix length in lock step.
proof fn lemma_decode_step(bytes: Seq<u8>, i: int, k: int)
    requires
        0 <= i,
        i + k <= bytes.len(),
        partial_valid_utf8(bytes, i),
        valid_first_scalar(bytes.subrange(i, bytes.len() as int)),
        length_of_first_scalar(bytes.subrange(i, bytes.len() as int)) == k,
    ensures
        partial_valid_utf8(bytes, i + k),
        decode_utf8(bytes.subrange(0, i + k)) =~= decode_utf8(bytes.subrange(0, i)) + seq![
            decode_first_scalar(bytes.subrange(i, bytes.len() as int)) as char,
        ],
        utf8_valid_up_to(bytes.subrange(i, bytes.len() as int)) == k + utf8_valid_up_to(
            bytes.subrange(i + k, bytes.len() as int),
        ),
{
    let n = bytes.len() as int;
    let suffix = bytes.subrange(i, n);
    partial_valid_utf8_extend(bytes, i);
    let p = bytes.subrange(0, i + k);
    assert(valid_utf8(p));
    // The step starts on a character boundary of the extended prefix.
    assert(is_char_boundary(p, i)) by {
        assert(p[i] == suffix[0]);
        is_char_boundary_iff_is_leading_byte(p, i);
    }
    decode_utf8_split(p, i);
    assert(p.subrange(0, i) =~= bytes.subrange(0, i));
    assert(p.subrange(i, i + k) =~= suffix.subrange(0, k));
    lemma_first_scalar_take(suffix, k);
    // The greedy valid-prefix length of the suffix steps by k.
    assert(suffix.subrange(k, suffix.len() as int) =~= bytes.subrange(i + k, n));
}

/// Executable twin of [`utf8_second_byte_ok`].
fn second_byte_ok(b0: u8, b1: u8) -> (r: bool)
    ensures
        r == utf8_second_byte_ok(b0, b1),
{
    if b0 == 0xe0 {
        0xa0 <= b1 && b1 <= 0xbf
    } else if b0 == 0xed {
        0x80 <= b1 && b1 <= 0x9f
    } else if b0 == 0xf0 {
        0x90 <= b1 && b1 <= 0xbf
    } else if b0 == 0xf4 {
        0x80 <= b1 && b1 <= 0x8f
    } else {
        0x80 <= b1 && b1 <= 0xbf
    }
}

/// Builds the fault for a decoding that failed at position `i`, given
/// that everything before `i` is valid and no well-formed encoding
/// starts there.
fn fault_at(bytes: &Vec<u8>, i: usize) -> (f: Utf8Fault)
    requires
        i < bytes@.len(),
        partial_valid_utf8(bytes@, i as int),
        !valid_first_scalar(bytes@.subrange(i as int, bytes@.len() as int)),
        utf8_valid_up_to(bytes@) == i + utf8_valid_up_to(
            bytes@.subrange(i as int, bytes@.len() as int),
        ),
    ensures
        !valid_utf8(bytes@),
        f.valid_up_to == utf8_valid_up_to(bytes@),
        f.error_len == utf8_error_len(
            bytes@.subrange(utf8_valid_up_to(bytes@), bytes@.len() as int),
        ),
{
    let n = bytes.len();
    proof {
        let suffix = bytes@.subrange(i as int, bytes@.len() as int);
        assert(!valid_utf8(suffix));
        partial_valid_partial_invalid_utf8(bytes@, i as int);
        assert(utf8_valid_up_to(suffix) == 0);
    }
    let b0 = bytes[i];
    let error_len: Option<u8>;
    if b0 < 0x80 {
        // Never reached when no well-formed encoding starts at `i`; kept
        // so that the branches mirror the specification case for case.
        error_len = None;
    } else if 0xc2 <= b0 && b0 <= 0xdf {
        if i + 1 >= n {
            error_len = None;
        } else if !(0x80 <= bytes[i + 1] && bytes[i + 1] <= 0xbf) {
            error_len = Some(1);
        } else {
            error_len = None;
        }
    } else if 0xe0 <= b0 && b0 <= 0xef {
        if i + 1 >= n {
            error_len = None;
        } else if !second_byte_ok(b0, bytes[i + 1]) {
            error_len = Some(1);
        } else if i + 2 >= n {
            error_len = None;
        } else if !(0x80 <= bytes[i + 2] && bytes[i + 2] <= 0xbf) {
            error_len = Some(2);
        } else {
            error_len = None;
        }
    } else if 0xf0 <= b0 && b0 <= 0xf4 {
        if i + 1 >= n {
            error_len = None;
        } else if !second_byte_ok(b0, bytes[i + 1]) {
            error_len = Some(1);
        } else if i + 2 >= n {
            error_len = None;
        } else if !(0x80 <= bytes[i + 2] && bytes[i + 2] <= 0xbf) {
            error_len = Some(2);
        } else if i + 3 >= n {
            error_len = None;
        } else if !(0x80 <= bytes[i + 3] && bytes[i + 3] <= 0xbf) {
            error_len = Some(3);
        } else {
            error_len = None;
        }
    } else {
        error_len = Some(1);
    }
    Utf8Fault { valid_up_to: i, error_len }
}

/// Decodes `bytes` as UTF-8. On success the returned text is exactly the
/// decoding of the bytes; on failure the fault reports the length of the
/// longest valid prefix and the length of the invalid byte run after it,
/// as the standard library does.
pub fn decode_bytes(bytes: &Vec<u8>) -> (r: Result<String, Utf8Fault>)
    ensures
        valid_utf8(bytes@) ==> (r matches Ok(s) && s@ == decode_utf8(bytes@)),
        !valid_utf8(bytes@) ==> (r matches Err(f) && f.valid_up_to == utf8_valid_up_to(bytes@)
            && f.error_len == utf8_error_len(
            bytes@.subrange(utf8_valid_up_to(bytes@), bytes@.len() as int),
        )),
{
    let n = bytes.len();
    let mut out = String::new();
    let mut i: usize = 0;
    proof {
        assert(bytes@.subrange(0, 0) =~= Seq::<u8>::empty());
        assert(bytes@.subrange(0, n as int) =~= bytes@);
    }
    while i < n
        invariant
            n == bytes@.len(),
            i <= n,
            partial_valid_utf8(bytes@, i as int),
            out@ == decode_utf8(bytes@.subrange(0, i as int)),
            utf8_valid_up_to(bytes@) == i + utf8_valid_up_to(bytes@.subrange(i as int, n as int)),
        decreases n - i,
    {
        let ghost suffix = bytes@.subrange(i as int, n as int);
        let b0 = bytes[i];
        assert(suffix[0] == b0);
        let step: usize;
        let scalar: u32;
        if b0 < 0x80 {
            proof {
                lemma_scalar_width_1(b0);
            }
            step = 1;
            scalar = b0 as u32;
        } else if 0xc2 <= b0 && b0 <= 0xdf {
            if i + 1 >= n || !(0x80 <= bytes[i + 1] && bytes[i + 1] <= 0xbf) {
                return Err(fault_at(bytes, i));
            }
            let b1 = bytes[i + 1];
            assert(suffix[1] == b1);
            proof {
                lemma_scalar_width_2(b0, b1);
            }
            step = 2;
            scalar = (((b0 & 0x1f) as u32) << 6) | ((b1 & 0x3f) as u32);
        } else if 0xe0 <= b0 && b0 <= 0xef {
            if i + 1 >= n || !second_byte_ok(b0, bytes[i + 1]) {
                proof {
                    if i + 1 < n && is_continuation_byte(suffix[1]) {
                        lemma_bad_second_width_3(suffix);
                    }
                }
                return Err(fault_at(bytes, i));
            }
            if i + 2 >= n || !(0x80 <= bytes[i + 2] && bytes[i + 2] <= 0xbf) {
                return Err(fault_at(bytes, i));
            }
            let b1 = bytes[i + 1];
            let b2 = bytes[i + 2];
            assert(suffix[1] == b1 && suffix[2] == b2);
            proof {
                lemma_scalar_width_3(b0, b1, b2);
            }
            step = 3;
            scalar = (((b0 & 0x0f) as u32) << 12) | (((b1 & 0x3f) as u32) << 6) | ((b2
                & 0x3f) as u32);
        } else if 0xf0 <= b0 && b0 <= 0xf4 {
            if i + 1 >= n || !second_byte_ok(b0, bytes[i + 1]) {
                proof {
                    if i + 1 < n && is_continuation_byte(suffix[1]) {
                        lemma_bad_second_width_4(suffix);
                    }
                }
                return Err(fault_at(bytes, i));
            }
            if i + 2 >= n || !(0x80 <= bytes[i + 2] && bytes[i + 2] <= 0xbf) {
                return Err(fault_at(bytes, i));
            }
            if i + 3 >= n || !(0x80 <= bytes[i + 3] && bytes[i + 3] <= 0xbf) {
                return Err(fault_at(bytes, i));
            }
            let b1 = bytes[i + 1];
            let b2 = bytes[i + 2];
            let b3 = bytes[i + 3];
            assert(suffix[1] == b1 && suffix[2] == b2 && suffix[3] == b3);
            proof {
                lemma_scalar_width_4(b0, b1, b2, b3);
            }
            step = 4;
            scalar = (((b0 & 0x07) as u32) << 18) | (((b1 & 0x3f) as u32) << 12) | (((b2
                & 0x3f) as u32) << 6) | ((b3 & 0x3f) as u32);
        } else {
            proof {
                lemma_bad_lead(suffix);
            }
            return Err(fault_at(bytes, i));
        }
        assert(valid_first_scalar(suffix));
        assert(length_of_first_scalar(suffix) == step);
        assert(decode_first_scalar(suffix) == scalar);
        assert(is_scalar(scalar));
        proof {
            lemma_decode_step(bytes@, i as int, step as int);
        }
        let c = char_from_u32(scalar);
        proof {
            char_u32_cast(c, scalar);
        }
        push_char(&mut out, c);
        assert(out@ =~= decode_utf8(bytes@.subrange(0, i + step)));
        i = i + step;
    }
    proof {
        assert(bytes@.subrange(0, n as int) =~= bytes@);
    }
    Ok(out)
}

} // verus!
