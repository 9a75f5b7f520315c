//! The router: from a request method and a raw request path to the
//! operation the service performs, with the file name taken out of the
//! path, percent-decoded and read as text.

use vstd::prelude::*;
use vstd::utf8::{decode_utf8, valid_utf8};
use crate::text::decode_bytes;

verus! {

/// The request methods the service distinguishes.
pub enum Method {
    Get,
    Post,
    /// Any method other than the two the routes serve.
    Other,
}

/// What the router decides for a request.
pub enum RouteDecision {
    /// The root path under a read: serve the fixed greeting.
    Greeting,
    /// A file path under a read: send the named file's contents.
    Download(String),
    /// A file path under a write: store the request body in the named file.
    Upload(String),
    /// A file path whose decoded name segment is not valid text.
    BadName,
    /// A path the service knows, under a method that it does not serve there.
    MethodNotAllowed,
    /// A path no route matches.
    NotFound,
}

/// True when `b` is an ASCII hexadecimal digit, in either case.
pub open spec fn is_hex_byte(b: u8) -> bool {
    (0x30 <= b && b <= 0x39) || (0x41 <= b && b <= 0x46) || (0x61 <= b && b <= 0x66)
}

/// The value of an ASCII hexadecimal digit.
pub open spec fn hex_byte_val(b: u8) -> u8
    recommends
        is_hex_byte(b),
{
    if 0x30 <= b && b <= 0x39 {
        (b - 0x30) as u8
    } else if 0x41 <= b && b <= 0x46 {
        (b - 0x37) as u8
    } else {
        (b - 0x57) as u8
    }
}

/// Percent-decoding of one path segment: a percent sign followed by two
/// hexadecimal digits becomes that byte; every other byte, a stray
/// percent sign included, stands unchanged.
pub open spec fn percent_decode_rep(s: Seq<u8>) -> Seq<u8>
    decreases s.len(),
{
    if s.len() == 0 {
        Seq::empty()
    } else if s[0] == 0x25 && s.len() >= 3 && is_hex_byte(s[1]) && is_hex_byte(s[2]) {
        seq![(hex_byte_val(s[1]) * 16 + hex_byte_val(s[2])) as u8] + percent_decode_rep(
            s.subrange(3, s.len() as int),
        )
    } else {
        seq![s[0]] + percent_decode_rep(s.subrange(1, s.len() as int))
    }
}

/// True when the path is exactly the root path.
pub open spec fn is_root_path(p: Seq<u8>) -> bool {
    p.len() == 1 && p[0] == 0x2f
}

/// True when the path names a file: the file prefix followed by one
/// non-empty segment with no further path separator in it.
pub open spec fn is_file_path(p: Seq<u8>) -> bool {
    &&& p.len() > 6
    &&& p[0] == 0x2f
    &&& p[1] == 0x66
    &&& p[2] == 0x69
    &&& p[3] == 0x6c
    &&& p[4] == 0x65
    &&& p[5] == 0x2f
    &&& forall|j: int| 6 <= j < p.len() ==> p[j] != 0x2f
}

/// The raw name segment of a file path.
pub open spec fn file_name_segment(p: Seq<u8>) -> Seq<u8> {
    p.subrange(6, p.len() as int)
}

/// Executable twin of [`is_hex_byte`].
fn hex_byte(b: u8) -> (r: bool)
    ensures
        r == is_hex_byte(b),
{
    (0x30 <= b && b <= 0x39) || (0x41 <= b && b <= 0x46) || (0x61 <= b && b <= 0x66)
}

/// Executable twin of [`hex_byte_val`].
fn hex_val(b: u8) -> (v: u8)
    requires
        is_hex_byte(b),
    ensures
        v == hex_byte_val(b),
        v < 16,
{
    if 0x30 <= b && b <= 0x39 {
        b - 0x30
    } else if 0x41 <= b && b <= 0x46 {
        b - 0x37
    } else {
        b - 0x57
    }
}

/// Percent-decodes one path segment, as the route extraction of the
/// served paths does before the name is used.
pub fn percent_decode(s: &Vec<u8>) -> (r: Vec<u8>)
    ensures
        r@ == percent_decode_rep(s@),
{
    let n = s.len();
    let mut out: Vec<u8> = Vec::new();
    let mut i: usize = 0;
    proof {
        assert(s@.subrange(0, n as int) =~= s@);
        assert(out@ + percent_decode_rep(s@) =~= percent_decode_rep(s@));
    }
    while i < n
        invariant
            n == s@.len(),
            i <= n,
            percent_decode_rep(s@) == out@ + percent_decode_rep(s@.subrange(i as int, n as int)),
        decreases n - i,
    {
        let ghost rest = s@.subrange(i as int, n as int);
        assert(rest[0] == s@[i as int]);
        if s[i] == 0x25 && n - i >= 3 && hex_byte(s[i + 1]) && hex_byte(s[i + 2]) {
            assert(rest[1] == s@[i + 1] && rest[2] == s@[i + 2]);
            let v = hex_val(s[i + 1]) * 16 + hex_val(s[i + 2]);
            out.push(v);
            proof {
                assert(rest.subrange(3, rest.len() as int) =~= s@.subrange(i + 3, n as int));
                assert(out@ =~= (out@.drop_last()) + seq![v]);
            }
            i = i + 3;
        } else {
            let b = s[i];
            out.push(b);
            proof {
                assert(rest.subrange(1, rest.len() as int) =~= s@.subrange(i + 1, n as int));
                assert(out@ =~= (out@.drop_last()) + seq![b]);
            }
            i = i + 1;
        }
    }
    proof {
        assert(s@.subrange(n as int, n as int) =~= Seq::<u8>::empty());
        assert(out@ + percent_decode_rep(Seq::<u8>::empty()) =~= out@);
    }
    out
}

/// Decides what a request is asking for. The root path serves the
/// greeting under a read; a file path serves a download under a read and
/// an upload under a write, with the name segment percent-decoded and
/// then read as text; everything else is unmatched, and a known path
/// under another method is refused as such.
pub fn route(method: Method, path: &Vec<u8>) -> (r: RouteDecision)
    ensures
        is_root_path(path@) ==> (match method {
            Method::Get => r is Greeting,
            _ => r is MethodNotAllowed,
        }),
        is_file_path(path@) ==> (match method {
            Method::Get => (if valid_utf8(percent_decode_rep(file_name_segment(path@))) {
                r matches RouteDecision::Download(name) && name@ == decode_utf8(
                    percent_decode_rep(file_name_segment(path@)),
                )
            } else {
                r is BadName
            }),
            Method::Post => (if valid_utf8(percent_decode_rep(file_name_segment(path@))) {
                r matches RouteDecision::Upload(name) && name@ == decode_utf8(
                    percent_decode_rep(file_name_segment(path@)),
                )
            } else {
                r is BadName
            }),
            Method::Other => r is MethodNotAllowed,
        }),
        !is_root_path(path@) && !is_file_path(path@) ==> r is NotFound,
{
    let n = path.len();
    if n == 1 && path[0] == 0x2f {
        return match method {
            Method::Get => RouteDecision::Greeting,
            _ => RouteDecision::MethodNotAllowed,
        };
    }
    if n > 6 && path[0] == 0x2f && path[1] == 0x66 && path[2] == 0x69 && path[3] == 0x6c && path[4]
        == 0x65 && path[5] == 0x2f {
        // The rest of the path must be a single segment.
        let mut j: usize = 6;
        while j < n
            invariant
                n == path@.len(),
                6 <= j <= n,
                forall|t: int| 6 <= t < j ==> path@[t] != 0x2f,
            decreases n - j,
        {
            if path[j] == 0x2f {
                return RouteDecision::NotFound;
            }
            j = j + 1;
        }
        let mut raw: Vec<u8> = Vec::new();
        let mut k: usize = 6;
        proof {
            assert(path@.subrange(6, 6) =~= Seq::<u8>::empty());
        }
        while k < n
            invariant
                n == path@.len(),
                6 <= k <= n,
                raw@ == path@.subrange(6, k as int),
            decreases n - k,
        {
            raw.push(path[k]);
            proof {
                assert(path@.subrange(6, k + 1) =~= path@.subrange(6, k as int).push(
                    path@[k as int],
                ));
            }
            k = k + 1;
        }
        assert(raw@ == file_name_segment(path@));
        let decoded = percent_decode(&raw);
        match decode_bytes(&decoded) {
            Ok(name) => match method {
                Method::Get => RouteDecision::Download(name),
                Method::Post => RouteDecision::Upload(name),
                Method::Other => RouteDecision::MethodNotAllowed,
            },
            Err(_) => match method {
                Method::Get => RouteDecision::BadName,
                Method::Post => RouteDecision::BadName,
                Method::Other => RouteDecision::MethodNotAllowed,
            },
        }
    } else {
        RouteDecision::NotFound
    }
}

} // verus!
