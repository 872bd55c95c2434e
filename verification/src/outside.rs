//! What the library takes from other crates and from the parts of std without a specification.
//! Nothing in this file is proved: each contract states what the called code is known to do.
use vstd::prelude::*;
use vstd::utf8::{encode_utf8, valid_utf8};

use httparse::{Error, Request, Status, EMPTY_HEADER};

use crate::http::{heads_stand_alone, outcome_of, reads_plain_requests};
use crate::http::{ParseError, ParsedModel, ParsedRequest};

verus! {

/// The error of `String::from_utf8`, which is only passed on.
#[verifier::external_type_specification]
#[verifier::external_body]
pub struct ExFromUtf8Error(std::string::FromUtf8Error);

/// `String::from_utf8` takes bytes that are valid UTF-8, and no others, for the text that they
/// encode.
pub assume_specification[ String::from_utf8 ](vec: Vec<u8>) -> (text: Result<
    String,
    std::string::FromUtf8Error,
>)
    ensures
        text is Ok <==> valid_utf8(vec@),
        text matches Ok(text) ==> encode_utf8(text@) == vec@,
;

/// The SHA-1 digest of `data`.
pub uninterp spec fn sha1_digest(data: Seq<u8>) -> Seq<u8>;

/// `openssl::sha::sha1` computes the SHA-1 digest, twenty bytes, of the data it is given. It rests
/// on an OpenSSL that provides SHA-1, as the vendored build does.
pub assume_specification[ openssl::sha::sha1 ](data: &[u8]) -> (digest: [u8; 20])
    ensures
        digest@ == sha1_digest(data@),
;

/// The character of the standard base64 alphabet for the six-bit number `v`.
pub open spec fn base64_char(v: int) -> char {
    if v < 26 {
        ('A' as int + v) as char
    } else if v < 52 {
        ('a' as int + v - 26) as char
    } else if v < 62 {
        ('0' as int + v - 52) as char
    } else if v == 62 {
        '+'
    } else {
        '/'
    }
}

/// The `k`-th group of six bits of `data`, with zero bits after its end.
pub open spec fn base64_group(data: Seq<u8>, k: int) -> int {
    let i = k * 3 / 4;
    let this = data[i] as int;
    let next = if i + 1 < data.len() {
        data[i + 1] as int
    } else {
        0
    };
    if k % 4 == 0 {
        this / 4
    } else if k % 4 == 1 {
        this % 4 * 16 + next / 16
    } else if k % 4 == 2 {
        this % 16 * 4 + next / 64
    } else {
        this % 64
    }
}

/// `data` in standard base64: one character for each six bits, filled up with `=` to a multiple
/// of four.
pub open spec fn base64_text(data: Seq<u8>) -> Seq<char> {
    Seq::new(
        (data.len() + 2) / 3 * 4,
        |k: int|
            if 3 * k < 4 * data.len() {
                base64_char(base64_group(data, k))
            } else {
                '='
            },
    )
}

/// `rustc_serialize::base64::ToBase64::to_base64` on bytes, with the configuration `STANDARD`,
/// gives the standard base64 text, padded and in one line. The text has to fit in memory.
#[verifier::external_body]
pub(crate) fn to_base64(data: &[u8]) -> (text: String)
    requires
        (data@.len() + 2) / 3 * 4 <= isize::MAX,
    ensures
        text@ == base64_text(data@),
{
    rustc_serialize::base64::ToBase64::to_base64(data, rustc_serialize::base64::STANDARD)
}

/// What `httparse::Request::parse` makes of `buf` with room for `limit` headers.
pub uninterp spec fn httparse_outcome(buf: Seq<u8>, limit: usize) -> Result<
    Option<ParsedModel>,
    ParseError,
>;

/// `httparse::Request::parse` reads a request's head, with a table of `limit` empty headers to
/// fill. What it makes of the bytes is fixed by them and by `limit`. A head that it has read whole
/// has a method and a path, and takes no more bytes than there are. Where the bytes start with a
/// plain request whose headers fit in the table, it gives the parts of that request back, and how
/// many bytes it takes; where they are only the beginning of one, it asks for more. Where they
/// start with a plain request that has more headers than fit, it says that these are too many. It
/// reads from front to back and looks at nothing behind the head, so that any bytes with the same
/// head have the same outcome, and a part of a head that it reads whole makes it ask for more. Of
/// other bytes nothing more is stated. The table has to fit in memory.
#[verifier::external_body]
pub(crate) fn httparse_request(buf: &[u8], limit: usize) -> (outcome: Result<
    Option<ParsedRequest>,
    ParseError,
>)
    requires
        limit <= 65536,
    ensures
        outcome_of(outcome) == httparse_outcome(buf@, limit),
        outcome matches Ok(Some(parsed)) ==> parsed.method is Some && parsed.path is Some,
        outcome matches Ok(Some(parsed)) ==> parsed.consumed <= buf@.len(),
        reads_plain_requests(buf@, limit, outcome_of(outcome)),
        heads_stand_alone(buf@, limit, outcome_of(outcome)),
{
    let mut table = vec![EMPTY_HEADER; limit];
    let mut request = Request::new(&mut table);
    match request.parse(buf) {
        Ok(Status::Complete(consumed)) => Ok(Some(ParsedRequest {
            consumed, method: request.method.map(String::from), path: request.path.map(String::from),
            headers: request.headers.iter().map(|h| (h.name.into(), h.value.into())).collect(),
        })),
        Ok(Status::Partial) => Ok(None),
        Err(e) => Err(match e {
            Error::HeaderName => ParseError::HeaderName, Error::Token => ParseError::Token,
            Error::HeaderValue => ParseError::HeaderValue, Error::Status => ParseError::Status,
            Error::NewLine => ParseError::NewLine, Error::Version => ParseError::Version,
            Error::TooManyHeaders => ParseError::TooManyHeaders
        }),
    }
}

} // verus!
