//! Messages of the PostgreSQL wire protocol: a tag byte, a big-endian length
//! that counts itself and the body, and the body.
use vstd::prelude::*;

verus! {

/// Tag of an ErrorResponse message.
pub const TAG_ERROR: u8 = 0x45;

/// Tag of a ReadyForQuery message.
pub const TAG_READY: u8 = 0x5a;

/// Tag of a simple Query message.
pub const TAG_QUERY: u8 = 0x51;

/// Tag of an Authentication message.
pub const TAG_AUTHENTICATION: u8 = 0x52;

/// The low 32 bits of `n`, most significant byte first.
pub open spec fn be32(n: nat) -> Seq<u8> {
    seq![
        (n / 0x1000000 % 256) as u8,
        (n / 0x10000 % 256) as u8,
        (n / 0x100 % 256) as u8,
        (n % 256) as u8,
    ]
}

/// The number that four bytes write, most significant first.
pub open spec fn be32_value(b0: u8, b1: u8, b2: u8, b3: u8) -> int {
    b0 * 0x1000000 + b1 * 0x10000 + b2 * 0x100 + b3
}

/// A whole message.
pub open spec fn message(tag: u8, body: Seq<u8>) -> Seq<u8> {
    seq![tag] + be32(body.len() + 4) + body
}

/// The UTF-8 bytes of a text.
pub open spec fn utf8(s: Seq<char>) -> Seq<u8> {
    vstd::utf8::encode_utf8(s)
}

/// One field of an ErrorResponse: its type, its text and a zero byte.
pub open spec fn error_field(kind: u8, value: Seq<char>) -> Seq<u8> {
    seq![kind] + utf8(value) + seq![0u8]
}

/// The body of an ErrorResponse: severity, SQLSTATE, message and, where there
/// is one, a hint; a zero byte ends it.
pub open spec fn error_body(
    severity: Seq<char>,
    code: Seq<char>,
    text: Seq<char>,
    hint: Option<Seq<char>>,
) -> Seq<u8> {
    let required = error_field(0x53, severity) + error_field(0x43, code) + error_field(0x4d, text);
    let all = match hint {
        Some(h) => required + error_field(0x48, h),
        None => required,
    };
    all + seq![0u8]
}

/// A whole ErrorResponse.
pub open spec fn error_response(
    severity: Seq<char>,
    code: Seq<char>,
    text: Seq<char>,
    hint: Option<Seq<char>>,
) -> Seq<u8> {
    message(TAG_ERROR, error_body(severity, code, text, hint))
}

/// The number that the four bytes of `data` from `at` write.
pub open spec fn be32_at(data: Seq<u8>, at: int) -> int {
    be32_value(data[at], data[at + 1], data[at + 2], data[at + 3])
}

/// The number that the four bytes from `at` write.
pub fn read_be32(data: &[u8], at: usize) -> (r: u32)
    requires
        at + 4 <= data@.len(),
    ensures
        r == be32_at(data@, at as int),
{
    let b0: u32 = data[at] as u32;
    let b1: u32 = data[at + 1] as u32;
    let b2: u32 = data[at + 2] as u32;
    let b3: u32 = data[at + 3] as u32;
    b0 * 0x1000000 + b1 * 0x10000 + b2 * 0x100 + b3
}

/// Append the low 32 bits of `n`.
fn push_be32(out: &mut Vec<u8>, n: u128)
    ensures
        final(out)@ == old(out)@ + be32(n as nat),
{
    out.push((n / 0x1000000 % 256) as u8);
    out.push((n / 0x10000 % 256) as u8);
    out.push((n / 0x100 % 256) as u8);
    out.push((n % 256) as u8);
    assert(out@ =~= old(out)@ + be32(n as nat));
}

/// Build a message.
pub fn build_message(tag: u8, body: &[u8]) -> (r: Vec<u8>)
    ensures
        r@ == message(tag, body@),
{
    let mut out: Vec<u8> = Vec::new();
    out.push(tag);
    push_be32(&mut out, body.len() as u128 + 4);
    out.extend_from_slice(body);
    assert(out@ =~= message(tag, body@));
    out
}

/// Append one field of an ErrorResponse.
fn push_error_field(out: &mut Vec<u8>, kind: u8, value: &str)
    ensures
        final(out)@ == old(out)@ + error_field(kind, value@),
{
    out.push(kind);
    out.extend_from_slice(value.as_bytes());
    out.push(0);
    assert(out@ =~= old(out)@ + error_field(kind, value@));
}

/// Build an ErrorResponse.
pub fn build_error(severity: &str, code: &str, text: &str, hint: Option<&str>) -> (r: Vec<u8>)
    ensures
        r@ == error_response(
            severity@,
            code@,
            text@,
            match hint {
                Some(h) => Some(h@),
                None => None,
            },
        ),
{
    let mut body: Vec<u8> = Vec::new();
    push_error_field(&mut body, 0x53, severity);
    push_error_field(&mut body, 0x43, code);
    push_error_field(&mut body, 0x4d, text);
    if let Some(h) = hint {
        push_error_field(&mut body, 0x48, h);
    }
    body.push(0);
    let ghost h: Option<Seq<char>> = match hint {
        Some(h) => Some(h@),
        None => None,
    };
    assert(body@ =~= error_body(severity@, code@, text@, h));
    build_message(TAG_ERROR, body.as_slice())
}

/// What four bytes write reads back as what was written.
pub proof fn lemma_be32_round_trip(n: nat)
    requires
        n < 0x1_0000_0000,
    ensures
        be32(n).len() == 4,
        be32_at(be32(n), 0) == n,
{
    let b = be32(n);
    assert(n / 0x1000000 % 256 == n / 0x1000000);
    assert(n / 0x10000 == (n / 0x1000000) * 256 + n / 0x10000 % 256);
    assert(n / 0x100 == (n / 0x10000) * 256 + n / 0x100 % 256);
    assert(n == (n / 0x100) * 256 + n % 256);
}

/// The length in a message counts everything but the tag.
pub proof fn lemma_message_length(tag: u8, body: Seq<u8>)
    requires
        body.len() + 4 < 0x1_0000_0000,
    ensures
        message(tag, body)[0] == tag,
        message(tag, body).len() >= 5,
        be32_at(message(tag, body), 1) == message(tag, body).len() - 1,
        message(tag, body).subrange(5, message(tag, body).len() as int) == body,
{
    lemma_be32_round_trip(body.len() + 4);
    let m = message(tag, body);
    let b = be32(body.len() + 4);
    assert(m[1] == b[0] && m[2] == b[1] && m[3] == b[2] && m[4] == b[3]);
    assert(m.subrange(5, m.len() as int) =~= body);
}

/// A message is its tag, its length with the four bytes that write it, and its
/// body.
pub proof fn law_message_says_its_length(tag: u8, body: Seq<u8>)
    requires
        body.len() + 4 < 0x1_0000_0000,
    ensures
        message(tag, body).len() == body.len() + 5,
        message(tag, body)[0] == tag,
        be32_at(message(tag, body), 1) == body.len() + 4,
        message(tag, body).skip(5) == body,
{
    lemma_message_length(tag, body);
    assert(message(tag, body).skip(5) =~= body);
}

/// An error response names the severity, the code and the message, and the hint
/// where there is one, each behind its letter and ended by a zero byte; another
/// zero byte ends the list.
pub proof fn law_error_names_its_fields(
    severity: Seq<char>,
    code: Seq<char>,
    text: Seq<char>,
    hint: Seq<char>,
)
    ensures
        error_response(severity, code, text, None) == message(
            TAG_ERROR,
            seq![0x53u8] + utf8(severity) + seq![0u8, 0x43u8] + utf8(code) + seq![0u8, 0x4du8]
                + utf8(text) + seq![0u8, 0u8],
        ),
        error_response(severity, code, text, Some(hint)) == message(
            TAG_ERROR,
            seq![0x53u8] + utf8(severity) + seq![0u8, 0x43u8] + utf8(code) + seq![0u8, 0x4du8]
                + utf8(text) + seq![0u8, 0x48u8] + utf8(hint) + seq![0u8, 0u8],
        ),
{
    assert(error_body(severity, code, text, None) =~= seq![0x53u8] + utf8(severity) + seq![
        0u8,
        0x43u8,
    ] + utf8(code) + seq![0u8, 0x4du8] + utf8(text) + seq![0u8, 0u8]);
    assert(error_body(severity, code, text, Some(hint)) =~= seq![0x53u8] + utf8(severity) + seq![
        0u8,
        0x43u8,
    ] + utf8(code) + seq![0u8, 0x4du8] + utf8(text) + seq![0u8, 0x48u8] + utf8(hint) + seq![
        0u8,
        0u8,
    ]);
}

} // verus!
