//! Text formats the tools hand to the model: timestamps and inline images.
use vstd::prelude::*;
use crate::memory::opt_view;
use crate::social_read::{decimal, push_decimal};
use crate::text::{append_str, owned, push_char};

verus! {

/// The RFC 3339 text chrono gives a UTC time `ts` seconds after the epoch,
/// when chrono can represent it.
pub uninterp spec fn rfc3339_text(ts: i64) -> Option<Seq<char>>;

/// `DateTime::from_timestamp(ts, 0).map(|dt| dt.to_rfc3339())` (chrono).
/// Claimed: the result is `rfc3339_text(ts)`, a function of `ts` alone; which
/// timestamps chrono can represent, and the text, are left to that name.
#[verifier::external_body]
fn rfc3339_of(ts: i64) -> (r: Option<String>)
    ensures
        opt_view(r) == rfc3339_text(ts),
{
    chrono::DateTime::from_timestamp(ts, 0).map(|dt| dt.to_rfc3339())
}

/// `ts.to_string()`.
pub open spec fn signed_decimal(n: int) -> Seq<char> {
    if n < 0 {
        "-"@ + decimal((-n) as nat)
    } else {
        decimal(n as nat)
    }
}

pub fn push_signed_decimal(out: &mut String, n: i64)
    ensures
        final(out)@ == old(out)@ + signed_decimal(n as int),
{
    if n < 0 {
        push_char(out, '-');
        let m: u64 = if n == i64::MIN {
            9223372036854775808u64
        } else {
            (-n) as u64
        };
        push_decimal(out, m);
        proof {
            reveal_strlit("-");
            assert(m as int == -(n as int));
            assert("-"@ =~= seq!['-']);
        }
        assert(old(out)@.push('-') + decimal(m as nat) =~= old(out)@ + signed_decimal(n as int));
    } else {
        push_decimal(out, n as u64);
    }
}

/// `format_timestamp`: the RFC 3339 time, else the plain number.
pub fn format_timestamp(ts: i64) -> (r: String)
    ensures
        r@ == match rfc3339_text(ts) {
            Some(t) => t,
            None => signed_decimal(ts as int),
        },
{
    match rfc3339_of(ts) {
        Some(t) => t,
        None => {
            let mut out = String::new();
            push_signed_decimal(&mut out, ts);
            assert(Seq::<char>::empty() + signed_decimal(ts as int) =~= signed_decimal(ts as int));
            out
        },
    }
}

/// The character of a six-bit value in the standard base64 alphabet.
pub open spec fn b64_char(v: int) -> char {
    if v < 26 {
        (65 + v) as char
    } else if v < 52 {
        (97 + v - 26) as char
    } else if v < 62 {
        (48 + v - 52) as char
    } else if v == 62 {
        '+'
    } else {
        '/'
    }
}

/// Standard base64 with padding: every three bytes become four characters;
/// a last group of one or two bytes is padded with `=` to four.
pub open spec fn base64_text(b: Seq<u8>) -> Seq<char>
    decreases b.len(),
{
    if b.len() == 0 {
        Seq::empty()
    } else {
        let x = b[0] as int;
        let y = if b.len() > 1 { b[1] as int } else { 0 };
        let z = if b.len() > 2 { b[2] as int } else { 0 };
        if b.len() == 1 {
            seq![b64_char(x / 4), b64_char((x % 4) * 16), '=', '=']
        } else if b.len() == 2 {
            seq![b64_char(x / 4), b64_char((x % 4) * 16 + y / 16), b64_char((y % 16) * 4), '=']
        } else {
            seq![b64_char(x / 4), b64_char((x % 4) * 16 + y / 16), b64_char((y % 16) * 4 + z / 64), b64_char(z % 64)]
                + base64_text(b.skip(3))
        }
    }
}

/// Four characters for every started group of three bytes.
pub proof fn lemma_base64_length(b: Seq<u8>)
    ensures
        base64_text(b).len() == 4 * ((b.len() + 2) / 3),
    decreases b.len(),
{
    if b.len() > 2 {
        lemma_base64_length(b.skip(3));
    }
}

/// `general_purpose::STANDARD.encode(bytes)` (base64). Claimed: the result is
/// the standard padded base64 text of the bytes (`base64_text`), four
/// characters for every started group of three bytes. The crate panics when
/// that length overflows `usize`; the `requires` keeps far from it.
#[verifier::external_body]
fn base64_standard(bytes: &[u8]) -> (r: String)
    requires
        bytes@.len() <= usize::MAX / 2,
    ensures
        r@ == base64_text(bytes@),
{
    base64::Engine::encode(&base64::engine::general_purpose::STANDARD, bytes)
}

/// The inline image URL a stored picture is shown to the model with.
pub fn inline_image_url(mime: &str, bytes: &[u8]) -> (r: String)
    requires
        bytes@.len() <= usize::MAX / 2,
    ensures
        r@ == "data:"@ + mime@ + ";base64,"@ + base64_text(bytes@),
{
    let mut out = owned("data:");
    append_str(&mut out, mime);
    append_str(&mut out, ";base64,");
    let encoded = base64_standard(bytes);
    append_str(&mut out, encoded.as_str());
    out
}

} // verus!
