use vstd::prelude::*;
use crate::error::Error;
use minisign_verify::{PublicKey, Signature};

verus! {

/// The bytes that standard base64 decoding gives for a text, if it is valid base64.
pub uninterp spec fn base64_decoded(s: Seq<char>) -> Option<Seq<u8>>;

/// The text that a byte string spells, if it is valid UTF-8.
pub uninterp spec fn utf8_text(b: Seq<u8>) -> Option<Seq<char>>;

/// Whether `minisign_verify::PublicKey::decode` accepts a text.
pub uninterp spec fn public_key_decodes(text: Seq<char>) -> bool;

/// Whether `minisign_verify::Signature::decode` accepts a text.
pub uninterp spec fn signature_decodes(text: Seq<char>) -> bool;

/// Whether the minisign signature `sig_text` matches `data` under the public
/// key `key_text` (both decodable).
pub uninterp spec fn minisign_accepts(key_text: Seq<char>, sig_text: Seq<char>, data: Seq<u8>) -> bool;

/// Relies on `base64::decode` (standard alphabet): the bytes depend on the text alone.
#[verifier::external_body]
fn decode_base64(s: &str) -> (r: Option<Vec<u8>>)
    ensures
        r is Some <==> base64_decoded(s@) is Some,
        r matches Some(v) ==> base64_decoded(s@) == Some(v@),
{
    base64::decode(s).ok()
}

/// Relies on `String::from_utf8`: it succeeds exactly on valid UTF-8, and the
/// text depends on the bytes alone.
#[verifier::external_body]
fn utf8_string(b: Vec<u8>) -> (r: Option<String>)
    ensures
        r is Some <==> utf8_text(b@) is Some,
        r matches Some(s) ==> utf8_text(b@) == Some(s@),
{
    String::from_utf8(b).ok()
}

/// How a minisign check ended.
pub enum MinisignOutcome {
    KeyUnreadable,
    SignatureUnreadable,
    Mismatch,
    Match,
}

/// Characters of the standard base64 alphabet, without padding.
pub open spec fn is_b64_char(c: char) -> bool {
    ('A' <= c && c <= 'Z') || ('a' <= c && c <= 'z') || ('0' <= c && c <= '9') || c == '+'
        || c == '/'
}

/// Position `p` of `t` ends a line: the end of the text, a `\n`, or a `\r`
/// that ends the text or precedes a `\n`.
pub open spec fn line_end_at(t: Seq<char>, p: int) -> bool {
    p == t.len() || (0 <= p < t.len() && (t[p] == '\n' || (t[p] == '\r' && (p + 1 == t.len()
        || (p + 1 < t.len() && t[p + 1] == '\n')))))
}

/// The line of `t` starting at `s` holds `k` base64 characters, `k` leaving a
/// remainder of 2 by 4, then a single `=` that ends the line: padding that needs
/// two `=` is cut short by the end of the line.
pub open spec fn short_padding(t: Seq<char>, s: int, k: int) -> bool {
    &&& 0 <= s
    &&& 0 <= k
    &&& s + k < t.len()
    &&& (s == 0 || t[s - 1] == '\n')
    &&& k % 4 == 2
    &&& forall|j: int| s <= j < s + k ==> is_b64_char(#[trigger] t[j])
    &&& t[s + k] == '='
    &&& line_end_at(t, s + k + 1)
}

/// Some line of `t` has its base64 padding cut short. minisign's base64
/// decoder reads one byte past such a line and panics.
pub open spec fn has_short_padding(t: Seq<char>) -> bool {
    exists|s: int, k: int| short_padding(t, s, k)
}

/// Relies on `minisign_verify::PublicKey::decode`, `Signature::decode` and
/// `PublicKey::verify`: whether each text decodes depends on that text alone,
/// and whether the signature matches depends on the two texts and the data.
/// The decoders panic on a line whose base64 padding is cut short, which the
/// `requires` rules out.
#[verifier::external_body]
fn minisign_check(key_text: &str, sig_text: &str, data: &[u8]) -> (r: MinisignOutcome)
    requires
        !has_short_padding(key_text@),
        !has_short_padding(sig_text@),
    ensures
        (r is KeyUnreadable) == !public_key_decodes(key_text@),
        (r is SignatureUnreadable) == (public_key_decodes(key_text@) && !signature_decodes(
            sig_text@,
        )),
        (r is Match) == (public_key_decodes(key_text@) && signature_decodes(sig_text@)
            && minisign_accepts(key_text@, sig_text@, data@)),
{
    let key = match PublicKey::decode(key_text) {
        Ok(k) => k,
        Err(_) => return MinisignOutcome::KeyUnreadable,
    };
    let sig = match Signature::decode(sig_text) {
        Ok(s) => s,
        Err(_) => return MinisignOutcome::SignatureUnreadable,
    };
    match key.verify(data, &sig) {
        Ok(()) => MinisignOutcome::Match,
        Err(_) => MinisignOutcome::Mismatch,
    }
}

fn is_b64_exec(c: char) -> (r: bool)
    ensures
        r == is_b64_char(c),
{
    ('A' <= c && c <= 'Z') || ('a' <= c && c <= 'z') || ('0' <= c && c <= '9') || c == '+'
        || c == '/'
}

/// Whether some line of `t` has its base64 padding cut short.
pub fn short_padding_exec(t: &str) -> (r: bool)
    ensures
        r == has_short_padding(t@),
{
    let n = t.unicode_len();
    let mut i: usize = 0;
    let mut start: usize = 0;
    let mut run_ok = true;
    while i < n
        invariant
            n == t@.len(),
            start <= i <= n,
            start == 0 || t@[start - 1] == '\n',
            forall|j: int| start <= j < i ==> #[trigger] t@[j] != '\n',
            run_ok == forall|j: int| start <= j < i ==> is_b64_char(#[trigger] t@[j]),
            forall|s: int, k: int| short_padding(t@, s, k) ==> s + k >= i,
        decreases n - i,
    {
        let c = t.get_char(i);
        if c == '=' && run_ok && (i - start) % 4 == 2 {
            let ends = i + 1 == n || {
                let d = t.get_char(i + 1);
                d == '\n' || (d == '\r' && (i + 2 == n || t.get_char(i + 2) == '\n'))
            };
            if ends {
                proof {
                    assert(short_padding(t@, start as int, (i - start) as int));
                }
                return true;
            }
        }
        proof {
            assert forall|s: int, k: int| short_padding(t@, s, k) implies s + k >= i + 1 by {
                if s + k == i {
                    if s < start {
                        assert(is_b64_char(t@[start - 1]));
                    } else if s > start {
                        assert(t@[s - 1] != '\n');
                    }
                    assert(s == start);
                }
            }
        }
        if c == '\n' {
            start = i + 1;
            run_ok = true;
        } else if !is_b64_exec(c) {
            run_ok = false;
        }
        i = i + 1;
    }
    false
}

/// The text inside a base64-wrapped minisign key or signature.
pub open spec fn unwrapped_text(s: Seq<char>) -> Option<Seq<char>> {
    match base64_decoded(s) {
        Some(b) => utf8_text(b),
        None => None,
    }
}

/// A base64-wrapped public key that decodes.
pub open spec fn key_readable(k: Seq<char>) -> bool {
    &&& unwrapped_text(k) is Some
    &&& !has_short_padding(unwrapped_text(k)->0)
    &&& public_key_decodes(unwrapped_text(k)->0)
}

/// A base64-wrapped signature that decodes.
pub open spec fn signature_readable(s: Seq<char>) -> bool {
    &&& unwrapped_text(s) is Some
    &&& !has_short_padding(unwrapped_text(s)->0)
    &&& signature_decodes(unwrapped_text(s)->0)
}

/// Decodes base64 and reads the bytes as UTF-8.
pub fn base64_to_string(s: &str) -> (r: Option<String>)
    ensures
        opt_text(r) == unwrapped_text(s@),
{
    match decode_base64(s) {
        Some(b) => utf8_string(b),
        None => None,
    }
}

pub open spec fn opt_text(o: Option<String>) -> Option<Seq<char>> {
    match o {
        Some(s) => Some(s@),
        None => None,
    }
}

/// Checks a base64-wrapped minisign signature of `data` against a
/// base64-wrapped minisign public key: `true` exactly when both decode and the
/// signature matches; every other outcome is a security error.
pub fn verify_signature(data: &[u8], release_signature: &str, pub_key: &str) -> (r: Result<
    bool,
    Error,
>)
    ensures
        r matches Ok(true) <==> key_readable(pub_key@) && signature_readable(release_signature@)
            && minisign_accepts(
            unwrapped_text(pub_key@)->0,
            unwrapped_text(release_signature@)->0,
            data@,
        ),
        r matches Ok(b) ==> b,
        r is Err ==> r matches Err(Error::Security(_)),
{
    let key_text = match base64_to_string(pub_key) {
        Some(t) => t,
        None => {
            return Err(Error::Security("public key is not base64-wrapped text".to_owned()));
        },
    };
    let sig_text = match base64_to_string(release_signature) {
        Some(t) => t,
        None => {
            return Err(Error::Security("signature is not base64-wrapped text".to_owned()));
        },
    };
    if short_padding_exec(key_text.as_str()) {
        return Err(Error::Security("public key has malformed base64 padding".to_owned()));
    }
    if short_padding_exec(sig_text.as_str()) {
        return Err(Error::Security("signature has malformed base64 padding".to_owned()));
    }
    match minisign_check(key_text.as_str(), sig_text.as_str(), data) {
        MinisignOutcome::Match => Ok(true),
        MinisignOutcome::KeyUnreadable => Err(Error::Security("public key does not decode".to_owned())),
        MinisignOutcome::SignatureUnreadable => Err(
            Error::Security("signature does not decode".to_owned()),
        ),
        MinisignOutcome::Mismatch => Err(
            Error::Security("signature does not match the archive".to_owned()),
        ),
    }
}

} // verus!
