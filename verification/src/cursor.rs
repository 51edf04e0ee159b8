//! Keyset paging, and the signature that binds a cursor to one scope and one
//! filter.
//!
//! A cursor names the last row a page ended on: its `created` and its id.
//! The wire form is the position (a version byte, the timestamp big-endian,
//! the id) followed by an HMAC-SHA-256 over a domain string, the position,
//! the scope id and the filter digest, all base64url without padding. The
//! scope and the filter are covered but not carried, so a cursor presented
//! under another pair fails verification rather than being re-read.

use vstd::prelude::*;
use vstd::utf8::encode_utf8;

use crate::digest::sha256;
use crate::error::Error;
use crate::memory_repo::{spec_filter_digest, MemoryFilter};
use crate::scope::ScopeId;
use crate::text::{cat, extend_bytes};
use crate::types::MemoryId;

use base64::Engine as _;

verus! {

/// The bytes of a cursor's position: a version, a timestamp, and an id.
pub const POSITION_BYTES: usize = 25;

/// SHA-256's output, which is the MAC's width.
pub const MAC_BYTES: usize = 32;

/// The wire format's version byte.
pub const VERSION: u8 = 1;

/// What the MAC covers besides the position, so a cursor signed for this
/// purpose cannot be replayed into another that shares the key.
pub const DOMAIN: &'static str = "aicortex:012:keyset-cursor:v1";

/// What `ring` computes as the HMAC-SHA-256 tag of `message` under the key
/// made from `secret`.
pub uninterp spec fn spec_hmac(secret: Seq<u8>, message: Seq<u8>) -> Seq<u8>;

/// HMAC-SHA-256 (`ring::hmac::sign` under `ring::hmac::Key::new(HMAC_SHA256, secret)`):
/// the 32-byte tag as `ring` computes it.
#[verifier::external_body]
pub(crate) fn hmac_sign(secret: &[u8], message: &[u8]) -> (tag: Vec<u8>)
    ensures
        tag@ == spec_hmac(secret@, message@),
        tag@.len() == 32,
{
    let key = ring::hmac::Key::new(ring::hmac::HMAC_SHA256, secret);
    ring::hmac::sign(&key, message).as_ref().to_vec()
}

/// `ring::hmac::verify` under the key made from `secret`: true exactly when
/// `tag` is the HMAC-SHA-256 tag of `message`.
#[verifier::external_body]
fn hmac_verify(secret: &[u8], message: &[u8], tag: &[u8]) -> (ok: bool)
    ensures
        ok == (tag@ == spec_hmac(secret@, message@)),
{
    let key = ring::hmac::Key::new(ring::hmac::HMAC_SHA256, secret);
    ring::hmac::verify(&key, message, tag).is_ok()
}

/// What `base64`'s `URL_SAFE_NO_PAD` engine encodes `bytes` as.
pub uninterp spec fn spec_b64_encode(bytes: Seq<u8>) -> Seq<char>;

/// What `base64`'s `URL_SAFE_NO_PAD` engine decodes `text` to, or `None`
/// where it refuses the text.
pub uninterp spec fn spec_b64_decode(text: Seq<char>) -> Option<Seq<u8>>;

/// A character of the URL-safe base64 alphabet.
pub open spec fn url_safe_char(c: char) -> bool {
    ('A' <= c <= 'Z') || ('a' <= c <= 'z') || ('0' <= c <= '9') || c == '-' || c == '_'
}

/// `URL_SAFE_NO_PAD.encode`: the text, drawn from the URL-safe alphabet with
/// no padding (four characters per three bytes, and two or three for a last
/// one or two), which the same engine decodes back to `bytes`.
#[verifier::external_body]
fn b64_encode(bytes: &[u8]) -> (s: String)
    requires
        bytes@.len() <= usize::MAX / 2,
    ensures
        s@ == spec_b64_encode(bytes@),
        s@.len() == (4 * bytes@.len() + 2) / 3,
        spec_b64_decode(s@) == Some(bytes@),
        forall|i: int| 0 <= i < s@.len() ==> url_safe_char(#[trigger] s@[i]),
{
    base64::engine::general_purpose::URL_SAFE_NO_PAD.encode(bytes)
}

/// The bytes of an optional byte vector.
pub open spec fn opt_bytes(r: Option<Vec<u8>>) -> Option<Seq<u8>> {
    match r {
        Some(v) => Some(v@),
        None => None,
    }
}

/// `URL_SAFE_NO_PAD.decode`: the bytes, or `None` where the engine refuses.
#[verifier::external_body]
fn b64_decode(text: &str) -> (r: Option<Vec<u8>>)
    ensures
        opt_bytes(r) == spec_b64_decode(text@),
{
    base64::engine::general_purpose::URL_SAFE_NO_PAD.decode(text).ok()
}

/// The secret a cursor is signed with.
pub struct CursorKey {
    secret: Vec<u8>,
}

impl CursorKey {
    /// The key material's width.
    pub const BYTES: usize = 32;

    /// The key material the MAC is computed under.
    pub closed spec fn material(&self) -> Seq<u8> {
        self.secret@
    }

    /// Take a key from 32 secret bytes.
    pub fn new(secret: [u8; 32]) -> (k: CursorKey)
        ensures
            k.material() == secret@,
    {
        let mut v: Vec<u8> = Vec::new();
        extend_bytes(&mut v, secret.as_slice());
        assert(v@ =~= secret@);
        CursorKey { secret: v }
    }

    /// Take a key from secret material of any length, by digesting it first.
    pub fn from_secret(secret: &[u8]) -> (k: CursorKey)
        ensures
            k.material() == crate::digest::spec_sha256(secret@),
    {
        CursorKey { secret: sha256(secret) }
    }
}

/// The last row a page ended on: the pair the next page starts after.
#[derive(Clone, Copy, Debug, PartialEq, Eq)]
pub struct Cursor {
    /// The `created` of the last row returned.
    pub created: u64,
    /// The id of the last row returned, which breaks a tie on `created`.
    pub id: MemoryId,
}

/// `v` as eight big-endian bytes.
pub open spec fn be8(v: u64) -> Seq<u8> {
    seq![
        (v >> 56u64) as u8,
        (v >> 48u64) as u8,
        (v >> 40u64) as u8,
        (v >> 32u64) as u8,
        (v >> 24u64) as u8,
        (v >> 16u64) as u8,
        (v >> 8u64) as u8,
        v as u8,
    ]
}

/// The `u64` eight big-endian bytes spell.
pub open spec fn from_be8(b: Seq<u8>) -> u64 {
    ((b[0] as u64) << 56u64) | ((b[1] as u64) << 48u64) | ((b[2] as u64) << 40u64) | ((
    b[3] as u64) << 32u64) | ((b[4] as u64) << 24u64) | ((b[5] as u64) << 16u64) | ((
    b[6] as u64) << 8u64) | (b[7] as u64)
}

/// Eight big-endian bytes read back as the value they were written from.
pub proof fn lemma_be8_round_trip(v: u64)
    ensures
        from_be8(be8(v)) == v,
{
    let b = be8(v);
    assert(b[0] == (v >> 56u64) as u8);
    assert(b[7] == v as u8);
    assert(((((v >> 56u64) as u8) as u64) << 56u64) | ((((v >> 48u64) as u8) as u64) << 48u64)
        | ((((v >> 40u64) as u8) as u64) << 40u64) | ((((v >> 32u64) as u8) as u64) << 32u64)
        | ((((v >> 24u64) as u8) as u64) << 24u64) | ((((v >> 16u64) as u8) as u64) << 16u64)
        | ((((v >> 8u64) as u8) as u64) << 8u64) | ((v as u8) as u64) == v) by (bit_vector);
}

/// The signed position: version, timestamp, id.
pub open spec fn spec_position(c: Cursor) -> Seq<u8> {
    seq![VERSION] + be8(c.created) + c.id.bytes@
}

/// Everything the MAC covers: the domain, the position, the scope id and the
/// filter digest.
pub open spec fn spec_material(position: Seq<u8>, scope: Seq<char>, filter: MemoryFilter) -> Seq<
    u8,
> {
    encode_utf8(DOMAIN@) + position + encode_utf8(scope) + encode_utf8(spec_filter_digest(filter))
}

/// The opaque text a client carries for `c`, signed under `key` for `scope`
/// and `filter`.
pub open spec fn spec_encode(c: Cursor, key: Seq<u8>, scope: Seq<char>, filter: MemoryFilter) -> Seq<
    char,
> {
    let position = spec_position(c);
    spec_b64_encode(position + spec_hmac(key, spec_material(position, scope, filter)))
}

/// What a presented text reads as under `key`, `scope` and `filter`: the
/// timestamp and the id bytes, or `None` when the text is not base64url, is
/// the wrong length, does not verify, or carries another version.
pub open spec fn spec_decode(text: Seq<char>, key: Seq<u8>, scope: Seq<char>, filter: MemoryFilter) -> Option<
    (u64, Seq<u8>),
> {
    match spec_b64_decode(text) {
        None => None,
        Some(w) => if w.len() != POSITION_BYTES + MAC_BYTES {
            None
        } else if spec_hmac(key, spec_material(w.subrange(0, 25), scope, filter)) != w.subrange(
            25,
            57,
        ) {
            None
        } else if w[0] != VERSION {
            None
        } else {
            Some((from_be8(w.subrange(1, 9)), w.subrange(9, 25)))
        },
    }
}

/// The tag a cursor carries covers its scope and its filter: two materials
/// over the same position agree only when the scope ids and the filter
/// digests do. A cursor presented under another scope id of the same shape,
/// or under a filter with another digest, is checked against other material,
/// and verifies only where HMAC-SHA-256 collides.
pub proof fn lemma_material_binds_scope_and_filter(
    position: Seq<u8>,
    s1: Seq<char>,
    f1: MemoryFilter,
    s2: Seq<char>,
    f2: MemoryFilter,
)
    requires
        vstd::utf8::is_ascii_chars(s1),
        vstd::utf8::is_ascii_chars(s2),
        s1.len() == s2.len(),
        spec_material(position, s1, f1) == spec_material(position, s2, f2),
    ensures
        s1 == s2,
        spec_filter_digest(f1) == spec_filter_digest(f2),
{
    vstd::utf8::is_ascii_chars_encode_utf8(s1);
    vstd::utf8::is_ascii_chars_encode_utf8(s2);
    let head = encode_utf8(DOMAIN@) + position;
    let e1 = encode_utf8(s1);
    let e2 = encode_utf8(s2);
    let d1 = encode_utf8(spec_filter_digest(f1));
    let d2 = encode_utf8(spec_filter_digest(f2));
    let m = spec_material(position, s1, f1);
    assert(m =~= head + e1 + d1);
    assert(spec_material(position, s2, f2) =~= head + e2 + d2);
    assert(e1 =~= m.subrange(head.len() as int, (head.len() + e1.len()) as int));
    assert(e2 =~= m.subrange(head.len() as int, (head.len() + e2.len()) as int));
    assert(d1 =~= m.subrange((head.len() + e1.len()) as int, m.len() as int));
    assert(d2 =~= m.subrange((head.len() + e2.len()) as int, m.len() as int));
    vstd::utf8::encode_utf8_decode_utf8(s1);
    vstd::utf8::encode_utf8_decode_utf8(s2);
    vstd::utf8::encode_utf8_decode_utf8(spec_filter_digest(f1));
    vstd::utf8::encode_utf8_decode_utf8(spec_filter_digest(f2));
}

fn material(position: &[u8], scope: &ScopeId, filter: &MemoryFilter) -> (m: Vec<u8>)
    ensures
        m@ == spec_material(position@, scope@, *filter),
{
    let mut m: Vec<u8> = Vec::new();
    extend_bytes(&mut m, DOMAIN.as_bytes());
    extend_bytes(&mut m, position);
    extend_bytes(&mut m, scope.as_str().as_bytes());
    let digest = filter.digest();
    extend_bytes(&mut m, digest.as_str().as_bytes());
    m
}

fn refused(reason: &str) -> (e: Error)
    ensures
        e is Validation,
        e->Validation_0@ == "cursor is not usable here: "@ + reason@,
{
    Error::Validation(cat("cursor is not usable here: ", reason))
}

impl Cursor {
    /// The position after `created` and `id`.
    pub fn new(created: u64, id: MemoryId) -> (c: Cursor)
        ensures
            c.created == created,
            c.id == id,
    {
        Cursor { created, id }
    }

    fn position(&self) -> (p: Vec<u8>)
        ensures
            p@ == spec_position(*self),
            p@.len() == POSITION_BYTES,
    {
        let v = self.created;
        let mut p: Vec<u8> = Vec::new();
        p.push(VERSION);
        p.push((v >> 56u64) as u8);
        p.push((v >> 48u64) as u8);
        p.push((v >> 40u64) as u8);
        p.push((v >> 32u64) as u8);
        p.push((v >> 24u64) as u8);
        p.push((v >> 16u64) as u8);
        p.push((v >> 8u64) as u8);
        p.push(v as u8);
        extend_bytes(&mut p, self.id.bytes.as_slice());
        assert(p@ =~= spec_position(*self));
        p
    }

    /// Render the cursor as the opaque base64url string a client carries.
    pub fn encode(&self, key: &CursorKey, scope: &ScopeId, filter: &MemoryFilter) -> (s: String)
        ensures
            s@ == spec_encode(*self, key.material(), scope@, *filter),
            s@.len() == 76,
            forall|i: int| 0 <= i < s@.len() ==> url_safe_char(#[trigger] s@[i]),
            spec_decode(s@, key.material(), scope@, *filter) == Some(
                (self.created, self.id.bytes@),
            ),
    {
        let position = self.position();
        let m = material(position.as_slice(), scope, filter);
        let mac = hmac_sign(key.secret.as_slice(), m.as_slice());
        let mut wire = position;
        extend_bytes(&mut wire, mac.as_slice());
        let s = b64_encode(wire.as_slice());
        proof {
            let w = wire@;
            assert(w.len() == 57);
            assert(w.subrange(0, 25) =~= spec_position(*self));
            assert(w.subrange(25, 57) =~= mac@);
            assert(w.subrange(1, 9) =~= be8(self.created));
            lemma_be8_round_trip(self.created);
            assert(w.subrange(9, 25) =~= self.id.bytes@);
        }
        s
    }

    /// Read a cursor a client presented, under the scope and filter it is
    /// being presented with. Every refusal is [`Error::Validation`]: the
    /// cursor is not usable here.
    pub fn decode(text: &str, key: &CursorKey, scope: &ScopeId, filter: &MemoryFilter) -> (r:
        Result<Cursor, Error>)
        ensures
            match spec_decode(text@, key.material(), scope@, *filter) {
                Some((created, id)) => r matches Ok(c) && c.created == created && c.id.bytes@
                    == id,
                None => r matches Err(e) && e is Validation,
            },
    {
        let wire = match b64_decode(text) {
            Some(w) => w,
            None => {
                return Err(refused("it is not base64url"));
            },
        };
        if wire.len() != POSITION_BYTES + MAC_BYTES {
            return Err(refused("it is the wrong length"));
        }
        let w = wire.as_slice();
        let position = &w[0..25];
        let mac = &w[25..57];
        let m = material(position, scope, filter);
        if !hmac_verify(key.secret.as_slice(), m.as_slice(), mac) {
            return Err(refused("it was not signed for this scope and filter"));
        }
        if w[0] != VERSION {
            return Err(refused("it carries a version this build does not read"));
        }
        let created: u64 = ((w[1] as u64) << 56u64) | ((w[2] as u64) << 48u64) | ((w[3] as u64)
            << 40u64) | ((w[4] as u64) << 32u64) | ((w[5] as u64) << 24u64) | ((w[6] as u64)
            << 16u64) | ((w[7] as u64) << 8u64) | (w[8] as u64);
        let id: [u8; 16] = [
            w[9],
            w[10],
            w[11],
            w[12],
            w[13],
            w[14],
            w[15],
            w[16],
            w[17],
            w[18],
            w[19],
            w[20],
            w[21],
            w[22],
            w[23],
            w[24],
        ];
        assert(id@ =~= w@.subrange(9, 25));
        Ok(Cursor { created, id: MemoryId { bytes: id } })
    }
}

} // verus!
