//! What makes two captures the same memory: the exact half of deduplication.
//!
//! The fingerprint is a BLAKE3 over the scope, the kind and the body text
//! after the write gate has normalized it, each part split from the next by a
//! byte none of them can hold. The scope is mixed in so one subject's capture
//! never merges into another's; the kind is mixed in so a fact and a task
//! that read alike stay two memories. Semantic near-duplicates are not
//! answered here.
//!
//! This value is an unkeyed digest of content and never leaves the
//! `fingerprint` column.

use vstd::prelude::*;
use vstd::utf8::encode_utf8;

use crate::scope::{
    lemma_lowercase_separator_free, lemma_scope_material_injective, lemma_separated_prefix,
    scope_key, scope_kind_label, scope_material, separator_free, Scope, SEPARATOR,
};
use crate::text::{extend_bytes, lemma_hex_len, spec_hex};
use crate::types::{kind_label, lemma_kind_label_round_trip, MemoryKind};

verus! {

/// What `blake3::hash` returns for `material`: its 32-byte digest.
pub uninterp spec fn spec_blake3(material: Seq<u8>) -> Seq<u8>;

/// `blake3::hash`: the default BLAKE3 digest of `material`, which is 32
/// bytes long.
#[verifier::external_body]
fn blake3_hash(material: &[u8]) -> (d: [u8; 32])
    ensures
        d@ == spec_blake3(material@),
{
    *blake3::hash(material).as_bytes()
}

/// The bytes a fingerprint is the digest of: the scope's own material, a
/// separator, the kind's label, a separator, and the normalized text.
pub open spec fn content_material(scope: Scope, kind: MemoryKind, normalized: Seq<char>) -> Seq<u8> {
    scope_material(scope) + seq![SEPARATOR] + encode_utf8(kind_label(kind)) + seq![SEPARATOR]
        + encode_utf8(normalized)
}

/// The 32-byte content fingerprint of gate-normalized text in a scope.
pub open spec fn spec_fingerprint(scope: Scope, kind: MemoryKind, normalized: Seq<char>) -> Seq<u8> {
    spec_blake3(content_material(scope, kind, normalized))
}

/// The 32-byte content fingerprint of `normalized_text` in `scope`.
///
/// The text must already be gate-normalized; taking it rather than a record
/// is what lets a caller ask whether a capture would merge before it has
/// built one.
pub fn fingerprint(scope: &Scope, kind: MemoryKind, normalized_text: &str) -> (d: [u8; 32])
    ensures
        d@ == spec_fingerprint(*scope, kind, normalized_text@),
{
    let mut material: Vec<u8> = Vec::new();
    extend_bytes(&mut material, scope.owner.as_str().as_bytes());
    material.push(SEPARATOR);
    extend_bytes(&mut material, scope.kind.label().as_bytes());
    material.push(SEPARATOR);
    let key = crate::scope::ScopeId::key_of(scope);
    extend_bytes(&mut material, key.as_bytes());
    material.push(SEPARATOR);
    extend_bytes(&mut material, kind.label().as_bytes());
    material.push(SEPARATOR);
    extend_bytes(&mut material, normalized_text.as_bytes());
    assert(material@ =~= content_material(*scope, kind, normalized_text@));
    blake3_hash(material.as_slice())
}

/// The fingerprint as the column holds it: lowercase hex, sixty-four
/// characters.
pub fn hex(digest: &[u8; 32]) -> (s: String)
    ensures
        s@ == spec_hex(digest@),
        s@.len() == 64,
{
    proof {
        lemma_hex_len(digest@);
    }
    crate::text::hex(digest.as_slice())
}

/// The column value of a capture of gate-normalized text into a scope.
pub fn of_normalized(scope: &Scope, kind: MemoryKind, normalized_text: &str) -> (s: String)
    ensures
        s@ == spec_hex(spec_fingerprint(*scope, kind, normalized_text@)),
        s@.len() == 64,
{
    let d = fingerprint(scope, kind, normalized_text);
    hex(&d)
}

proof fn lemma_kind_label_separator_free(kind: MemoryKind)
    ensures
        !encode_utf8(kind_label(kind)).contains(SEPARATOR),
{
    reveal_strlit("fact");
    reveal_strlit("task");
    reveal_strlit("observation");
    reveal_strlit("correction");
    let l = kind_label(kind);
    assert forall|i: int| 0 <= i < l.len() implies 'a' <= #[trigger] l[i] <= 'z' by {
        match kind {
            MemoryKind::Fact => {
                assert(0 <= i < 4);
            },
            MemoryKind::Task => {
                assert(0 <= i < 4);
            },
            MemoryKind::Observation => {
                assert(0 <= i < 11);
            },
            MemoryKind::Correction => {
                assert(0 <= i < 10);
            },
        }
    }
    lemma_lowercase_separator_free(l);
}

/// Different captures hand the digest different material: the material of a
/// fingerprint determines the scope (its owner, its kind and its key), the
/// memory's kind and the normalized text. The same text in two scopes, or as
/// two kinds, is therefore two inputs, and two fingerprints collide only
/// where BLAKE3 does.
pub proof fn lemma_content_material_injective(
    s1: Scope,
    k1: MemoryKind,
    t1: Seq<char>,
    s2: Scope,
    k2: MemoryKind,
    t2: Seq<char>,
)
    requires
        separator_free(s1),
        separator_free(s2),
        content_material(s1, k1, t1) == content_material(s2, k2, t2),
    ensures
        s1.owner@ == s2.owner@,
        scope_kind_label(s1.kind) == scope_kind_label(s2.kind),
        scope_key(s1.kind) == scope_key(s2.kind),
        k1 == k2,
        t1 == t2,
{
    let o1 = encode_utf8(s1.owner@);
    let o2 = encode_utf8(s2.owner@);
    let l1 = encode_utf8(scope_kind_label(s1.kind));
    let l2 = encode_utf8(scope_kind_label(s2.kind));
    let q1 = encode_utf8(scope_key(s1.kind));
    let q2 = encode_utf8(scope_key(s2.kind));
    let m1 = encode_utf8(kind_label(k1));
    let m2 = encode_utf8(kind_label(k2));
    let x1 = encode_utf8(t1);
    let x2 = encode_utf8(t2);
    let sep = seq![SEPARATOR];
    assert(content_material(s1, k1, t1) =~= o1 + sep + (l1 + sep + (q1 + sep + (m1 + sep + x1))));
    assert(content_material(s2, k2, t2) =~= o2 + sep + (l2 + sep + (q2 + sep + (m2 + sep + x2))));
    crate::scope::lemma_label_separator_free(s1.kind);
    crate::scope::lemma_label_separator_free(s2.kind);
    lemma_kind_label_separator_free(k1);
    lemma_kind_label_separator_free(k2);
    lemma_separated_prefix(o1, l1 + sep + (q1 + sep + (m1 + sep + x1)), o2, l2 + sep + (q2 + sep + (m2 + sep + x2)));
    lemma_separated_prefix(l1, q1 + sep + (m1 + sep + x1), l2, q2 + sep + (m2 + sep + x2));
    lemma_separated_prefix(q1, m1 + sep + x1, q2, m2 + sep + x2);
    lemma_separated_prefix(m1, x1, m2, x2);
    assert(scope_material(s1) =~= o1 + sep + l1 + sep + q1);
    assert(scope_material(s2) =~= o2 + sep + l2 + sep + q2);
    lemma_scope_material_injective(s1, s2);
    vstd::utf8::encode_utf8_decode_utf8(kind_label(k1));
    vstd::utf8::encode_utf8_decode_utf8(kind_label(k2));
    vstd::utf8::encode_utf8_decode_utf8(t1);
    vstd::utf8::encode_utf8_decode_utf8(t2);
    lemma_kind_label_round_trip(k1);
    lemma_kind_label_round_trip(k2);
}

} // verus!
