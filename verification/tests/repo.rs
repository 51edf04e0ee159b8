use std::collections::HashSet;

use aicortex_store::cursor::{Cursor, CursorKey};
use aicortex_store::error::Error;
use aicortex_store::memory_repo::{
    fingerprint, MemoryFilter, MemoryRepo, StatusFilter, DEFAULT_MAX_BODY_BYTES, MAX_PAGE_ROWS,
};
use aicortex_store::scope::{Scope, ScopeId, ScopeKind};
use aicortex_store::sql::{Envelope, TxnBuilder, Value};
use aicortex_store::types::{
    Actor, ActorKind, Memory, MemoryBody, MemoryId, MemoryKind, Provenance, SourceRef, Status,
    TrustClass,
};

fn sub(name: &str) -> String {
    format!("sub-{name}")
}

fn scope(name: &str) -> Scope {
    Scope::personal(sub(name))
}

fn key() -> CursorKey {
    CursorKey::new([7u8; 32])
}

fn id(n: u8) -> MemoryId {
    let mut bytes = [0u8; 16];
    bytes[15] = n;
    bytes[6] = 0x70;
    bytes[8] = 0x80;
    MemoryId::from_bytes(bytes)
}

fn memory(scope: &Scope, text: &str, created: u64) -> Memory {
    Memory {
        id: id((created % 251) as u8),
        scope: scope.clone(),
        kind: MemoryKind::Observation,
        status: Status::Active,
        trust: TrustClass::Assertion,
        schema_version: 1,
        body: MemoryBody { text: text.to_owned(), title: None, media: Vec::new() },
        actor: Actor { kind: ActorKind::Human, id: "sub-writer".to_owned() },
        provenance: Provenance {
            source: SourceRef { system: "test".to_owned(), external_id: None, locator: None },
            captured_at: created,
            ingested_at: created,
            derived_from: Vec::new(),
            extractor: None,
        },
        created,
        updated: created,
        uses: 1,
        last_used: created,
    }
}

#[test]
fn a_scope_id_is_derived_and_distinguishes_every_shape() {
    let owner = sub("shapes");
    let personal = Scope::personal(owner.clone());
    let project = Scope { owner: owner.clone(), kind: ScopeKind::Project { project: "apollo".to_owned() } };
    let shared = Scope { owner: owner.clone(), kind: ScopeKind::Shared { share: "apollo".to_owned() } };

    let ids = [
        ScopeId::of(&personal),
        ScopeId::of(&project),
        ScopeId::of(&shared),
        ScopeId::of(&Scope::personal(sub("other"))),
    ];
    let unique: HashSet<&str> = ids.iter().map(ScopeId::as_str).collect();
    assert_eq!(unique.len(), ids.len(), "two scopes share an id: {ids:?}");
    assert_eq!(
        ScopeId::of(&personal),
        ScopeId::of(&Scope::personal(owner)),
        "the same scope derived two ids"
    );
}

#[test]
fn a_cursor_carries_nothing_a_reader_can_use() {
    let scope = ScopeId::of(&scope("opaque"));
    let filter = MemoryFilter::all();
    let id = MemoryId::from_bytes(uuid::Uuid::now_v7().into_bytes());
    let cursor = Cursor::new(1_700_000_000, id).encode(&key(), &scope, &filter);

    assert!(
        !cursor.contains(&id.to_text()),
        "the cursor spells its id out"
    );
    assert!(
        !cursor.contains('=') && !cursor.contains('+') && !cursor.contains('/'),
        "the cursor is not base64url without padding: {cursor}"
    );
    assert!(
        Cursor::decode("not a cursor", &key(), &scope, &filter).is_err(),
        "an arbitrary string decoded"
    );
    assert!(
        Cursor::decode("", &key(), &scope, &filter).is_err(),
        "the empty string decoded"
    );
}

#[test]
fn a_cursor_reads_back_under_its_key_scope_and_filter_only() {
    let alice = ScopeId::of(&scope("alice"));
    let bob = ScopeId::of(&scope("bob"));
    let filter = MemoryFilter::active();
    let cursor = Cursor::new(1_700_000_123, id(9)).encode(&key(), &alice, &filter);
    let back = Cursor::decode(&cursor, &key(), &alice, &filter).expect("the cursor decodes");
    assert_eq!(back, Cursor::new(1_700_000_123, id(9)));
    assert!(matches!(Cursor::decode(&cursor, &key(), &bob, &filter), Err(Error::Validation(_))));
    assert!(Cursor::decode(&cursor, &key(), &alice, &MemoryFilter::all()).is_err());
    assert!(Cursor::decode(&cursor, &CursorKey::new([8u8; 32]), &alice, &filter).is_err());
    // Encoding is deterministic.
    assert_eq!(cursor, Cursor::new(1_700_000_123, id(9)).encode(&key(), &alice, &filter));
}

#[test]
fn an_edited_cursor_is_refused() {
    let alice = ScopeId::of(&scope("alice"));
    let filter = MemoryFilter::all();
    let cursor = Cursor::new(1_700_000_000, id(3)).encode(&key(), &alice, &filter);
    let mut bytes = cursor.clone().into_bytes();
    bytes[0] = if bytes[0] == b'A' { b'B' } else { b'A' };
    let edited = String::from_utf8(bytes).unwrap();
    assert!(Cursor::decode(&edited, &key(), &alice, &filter).is_err());
}

#[test]
fn a_page_outside_the_bounds_is_refused() {
    let alice = ScopeId::of(&scope("alice"));
    let filter = MemoryFilter::all();
    assert!(matches!(
        MemoryRepo::list_statement(&key(), &alice, &filter, 0, None),
        Err(Error::Validation(_))
    ));
    assert!(matches!(
        MemoryRepo::list_statement(&key(), &alice, &filter, MAX_PAGE_ROWS + 1, None),
        Err(Error::Validation(_))
    ));
    assert!(MemoryRepo::list_statement(&key(), &alice, &filter, MAX_PAGE_ROWS, None).is_ok());
    assert!(matches!(
        MemoryRepo::list_statement(&key(), &alice, &filter, 0, None),
        Err(Error::Validation(m)) if m == "a page of 0 rows is not between 1 and 500"
    ));
}

#[test]
fn a_cursor_is_seventy_six_characters() {
    let alice = ScopeId::of(&scope("alice"));
    let cursor = Cursor::new(1_700_000_000, id(3)).encode(&key(), &alice, &MemoryFilter::all());
    assert_eq!(cursor.len(), 76);
}

#[test]
fn a_listing_names_its_scope_and_numbers_its_parameters_in_order() {
    let alice = ScopeId::of(&scope("alice"));
    let filter = MemoryFilter::active().of_kind(MemoryKind::Fact);
    let first = MemoryRepo::list_statement(&key(), &alice, &filter, 10, None).unwrap();
    assert_eq!(
        first.sql,
        "SELECT record, created, id FROM memory WHERE scope_id = $1 AND status = $2 AND kind = $3 ORDER BY created DESC, id DESC LIMIT $4"
    );
    assert_eq!(first.params.len(), 4);
    assert!(matches!(&first.params[0], Value::Text(s) if s == alice.as_str()));
    assert!(matches!(&first.params[1], Value::Text(s) if s == "active"));
    assert!(matches!(&first.params[2], Value::Text(s) if s == "fact"));
    assert!(matches!(first.params[3], Value::Integer(10)));

    let cursor = Cursor::new(1_700_000_000, id(4)).encode(&key(), &alice, &filter);
    let next = MemoryRepo::list_statement(&key(), &alice, &filter, 10, Some(&cursor)).unwrap();
    assert_eq!(
        next.sql,
        "SELECT record, created, id FROM memory WHERE scope_id = $1 AND status = $2 AND kind = $3 AND (created < $4 OR (created = $4 AND id < $5)) ORDER BY created DESC, id DESC LIMIT $6"
    );
    assert!(matches!(next.params[3], Value::Integer(1_700_000_000)));
    assert!(matches!(&next.params[4], Value::Text(s) if *s == id(4).to_text()));
}

#[test]
fn a_full_page_continues_and_a_short_page_ends() {
    let alice = ScopeId::of(&scope("alice"));
    let filter = MemoryFilter::all();
    let last = Some((1_700_000_000i64, id(5).to_text()));
    let next = MemoryRepo::next_cursor(&key(), &alice, &filter, 2, 2, last.clone()).unwrap();
    let cursor = next.expect("a full page continues");
    let back = Cursor::decode(&cursor, &key(), &alice, &filter).unwrap();
    assert_eq!(back, Cursor::new(1_700_000_000, id(5)));
    assert_eq!(MemoryRepo::next_cursor(&key(), &alice, &filter, 2, 1, last).unwrap(), None);
    assert!(matches!(
        MemoryRepo::next_cursor(&key(), &alice, &filter, 1, 1, Some((-1, id(5).to_text()))),
        Err(Error::Integrity(_))
    ));
    assert!(matches!(
        MemoryRepo::next_cursor(&key(), &alice, &filter, 1, 1, Some((5, "not an id".to_owned()))),
        Err(Error::Integrity(_))
    ));
}

#[test]
fn b8_a_body_over_the_ceiling_is_refused_at_the_storage_boundary() {
    let alice = scope("alice");
    let repo = MemoryRepo::new().with_max_body_bytes(16);
    let oversized = memory(&alice, "this body is longer than sixteen bytes", 8000);
    let mut txn = TxnBuilder::new();
    let refused = repo.insert(&mut txn, &oversized, "{}", &oversized.provenance, Envelope { bytes: vec![1] });
    assert!(matches!(refused, Err(Error::Validation(_))), "an oversized body was staged: {refused:?}");
    assert_eq!(txn.len(), 0, "a refused capture staged {} statements", txn.len());

    let other = memory(&alice, "another memory", 8002);
    let mut foreign = other.provenance.clone();
    foreign.source.system = "elsewhere".to_owned();
    let mut txn = TxnBuilder::new();
    assert!(repo.insert(&mut txn, &other, "{}", &foreign, Envelope { bytes: vec![1] }).is_err(),
        "a memory was staged with somebody else's provenance");
    assert_eq!(txn.len(), 0);
}

#[test]
fn a_refused_capture_names_the_memory_and_the_sizes() {
    let alice = scope("alice");
    let repo = MemoryRepo::new().with_max_body_bytes(16);
    let oversized = memory(&alice, "this body is longer than sixteen bytes", 8000);
    let mut txn = TxnBuilder::new();
    let expected = format!("memory {} has a 38 byte body, over the 16 byte ceiling", oversized.id.to_text());
    assert!(matches!(
        repo.insert(&mut txn, &oversized, "{}", &oversized.provenance, Envelope { bytes: vec![1] }),
        Err(Error::Validation(m)) if m == expected
    ));
    let mut foreign = oversized.provenance.clone();
    foreign.source.system = "elsewhere".to_owned();
    let expected = format!("the provenance offered for memory {} is not the one the record carries", oversized.id.to_text());
    assert!(matches!(
        repo.insert(&mut txn, &oversized, "{}", &foreign, Envelope { bytes: vec![1] }),
        Err(Error::Validation(m)) if m == expected
    ));
}

#[test]
fn a_capture_stages_scope_row_counter_and_work_in_one_batch() {
    let alice = scope("alice");
    let mut m = memory(&alice, "derived from both", 2000);
    m.provenance.derived_from = vec![id(1), id(2)];
    let mut txn = TxnBuilder::new();
    MemoryRepo::new()
        .insert(&mut txn, &m, "{\"record\":1}", &m.provenance.clone(), Envelope { bytes: vec![9, 9] })
        .expect("the capture stages");
    // scope, memory, provenance, two derivations, counter, outbox.
    assert_eq!(txn.len(), 7);
}

#[test]
fn the_column_fingerprint_is_the_capture_fingerprint() {
    let alice = scope("alice");
    let m = memory(&alice, "one sentence, written twice", 9500);
    let mut material = b"sub-alice".to_vec();
    material.push(0x1f);
    material.extend_from_slice(b"personal");
    material.push(0x1f);
    material.push(0x1f);
    material.extend_from_slice(b"observation");
    material.push(0x1f);
    material.extend_from_slice(b"one sentence, written twice");
    let expected: String = blake3::hash(&material).as_bytes().iter().map(|b| format!("{b:02x}")).collect();
    assert_eq!(fingerprint(&m), expected);
    assert_eq!(
        fingerprint(&m),
        aicortex_store::fingerprint::of_normalized(&alice, MemoryKind::Observation, "one sentence, written twice"),
    );
}

#[test]
fn a_filter_digest_is_stable_and_separates_filters() {
    let a = MemoryFilter::all().digest();
    let b = MemoryFilter::active().digest();
    assert_eq!(a.len(), 64);
    assert_ne!(a, b);
    assert_eq!(a, MemoryFilter::all().digest());
    let material = "status=*\u{1f}kind=*";
    let digest = ring::digest::digest(&ring::digest::SHA256, material.as_bytes());
    let expected: String = digest.as_ref().iter().map(|b| format!("{b:02x}")).collect();
    assert_eq!(a, expected);
}

#[test]
fn a_status_filter_names_the_column_value() {
    assert_eq!(StatusFilter::Active.label(), "active");
    assert_eq!(StatusFilter::Erased.label(), "erased");
    assert_eq!(StatusFilter::of(&Status::Superseded(id(1))), StatusFilter::Superseded);
    assert_eq!(MemoryRepo::new().max_body_bytes(), DEFAULT_MAX_BODY_BYTES);
    assert_eq!(MemoryRepo::new().with_max_body_bytes(10).max_body_bytes(), 10);
}

#[test]
fn a_holder_read_reports_the_first_row_or_none() {
    assert_eq!(MemoryRepo::holder_from_rows(&Vec::new()).unwrap(), None);
    let found = MemoryRepo::holder_from_rows(&vec![id(7).to_text()]).unwrap();
    assert_eq!(found, Some(id(7)));
    assert!(matches!(MemoryRepo::holder_from_rows(&vec!["nope".to_owned()]), Err(Error::Integrity(_))));
}

#[test]
fn an_id_renders_as_hyphenated_lowercase_hex() {
    let id = MemoryId::from_bytes([0xab; 16]);
    assert_eq!(id.to_text(), "abababab-abab-abab-abab-abababababab");
    assert_eq!(MemoryId::parse(&id.to_text()), Some(id));
    assert_eq!(MemoryId::parse("not an id"), None);
}
