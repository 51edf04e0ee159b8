use aicortex_store::decision_key::{DecisionKey, DecisionKeyId, DecisionKeyRepo, ID_BYTES, KEY_BYTES};
use aicortex_store::erasure::{
    check_erasure_batch, deliverable, delivery, erase_next, erase_payload, payload_totals,
    refuse_legacy, scope_erase_payload, Authority, Erased, PayloadValue,
    required_receipt, scope_starts, tombstone, drained, Delivery, EraseNext, Eraser, JournalTotals,
    Receipt, Shell, ShellColumns, ERASED,
};
use aicortex_store::error::Error;
use aicortex_store::provenance_repo::{ProvenanceColumns, ProvenanceRepo};
use aicortex_store::scope::{is_legal_scope_key, Scope, ScopeColumns, ScopeId, ScopeKind, ScopeRepo};
use aicortex_store::sql::TxnBuilder;
use aicortex_store::text::{decimal, hex};
use aicortex_store::types::{MemoryId, MemoryKind, Status};

fn alice() -> Scope {
    Scope::personal("sub-alice".to_owned())
}

fn id(n: u8) -> MemoryId {
    MemoryId::from_bytes([n; 16])
}

fn receipt(ready: i64, delivered: i64) -> Receipt {
    Receipt { decision_id: "memory.erase-x".into(), decision: "{}".into(), ready, delivered }
}

#[test]
fn a_minted_key_has_a_fresh_secret_and_a_hex_id() {
    let key = DecisionKey::mint().expect("the random source works");
    assert_eq!(key.id().as_str().len(), 2 * ID_BYTES);
    assert!(key.id().as_str().chars().all(|c| c.is_ascii_hexdigit()));
    let other = DecisionKey::mint().unwrap();
    assert_ne!(key.id(), other.id());
    let _ = KEY_BYTES;
}

#[test]
fn a_stored_key_reads_back_and_digests_with_hmac_sha256() {
    let id = DecisionKeyId::parse("0011".to_owned());
    let secret = vec![9u8; 32];
    assert!(DecisionKeyRepo::key_from_rows(&id, Vec::new()).is_none());
    let key = DecisionKeyRepo::key_from_rows(&id, vec![secret.clone()]).expect("a row reads back");
    assert_eq!(key.id().as_str(), "0011");
    let hmac_key = ring::hmac::Key::new(ring::hmac::HMAC_SHA256, &secret);
    let tag = ring::hmac::sign(&hmac_key, b"the body");
    let expected: String = tag.as_ref().iter().map(|b| format!("{b:02x}")).collect();
    assert_eq!(key.digest(b"the body"), expected);
    assert_eq!(key.digest(b"").len(), 64);
}

#[test]
fn a_key_is_staged_and_destroyed_under_its_scope() {
    let key = DecisionKey::mint().unwrap();
    let mut txn = TxnBuilder::new();
    DecisionKeyRepo::stage(&mut txn, &alice(), &key, Some(id(1)), 100);
    DecisionKeyRepo::stage_destroy_for_memory(&mut txn, &alice(), id(1));
    DecisionKeyRepo::stage_destroy_for_scope(&mut txn, &alice());
    assert_eq!(txn.len(), 3);
}

#[test]
fn a_scope_row_reads_back_as_its_scope() {
    let row = ScopeRepo::row_to_scope(ScopeColumns {
        scope_id: "abc".into(),
        owner: "sub-alice".into(),
        kind: "project".into(),
        key: "apollo".into(),
        created: 5,
    })
    .unwrap();
    assert_eq!(row.scope, Scope { owner: "sub-alice".into(), kind: ScopeKind::Project { project: "apollo".into() } });
    assert_eq!(row.created, 5);
    assert_eq!(row.id.as_str(), "abc");
    assert!(matches!(
        ScopeRepo::row_to_scope(ScopeColumns { scope_id: "abc".into(), owner: "o".into(), kind: "team".into(), key: "".into(), created: 5 }),
        Err(Error::Integrity(_))
    ));
    assert!(ScopeRepo::row_to_scope(ScopeColumns { scope_id: "abc".into(), owner: "o".into(), kind: "personal".into(), key: "".into(), created: -5 }).is_err());
}

#[test]
fn a_scope_row_with_an_illegal_key_is_refused() {
    let row = |kind: &str, key: &str| ScopeColumns { scope_id: "abc".into(), owner: "o".into(), kind: kind.into(), key: key.into(), created: 5 };
    assert!(matches!(
        ScopeRepo::row_to_scope(row("project", "")),
        Err(Error::Integrity(m)) if m == "scope row abc holds a key which is not a legal project or share key"
    ));
    assert!(ScopeRepo::row_to_scope(row("shared", "a\u{1f}b")).is_err());
    assert!(ScopeRepo::row_to_scope(row("shared", "apollo")).is_ok());
    assert!(ScopeRepo::row_to_scope(row("personal", "")).is_ok());
    assert!(is_legal_scope_key("Apollo 11"));
    assert!(!is_legal_scope_key("tab\there"));
}

#[test]
fn a_key_is_made_of_two_separate_draws() {
    let secret = vec![7u8; KEY_BYTES];
    let mut id = vec![0u8; ID_BYTES];
    id[15] = 0xab;
    let key = DecisionKey::from_draws(secret.clone(), id);
    assert_eq!(key.id().as_str(), "000000000000000000000000000000ab");
    let hmac_key = ring::hmac::Key::new(ring::hmac::HMAC_SHA256, &secret);
    let tag = ring::hmac::sign(&hmac_key, b"m");
    let expected: String = tag.as_ref().iter().map(|b| format!("{b:02x}")).collect();
    assert_eq!(key.digest(b"m"), expected);
}

#[test]
fn a_scope_id_is_the_sha256_of_owner_kind_and_key() {
    let mut material = b"sub-alice".to_vec();
    material.push(0x1f);
    material.extend_from_slice(b"personal");
    material.push(0x1f);
    let digest = ring::digest::digest(&ring::digest::SHA256, &material);
    let expected: String = digest.as_ref().iter().map(|b| format!("{b:02x}")).collect();
    assert_eq!(ScopeId::of(&alice()).as_str(), expected);
    assert_eq!(ScopeId::key_of(&alice()), "");
}

#[test]
fn a_provenance_row_reads_back_with_its_parents_in_order() {
    let parents = ProvenanceRepo::parse_parents(&vec![id(2).to_text(), id(1).to_text()]).unwrap();
    assert_eq!(parents, vec![id(2), id(1)]);
    assert!(matches!(ProvenanceRepo::parse_parents(&vec!["x".into()]), Err(Error::Integrity(_))));
    let row = || ProvenanceColumns {
        source_system: "test".into(),
        source_external_id: Some("ext".into()),
        source_locator: None,
        captured_at: 1000,
        ingested_at: 2000,
        extractor_name: Some("test-extractor".into()),
        extractor_version: Some("1".into()),
    };
    let p = ProvenanceRepo::row_to_provenance(row(), parents.clone()).unwrap();
    assert_eq!(p.derived_from, parents);
    assert_eq!(p.captured_at, 1000);
    assert_eq!(p.extractor.as_ref().map(|e| e.name.as_str()), Some("test-extractor"));
    let mut half = row();
    half.extractor_version = None;
    assert!(ProvenanceRepo::row_to_provenance(half, Vec::new()).is_err());
    let mut negative = row();
    negative.ingested_at = -1;
    assert!(ProvenanceRepo::row_to_provenance(negative, Vec::new()).is_err());
}

#[test]
fn an_erasure_delivers_a_receipt_before_erasing_anything() {
    let shell = Shell::from_row(&ShellColumns { id: id(1).to_text(), kind: "fact".into(), status: "active".into(), created: 7 }).unwrap();
    let named = |name: &str| Receipt { decision_id: name.into(), decision: "{}".into(), ready: 1, delivered: 0 };
    assert!(matches!(erase_next(id(1), Some(named("memory.erase-first")), Some(shell), Some(named("memory.erase-second"))), EraseNext::Deliver(r) if r.decision_id == "memory.erase-first"));
    assert!(matches!(erase_next(id(1), None, Some(shell), None), EraseNext::Erase(s) if s == shell));
    assert!(matches!(erase_next(id(1), None, None, Some(named("memory.erase-second"))), EraseNext::Deliver(r) if r.decision_id == "memory.erase-second"));
    let expected = format!("memory {} is not an erasable row of this scope", id(1).to_text());
    assert!(matches!(erase_next(id(1), None, None, None), EraseNext::Refuse(Error::Validation(m)) if m == expected));
}

#[test]
fn a_receipt_is_delivered_only_once_its_destruction_committed() {
    assert!(deliverable(&receipt(1, 0)).is_ok());
    assert!(matches!(deliverable(&receipt(0, 0)), Err(Error::Conflict(_))));
    assert!(matches!(required_receipt(None), Err(Error::Integrity(_))));
    assert!(required_receipt(Some(receipt(1, 1))).is_ok());
    assert!(drained(Some(1)));
    assert!(!drained(Some(0)));
    assert!(!drained(None));
}

#[test]
fn a_decision_is_appended_only_when_neither_the_receipt_nor_the_ledger_has_it() {
    assert_eq!(delivery(&receipt(1, 0), false).unwrap(), Delivery::Append);
    assert_eq!(delivery(&receipt(1, 0), true).unwrap(), Delivery::Skip);
    assert_eq!(delivery(&receipt(1, 1), false).unwrap(), Delivery::Skip);
    assert!(matches!(delivery(&receipt(0, 0), false), Err(Error::Conflict(m)) if m == "erasure is still draining"));
}

#[test]
fn a_delivered_payload_carries_the_journal_totals() {
    let totals = JournalTotals { batches: 2, memories: 5, derivatives: 7, keys_destroyed: 3, marked: 1 };
    assert_eq!(
        payload_totals(false, &totals),
        vec![("derivatives_removed", 7), ("keys_destroyed", 3), ("derivatives_marked", 1)],
    );
    assert_eq!(
        payload_totals(true, &totals),
        vec![("derivatives_removed", 7), ("keys_destroyed", 3), ("memories", 5), ("batches", 2)],
    );
}

#[test]
fn an_erasure_batch_out_of_bounds_is_refused_by_name() {
    assert!(matches!(check_erasure_batch(0), Err(Error::Validation(m)) if m == "an erasure batch of 0 is not between 1 and 500"));
    assert!(matches!(check_erasure_batch(501), Err(Error::Validation(m)) if m == "an erasure batch of 501 is not between 1 and 500"));
    assert!(check_erasure_batch(500).is_ok());
    assert!(matches!(refuse_legacy(true), Err(Error::Integrity(m)) if m.contains("no durable key totals")));
    let eraser = Eraser::new();
    assert_eq!(eraser.clone(), eraser);
}

#[test]
fn a_scope_erasure_starts_again_only_after_delivery_and_new_content() {
    assert!(scope_starts(&None, false, false));
    assert!(!scope_starts(&Some(receipt(1, 0)), true, true), "pending delivery wins");
    assert!(!scope_starts(&Some(receipt(1, 1)), false, false), "a completed operation is replayed");
    assert!(scope_starts(&Some(receipt(1, 1)), true, false));
    assert!(scope_starts(&Some(receipt(1, 1)), false, true));
    assert!(matches!(refuse_legacy(true), Err(Error::Integrity(_))));
    assert!(refuse_legacy(false).is_ok());
}

#[test]
fn a_tombstone_carries_no_content() {
    let shell = Shell::from_row(&ShellColumns { id: id(3).to_text(), kind: "task".into(), status: "active".into(), created: 7 }).unwrap();
    let t = tombstone(&alice(), &shell, 99, 1);
    assert_eq!(t.id, id(3));
    assert_eq!(t.kind, MemoryKind::Task);
    assert_eq!(t.status, Status::Erased);
    assert_eq!(t.body.text, "");
    assert_eq!(t.body.title, None);
    assert!(t.body.media.is_empty());
    assert_eq!(t.actor.id, ERASED);
    assert_eq!(t.provenance.source.system, ERASED);
    assert!(t.provenance.derived_from.is_empty());
    assert_eq!((t.created, t.updated), (7, 99));
    assert!(Shell::from_row(&ShellColumns { id: "nope".into(), kind: "task".into(), status: "active".into(), created: 7 }).is_err());
    assert!(Shell::from_row(&ShellColumns { id: id(3).to_text(), kind: "task".into(), status: "gone".into(), created: 7 }).is_err());
}

#[test]
fn an_erasure_commits_sweep_keys_tombstones_and_its_receipt_together() {
    let eraser = Eraser::new();
    let shell = Shell::from_row(&ShellColumns { id: id(4).to_text(), kind: "fact".into(), status: "active".into(), created: 7 }).unwrap();
    let plan = eraser.erase_statements(&alice(), id(4), &vec![shell], &vec!["{}".into()], "memory.erase-4", "{}", 100);
    assert!(!plan.is_empty());
    let texts: Vec<String> = plan
        .iter()
        .filter_map(|step| match step {
            aicortex_store::sql::Step::Sql(st) => Some(st.sql.clone()),
            _ => None,
        })
        .collect();
    assert!(texts.iter().any(|sql| sql.contains("decision_key")), "the keys are destroyed in the same batch");
    assert!(texts.first().map(|sql| sql.contains("erasure_receipt")).unwrap_or(false), "the receipt is written first");
    assert!(texts.last().map(|sql| sql.contains("ready = 1")).unwrap_or(false), "readiness is the last word");
}

#[test]
fn hex_and_decimal_render_as_std_does() {
    assert_eq!(hex(&[0x00, 0x0f, 0xa0, 0xff]), "000fa0ff");
    assert_eq!(hex(&[]), "");
    for n in [0u64, 7, 10, 99, 100, 12345, u64::MAX] {
        assert_eq!(decimal(n), n.to_string());
    }
}

#[test]
fn every_scope_batch_destroys_the_scope_keys_and_rechecks_readiness_last() {
    let eraser = Eraser::new();
    let shells = vec![
        Shell::from_row(&ShellColumns { id: id(5).to_text(), kind: "fact".into(), status: "active".into(), created: 7 }).unwrap(),
        Shell::from_row(&ShellColumns { id: id(6).to_text(), kind: "task".into(), status: "expired".into(), created: 8 }).unwrap(),
    ];
    let plan = eraser.drain_statements(&alice(), "memory.erase_scope-1", &shells, &vec!["{}".into(), "{}".into()], 100);
    let texts: Vec<String> = plan
        .iter()
        .filter_map(|step| match step {
            aicortex_store::sql::Step::Sql(st) => Some(st.sql.clone()),
            _ => None,
        })
        .collect();
    assert!(texts.iter().any(|sql| sql == "DELETE FROM decision_key WHERE scope_id = $1"));
    assert_eq!(texts.iter().filter(|sql| sql.starts_with("UPDATE memory\n    SET status = 'erased'")).count(), 2);
    assert!(texts.first().map(|sql| sql.contains("WHEN decision_id = $1 AND ready = 0")).unwrap_or(false));
    assert!(texts.last().map(|sql| sql.contains("NOT EXISTS (SELECT 1 FROM decision_key")).unwrap_or(false));
}

#[test]
fn an_erasure_decision_names_the_erasure_and_never_the_content() {
    let authority = Authority::of("sub-alice".to_owned()).because("gdpr_17".to_owned());
    let fields = erase_payload("personal:sub-alice", id(1), &authority, true, &vec![id(2)]);
    let names: Vec<&str> = fields.iter().map(|(name, _)| *name).collect();
    assert_eq!(names, vec!["scope", "memory_id", "authority", "reason_code", "cascade", "cascaded", "caveat"]);
    assert_eq!(fields[1].1, PayloadValue::Text(id(1).to_text()));
    assert_eq!(fields[3].1, PayloadValue::Text("gdpr_17".to_owned()));
    assert_eq!(fields[4].1, PayloadValue::Flag(true));
    assert_eq!(fields[5].1, PayloadValue::Ids(vec![id(2)]));
    assert_eq!(fields[6].1, PayloadValue::Text(Erased::caveat().to_owned()));
    let scope_fields = scope_erase_payload("personal:sub-alice", &authority);
    let names: Vec<&str> = scope_fields.iter().map(|(name, _)| *name).collect();
    assert_eq!(names, vec!["scope", "authority", "reason_code", "caveat"]);
    assert_eq!(scope_fields[1].1, PayloadValue::Text("sub-alice".to_owned()));
}
