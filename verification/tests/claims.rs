use aicortex_store::claim_admission_repo::{policy_digest, AdmissionColumns, ClaimAdmissionRepo};
use aicortex_store::claim_proposal_repo::{ClaimProposalRepo, ProposalColumns};
use aicortex_store::claim_repo::{
    sql_time, ClaimAppend, ClaimRepo, PredicateKey, RelationColumns, SubjectRef, TxBound,
    MAX_CLAIM_PAGE_ROWS,
};
use aicortex_store::error::Error;
use aicortex_store::predicate_registry_repo::{
    document_digest, PredicateRegistryRepo, Registration, RegistryCheck,
};
use aicortex_store::scope::{Scope, ScopeId};
use aicortex_store::sql::{Envelope, TxnBuilder, Value};

fn traveler() -> Scope {
    Scope::personal("sub-traveler".to_owned())
}

fn subject() -> SubjectRef {
    SubjectRef { namespace: "travel".into(), kind: "booking".into(), key: "booking-one".into() }
}

fn sha256_hex(bytes: &[u8]) -> String {
    let digest = ring::digest::digest(&ring::digest::SHA256, bytes);
    digest.as_ref().iter().map(|b| format!("{b:02x}")).collect()
}

fn admission(claim: &str, correction: bool) -> AdmissionColumns {
    AdmissionColumns {
        claim_id: claim.into(),
        scope: traveler(),
        proposal_id: format!("p-{claim}"),
        policy_id: "travel.admission".into(),
        policy_version: 1,
        authority: "asserted".into(),
        sourcing: "extracted".into(),
        evidence: "[]".into(),
        relations: "[]".into(),
        corrects: "[]".into(),
        conflicts: "[]".into(),
        is_correction: correction,
    }
}

fn append(claim: &str, slot: &str) -> ClaimAppend {
    ClaimAppend {
        claim_id: claim.into(),
        scope: traveler(),
        subject: subject(),
        predicate: PredicateKey { namespace: "travel".into(), name: "seat".into(), version: 1 },
        slot_key: None,
        slot: slot.into(),
        valid_time: "{}".into(),
        time_error: None,
        source_time: None,
        source_seq: Some(3),
        authority: "asserted".into(),
        sourcing: "extracted".into(),
        admission: "{}".into(),
        supersession: "replace".into(),
        hostile_content: false,
        claim: "{}".into(),
        sources: vec!["m-1".into()],
        relations: Vec::new(),
        admission_record: admission(claim, false),
    }
}

fn supersedes(from: &str, to: &str, target_slot: Option<&str>) -> RelationColumns {
    RelationColumns {
        from_claim_id: from.into(),
        kind: "supersedes".into(),
        to_kind: "claim".into(),
        to_id: to.into(),
        document: "{}".into(),
        supersedes_claim: true,
        target_slot: target_slot.map(str::to_owned),
    }
}

#[test]
fn an_append_stages_claim_source_admission_and_work_in_one_batch() {
    let mut txn = TxnBuilder::new();
    let batch = vec![append("c-1", "slot-a")];
    let corrections = ClaimRepo::stage_append(&mut txn, &batch, 10, Envelope { bytes: vec![1] })
        .expect("the append stages");
    assert!(corrections.is_empty());
    // scope, next tx, claim, one source, one admission, the outbox work.
    assert_eq!(txn.len(), 6);
}

#[test]
fn an_empty_append_batch_is_refused() {
    let mut txn = TxnBuilder::new();
    assert!(matches!(
        ClaimRepo::stage_append(&mut txn, &Vec::new(), 10, Envelope { bytes: vec![] }),
        Err(Error::Validation(_))
    ));
    assert_eq!(txn.len(), 0);
}

#[test]
fn a_supersession_stays_within_its_slot() {
    // Within the batch: the target is found there, in the same slot.
    let mut second = append("c-2", "slot-a");
    second.relations.push(supersedes("c-2", "c-1", None));
    second.admission_record.is_correction = true;
    let mut txn = TxnBuilder::new();
    let batch = vec![append("c-1", "slot-a"), second];
    assert!(ClaimRepo::stage_append(&mut txn, &batch, 10, Envelope { bytes: vec![] })
        .map(|c| c == vec![1])
        .unwrap_or(false));

    // Across slots: refused.
    let mut crossing = append("c-3", "slot-b");
    crossing.relations.push(supersedes("c-3", "c-1", Some("slot-a")));
    let mut txn = TxnBuilder::new();
    assert!(matches!(
        ClaimRepo::stage_append(&mut txn, &vec![crossing], 10, Envelope { bytes: vec![] }),
        Err(Error::Validation(m)) if m == "supersession cannot cross a scope, subject, predicate, or slot"
    ));
    assert_eq!(txn.len(), 0);

    // A target nobody holds: refused.
    let mut dangling = append("c-4", "slot-a");
    dangling.relations.push(supersedes("c-4", "c-404", None));
    let mut txn = TxnBuilder::new();
    assert!(matches!(
        ClaimRepo::stage_append(&mut txn, &vec![dangling], 10, Envelope { bytes: vec![] }),
        Err(Error::Validation(m)) if m.contains("cannot cross")
    ));
}

#[test]
fn a_refused_valid_time_or_an_oversized_number_is_refused() {
    let mut bad_time = append("c-1", "slot-a");
    bad_time.time_error = Some("valid time precedes its start".into());
    let mut txn = TxnBuilder::new();
    assert!(matches!(
        ClaimRepo::stage_append(&mut txn, &vec![bad_time], 10, Envelope { bytes: vec![] }),
        Err(Error::Validation(m)) if m == "valid time precedes its start"
    ));
    let mut big = append("c-1", "slot-a");
    big.source_seq = Some(u64::MAX);
    let mut txn = TxnBuilder::new();
    assert!(matches!(
        ClaimRepo::stage_append(&mut txn, &vec![big], 10, Envelope { bytes: vec![] }),
        Err(Error::Validation(m)) if m == "source sequence exceeds SQLite INTEGER"
    ));
    let mut txn = TxnBuilder::new();
    assert!(matches!(
        ClaimRepo::stage_append(&mut txn, &vec![append("c-1", "s")], u64::MAX, Envelope { bytes: vec![] }),
        Err(Error::Validation(m)) if m == "time exceeds SQLite INTEGER"
    ));
    // A later claim's refusal stages nothing of the earlier ones.
    let mut late = append("c-2", "slot-a");
    late.time_error = Some("valid time precedes its start".into());
    let mut txn = TxnBuilder::new();
    assert!(ClaimRepo::stage_append(&mut txn, &vec![append("c-1", "slot-a"), late], 10, Envelope { bytes: vec![] }).is_err());
    assert_eq!(txn.len(), 0);
    assert!(sql_time(u64::MAX).is_err());
    assert_eq!(sql_time(42).unwrap(), 42);
}

#[test]
fn a_claim_erasure_keeps_a_tombstone_and_scrubs_admission_evidence() {
    let mut txn = TxnBuilder::new();
    ClaimRepo::stage_erase(&mut txn, &traveler(), &subject(), "c-1");
    let steps = txn.into_steps();
    assert_eq!(steps.len(), 3);
    match &steps[2] {
        aicortex_store::sql::Step::Sql(st) => {
            assert!(st.sql.starts_with("UPDATE claim_admission SET evidence = '[]', relations = '[]'"));
            assert_eq!(st.params.len(), 2);
        }
        _ => panic!("the admission scrub is a statement"),
    }
}

#[test]
fn a_retraction_takes_the_next_transaction_number() {
    let mut txn = TxnBuilder::new();
    ClaimRepo::stage_retraction(&mut txn, &traveler(), "c-1", 100, "{}").unwrap();
    assert_eq!(txn.len(), 2);
    let mut txn = TxnBuilder::new();
    assert!(matches!(ClaimRepo::stage_retraction(&mut txn, &traveler(), "c-1", u64::MAX, "{}"), Err(Error::Validation(_))));
}

#[test]
fn a_history_page_is_bounded_and_names_its_scope_and_subject() {
    let scope = traveler();
    assert!(matches!(
        ClaimRepo::history_statement(&scope, &subject(), None, &TxBound::Sequence(10), 0, 0),
        Err(Error::Validation(m)) if m == "claim history limit 0 is not between 1 and 500"
    ));
    assert!(ClaimRepo::history_statement(&scope, &subject(), None, &TxBound::Sequence(10), 0, MAX_CLAIM_PAGE_ROWS + 1).is_err());
    assert!(ClaimRepo::history_statement(&scope, &subject(), None, &TxBound::Sequence(u64::MAX), 0, 10).is_err());
    assert!(ClaimRepo::history_statement(&scope, &subject(), None, &TxBound::RecordedAt(u64::MAX), 0, 10).is_err());
    assert!(ClaimRepo::history_statement(&scope, &subject(), None, &TxBound::Sequence(10), u64::MAX, 10).is_err());
    let plain = ClaimRepo::history_statement(&scope, &subject(), None, &TxBound::Sequence(10), 2, 50).unwrap();
    assert!(plain.sql.ends_with("AND tx_seq > ?5 AND tx_seq <= ?6 ORDER BY tx_seq LIMIT ?7"));
    assert_eq!(plain.params.len(), 7);
    assert!(matches!(&plain.params[0], Value::Text(s) if s == ScopeId::of(&scope).as_str()));
    let predicate = PredicateKey { namespace: "travel".into(), name: "seat".into(), version: 2 };
    let narrowed = ClaimRepo::history_statement(&scope, &subject(), Some(&predicate), &TxBound::RecordedAt(99), 0, 50).unwrap();
    assert!(narrowed.sql.ends_with("AND recorded_at <= ?6 AND predicate_namespace = ?7 AND predicate_name = ?8 AND predicate_version = ?9 ORDER BY tx_seq LIMIT ?10"));
    assert_eq!(narrowed.params.len(), 10);
}

#[test]
fn a_full_history_page_continues_from_its_last_sequence() {
    assert_eq!(ClaimRepo::next_after(5, 5, Some(17)), Some(17));
    assert_eq!(ClaimRepo::next_after(4, 5, Some(17)), None);
    assert_eq!(ClaimRepo::next_after(5, 5, Some(-1)), None);
    assert_eq!(ClaimRepo::next_after(5, 5, None), None);
    assert_eq!(ClaimRepo::row_tx(3, 4).unwrap(), (3, 4));
    assert!(matches!(ClaimRepo::row_tx(-3, 4), Err(Error::Integrity(_))));
}

#[test]
fn a_relation_belongs_to_a_page_only_with_both_ends() {
    let page = vec!["c-1".to_owned(), "c-2".to_owned()];
    assert!(ClaimRepo::relation_in_page(&page, "c-1", Some("c-2")));
    assert!(ClaimRepo::relation_in_page(&page, "c-1", None));
    assert!(!ClaimRepo::relation_in_page(&page, "c-1", Some("c-9")));
    assert!(!ClaimRepo::relation_in_page(&page, "c-9", None));
}

#[test]
fn a_stored_claim_reads_back_only_when_its_columns_agree() {
    let live = ClaimRepo::live_columns("extracted", "extracted", 4, 5, Some(2), 1, 0).unwrap();
    assert_eq!((live.tx_seq, live.recorded_at, live.source_seq, live.hostile_content, live.origin_erased), (4, 5, Some(2), true, false));
    assert!(matches!(ClaimRepo::live_document("c-1", None), Err(Error::Integrity(m)) if m == "live claim c-1 has no document"));
    assert_eq!(ClaimRepo::live_document("c-1", Some("{}")).unwrap(), "{}");
    assert!(matches!(ClaimRepo::live_columns("a", "b", 1, 1, None, 0, 0), Err(Error::Integrity(_))));
    assert!(ClaimRepo::live_columns("a", "a", 1, 1, Some(-1), 0, 0).is_err());
    assert_eq!(ClaimRepo::tombstone_columns(2, 3, 4).unwrap(), (2, 3, 4));
    assert_eq!(ClaimRepo::live_positions(&vec![0, 1, 0, 0, 1]), vec![0, 2, 3]);
    assert!(ClaimRepo::live_positions(&vec![1, 1]).is_empty());
    assert!(ClaimRepo::tombstone_columns(-2, 3, 4).is_err());
    assert!(ClaimRepo::tombstone_columns(i64::MAX, 3, 4).is_err());
}

#[test]
fn an_admission_batch_names_its_corrections() {
    let mut txn = TxnBuilder::new();
    let batch = vec![admission("c-1", false), admission("c-2", true), admission("c-3", true)];
    assert_eq!(ClaimAdmissionRepo::stage_admit(&mut txn, &batch, 10).unwrap(), vec![1, 2]);
    assert_eq!(txn.len(), 3);
    let mut txn = TxnBuilder::new();
    assert!(matches!(ClaimAdmissionRepo::stage_admit(&mut txn, &Vec::new(), 10), Err(Error::Validation(_))));
    assert_eq!(ClaimAdmissionRepo::row_numbers(3, 4).unwrap(), (3, 4));
    assert!(ClaimAdmissionRepo::row_numbers(-1, 4).is_err());
    assert!(ClaimAdmissionRepo::row_numbers(1, -4).is_err());
}

#[test]
fn a_policy_is_registered_under_the_digest_of_its_document() {
    let document = "{\"policy\":1}";
    assert_eq!(policy_digest(document), format!("sha256:{}", sha256_hex(document.as_bytes())));
    let mut txn = TxnBuilder::new();
    let digest = ClaimAdmissionRepo::stage_policy(&mut txn, "travel.admission", 2, document, "registrar", 7);
    assert_eq!(digest, policy_digest(document));
    assert_eq!(txn.len(), 1);
}

#[test]
fn a_registration_stages_only_what_the_rule_allows() {
    let document = "{\"namespace\":\"travel\"}";
    let mut txn = TxnBuilder::new();
    match PredicateRegistryRepo::stage_register(&mut txn, RegistryCheck::New, "travel", 1, document, "registrar", 1_789_041_700).unwrap() {
        Registration::Registered(reg) => {
            assert_eq!(reg.namespace, "travel");
            assert_eq!(reg.version, 1);
            assert_eq!(reg.digest, format!("sha256:{}", sha256_hex(document.as_bytes())));
            assert_eq!(reg.reason, "registered predicate set travel@1");
        }
        Registration::Unchanged => panic!("a new version was not registered"),
    }
    assert_eq!(txn.len(), 1);
    let mut txn = TxnBuilder::new();
    assert!(matches!(PredicateRegistryRepo::stage_register(&mut txn, RegistryCheck::Unchanged, "travel", 1, document, "r", 1), Ok(Registration::Unchanged)));
    assert_eq!(txn.len(), 0, "a no-op stages nothing");
    assert!(matches!(
        PredicateRegistryRepo::stage_register(&mut txn, RegistryCheck::ConflictingVersion("different content".into()), "travel", 1, document, "r", 1),
        Err(Error::Conflict(_))
    ));
    assert!(matches!(
        PredicateRegistryRepo::stage_register(&mut txn, RegistryCheck::Refused { message: "a changed value type".into(), code: "value_type_changed".into() }, "travel", 2, document, "r", 1),
        Err(Error::Validation(m)) if m.contains("value_type_changed")
    ));
    assert!(matches!(
        PredicateRegistryRepo::stage_register(&mut txn, RegistryCheck::Refused { message: "a changed value type".into(), code: "value_type_changed".into() }, "travel", 2, document, "r", 1),
        Err(Error::Validation(m)) if m == "travel@2: a changed value type (value_type_changed)"
    ));
    assert!(matches!(
        PredicateRegistryRepo::stage_register(&mut txn, RegistryCheck::ConflictingVersion("different content".into()), "travel", 1, document, "r", 1),
        Err(Error::Conflict(m)) if m == "travel: different content"
    ));
    assert_eq!(txn.len(), 0);
    assert_eq!(document_digest(b"x"), format!("sha256:{}", sha256_hex(b"x")));
}

#[test]
fn a_proposal_is_appended_with_its_scope_row() {
    let mut txn = TxnBuilder::new();
    let p = ProposalColumns {
        proposal_id: "p-1".into(),
        scope: traveler(),
        claim_id: "c-1".into(),
        predicate: "travel.seat@1".into(),
        proposer: "sub-writer".into(),
        proposed_at: 120,
    };
    ClaimProposalRepo::stage_append(&mut txn, &p, "{}");
    assert_eq!(txn.len(), 2);
    let st = ClaimProposalRepo::get_statement(&traveler(), "p-1");
    assert_eq!(st.params.len(), 2);
}
