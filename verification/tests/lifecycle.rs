use aicortex_store::counters::{CounterRow, Counters};
use aicortex_store::error::Error;
use aicortex_store::fingerprint::{self, of_normalized};
use aicortex_store::lifecycle::{
    expired_outcome, lifecycle_lease_key, merge_into, placeholders, Captured, Lifecycle,
    SupersedeWalk, WalkStep, MAX_CHAIN, MAX_EXPIRY_BATCH,
};
use aicortex_store::memory_repo::MemoryRepo;
use aicortex_store::scope::{Scope, ScopeId};
use aicortex_store::sql::{Envelope, TxnBuilder, Value};
use aicortex_store::types::{
    Actor, ActorKind, Memory, MemoryBody, MemoryId, MemoryKind, Provenance, SourceRef, Status,
    TrustClass,
};

fn scope(name: &str) -> Scope {
    Scope::personal(format!("sub-{name}"))
}

fn id(n: u8) -> MemoryId {
    let mut bytes = [0u8; 16];
    bytes[15] = n;
    bytes[6] = 0x70;
    bytes[8] = 0x80;
    MemoryId::from_bytes(bytes)
}

fn memory(scope: &Scope, n: u8, text: &str, created: u64) -> Memory {
    Memory {
        id: id(n),
        scope: scope.clone(),
        kind: MemoryKind::Observation,
        status: Status::Active,
        trust: TrustClass::Assertion,
        schema_version: 1,
        body: MemoryBody { text: text.to_owned(), title: None, media: Vec::new() },
        actor: Actor { kind: ActorKind::Human, id: "sub-writer".to_owned() },
        provenance: Provenance {
            source: SourceRef { system: "test".to_owned(), external_id: None, locator: None },
            captured_at: created,
            ingested_at: created,
            derived_from: Vec::new(),
            extractor: None,
        },
        created,
        updated: created,
        uses: 1,
        last_used: created,
    }
}

#[test]
fn a_fingerprint_separates_scopes_and_kinds() {
    let alice = scope("alice");
    let bob = scope("bob");
    assert_ne!(
        of_normalized(&alice, MemoryKind::Fact, "the sky is blue"),
        of_normalized(&bob, MemoryKind::Fact, "the sky is blue"),
    );
    assert_ne!(
        of_normalized(&alice, MemoryKind::Fact, "call the dentist"),
        of_normalized(&alice, MemoryKind::Task, "call the dentist"),
    );
    // That trailing whitespace does not change a fingerprint is the write
    // gate's normalization, which happens before the text reaches this
    // function and cannot be exercised here.
    assert_eq!(of_normalized(&alice, MemoryKind::Fact, "x").len(), 64);
}

#[test]
fn a_fingerprint_is_the_blake3_of_scope_kind_and_text() {
    let alice = scope("alice");
    let mut material = b"sub-alice".to_vec();
    material.push(0x1f);
    material.extend_from_slice(b"personal");
    material.push(0x1f);
    material.push(0x1f);
    material.extend_from_slice(b"fact");
    material.push(0x1f);
    material.extend_from_slice(b"the sky is blue");
    let expected = *blake3::hash(&material).as_bytes();
    assert_eq!(fingerprint::fingerprint(&alice, MemoryKind::Fact, "the sky is blue"), expected);
    let hex: String = expected.iter().map(|b| format!("{b:02x}")).collect();
    assert_eq!(fingerprint::hex(&expected), hex);
}

#[test]
fn b2_a_merge_unions_the_title_and_the_media_the_repeat_brought() {
    let alice = scope("alice");
    let mut first = memory(&alice, 1, "the invoice is paid", 1_700_000_000);
    first.body.media = vec!["sha256:aa".to_owned()];
    let mut repeat = memory(&alice, 2, "the invoice is paid", 1_700_000_900);
    repeat.body.title = Some("Invoice 4471".to_owned());
    repeat.body.media = vec!["sha256:aa".to_owned(), "sha256:bb".to_owned()];
    merge_into(&mut first, &repeat);
    assert_eq!(first.body.text, "the invoice is paid", "a merge never rewrites the body");
    assert_eq!(first.body.title.as_deref(), Some("Invoice 4471"));
    assert_eq!(first.body.media, vec!["sha256:aa".to_owned(), "sha256:bb".to_owned()], "the union is a union, not a push");
    assert_eq!(first.updated, 1_700_000_900);
    assert_eq!(first.id, id(1));
}

#[test]
fn a_merge_keeps_an_existing_title_and_a_later_update() {
    let alice = scope("alice");
    let mut first = memory(&alice, 1, "t", 1_700_000_000);
    first.body.title = Some("kept".to_owned());
    first.updated = 1_800_000_000;
    let mut repeat = memory(&alice, 2, "t", 1_700_000_500);
    repeat.body.title = Some("ignored".to_owned());
    merge_into(&mut first, &repeat);
    assert_eq!(first.body.title.as_deref(), Some("kept"));
    assert_eq!(first.updated, 1_800_000_000);
}

#[test]
fn a_merge_counts_as_one_more_use() {
    let alice = scope("alice");
    let mut first = memory(&alice, 1, "t", 1_700_000_000);
    let repeat = memory(&alice, 2, "t", 1_700_000_500);
    merge_into(&mut first, &repeat);
    assert_eq!((first.uses, first.last_used), (2, 1_700_000_500));
    let again = memory(&alice, 3, "t", 1_700_000_100);
    merge_into(&mut first, &again);
    assert_eq!((first.uses, first.last_used), (3, 1_700_000_500), "the last use never moves back");
    first.uses = u64::MAX;
    merge_into(&mut first, &again);
    assert_eq!(first.uses, u64::MAX);
}

#[test]
fn fr006_a_supersession_that_would_close_a_cycle_is_refused() {
    // A self-supersession is refused before anything is read.
    let refused = SupersedeWalk::start(id(1), id(1));
    assert!(matches!(refused, Err(Error::Validation(ref m)) if m.contains("cannot supersede itself")));
    // 2 -> 1 is in place; superseding 1 by 2 walks from 2 and finds 1.
    let walk = SupersedeWalk::start(id(1), id(2)).expect("a fresh supersession starts");
    assert_eq!(walk.next_id(), id(2));
    match walk.step(Some(id(1))) {
        WalkStep::Refused(Error::Validation(m)) => assert!(m.contains("supersession cycle")),
        _ => panic!("a cycle was not refused"),
    }
}

#[test]
fn a_walk_that_reaches_the_end_of_the_chain_is_clear() {
    let walk = SupersedeWalk::start(id(1), id(2)).unwrap();
    let walk = match walk.step(Some(id(3))) {
        WalkStep::Continue(w) => w,
        _ => panic!("the chain goes on"),
    };
    assert_eq!(walk.next_id(), id(3));
    assert!(matches!(walk.step(None), WalkStep::Clear));
}

#[test]
fn a_chain_longer_than_the_bound_is_presumed_cyclic() {
    let mut walk = SupersedeWalk::start(id(1), id(2)).unwrap();
    for step in 0..MAX_CHAIN {
        let next = MemoryId::from_bytes((step as u128 + 1000).to_be_bytes());
        walk = match walk.step(Some(next)) {
            WalkStep::Continue(w) => w,
            _ => panic!("refused early at {step}"),
        };
    }
    assert!(matches!(walk.step(Some(id(9))), WalkStep::Refused(Error::Integrity(_))));
}

#[test]
fn a_supersession_stages_the_change_and_both_counter_moves() {
    let alice = scope("alice");
    let old = memory(&alice, 1, "the standup is at nine", 1_700_000_000);
    let mut txn = TxnBuilder::new();
    Lifecycle::stage_supersede(&mut txn, &alice, &old, id(2), 1_700_000_500, "{old}", "{new}").expect("it stages");
    assert_eq!(txn.len(), 3);
    let after = Lifecycle::superseded(old.clone(), id(2), 1_700_000_500);
    assert_eq!(after.status, Status::Superseded(id(2)));
    assert_eq!(after.updated, 1_700_000_500);
    assert_eq!(after.body, old.body);

    let mut erased = old.clone();
    erased.status = Status::Erased;
    let mut txn = TxnBuilder::new();
    assert!(matches!(
        Lifecycle::stage_supersede(&mut txn, &alice, &erased, id(2), 1, "a", "b"),
        Err(Error::Conflict(_))
    ));
    assert_eq!(txn.len(), 0, "a refusal stages nothing");
}

#[test]
fn a_supersession_target_must_exist_and_not_be_erased() {
    let alice = scope("alice");
    assert!(matches!(Lifecycle::supersede_target(id(1), None), Err(Error::Integrity(_))));
    let mut m = memory(&alice, 1, "x", 1);
    assert!(Lifecycle::supersede_target(id(1), Some(m.clone())).is_ok());
    m.status = Status::Erased;
    assert!(matches!(Lifecycle::supersede_target(id(1), Some(m)), Err(Error::Conflict(_))));
}

#[test]
fn b4_a_correction_that_does_not_correct_is_refused() {
    let alice = scope("alice");
    let old = id(1);
    let mut fact = memory(&alice, 2, "the release shipped on wednesday", 1_700_000_500);
    fact.kind = MemoryKind::Fact;
    fact.provenance.derived_from = vec![old];
    assert!(matches!(Lifecycle::check_correction(&fact, old), Err(Error::Validation(ref m)) if m.contains("rather than a correction")), "a fact is not a correction");

    let mut unnamed = memory(&alice, 3, "actually it was wednesday", 1_700_000_600);
    unnamed.kind = MemoryKind::Correction;
    assert!(matches!(Lifecycle::check_correction(&unnamed, old), Err(Error::Validation(ref m)) if m.contains("does not name")), "a correction that names nothing is refused");

    let mut agent = memory(&alice, 4, "actually it was thursday", 1_700_000_700);
    agent.kind = MemoryKind::Correction;
    agent.provenance.derived_from = vec![old];
    agent.actor = Actor { kind: ActorKind::Agent, id: "agent:summarizer".to_owned() };
    agent.trust = TrustClass::Instruction;
    assert!(matches!(Lifecycle::check_correction(&agent, old), Err(Error::Validation(ref m)) if m.contains("cannot be instruction grade")), "an agent cannot make an instruction-grade correction");

    agent.trust = TrustClass::Assertion;
    assert!(Lifecycle::check_correction(&agent, old).is_ok());
    let mut human = agent.clone();
    human.actor = Actor { kind: ActorKind::Human, id: "sub-alice".to_owned() };
    human.trust = TrustClass::Instruction;
    assert!(Lifecycle::check_correction(&human, old).is_ok());
}

#[test]
fn b5_an_unbounded_expiry_batch_is_refused() {
    let refused = Lifecycle::check_expiry_batch(MAX_EXPIRY_BATCH + 1);
    assert!(matches!(refused, Err(Error::Validation(ref m)) if m.contains("is not between 1 and")), "an out-of-range batch is refused");
    assert!(Lifecycle::check_expiry_batch(0).is_err());
    assert!(Lifecycle::check_expiry_batch(MAX_EXPIRY_BATCH).is_ok(), "the largest legal batch runs");
}

#[test]
fn the_due_read_asks_for_one_more_than_the_batch() {
    let alice = ScopeId::of(&scope("alice"));
    let st = Lifecycle::due_statement(&alice, 1_700_100_000, 2);
    assert!(matches!(st.params[2], Value::Integer(3)));
    let (claimed, more) = Lifecycle::split_due(vec!["a".into(), "b".into(), "c".into()], 2);
    assert_eq!(claimed, vec!["a".to_owned(), "b".to_owned()]);
    assert!(more, "two of three due leaves more to do");
    let (claimed, more) = Lifecycle::split_due(vec!["a".into()], 2);
    assert_eq!(claimed, vec!["a".to_owned()]);
    assert!(!more);
}

#[test]
fn placeholders_are_numbered_after_the_earlier_parameters() {
    assert_eq!(placeholders(0, 2), "");
    assert_eq!(placeholders(1, 2), "$3");
    assert_eq!(placeholders(3, 2), "$3, $4, $5");
    assert_eq!(placeholders(2, 0), "$1, $2");
    assert_eq!(placeholders(2, 9), "$10, $11");
}

#[test]
fn the_kinds_of_a_batch_are_named_once_each() {
    let labels = vec!["fact".to_owned(), "task".to_owned(), "fact".to_owned()];
    let kinds = Lifecycle::kinds_from_rows(&labels).unwrap();
    assert_eq!(kinds, vec![MemoryKind::Fact, MemoryKind::Task]);
    assert!(matches!(Lifecycle::kinds_from_rows(&vec!["fact".to_owned(), "nonsense".to_owned()]), Err(Error::Integrity(_))));
}

#[test]
fn an_expiry_batch_moves_counters_before_the_rows() {
    let alice = ScopeId::of(&scope("alice"));
    let ids = vec!["a".to_owned(), "b".to_owned()];
    let kinds = vec![MemoryKind::Fact, MemoryKind::Task];
    let statements = Lifecycle::expiry_statements(&alice, &ids, &kinds, 1_700_100_000);
    assert_eq!(statements.len(), 5);
    assert!(statements[0].sql.starts_with("UPDATE scope_counter SET count = max(0, count - (SELECT COUNT(*)"));
    assert!(statements[0].sql.ends_with("AND id IN ($3, $4))) WHERE scope_id = $1 AND kind = $2 AND status = 'active'"));
    assert!(statements[1].sql.ends_with("WHERE scope_id = $1 AND kind = $2 AND status = 'expired'"));
    assert!(statements[4].sql.starts_with("UPDATE memory SET status = 'expired'"));
    assert!(statements[4].sql.ends_with("AND id IN ($3, $4)"));
    assert_eq!(statements[4].params.len(), 4);
    assert_eq!(statements[0].params.len(), 4);
    let prepare = Lifecycle::prepare_counters(&alice, &kinds);
    assert_eq!(prepare.len(), 4);
}

#[test]
fn an_expiry_pass_reports_what_its_last_statement_moved() {
    let e = expired_outcome(Some(2), true);
    assert_eq!(e.memories, 2);
    assert!(e.more);
    assert_eq!(expired_outcome(None, false).memories, 0);
}

#[test]
fn a_redigest_batch_that_moved_concurrently_is_refused() {
    assert!(Lifecycle::check_redigest_batch(0).is_err());
    assert!(Lifecycle::check_redigest_batch(501).is_err());
    assert!(Lifecycle::check_redigest_batch(500).is_ok());
    assert!(matches!(Lifecycle::redigest_outcome(0, true), Err(Error::Conflict(_))));
    assert_eq!(Lifecycle::redigest_outcome(0, false).unwrap(), 0);
    assert_eq!(Lifecycle::redigest_outcome(3, true).unwrap(), 3);
    assert_eq!(Lifecycle::rows_changed(&vec![1, 0, 2]), 3);
}

#[test]
fn a_capture_that_finds_no_holder_inserts_and_logs_its_source() {
    let alice = scope("alice");
    let m = memory(&alice, 1, "the standup moved to nine", 1_700_000_000);
    let mut txn = TxnBuilder::new();
    let captured = Lifecycle::new().capture_insert(&mut txn, &m, "{}", Envelope { bytes: vec![1] }).unwrap();
    assert_eq!(captured, Captured::Inserted(id(1)));
    assert!(!captured.is_merge());
    // scope, memory, provenance, counter, outbox, source.
    assert_eq!(txn.len(), 6);
    let small = Lifecycle::with_repo(MemoryRepo::new().with_max_body_bytes(3));
    let mut txn = TxnBuilder::new();
    assert!(small.capture_insert(&mut txn, &m, "{}", Envelope { bytes: vec![1] }).is_err());
    assert_eq!(txn.len(), 0);
}

#[test]
fn a_repeat_merges_into_the_row_that_holds_the_content() {
    let alice = scope("alice");
    let existing = memory(&alice, 1, "the standup moved to nine", 1_700_000_000);
    let repeat = memory(&alice, 2, "the standup moved to nine", 1_700_000_900);
    let target = Lifecycle::merge_target(id(1), Some(existing.clone())).unwrap();
    let mut merged = target;
    merge_into(&mut merged, &repeat);
    let mut txn = TxnBuilder::new();
    let captured = Lifecycle::stage_merge(&mut txn, &repeat, id(1), &merged, "{before}", "{after}", Envelope { bytes: vec![2] });
    assert_eq!(captured, Captured::Merged(id(1)));
    assert_eq!(captured.id(), id(1));
    assert_eq!(txn.len(), 3);
    assert!(matches!(Lifecycle::merge_target(id(1), None), Err(Error::Integrity(_))));
    let mut erased = existing;
    erased.status = Status::Erased;
    assert!(matches!(Lifecycle::merge_target(id(1), Some(erased)), Err(Error::Conflict(_))));
}

#[test]
fn a_deadline_is_set_and_cleared_by_one_statement() {
    let alice = scope("alice");
    let mut txn = TxnBuilder::new();
    Lifecycle::set_valid_until(&mut txn, &alice, id(1), Some(1_700_090_000));
    Lifecycle::set_valid_until(&mut txn, &alice, id(1), None);
    assert_eq!(txn.len(), 2);
}

#[test]
fn the_lifecycle_lease_is_per_scope() {
    let alice = ScopeId::of(&scope("alice"));
    assert_eq!(lifecycle_lease_key(&alice), format!("aicortex.lifecycle.{}", alice.as_str()));
}

#[test]
fn b6_stats_add_up_the_counter_rows() {
    let rows = vec![
        CounterRow { kind: "fact".into(), status: "active".into(), count: 2 },
        CounterRow { kind: "task".into(), status: "active".into(), count: 3 },
        CounterRow { kind: "fact".into(), status: "expired".into(), count: 1 },
    ];
    let stats = Counters::stats_from_rows(rows).unwrap();
    assert_eq!(stats.total, 6);
    assert_eq!(stats.by_kind, vec![("fact".to_owned(), 3), ("task".to_owned(), 3)]);
    assert_eq!(stats.by_status, vec![("active".to_owned(), 5), ("expired".to_owned(), 1)]);
    let negative = vec![CounterRow { kind: "fact".into(), status: "active".into(), count: -1 }];
    assert!(matches!(Counters::stats_from_rows(negative), Err(Error::Integrity(_))));
    let saturating = vec![
        CounterRow { kind: "fact".into(), status: "active".into(), count: i64::MAX },
        CounterRow { kind: "fact".into(), status: "active".into(), count: i64::MAX },
        CounterRow { kind: "fact".into(), status: "active".into(), count: i64::MAX },
    ];
    assert_eq!(Counters::stats_from_rows(saturating).unwrap().total, u64::MAX);
}

#[test]
fn stats_list_each_label_once_in_ascending_order() {
    let rows = vec![
        CounterRow { kind: "task".into(), status: "superseded".into(), count: 1 },
        CounterRow { kind: "observation".into(), status: "active".into(), count: 2 },
        CounterRow { kind: "fact".into(), status: "erased".into(), count: 4 },
        CounterRow { kind: "task".into(), status: "active".into(), count: 8 },
    ];
    let stats = Counters::stats_from_rows(rows).unwrap();
    assert_eq!(stats.by_kind, vec![("fact".to_owned(), 4), ("observation".to_owned(), 2), ("task".to_owned(), 9)]);
    assert_eq!(
        stats.by_status,
        vec![("active".to_owned(), 10), ("erased".to_owned(), 4), ("superseded".to_owned(), 1)],
    );
    let negative = vec![CounterRow { kind: "fact".into(), status: "active".into(), count: -1 }];
    assert!(matches!(
        Counters::stats_from_rows(negative),
        Err(Error::Integrity(m)) if m == "scope_counter holds a negative count for fact/active"
    ));
}

#[test]
fn a_refused_supersession_or_correction_says_which_memories() {
    let one = id(1).to_text();
    let two = id(2).to_text();
    assert!(matches!(SupersedeWalk::start(id(1), id(1)), Err(Error::Validation(m)) if m == format!("memory {one} cannot supersede itself")));
    match SupersedeWalk::start(id(1), id(2)).unwrap().step(Some(id(1))) {
        WalkStep::Refused(Error::Validation(m)) => assert_eq!(m, format!("superseding {one} by {two} would close a supersession cycle")),
        _ => panic!("a cycle was not refused"),
    }
    assert!(matches!(Lifecycle::supersede_target(id(1), None), Err(Error::Integrity(m)) if m == format!("memory {one} is not a row of this scope")));
    let alice = scope("alice");
    let mut erased = memory(&alice, 1, "x", 1_700_000_000);
    erased.status = Status::Erased;
    assert!(matches!(Lifecycle::supersede_target(id(1), Some(erased)), Err(Error::Conflict(m)) if m == format!("memory {one} has been erased and cannot be superseded")));

    let mut fact = memory(&alice, 2, "t", 1_700_000_500);
    fact.kind = MemoryKind::Fact;
    assert!(matches!(Lifecycle::check_correction(&fact, id(1)), Err(Error::Validation(m)) if m == format!("memory {two} corrects {one} but is a fact rather than a correction")));
    fact.kind = MemoryKind::Correction;
    assert!(matches!(Lifecycle::check_correction(&fact, id(1)), Err(Error::Validation(m)) if m == format!("the correction {two} does not name {one} in derived_from")));
    fact.provenance.derived_from = vec![id(1)];
    fact.actor = Actor { kind: ActorKind::Agent, id: "agent:x".to_owned() };
    fact.trust = TrustClass::Instruction;
    assert!(matches!(Lifecycle::check_correction(&fact, id(1)), Err(Error::Validation(m)) if m == format!("the correction {two} was written by agent and cannot be instruction grade")));
    assert!(matches!(Lifecycle::check_expiry_batch(0), Err(Error::Validation(m)) if m == format!("an expiry batch of 0 is not between 1 and {MAX_EXPIRY_BATCH}")));
}

#[test]
fn fr001_a_committed_capture_is_what_its_repeat_looks_up() {
    let alice = scope("alice");
    let m = memory(&alice, 1, "the standup moved to nine", 1_700_000_000);
    let repeat = memory(&alice, 2, "the standup moved to nine", 1_700_000_900);
    let mut txn = TxnBuilder::new();
    Lifecycle::new().capture_insert(&mut txn, &m, "{}", Envelope { bytes: vec![1] }).unwrap();
    let steps = txn.into_steps();
    let row = match &steps[1] {
        aicortex_store::sql::Step::Sql(st) => st,
        _ => panic!("the memory row is a statement"),
    };
    let lookup = MemoryRepo::fingerprint_statement(&ScopeId::of(&alice), &aicortex_store::memory_repo::fingerprint(&repeat));
    let text = |v: &Value| match v {
        Value::Text(t) => t.clone(),
        other => panic!("not text: {other:?}"),
    };
    assert_eq!(text(&row.params[1]), text(&lookup.params[0]), "the same scope");
    assert_eq!(text(&row.params[6]), text(&lookup.params[1]), "the same fingerprint");
    assert_eq!(text(&lookup.params[1]), of_normalized(&alice, MemoryKind::Observation, "the standup moved to nine"));
}
