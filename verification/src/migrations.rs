//! The schema, as an ordered list of versioned migrations.
//!
//! Each migration only creates tables and indexes, each statement with
//! `IF NOT EXISTS`, so a rerun against a store that already carries the
//! schema applies nothing. A migration that has shipped is never edited: a
//! mistake is a new migration with the next version.

use vstd::prelude::*;

use crate::text::cat;

verus! {

/// The coordination tables: the lease fence and the outbox.
pub const COORDINATION_VERSION: u32 = 1;

/// The memory schema: five tables and their three indexes.
pub const MEMORY_TABLES_VERSION: u32 = 2;

/// The digest-key table.
pub const DECISION_KEY_VERSION: u32 = 3;

/// The predicate registry.
pub const PREDICATE_REGISTRY_VERSION: u32 = 4;

/// Claim proposals, admission records and admission policies.
pub const CLAIM_ADMISSION_VERSION: u32 = 5;

/// The version an up-to-date store records: the highest in the list.
pub const EXPECTED_SCHEMA_VERSION: u32 = 5;

/// The scope a memory lives in, keyed by its derived id; the natural key is unique too.
pub const SCOPE_TABLE: &'static str = "CREATE TABLE IF NOT EXISTS scope (
    scope_id TEXT PRIMARY KEY,
    owner TEXT NOT NULL,
    kind TEXT NOT NULL,
    key TEXT NOT NULL,
    created INTEGER NOT NULL,
    UNIQUE (owner, kind, key)
)";

/// One memory per row, its record inline; every other column is a projection of the record.
pub const MEMORY_TABLE: &'static str = "CREATE TABLE IF NOT EXISTS memory (
    id TEXT PRIMARY KEY,
    scope_id TEXT NOT NULL REFERENCES scope (scope_id),
    status TEXT NOT NULL,
    superseded_by TEXT,
    kind TEXT NOT NULL,
    trust TEXT NOT NULL,
    fingerprint TEXT NOT NULL,
    schema_version INTEGER NOT NULL,
    body_bytes INTEGER NOT NULL,
    created INTEGER NOT NULL,
    updated INTEGER NOT NULL,
    record TEXT NOT NULL
)";

/// Where a memory came from, one row per memory, carrying its own scope.
pub const PROVENANCE_TABLE: &'static str = "CREATE TABLE IF NOT EXISTS provenance (
    memory_id TEXT PRIMARY KEY REFERENCES memory (id),
    scope_id TEXT NOT NULL,
    source_system TEXT NOT NULL,
    source_external_id TEXT,
    source_locator TEXT,
    captured_at INTEGER NOT NULL,
    ingested_at INTEGER NOT NULL,
    extractor_name TEXT,
    extractor_version TEXT
)";

/// `derived_from` as a child table, in the order the parents were named.
pub const DERIVATION_TABLE: &'static str = "CREATE TABLE IF NOT EXISTS memory_derivation (
    memory_id TEXT NOT NULL REFERENCES memory (id),
    parent_id TEXT NOT NULL,
    position INTEGER NOT NULL,
    scope_id TEXT NOT NULL,
    PRIMARY KEY (memory_id, parent_id)
)";

/// The aggregates, one row per scope, kind and state, maintained on the write path.
pub const COUNTER_TABLE: &'static str = "CREATE TABLE IF NOT EXISTS scope_counter (
    scope_id TEXT NOT NULL,
    kind TEXT NOT NULL,
    status TEXT NOT NULL,
    count INTEGER NOT NULL,
    PRIMARY KEY (scope_id, kind, status)
)";

/// The listing index: the keyset order inside one scope.
pub const LISTING_INDEX: &'static str = "CREATE INDEX IF NOT EXISTS memory_scope_status_created
    ON memory (scope_id, status, created DESC)";

/// Uniqueness of content among the memories that still exist.
pub const FINGERPRINT_INDEX: &'static str = "CREATE UNIQUE INDEX IF NOT EXISTS memory_scope_fingerprint
    ON memory (scope_id, fingerprint) WHERE status <> 'erased'";

/// What changed, by state, across scopes, for the curators.
pub const CURATOR_INDEX: &'static str = "CREATE INDEX IF NOT EXISTS memory_status_updated
    ON memory (status, updated)";

/// One Decision's digest key.
pub const DECISION_KEY_TABLE: &'static str = "CREATE TABLE IF NOT EXISTS decision_key (
    key_id TEXT PRIMARY KEY,
    scope_id TEXT NOT NULL,
    memory_id TEXT,
    algorithm TEXT NOT NULL,
    secret BLOB NOT NULL,
    created INTEGER NOT NULL
)";

/// Every key of a scope, and every key of a memory.
pub const DECISION_KEY_INDEX: &'static str = "CREATE INDEX IF NOT EXISTS decision_key_scope_memory
    ON decision_key (scope_id, memory_id)";

/// One registered version of one namespace's vocabulary.
pub const PREDICATE_REGISTRY_TABLE: &'static str = "CREATE TABLE IF NOT EXISTS predicate_registry (
    namespace TEXT NOT NULL,
    version INTEGER NOT NULL,
    digest TEXT NOT NULL,
    document TEXT NOT NULL,
    registered_by TEXT NOT NULL,
    registered_at INTEGER NOT NULL,
    PRIMARY KEY (namespace, version)
)";

/// One claim proposal, append-only.
pub const CLAIM_PROPOSAL_TABLE: &'static str = "CREATE TABLE IF NOT EXISTS claim_proposal (
    proposal_id TEXT PRIMARY KEY,
    scope_id TEXT NOT NULL,
    claim_id TEXT NOT NULL,
    predicate TEXT NOT NULL,
    proposer TEXT NOT NULL,
    proposed_at INTEGER NOT NULL,
    document TEXT NOT NULL
)";

/// The proposals of one claim in one scope.
pub const CLAIM_PROPOSAL_INDEX: &'static str = "CREATE INDEX IF NOT EXISTS claim_proposal_scope_claim
    ON claim_proposal (scope_id, claim_id)";

/// One admission, written with the claim it admits.
pub const CLAIM_ADMISSION_TABLE: &'static str = "CREATE TABLE IF NOT EXISTS claim_admission (
    claim_id TEXT PRIMARY KEY,
    scope_id TEXT NOT NULL,
    proposal_id TEXT NOT NULL,
    policy_id TEXT NOT NULL,
    policy_version INTEGER NOT NULL,
    authority TEXT NOT NULL,
    sourcing TEXT NOT NULL,
    verdict TEXT NOT NULL,
    evidence TEXT NOT NULL,
    relations TEXT NOT NULL,
    corrects TEXT NOT NULL,
    conflicts TEXT NOT NULL,
    admitted_at INTEGER NOT NULL
)";

/// The admission of one proposal in one scope.
pub const CLAIM_ADMISSION_INDEX: &'static str = "CREATE INDEX IF NOT EXISTS claim_admission_scope_proposal
    ON claim_admission (scope_id, proposal_id)";

/// One version of one admission policy.
pub const ADMISSION_POLICY_TABLE: &'static str = "CREATE TABLE IF NOT EXISTS admission_policy (
    policy_id TEXT NOT NULL,
    version INTEGER NOT NULL,
    digest TEXT NOT NULL,
    document TEXT NOT NULL,
    registered_by TEXT NOT NULL,
    registered_at INTEGER NOT NULL,
    PRIMARY KEY (policy_id, version)
)";

/// What a migration applies.
#[derive(Debug)]
pub enum MigrationBody {
    /// The store's own coordination tables, whose statements the store
    /// itself supplies.
    Coordination,
    /// These statements, joined by `;` and a newline.
    Sql(String),
}

/// One versioned migration.
#[derive(Debug)]
pub struct Migration {
    /// The version a store records once it is applied.
    pub version: u32,
    /// What it is, for a person reading the applied list.
    pub description: String,
    /// What it applies.
    pub body: MigrationBody,
    /// Whether it only adds tables and indexes.
    pub additive: bool,
}

/// `parts` joined by `;` and a newline.
pub open spec fn joined(parts: Seq<Seq<char>>) -> Seq<char>
    decreases parts.len(),
{
    if parts.len() == 0 {
        Seq::empty()
    } else if parts.len() == 1 {
        parts[0]
    } else {
        joined(parts.drop_last()) + ";\n"@ + parts.last()
    }
}

fn join(parts: &[&str]) -> (s: String)
    ensures
        s@ == joined(parts@.map_values(|p: &str| p@)),
{
    let ghost views = parts@.map_values(|p: &str| p@);
    let mut s = String::new();
    let mut i: usize = 0;
    while i < parts.len()
        invariant
            i <= parts@.len(),
            views == parts@.map_values(|p: &str| p@),
            s@ == joined(views.subrange(0, i as int)),
        decreases parts@.len() - i,
    {
        if i > 0 {
            s.append(";\n");
        }
        s.append(parts[i]);
        proof {
            let next = views.subrange(0, i + 1);
            assert(next.drop_last() =~= views.subrange(0, i as int));
            if i == 0 {
                assert(s@ =~= next[0]);
            }
        }
        i = i + 1;
    }
    assert(views.subrange(0, parts@.len() as int) =~= views);
    s
}

/// The statements of the memory schema.
pub open spec fn memory_schema_sql() -> Seq<char> {
    joined(
        seq![
            SCOPE_TABLE@,
            MEMORY_TABLE@,
            PROVENANCE_TABLE@,
            DERIVATION_TABLE@,
            COUNTER_TABLE@,
            LISTING_INDEX@,
            FINGERPRINT_INDEX@,
            CURATOR_INDEX@,
        ],
    )
}

/// The statements of the digest-key schema.
pub open spec fn decision_key_sql() -> Seq<char> {
    joined(seq![DECISION_KEY_TABLE@, DECISION_KEY_INDEX@])
}

/// The statements of the claim-admission schema.
pub open spec fn claim_admission_sql() -> Seq<char> {
    joined(
        seq![
            CLAIM_PROPOSAL_TABLE@,
            CLAIM_PROPOSAL_INDEX@,
            CLAIM_ADMISSION_TABLE@,
            CLAIM_ADMISSION_INDEX@,
            ADMISSION_POLICY_TABLE@,
        ],
    )
}

/// The migrations, in version order: versions one to
/// [`EXPECTED_SCHEMA_VERSION`] without a gap, each additive.
pub fn migrations() -> (v: Vec<Migration>)
    ensures
        v@.len() == 5,
        forall|i: int| 0 <= i < v@.len() ==> #[trigger] v@[i].version == i + 1,
        forall|i: int| 0 <= i < v@.len() ==> #[trigger] v@[i].additive,
        v@.last().version == EXPECTED_SCHEMA_VERSION,
        v@[0].version == COORDINATION_VERSION && v@[0].body is Coordination,
        v@[1].version == MEMORY_TABLES_VERSION,
        (v@[1].body matches MigrationBody::Sql(s) && s@
            == memory_schema_sql()),
        v@[2].version == DECISION_KEY_VERSION,
        (v@[2].body matches MigrationBody::Sql(s) && s@
            == decision_key_sql()),
        v@[3].version == PREDICATE_REGISTRY_VERSION,
        (v@[3].body matches MigrationBody::Sql(s) && s@
            == PREDICATE_REGISTRY_TABLE@),
        v@[4].version == CLAIM_ADMISSION_VERSION,
        (v@[4].body matches MigrationBody::Sql(s) && s@
            == claim_admission_sql()),
{
    let memory = [
        SCOPE_TABLE,
        MEMORY_TABLE,
        PROVENANCE_TABLE,
        DERIVATION_TABLE,
        COUNTER_TABLE,
        LISTING_INDEX,
        FINGERPRINT_INDEX,
        CURATOR_INDEX,
    ];
    let keys = [DECISION_KEY_TABLE, DECISION_KEY_INDEX];
    let claims = [
        CLAIM_PROPOSAL_TABLE,
        CLAIM_PROPOSAL_INDEX,
        CLAIM_ADMISSION_TABLE,
        CLAIM_ADMISSION_INDEX,
        ADMISSION_POLICY_TABLE,
    ];
    let m = join(&memory);
    let k = join(&keys);
    let c = join(&claims);
    proof {
        assert(memory@.map_values(|p: &str| p@) =~= seq![
            SCOPE_TABLE@,
            MEMORY_TABLE@,
            PROVENANCE_TABLE@,
            DERIVATION_TABLE@,
            COUNTER_TABLE@,
            LISTING_INDEX@,
            FINGERPRINT_INDEX@,
            CURATOR_INDEX@,
        ]);
        assert(keys@.map_values(|p: &str| p@) =~= seq![DECISION_KEY_TABLE@, DECISION_KEY_INDEX@]);
        assert(claims@.map_values(|p: &str| p@) =~= seq![
            CLAIM_PROPOSAL_TABLE@,
            CLAIM_PROPOSAL_INDEX@,
            CLAIM_ADMISSION_TABLE@,
            CLAIM_ADMISSION_INDEX@,
            ADMISSION_POLICY_TABLE@,
        ]);
    }
    let v = vec![
        Migration {
            version: COORDINATION_VERSION,
            description: cat("aicortex coordination", ""),
            body: MigrationBody::Coordination,
            additive: true,
        },
        Migration {
            version: MEMORY_TABLES_VERSION,
            description: cat("aicortex memory schema", ""),
            body: MigrationBody::Sql(m),
            additive: true,
        },
        Migration {
            version: DECISION_KEY_VERSION,
            description: cat("aicortex decision digest keys", ""),
            body: MigrationBody::Sql(k),
            additive: true,
        },
        Migration {
            version: PREDICATE_REGISTRY_VERSION,
            description: cat("aicortex predicate registry", ""),
            body: MigrationBody::Sql(PREDICATE_REGISTRY_TABLE.to_owned()),
            additive: true,
        },
        Migration {
            version: CLAIM_ADMISSION_VERSION,
            description: cat("aicortex claim admission", ""),
            body: MigrationBody::Sql(c),
            additive: true,
        },
    ];
    v
}

} // verus!
