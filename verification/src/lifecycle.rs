//! The rest of a memory's life: a repeated capture
//! merges instead of duplicating, a replaced claim is superseded rather than
//! overwritten, a wrong claim is corrected by a memory that says who
//! corrected it, and a claim that was true until a date expires.
//!
//! Nothing here deletes: every operation is a status change or an append,
//! and every statement that changes a projected column rewrites the record
//! in the same statement.

use vstd::prelude::*;

use crate::counters::{adjust_step, Counters};
use crate::error::Error;
use crate::memory_repo::{body_bytes, capture_steps, MemoryRepo, MAX_PAGE_ROWS};
use crate::provenance_repo::{extractor_columns, positions_fit};
use crate::scope::{spec_scope_id, sql_seconds, seconds_to_sql, Scope, ScopeId};
use crate::sql::{
    binds_at, comparison, lemma_binds_found, opt_text, sql_step, text, Envelope, Statement, StepView,
    TxnBuilder, Value, ValueView,
};
use crate::text::{cat, cat3, decimal, lemma_small_decimals, spec_decimal};
use crate::types::{
    actor_kind_label, ids_contain, ids_view, kind_label, kind_of_label, opt_view, ActorKind, Memory, MemoryId,
    MemoryKind, Provenance, Status, TrustClass,
};

verus! {

/// The largest expiry batch a single leased pass will claim.
pub const MAX_EXPIRY_BATCH: u32 = 500;

/// The longest supersession chain the acyclicity walk will follow before it
/// presumes a cycle.
pub const MAX_CHAIN: u32 = 10000;

/// What a capture did.
#[derive(Clone, Copy, Debug, PartialEq, Eq)]
pub enum Captured {
    /// A new row, under the id the candidate carried.
    Inserted(MemoryId),
    /// The same content was already here, under this id.
    Merged(MemoryId),
}

impl Captured {
    /// The id the store holds this content under, however it got there.
    pub fn id(self) -> (id: MemoryId)
        ensures
            id == match self {
                Captured::Inserted(i) => i,
                Captured::Merged(i) => i,
            },
    {
        match self {
            Captured::Inserted(id) => id,
            Captured::Merged(id) => id,
        }
    }

    /// Whether this capture found the content already present.
    pub fn is_merge(self) -> (b: bool)
        ensures
            b == (self is Merged),
    {
        match self {
            Captured::Inserted(_) => false,
            Captured::Merged(_) => true,
        }
    }
}

/// What one expiry pass did.
#[derive(Clone, Copy, Debug, Default, PartialEq, Eq)]
pub struct Expired {
    /// How many memories moved to expired.
    pub memories: u64,
    /// Whether more were due than this batch claimed.
    pub more: bool,
}

/// Supersession, correction, expiry, and the merge half of capture.
#[derive(Clone, Copy, Debug, PartialEq, Eq)]
pub struct Lifecycle {
    repo: MemoryRepo,
}

impl Lifecycle {
    /// The repository's body ceiling.
    pub closed spec fn ceiling(&self) -> usize {
        self.repo.ceiling()
    }

    /// A lifecycle over the default memory repository.
    pub fn new() -> (l: Lifecycle)
        ensures
            l.ceiling() == crate::memory_repo::DEFAULT_MAX_BODY_BYTES,
    {
        Lifecycle { repo: MemoryRepo::new() }
    }

    /// The same, over a repository with a different body ceiling.
    pub fn with_repo(repo: MemoryRepo) -> (l: Lifecycle)
        ensures
            l.ceiling() == repo.ceiling(),
    {
        Lifecycle { repo }
    }
}

impl Default for Lifecycle {
    fn default() -> (l: Lifecycle)
        ensures
            l.ceiling() == crate::memory_repo::DEFAULT_MAX_BODY_BYTES,
    {
        Lifecycle::new()
    }
}

/// The merge: the record is rewritten only if it is still the one read and
/// the row has not been erased since; otherwise `NULL` lands in a `NOT NULL`
/// column and the whole transaction aborts.
pub const MERGE_SQL: &'static str = "UPDATE memory
    SET record = CASE WHEN record = ?5 AND status <> 'erased' THEN ?1 ELSE NULL END,
        updated = ?2
    WHERE scope_id = ?3 AND id = ?4";

/// One source of a memory, appended at the next free ordinal, which the
/// statement computes inside the transaction.
pub const SOURCE_SQL: &'static str = "INSERT INTO memory_source (
        memory_id, ordinal, scope_id, source_system, source_external_id,
        source_locator, captured_at, ingested_at, extractor_name, extractor_version
    ) VALUES (
        ?1,
        (SELECT COALESCE(MAX(ordinal), -1) + 1 FROM memory_source WHERE memory_id = ?1),
        ?2, ?3, ?4, ?5, ?6, ?7, ?8, ?9
    )";

/// The supersession, which repeats the cycle check and the record
/// comparison inside the committing transaction.
pub const SUPERSEDE_SQL: &'static str = "UPDATE memory
    SET status = 'superseded', superseded_by = ?1,
        record = CASE WHEN record = ?6 AND status <> 'erased' AND NOT EXISTS (
            WITH RECURSIVE successors(id) AS (
                VALUES (?1) UNION
                SELECT m.superseded_by FROM memory m JOIN successors s ON m.id = s.id
                WHERE m.scope_id = ?4 AND m.superseded_by IS NOT NULL
            ) SELECT 1 FROM successors WHERE id = ?5
        ) THEN ?2 ELSE NULL END, updated = ?3
    WHERE scope_id = ?4 AND id = ?5";

/// The forward direction of a supersession chain.
pub const SUCCESSOR_SQL: &'static str = "SELECT superseded_by AS id FROM memory
    WHERE scope_id = $1 AND id = $2 AND superseded_by IS NOT NULL";

/// The backward direction of a supersession chain.
pub const PREDECESSOR_SQL: &'static str = "SELECT id FROM memory
    WHERE scope_id = $1 AND superseded_by = $2";

/// The deadline a memory is true until.
pub const VALID_UNTIL_SQL: &'static str = "UPDATE memory SET valid_until = $1
    WHERE scope_id = $2 AND id = $3 AND status <> 'erased'";

/// The memories of one scope that are due to expire, oldest deadline first.
pub const DUE_SQL: &'static str = "SELECT id, kind FROM memory
    WHERE scope_id = $1 AND status = 'active'
      AND valid_until IS NOT NULL AND valid_until <= $2
    ORDER BY valid_until, id LIMIT $3";

/// The rows of a scope whose fingerprint column predates the current digest.
pub const REDIGEST_READ_SQL: &'static str = "SELECT id, record FROM memory
    WHERE scope_id = $1 AND status <> 'erased' AND fingerprint_version < 1 ORDER BY id LIMIT $2";

/// The write of one recomputed fingerprint, guarded by the record it was
/// computed from.
pub const REDIGEST_WRITE_SQL: &'static str = "UPDATE memory SET fingerprint = $1,
        fingerprint_version = CASE WHEN record = $2 THEN 1 ELSE NULL END
    WHERE scope_id = $3 AND id = $4 AND status <> 'erased'
      AND fingerprint_version < 1";

/// The texts of a list of strings.
pub open spec fn strings_view(v: Seq<String>) -> Seq<Seq<char>> {
    v.map_values(|s: String| s@)
}

/// The media of `existing` followed by each of `repeat`'s that it does not
/// already hold, in the order the repeat named them.
pub open spec fn media_union(existing: Seq<Seq<char>>, repeat: Seq<Seq<char>>) -> Seq<Seq<char>>
    decreases repeat.len(),
{
    if repeat.len() == 0 {
        existing
    } else {
        let before = media_union(existing, repeat.drop_last());
        if before.contains(repeat.last()) {
            before
        } else {
            before.push(repeat.last())
        }
    }
}

/// No text appears twice.
pub open spec fn no_duplicates(s: Seq<Seq<char>>) -> bool {
    forall|i: int, j: int| 0 <= i < j < s.len() ==> s[i] != s[j]
}

/// A merge's media are a union, not a push: everything the row held stays,
/// in its place, everything the repeat brought is there, nothing else is,
/// and a list without duplicates gains none.
pub proof fn lemma_media_union(existing: Seq<Seq<char>>, repeat: Seq<Seq<char>>)
    ensures
        media_union(existing, repeat).len() >= existing.len(),
        media_union(existing, repeat).subrange(0, existing.len() as int) == existing,
        forall|x: Seq<char>| #[trigger] repeat.contains(x) ==> media_union(existing, repeat).contains(x),
        forall|x: Seq<char>|
            #[trigger] media_union(existing, repeat).contains(x) ==> existing.contains(x) || repeat.contains(x),
        no_duplicates(existing) ==> no_duplicates(media_union(existing, repeat)),
    decreases repeat.len(),
{
    if repeat.len() == 0 {
        assert(existing.subrange(0, existing.len() as int) =~= existing);
    } else {
        let rest = repeat.drop_last();
        let last = repeat.last();
        lemma_media_union(existing, rest);
        let before = media_union(existing, rest);
        let after = media_union(existing, repeat);
        assert forall|x: Seq<char>| #[trigger] repeat.contains(x) implies after.contains(x) by {
            let k = choose|k: int| 0 <= k < repeat.len() && repeat[k] == x;
            if k < repeat.len() - 1 {
                assert(rest[k] == x);
                assert(rest.contains(x));
                assert(before.contains(x));
                if !before.contains(last) {
                    let m = choose|m: int| 0 <= m < before.len() && before[m] == x;
                    assert(after[m] == x);
                }
            } else {
                if !before.contains(last) {
                    assert(after[before.len() as int] == last);
                }
            }
        }
        assert forall|x: Seq<char>| #[trigger] after.contains(x) implies existing.contains(x) || repeat.contains(x) by {
            let m = choose|m: int| 0 <= m < after.len() && after[m] == x;
            if m < before.len() {
                assert(before[m] == x);
                assert(before.contains(x));
                if rest.contains(x) {
                    let k = choose|k: int| 0 <= k < rest.len() && rest[k] == x;
                    assert(repeat[k] == x);
                }
            } else {
                assert(x == last);
                assert(repeat[repeat.len() - 1] == x);
            }
        }
        if !before.contains(last) {
            assert(after.subrange(0, existing.len() as int) =~= before.subrange(0, existing.len() as int));
            if no_duplicates(existing) {
                assert forall|i: int, j: int| 0 <= i < j < after.len() implies after[i] != after[j] by {
                    if j == before.len() {
                        assert(before[i] == after[i]);
                        if after[i] == after[j] {
                            assert(before.contains(last));
                        }
                    }
                }
            }
        }
    }
}

/// What a merge makes of `existing`: `updated` moves forward to the repeat's
/// creation, the merge counts as one more use (saturating) at the repeat's
/// creation, the title is kept or else taken from the repeat, and the media
/// are unioned. Nothing else changes; in particular not the body text.
pub open spec fn merged(existing: Memory, repeat: Memory, m: Memory) -> bool {
    &&& m.id == existing.id
    &&& m.scope == existing.scope
    &&& m.kind == existing.kind
    &&& m.status == existing.status
    &&& m.trust == existing.trust
    &&& m.schema_version == existing.schema_version
    &&& m.body.text@ == existing.body.text@
    &&& m.actor == existing.actor
    &&& m.provenance == existing.provenance
    &&& m.created == existing.created
    &&& m.updated == if existing.updated < repeat.created { repeat.created } else { existing.updated }
    &&& m.uses == if existing.uses == u64::MAX { existing.uses } else { (existing.uses + 1) as u64 }
    &&& m.last_used == if existing.last_used < repeat.created {
        repeat.created
    } else {
        existing.last_used
    }
    &&& opt_view(m.body.title) == if existing.body.title is None {
        opt_view(repeat.body.title)
    } else {
        opt_view(existing.body.title)
    }
    &&& strings_view(m.body.media@) == media_union(
        strings_view(existing.body.media@),
        strings_view(repeat.body.media@),
    )
}

/// Whether `v` holds a string with the text of `s`.
fn strings_contain(v: &Vec<String>, s: &String) -> (r: bool)
    ensures
        r == strings_view(v@).contains(s@),
{
    let mut i: usize = 0;
    while i < v.len()
        invariant
            i <= v@.len(),
            forall|j: int| 0 <= j < i ==> v@[j]@ != s@,
        decreases v@.len() - i,
    {
        if v[i] == *s {
            assert(strings_view(v@)[i as int] == s@);
            return true;
        }
        i = i + 1;
    }
    proof {
        if strings_view(v@).contains(s@) {
            let k = choose|k: int| 0 <= k < strings_view(v@).len() && strings_view(v@)[k] == s@;
            assert(v@[k]@ == s@);
        }
    }
    false
}

/// Fold a repeated capture into the memory that already holds the content.
///
/// The body is not touched: the fingerprints matched, so the bodies are the
/// same claim. What a repeat can bring is a title the first capture did not
/// have, media the first capture did not reference, and the fact of having
/// been seen again.
pub fn merge_into(existing: &mut Memory, repeat: &Memory)
    ensures
        merged(*old(existing), *repeat, *final(existing)),
{
    if existing.updated < repeat.created {
        existing.updated = repeat.created;
    }
    existing.uses = existing.uses.saturating_add(1);
    if existing.last_used < repeat.created {
        existing.last_used = repeat.created;
    }
    if existing.body.title.is_none() {
        existing.body.title = match &repeat.body.title {
            Some(t) => Some(t.clone()),
            None => None,
        };
    }
    let ghost start = strings_view(existing.body.media@);
    let ghost fixed = *existing;
    let media = &repeat.body.media;
    let mut i: usize = 0;
    while i < media.len()
        invariant
            i <= media@.len(),
            existing.id == fixed.id,
            existing.scope == fixed.scope,
            existing.kind == fixed.kind,
            existing.status == fixed.status,
            existing.trust == fixed.trust,
            existing.schema_version == fixed.schema_version,
            existing.body.text == fixed.body.text,
            existing.body.title == fixed.body.title,
            existing.actor == fixed.actor,
            existing.provenance == fixed.provenance,
            existing.created == fixed.created,
            existing.updated == fixed.updated,
            existing.uses == fixed.uses,
            existing.last_used == fixed.last_used,
            media@ == repeat.body.media@,
            strings_view(existing.body.media@) == media_union(start, strings_view(media@.subrange(0, i as int))),
        decreases media@.len() - i,
    {
        let ghost before = existing.body.media@;
        assert(strings_view(media@.subrange(0, i + 1)).drop_last() =~= strings_view(media@.subrange(0, i as int)));
        if !strings_contain(&existing.body.media, &media[i]) {
            existing.body.media.push(media[i].clone());
            assert(strings_view(existing.body.media@) =~= strings_view(before).push(media@[i as int]@));
        }
        i = i + 1;
    }
    assert(media@.subrange(0, media@.len() as int) =~= media@);
}

/// The source-log row one capture appends.
pub open spec fn source_step(scope: Seq<char>, memory: MemoryId, p: Provenance) -> StepView {
    sql_step(
        SOURCE_SQL@,
        seq![
            text(memory.spec_text()),
            text(scope),
            text(p.source.system@),
            opt_text(opt_view(p.source.external_id)),
            opt_text(opt_view(p.source.locator)),
            ValueView::Integer(sql_seconds(p.captured_at)),
            ValueView::Integer(sql_seconds(p.ingested_at)),
            extractor_columns(p.extractor).0,
            extractor_columns(p.extractor).1,
        ],
    )
}

/// Stage one row in the per-capture source log.
pub fn stage_source(txn: &mut TxnBuilder, scope: &ScopeId, memory: MemoryId, provenance: &Provenance)
    ensures
        final(txn)@ == old(txn)@.push(source_step(scope@, memory, *provenance)),
{
    let (name, version) = match &provenance.extractor {
        Some(e) => (Value::Text(e.name.clone()), Value::Text(e.version.clone())),
        None => (Value::Null, Value::Null),
    };
    let st = Statement::with_params(
        SOURCE_SQL,
        vec![
            Value::Text(memory.to_text()),
            scope.value(),
            Value::Text(provenance.source.system.clone()),
            Value::opt_text(provenance.source.external_id.clone()),
            Value::opt_text(provenance.source.locator.clone()),
            Value::Integer(seconds_to_sql(provenance.captured_at)),
            Value::Integer(seconds_to_sql(provenance.ingested_at)),
            name,
            version,
        ],
    );
    assert(st@.params =~= source_step(scope@, memory, *provenance)->Sql_0.params);
    txn.push(st);
}

/// The merge statement over the record read (`expected`) and the record
/// after the merge.
pub open spec fn merge_step(scope: Seq<char>, existing: MemoryId, updated: u64, expected: Seq<char>, record: Seq<char>) -> StepView {
    sql_step(
        MERGE_SQL@,
        seq![
            text(record),
            ValueView::Integer(sql_seconds(updated)),
            text(scope),
            text(existing.spec_text()),
            text(expected),
        ],
    )
}

impl Lifecycle {
    /// Stage a capture that found no row holding its content: the insert of
    /// the memory with everything it carries, then its first source-log row.
    ///
    /// `record` is the memory's serialized record. Refused with
    /// [`Error::Validation`] whenever the repository's insert refuses.
    pub fn capture_insert(&self, txn: &mut TxnBuilder, memory: &Memory, record: &str, work: Envelope) -> (r: Result<Captured, Error>)
        ensures
            r is Ok <==> {
                &&& body_bytes(*memory) <= self.ceiling()
                &&& body_bytes(*memory) <= i64::MAX
                &&& positions_fit(memory.provenance.derived_from@)
            },
            r is Err ==> r->Err_0 is Validation,
            body_bytes(*memory) > self.ceiling() ==> final(txn)@ == old(txn)@,
            r is Ok ==> r == Ok::<Captured, Error>(Captured::Inserted(memory.id)) && final(txn)@
                == old(txn)@ + capture_steps(*memory, record@, work.bytes@).push(
                source_step(spec_scope_id(memory.scope), memory.id, memory.provenance),
            ),
    {
        proof {
            assert(ids_view(memory.provenance.derived_from@) =~= ids_view(memory.provenance.derived_from@));
        }
        match self.repo.insert(txn, memory, record, &memory.provenance, work) {
            Ok(()) => {},
            Err(e) => {
                return Err(e);
            },
        }
        let scope_id = ScopeId::of(&memory.scope);
        stage_source(txn, &scope_id, memory.id, &memory.provenance);
        Ok(Captured::Inserted(memory.id))
    }

    /// The row a merge folds into, as the read by its id found it.
    ///
    /// Refused with [`Error::Integrity`] when no row came back (the id holds
    /// a fingerprint but not a row), and with [`Error::Conflict`] when the
    /// row was erased before the merge.
    pub fn merge_target(existing_id: MemoryId, row: Option<Memory>) -> (r: Result<Memory, Error>)
        ensures
            row is None ==> (r matches Err(e) && e is Integrity && e->Integrity_0@ == "memory "@
                + existing_id.spec_text() + " holds a fingerprint but not a row"@),
            row matches Some(m) ==> if m.status is Erased {
                r matches Err(e) && e is Conflict && e->Conflict_0@ == "memory "@
                    + existing_id.spec_text() + " was erased before merge"@
            } else {
                r == Ok::<Memory, Error>(m)
            },
    {
        match row {
            None => Err(Error::Integrity(cat3(
                "memory ",
                existing_id.to_text().as_str(),
                " holds a fingerprint but not a row",
            ))),
            Some(m) => {
                if m.status.is_erased() {
                    Err(Error::Conflict(cat3("memory ", existing_id.to_text().as_str(), " was erased before merge")))
                } else {
                    Ok(m)
                }
            },
        }
    }

    /// Stage the merge of `repeat` into the row `existing_id` holds: the
    /// record rewrite guarded by the record read (`expected`), the repeat's
    /// source-log row, and the capture's outbox work, which a merge owes as
    /// much as an insert does.
    ///
    /// `merged` is the row after [`merge_into`]; `record` is its serialized
    /// record.
    pub fn stage_merge(txn: &mut TxnBuilder, repeat: &Memory, existing_id: MemoryId, merged: &Memory, expected: &str, record: &str, work: Envelope) -> (c: Captured)
        ensures
            c == Captured::Merged(existing_id),
            final(txn)@ == old(txn)@.push(
                merge_step(spec_scope_id(repeat.scope), existing_id, merged.updated, expected@, record@),
            ).push(source_step(spec_scope_id(repeat.scope), existing_id, repeat.provenance)).push(
                StepView::Outbox(work.bytes@),
            ),
    {
        let scope_id = ScopeId::of(&repeat.scope);
        let st = Statement::with_params(
            MERGE_SQL,
            vec![
                Value::text(record),
                Value::Integer(seconds_to_sql(merged.updated)),
                scope_id.value(),
                Value::Text(existing_id.to_text()),
                Value::text(expected),
            ],
        );
        assert(st@.params =~= merge_step(scope_id@, existing_id, merged.updated, expected@, record@)->Sql_0.params);
        txn.push(st);
        stage_source(txn, &scope_id, existing_id, &repeat.provenance);
        txn.stage_outbox(work);
        Captured::Merged(existing_id)
    }
}

/// Where the acyclicity walk of one supersession stands: the chain of
/// successors read so far from `new`, none of which is `old`.
pub struct SupersedeWalk {
    old: MemoryId,
    new: MemoryId,
    walker: MemoryId,
    steps: u32,
    chain: Ghost<Seq<MemoryId>>,
}

/// What one more successor read does to a walk.
pub enum WalkStep {
    /// The chain goes on; ask for the successor of the walk's next id.
    Continue(SupersedeWalk),
    /// The chain ended without reaching `old`: the supersession may be staged.
    Clear,
    /// The supersession is refused.
    Refused(Error),
}

impl SupersedeWalk {
    /// The memory being superseded.
    pub closed spec fn old_id(&self) -> MemoryId {
        self.old
    }

    /// The memory superseding it.
    pub closed spec fn new_id(&self) -> MemoryId {
        self.new
    }

    /// The successors read so far, in chain order, starting after `new`.
    pub closed spec fn chain(&self) -> Seq<MemoryId> {
        self.chain@
    }

    /// The id whose successor is asked for next: the last one read, or
    /// `new` before any was.
    pub closed spec fn at(&self) -> MemoryId {
        self.walker
    }

    /// What every walk keeps: `old` and `new` differ, `old` is not on the
    /// chain, the chain is no longer than [`MAX_CHAIN`], and the walk stands
    /// at its end.
    pub closed spec fn wf(&self) -> bool {
        &&& self.old.bytes@ != self.new.bytes@
        &&& !ids_view(self.chain@).contains(self.old.bytes@)
        &&& self.chain@.len() == self.steps
        &&& self.steps <= MAX_CHAIN
        &&& self.walker == if self.chain@.len() == 0 { self.new } else { self.chain@.last() }
    }

    /// Begin the walk for superseding `old` by `new`.
    ///
    /// Refused with [`Error::Validation`] when they are the same memory: a
    /// memory cannot supersede itself.
    pub fn start(old: MemoryId, new: MemoryId) -> (r: Result<SupersedeWalk, Error>)
        ensures
            r is Err <==> old.bytes@ == new.bytes@,
            r matches Err(e) ==> e is Validation && e->Validation_0@ == "memory "@ + old.spec_text()
                + " cannot supersede itself"@,
            r matches Ok(w) ==> {
                &&& w.wf()
                &&& w.old_id() == old
                &&& w.new_id() == new
                &&& w.chain() == Seq::<MemoryId>::empty()
                &&& w.at() == new
            },
    {
        if old.same(&new) {
            return Err(Error::Validation(cat3("memory ", old.to_text().as_str(), " cannot supersede itself")));
        }
        let w = SupersedeWalk { old, new, walker: new, steps: 0, chain: Ghost(Seq::empty()) };
        assert(ids_view(w.chain@) =~= Seq::<Seq<u8>>::empty());
        Ok(w)
    }

    /// The id whose successor the walk needs next.
    pub fn next_id(&self) -> (id: MemoryId)
        ensures
            id == self.at(),
    {
        self.walker
    }

    /// Take the successor read for [`Self::next_id`]: `None` when it has
    /// none.
    ///
    /// A successor that is `old` would close a cycle and is refused with
    /// [`Error::Validation`]; a chain longer than [`MAX_CHAIN`] is presumed
    /// cyclic and refused with [`Error::Integrity`].
    pub fn step(self, next: Option<MemoryId>) -> (r: WalkStep)
        requires
            self.wf(),
        ensures
            match next {
                None => r is Clear,
                Some(n) => if n.bytes@ == self.old_id().bytes@ {
                    r matches WalkStep::Refused(e) && e is Validation && e->Validation_0@
                        == "superseding "@ + self.old_id().spec_text() + " by "@
                        + self.new_id().spec_text() + " would close a supersession cycle"@
                } else if self.chain().len() + 1 > MAX_CHAIN {
                    r matches WalkStep::Refused(e) && e is Integrity && e->Integrity_0@
                        == "the supersession chain from "@ + self.new_id().spec_text()
                        + " is longer than "@ + spec_decimal(MAX_CHAIN as u64)
                        + " and is presumed cyclic"@
                } else {
                    r matches WalkStep::Continue(w) && w.wf() && w.old_id() == self.old_id()
                        && w.new_id() == self.new_id() && w.chain() == self.chain().push(n)
                        && w.at() == n
                },
            },
    {
        match next {
            None => WalkStep::Clear,
            Some(n) => {
                if n.same(&self.old) {
                    let mut m = cat3("superseding ", self.old.to_text().as_str(), " by ");
                    m.append(self.new.to_text().as_str());
                    m.append(" would close a supersession cycle");
                    return WalkStep::Refused(Error::Validation(m));
                }
                if self.steps >= MAX_CHAIN {
                    let mut m = cat3("the supersession chain from ", self.new.to_text().as_str(), " is longer than ");
                    m.append(decimal(MAX_CHAIN as u64).as_str());
                    m.append(" and is presumed cyclic");
                    return WalkStep::Refused(Error::Integrity(m));
                }
                let ghost chain = self.chain@.push(n);
                let w = SupersedeWalk {
                    old: self.old,
                    new: self.new,
                    walker: n,
                    steps: self.steps + 1,
                    chain: Ghost(chain),
                };
                assert(ids_view(chain) =~= ids_view(self.chain@).push(n.bytes@));
                WalkStep::Continue(w)
            },
        }
    }
}

/// A walk that is clear never reaches `old`: every successor it read from
/// `new` differs from `old`, and there were at most [`MAX_CHAIN`] of them.
pub proof fn lemma_walk_never_reaches_old(w: SupersedeWalk)
    requires
        w.wf(),
    ensures
        forall|i: int| 0 <= i < w.chain().len() ==> w.chain()[i].bytes@ != w.old_id().bytes@,
        w.new_id().bytes@ != w.old_id().bytes@,
        w.chain().len() <= MAX_CHAIN,
{
    assert forall|i: int| 0 <= i < w.chain().len() implies w.chain()[i].bytes@ != w.old_id().bytes@ by {
        assert(ids_view(w.chain())[i] == w.chain()[i].bytes@);
    }
}

/// The supersession statement over the record read (`expected`) and the
/// record after the change.
pub open spec fn supersede_step(scope: Seq<char>, old: MemoryId, new: MemoryId, at: u64, expected: Seq<char>, record: Seq<char>) -> StepView {
    sql_step(
        SUPERSEDE_SQL@,
        seq![
            text(new.spec_text()),
            text(record),
            ValueView::Integer(sql_seconds(at)),
            text(scope),
            text(old.spec_text()),
            text(expected),
        ],
    )
}

/// A supersession demotes the old row in favour of the new one: its
/// statement updates the row whose `id` is the superseded memory's, in its
/// scope, names the successor as `superseded_by`, writes the new record only
/// where the row still holds the record read, and stamps the moment.
pub proof fn lemma_supersession_demotes_the_old_row(scope: Scope, m: Memory, new: MemoryId, at: u64, expected: Seq<char>, record: Seq<char>)
    ensures
        ({
            let st = supersede_steps(scope, m, new, at, expected, record)[0]->Sql_0;
            &&& binds_at(st, comparison("id"@, '?'), text(m.id.spec_text()))
            &&& binds_at(st, comparison("scope_id"@, '?'), text(spec_scope_id(scope)))
            &&& binds_at(st, comparison("superseded_by"@, '?'), text(new.spec_text()))
            &&& binds_at(st, comparison("record"@, '?'), text(expected))
            &&& binds_at(st, " THEN ?"@, text(record))
            &&& binds_at(st, comparison("updated"@, '?'), ValueView::Integer(sql_seconds(at)))
        }),
{
    reveal_strlit("UPDATE memory
    SET status = 'superseded', superseded_by = ?1,
        record = CASE WHEN record = ?6 AND status <> 'erased' AND NOT EXISTS (
            WITH RECURSIVE successors(id) AS (
                VALUES (?1) UNION
                SELECT m.superseded_by FROM memory m JOIN successors s ON m.id = s.id
                WHERE m.scope_id = ?4 AND m.superseded_by IS NOT NULL
            ) SELECT 1 FROM successors WHERE id = ?5
        ) THEN ?2 ELSE NULL END, updated = ?3
    WHERE scope_id = ?4 AND id = ?5");
    reveal_strlit("id");
    reveal_strlit("scope_id");
    reveal_strlit("superseded_by");
    reveal_strlit("record");
    reveal_strlit(" THEN ?");
    reveal_strlit("updated");
    lemma_small_decimals();
    let st = supersede_steps(scope, m, new, at, expected, record)[0]->Sql_0;
    let sql = st.sql;
    assert(sql.subrange(425int, 433int) =~= comparison("id"@, '?') + spec_decimal(5));
    lemma_binds_found(st, comparison("id"@, '?'), 5, 425, text(m.id.spec_text()));
    assert(sql.subrange(489int, 503int) =~= comparison("scope_id"@, '?') + spec_decimal(4));
    lemma_binds_found(st, comparison("scope_id"@, '?'), 4, 489, text(spec_scope_id(scope)));
    assert(sql.subrange(44int, 63int) =~= comparison("superseded_by"@, '?') + spec_decimal(1));
    lemma_binds_found(st, comparison("superseded_by"@, '?'), 1, 44, text(new.spec_text()));
    assert(sql.subrange(91int, 103int) =~= comparison("record"@, '?') + spec_decimal(6));
    lemma_binds_found(st, comparison("record"@, '?'), 6, 91, text(expected));
    assert(sql.subrange(443int, 451int) =~= " THEN ?"@ + spec_decimal(2));
    lemma_binds_found(st, " THEN ?"@, 2, 443, text(record));
    assert(sql.subrange(466int, 479int) =~= comparison("updated"@, '?') + spec_decimal(3));
    lemma_binds_found(st, comparison("updated"@, '?'), 3, 466, ValueView::Integer(sql_seconds(at)));
}

/// A merge rewrites the row that holds the content with the merged record:
/// its statement updates the row whose `id` is the holder's, in its scope,
/// writes the merged record only where the row still holds the record read,
/// and stamps the merged `updated`.
pub proof fn lemma_merge_writes_the_merged_record(scope: Seq<char>, existing: MemoryId, updated: u64, expected: Seq<char>, record: Seq<char>)
    ensures
        ({
            let st = merge_step(scope, existing, updated, expected, record)->Sql_0;
            &&& binds_at(st, comparison("id"@, '?'), text(existing.spec_text()))
            &&& binds_at(st, comparison("scope_id"@, '?'), text(scope))
            &&& binds_at(st, comparison("record"@, '?'), text(expected))
            &&& binds_at(st, " THEN ?"@, text(record))
            &&& binds_at(st, comparison("updated"@, '?'), ValueView::Integer(sql_seconds(updated)))
        }),
{
    reveal_strlit("UPDATE memory
    SET record = CASE WHEN record = ?5 AND status <> 'erased' THEN ?1 ELSE NULL END,
        updated = ?2
    WHERE scope_id = ?3 AND id = ?4");
    reveal_strlit("id");
    reveal_strlit("scope_id");
    reveal_strlit("record");
    reveal_strlit(" THEN ?");
    reveal_strlit("updated");
    lemma_small_decimals();
    let st = merge_step(scope, existing, updated, expected, record)->Sql_0;
    let sql = st.sql;
    assert(sql.subrange(147int, 155int) =~= comparison("id"@, '?') + spec_decimal(4));
    lemma_binds_found(st, comparison("id"@, '?'), 4, 147, text(existing.spec_text()));
    assert(sql.subrange(129int, 143int) =~= comparison("scope_id"@, '?') + spec_decimal(3));
    lemma_binds_found(st, comparison("scope_id"@, '?'), 3, 129, text(scope));
    assert(sql.subrange(40int, 52int) =~= comparison("record"@, '?') + spec_decimal(5));
    lemma_binds_found(st, comparison("record"@, '?'), 5, 40, text(expected));
    assert(sql.subrange(75int, 83int) =~= " THEN ?"@ + spec_decimal(1));
    lemma_binds_found(st, " THEN ?"@, 1, 75, text(record));
    assert(sql.subrange(106int, 119int) =~= comparison("updated"@, '?') + spec_decimal(2));
    lemma_binds_found(st, comparison("updated"@, '?'), 2, 106, ValueView::Integer(sql_seconds(updated)));
}

/// Everything a supersession stages: the statement, and the counter moves
/// out of the old state and into the superseded one.
pub open spec fn supersede_steps(scope: Scope, m: Memory, new: MemoryId, at: u64, expected: Seq<char>, record: Seq<char>) -> Seq<StepView> {
    let id = spec_scope_id(scope);
    seq![
        supersede_step(id, m.id, new, at, expected, record),
        adjust_step(id, m.kind, m.status, -1i64),
        adjust_step(id, m.kind, Status::Superseded(new), 1i64),
    ]
}

/// The words of the first check a correction of `old` fails: its kind, then
/// its `derived_from`, then its grade given who wrote it.
pub open spec fn correction_refusal(c: Memory, old: MemoryId) -> Seq<char> {
    if c.kind != MemoryKind::Correction {
        "memory "@ + c.id.spec_text() + " corrects "@ + old.spec_text() + " but is a "@
            + kind_label(c.kind) + " rather than a correction"@
    } else if !ids_view(c.provenance.derived_from@).contains(old.bytes@) {
        "the correction "@ + c.id.spec_text() + " does not name "@ + old.spec_text()
            + " in derived_from"@
    } else {
        "the correction "@ + c.id.spec_text() + " was written by "@ + actor_kind_label(c.actor.kind)
            + " and cannot be instruction grade"@
    }
}

impl Lifecycle {
    /// The row a supersession demotes, as the read by its id found it.
    ///
    /// Refused with [`Error::Integrity`] when `id` is not a row of the
    /// scope, and with [`Error::Conflict`] when it has been erased.
    pub fn supersede_target(id: MemoryId, row: Option<Memory>) -> (r: Result<Memory, Error>)
        ensures
            row is None ==> (r matches Err(e) && e is Integrity && e->Integrity_0@ == "memory "@
                + id.spec_text() + " is not a row of this scope"@),
            row matches Some(m) ==> if m.status is Erased {
                r matches Err(e) && e is Conflict && e->Conflict_0@ == "memory "@ + id.spec_text()
                    + " has been erased and cannot be superseded"@
            } else {
                r == Ok::<Memory, Error>(m)
            },
    {
        match row {
            None => Err(Error::Integrity(cat3("memory ", id.to_text().as_str(), " is not a row of this scope"))),
            Some(m) => {
                if m.status.is_erased() {
                    Err(Error::Conflict(cat3(
                        "memory ",
                        id.to_text().as_str(),
                        " has been erased and cannot be superseded",
                    )))
                } else {
                    Ok(m)
                }
            },
        }
    }

    /// The memory after its supersession by `new` at `at`: the state names
    /// the successor and `updated` is the moment; nothing else changes.
    pub fn superseded(memory: Memory, new: MemoryId, at: u64) -> (m: Memory)
        ensures
            m == (Memory { status: Status::Superseded(new), updated: at, ..memory }),
    {
        let mut m = memory;
        m.status = Status::Superseded(new);
        m.updated = at;
        m
    }

    /// Stage the supersession of `memory` (the row read, before the change)
    /// by `new`: the guarded statement and the two counter moves.
    ///
    /// `expected` is the record read and `record` the record after
    /// [`Self::superseded`]. Refused with [`Error::Conflict`], staging
    /// nothing, when the row read has been erased.
    pub fn stage_supersede(txn: &mut TxnBuilder, scope: &Scope, memory: &Memory, new: MemoryId, at: u64, expected: &str, record: &str) -> (r: Result<(), Error>)
        ensures
            r is Err <==> memory.status is Erased,
            r matches Err(e) ==> e is Conflict && e->Conflict_0@ == "memory "@
                + memory.id.spec_text() + " has been erased and cannot be superseded"@
                && final(txn)@ == old(txn)@,
            r is Ok ==> final(txn)@ == old(txn)@ + supersede_steps(*scope, *memory, new, at, expected@, record@),
    {
        if memory.status.is_erased() {
            return Err(Error::Conflict(cat3(
                "memory ",
                memory.id.to_text().as_str(),
                " has been erased and cannot be superseded",
            )));
        }
        let scope_id = ScopeId::of(scope);
        let st = Statement::with_params(
            SUPERSEDE_SQL,
            vec![
                Value::Text(new.to_text()),
                Value::text(record),
                Value::Integer(seconds_to_sql(at)),
                scope_id.value(),
                Value::Text(memory.id.to_text()),
                Value::text(expected),
            ],
        );
        assert(st@.params =~= supersede_step(scope_id@, memory.id, new, at, expected@, record@)->Sql_0.params);
        txn.push(st);
        Counters::adjust(txn, &scope_id, memory.kind, &memory.status, -1);
        Counters::adjust(txn, &scope_id, memory.kind, &Status::Superseded(new), 1);
        assert(txn@ =~= old(txn)@ + supersede_steps(*scope, *memory, new, at, expected@, record@));
        Ok(())
    }

    /// Check that `correction` corrects `old`: it is a correction, its
    /// provenance names `old` in `derived_from`, and, unless a human wrote
    /// it, it is not instruction grade.
    ///
    /// Refused with [`Error::Validation`] when any of the three fails.
    pub fn check_correction(correction: &Memory, old: MemoryId) -> (r: Result<(), Error>)
        ensures
            r is Ok <==> {
                &&& correction.kind == MemoryKind::Correction
                &&& ids_view(correction.provenance.derived_from@).contains(old.bytes@)
                &&& !(correction.actor.kind != ActorKind::Human && correction.trust == TrustClass::Instruction)
            },
            r matches Err(e) ==> e is Validation && e->Validation_0@ == correction_refusal(*correction, old),
    {
        match correction.kind {
            MemoryKind::Correction => {},
            _ => {
                let mut m = cat3("memory ", correction.id.to_text().as_str(), " corrects ");
                m.append(old.to_text().as_str());
                m.append(" but is a ");
                m.append(correction.kind.label());
                m.append(" rather than a correction");
                return Err(Error::Validation(m));
            },
        }
        if !ids_contain(&correction.provenance.derived_from, &old) {
            let mut m = cat3("the correction ", correction.id.to_text().as_str(), " does not name ");
            m.append(old.to_text().as_str());
            m.append(" in derived_from");
            return Err(Error::Validation(m));
        }
        if !correction.actor.is_human() && correction.trust.is_actionable() {
            let mut m = cat3("the correction ", correction.id.to_text().as_str(), " was written by ");
            m.append(correction.actor.kind.label());
            m.append(" and cannot be instruction grade");
            return Err(Error::Validation(m));
        }
        Ok(())
    }

    /// The read of the memory that superseded `id`, when one did.
    pub fn successor_statement(scope: &Scope, id: MemoryId) -> (st: Statement)
        ensures
            st@.sql == SUCCESSOR_SQL@,
            st@.params == seq![text(spec_scope_id(*scope)), text(id.spec_text())],
    {
        let st = Statement::with_params(SUCCESSOR_SQL, vec![ScopeId::of(scope).value(), Value::Text(id.to_text())]);
        assert(st@.params =~= seq![text(spec_scope_id(*scope)), text(id.spec_text())]);
        st
    }

    /// The read of the memory `id` superseded, when it superseded one.
    pub fn predecessor_statement(scope: &Scope, id: MemoryId) -> (st: Statement)
        ensures
            st@.sql == PREDECESSOR_SQL@,
            st@.params == seq![text(spec_scope_id(*scope)), text(id.spec_text())],
    {
        let st = Statement::with_params(PREDECESSOR_SQL, vec![ScopeId::of(scope).value(), Value::Text(id.to_text())]);
        assert(st@.params =~= seq![text(spec_scope_id(*scope)), text(id.spec_text())]);
        st
    }

    /// Stage the deadline a memory is true until; `None` clears it.
    pub fn set_valid_until(txn: &mut TxnBuilder, scope: &Scope, id: MemoryId, until: Option<u64>)
        ensures
            final(txn)@ == old(txn)@.push(
                sql_step(
                    VALID_UNTIL_SQL@,
                    seq![
                        match until {
                            Some(t) => ValueView::Integer(sql_seconds(t)),
                            None => ValueView::Null,
                        },
                        text(spec_scope_id(*scope)),
                        text(id.spec_text()),
                    ],
                ),
            ),
    {
        let deadline = match until {
            Some(t) => Value::Integer(seconds_to_sql(t)),
            None => Value::Null,
        };
        let st = Statement::with_params(
            VALID_UNTIL_SQL,
            vec![deadline, ScopeId::of(scope).value(), Value::Text(id.to_text())],
        );
        assert(st@.params =~= seq![
            match until {
                Some(t) => ValueView::Integer(sql_seconds(t)),
                None => ValueView::Null,
            },
            text(spec_scope_id(*scope)),
            text(id.spec_text()),
        ]);
        txn.push(st);
    }
}

/// The statement views of a list of statements.
pub open spec fn statements_view(v: Seq<Statement>) -> Seq<crate::sql::StatementView> {
    v.map_values(|st: Statement| st@)
}

/// The text parameters of a list of ids.
pub open spec fn texts(ids: Seq<String>) -> Seq<ValueView> {
    ids.map_values(|s: String| text(s@))
}

/// Append one text parameter per id.
fn push_texts(params: &mut Vec<Value>, ids: &Vec<String>)
    ensures
        crate::sql::params_view(final(params)@) == crate::sql::params_view(old(params)@) + texts(ids@),
{
    let ghost start = crate::sql::params_view(params@);
    let mut i: usize = 0;
    while i < ids.len()
        invariant
            i <= ids@.len(),
            crate::sql::params_view(params@) == start + texts(ids@.subrange(0, i as int)),
        decreases ids@.len() - i,
    {
        let ghost before = params@;
        params.push(Value::Text(ids[i].clone()));
        assert(crate::sql::params_view(params@) =~= crate::sql::params_view(before).push(text(ids@[i as int]@)));
        i = i + 1;
        assert(texts(ids@.subrange(0, i as int)) =~= texts(ids@.subrange(0, i - 1)).push(text(ids@[i - 1]@)));
    }
    assert(ids@.subrange(0, ids@.len() as int) =~= ids@);
}

/// The number the placeholder at `index` carries after `offset` earlier
/// parameters: `index + offset + 1`, saturating at `usize::MAX`.
pub open spec fn placeholder_number(index: int, offset: usize) -> usize {
    let a: int = if index + offset > usize::MAX { usize::MAX as int } else { index + offset };
    if a + 1 > usize::MAX { usize::MAX } else { (a + 1) as usize }
}

/// `$n, $n+1, ...`: `count` placeholders numbered after `offset` earlier
/// parameters, joined by a comma and a space.
pub open spec fn spec_placeholders(count: nat, offset: usize) -> Seq<char>
    decreases count,
{
    if count == 0 {
        Seq::empty()
    } else if count == 1 {
        "$"@ + spec_decimal(placeholder_number(0, offset) as u64)
    } else {
        spec_placeholders((count - 1) as nat, offset) + ", $"@ + spec_decimal(
            placeholder_number(count - 1, offset) as u64,
        )
    }
}

/// A list of placeholders ends with the number of the last parameter it
/// names: after `offset` earlier ones, `count` more end at `offset + count`.
/// The expiry statements bind their scope and kind (or time and scope)
/// first, then one id per placeholder, so each binds exactly what it names.
pub proof fn lemma_placeholders_end_at_their_count(count: nat, offset: usize)
    requires
        count >= 1,
        count + offset + 1 <= usize::MAX,
    ensures
        exists|prefix: Seq<char>|
            spec_placeholders(count, offset) == prefix + "$"@ + spec_decimal((count + offset) as u64),
{
    if count == 1 {
        assert(spec_placeholders(count, offset) == Seq::<char>::empty() + "$"@ + spec_decimal((count + offset) as u64));
    } else {
        let prefix = spec_placeholders((count - 1) as nat, offset) + ", "@;
        assert(", $"@ =~= ", "@ + "$"@) by {
            reveal_strlit(", $");
            reveal_strlit(", ");
            reveal_strlit("$");
        }
        assert(spec_placeholders(count, offset) =~= prefix + "$"@ + spec_decimal((count + offset) as u64));
    }
}

/// `$n, $n+1, ...` for a list bound after `offset` earlier parameters.
pub fn placeholders(count: usize, offset: usize) -> (s: String)
    ensures
        s@ == spec_placeholders(count as nat, offset),
{
    let mut s = String::new();
    let mut i: usize = 0;
    while i < count
        invariant
            i <= count,
            s@ == spec_placeholders(i as nat, offset),
        decreases count - i,
    {
        if i == 0 {
            s.append("$");
        } else {
            s.append(", $");
        }
        let n = i.saturating_add(offset).saturating_add(1);
        s.append(decimal(n as u64).as_str());
        assert(s@ =~= spec_placeholders((i + 1) as nat, offset));
        i = i + 1;
    }
    s
}

/// The distinct kinds a list of kind labels names, in order of first
/// appearance, or `None` when one of them is not a kind.
pub open spec fn distinct_kinds(labels: Seq<Seq<char>>) -> Option<Seq<MemoryKind>>
    decreases labels.len(),
{
    if labels.len() == 0 {
        Some(Seq::empty())
    } else {
        match distinct_kinds(labels.drop_last()) {
            None => None,
            Some(ks) => match kind_of_label(labels.last()) {
                None => None,
                Some(k) => if ks.contains(k) {
                    Some(ks)
                } else {
                    Some(ks.push(k))
                },
            },
        }
    }
}

/// The counter rows an expiry pass materializes at zero before its fenced
/// batch: the expired and the active row of every kind it moves.
pub open spec fn prepare_steps(scope: Seq<char>, kinds: Seq<MemoryKind>) -> Seq<StepView>
    decreases kinds.len(),
{
    if kinds.len() == 0 {
        Seq::empty()
    } else {
        prepare_steps(scope, kinds.drop_last()) + seq![
            adjust_step(scope, kinds.last(), Status::Expired, 0i64),
            adjust_step(scope, kinds.last(), Status::Active, 0i64),
        ]
    }
}

/// The subquery counting the claimed rows of one kind that are still active.
pub open spec fn claimed_sql(list: Seq<char>) -> Seq<char> {
    "(SELECT COUNT(*) FROM memory WHERE scope_id = $1 AND kind = $2 AND status = 'active' AND id IN ("@
        + list + "))"@
}

/// The counter move out of `active` for one kind.
pub open spec fn leave_active_sql(list: Seq<char>) -> Seq<char> {
    "UPDATE scope_counter SET count = max(0, count - "@ + claimed_sql(list)
        + ") WHERE scope_id = $1 AND kind = $2 AND status = 'active'"@
}

/// The counter move into `expired` for one kind.
pub open spec fn enter_expired_sql(list: Seq<char>) -> Seq<char> {
    "UPDATE scope_counter SET count = count + "@ + claimed_sql(list)
        + " WHERE scope_id = $1 AND kind = $2 AND status = 'expired'"@
}

/// The status change itself, which rewrites the record in the same
/// statement.
pub open spec fn expire_sql(list: Seq<char>) -> Seq<char> {
    "UPDATE memory SET status = 'expired', updated = ?1, record = json_set(record, '$.status.state', 'expired', '$.updated', ?1) WHERE scope_id = ?2 AND status = 'active' AND id IN ("@
        + list + ")"@
}

/// The two counter statements of each kind, in the order of `kinds`.
pub open spec fn counter_moves(scope: Seq<char>, ids: Seq<String>, kinds: Seq<MemoryKind>) -> Seq<crate::sql::StatementView>
    decreases kinds.len(),
{
    if kinds.len() == 0 {
        Seq::empty()
    } else {
        let list = spec_placeholders(ids.len(), 2);
        let params = seq![text(scope), text(kind_label(kinds.last()))] + texts(ids);
        counter_moves(scope, ids, kinds.drop_last()) + seq![
            crate::sql::StatementView { sql: leave_active_sql(list), params },
            crate::sql::StatementView { sql: enter_expired_sql(list), params },
        ]
    }
}

/// The fenced batch of one expiry pass: the counter moves of every kind,
/// then the status change, which they run before.
pub open spec fn spec_expiry_statements(scope: Seq<char>, ids: Seq<String>, kinds: Seq<MemoryKind>, now: u64) -> Seq<crate::sql::StatementView> {
    counter_moves(scope, ids, kinds).push(
        crate::sql::StatementView {
            sql: expire_sql(spec_placeholders(ids.len(), 2)),
            params: seq![ValueView::Integer(sql_seconds(now)), text(scope)] + texts(ids),
        },
    )
}

/// Whether a batch size is one an expiry pass takes.
pub open spec fn legal_expiry_batch(batch: u32) -> bool {
    1 <= batch <= MAX_EXPIRY_BATCH
}

impl Lifecycle {
    /// Refuse a batch an expiry pass does not take.
    ///
    /// Refused with [`Error::Validation`] when `batch` is zero or above
    /// [`MAX_EXPIRY_BATCH`].
    pub fn check_expiry_batch(batch: u32) -> (r: Result<(), Error>)
        ensures
            r is Ok <==> legal_expiry_batch(batch),
            r matches Err(e) ==> e is Validation && e->Validation_0@ == "an expiry batch of "@
                + spec_decimal(batch as u64) + " is not between 1 and "@ + spec_decimal(
                MAX_EXPIRY_BATCH as u64,
            ),
    {
        if batch == 0 || batch > MAX_EXPIRY_BATCH {
            let mut m = cat("an expiry batch of ", decimal(batch as u64).as_str());
            m.append(" is not between 1 and ");
            m.append(decimal(MAX_EXPIRY_BATCH as u64).as_str());
            return Err(Error::Validation(m));
        }
        Ok(())
    }

    /// The read of the scope's due memories: one more than the batch, which
    /// is how the pass learns whether more are due without a second count.
    pub fn due_statement(scope: &ScopeId, now: u64, batch: u32) -> (st: Statement)
        ensures
            st@.sql == DUE_SQL@,
            st@.params == seq![text(scope@), ValueView::Integer(sql_seconds(now)), ValueView::Integer((batch + 1) as i64)],
    {
        let probe: i64 = batch as i64 + 1;
        let st = Statement::with_params(
            DUE_SQL,
            vec![scope.value(), Value::Integer(seconds_to_sql(now)), Value::Integer(probe)],
        );
        assert(st@.params =~= seq![text(scope@), ValueView::Integer(sql_seconds(now)), ValueView::Integer((batch + 1) as i64)]);
        st
    }

    /// The ids a pass claims from what the due read returned, and whether
    /// more were due than the batch holds.
    pub fn split_due(due: Vec<String>, batch: u32) -> (r: (Vec<String>, bool))
        ensures
            r.0@ == if due@.len() <= batch { due@ } else { due@.subrange(0, batch as int) },
            r.1 == (due@.len() > batch),
    {
        let more = due.len() > batch as usize;
        let mut claimed = due;
        if claimed.len() > batch as usize {
            claimed.truncate(batch as usize);
        }
        (claimed, more)
    }

    /// The read of the kinds of a batch of ids.
    pub fn kinds_statement(scope: &ScopeId, ids: &Vec<String>) -> (st: Statement)
        ensures
            st@.sql == "SELECT DISTINCT id, kind FROM memory WHERE scope_id = $1 AND id IN ("@
                + spec_placeholders(ids@.len(), 2) + ")"@,
            st@.params == seq![text(scope@)] + texts(ids@),
    {
        let mut sql = cat("SELECT DISTINCT id, kind FROM memory WHERE scope_id = $1 AND id IN (", placeholders(ids.len(), 2).as_str());
        sql.append(")");
        let mut params: Vec<Value> = vec![scope.value()];
        push_texts(&mut params, ids);
        Statement { sql, params }
    }

    /// The distinct kinds among the labels the kinds read returned, so the
    /// counter moves name each once.
    ///
    /// Refused with [`Error::Integrity`] when a row holds a label that is not
    /// a kind.
    pub fn kinds_from_rows(labels: &Vec<String>) -> (r: Result<Vec<MemoryKind>, Error>)
        ensures
            distinct_kinds(strings_view(labels@)) is None ==> (r matches Err(e) && e is Integrity),
            distinct_kinds(strings_view(labels@)) matches Some(ks) ==> (r matches Ok(v) && v@ == ks),
    {
        let mut kinds: Vec<MemoryKind> = Vec::new();
        let mut i: usize = 0;
        while i < labels.len()
            invariant
                i <= labels@.len(),
                distinct_kinds(strings_view(labels@.subrange(0, i as int))) == Some(kinds@),
            decreases labels@.len() - i,
        {
            assert(strings_view(labels@.subrange(0, i + 1)).drop_last() =~= strings_view(labels@.subrange(0, i as int)));
            assert(strings_view(labels@.subrange(0, i + 1)).last() == labels@[i as int]@);
            match MemoryKind::from_label(labels[i].as_str()) {
                None => {
                    proof {
                        assert(strings_view(labels@.subrange(0, i + 1)) =~= strings_view(labels@).subrange(0, i + 1));
                        lemma_distinct_kinds_none(strings_view(labels@), i + 1);
                    }
                    return Err(Error::Integrity(cat("memory holds an unknown kind ", labels[i].as_str())));
                },
                Some(k) => {
                    let mut seen = false;
                    let mut j: usize = 0;
                    while j < kinds.len()
                        invariant
                            j <= kinds@.len(),
                            seen == exists|m: int| 0 <= m < j && kinds@[m] == k,
                        decreases kinds@.len() - j,
                    {
                        if kinds[j] == k {
                            seen = true;
                        }
                        j = j + 1;
                    }
                    if !seen {
                        kinds.push(k);
                    }
                },
            }
            i = i + 1;
        }
        assert(labels@.subrange(0, labels@.len() as int) =~= labels@);
        Ok(kinds)
    }

    /// The batch that materializes the counter rows an expiry pass moves.
    pub fn prepare_counters(scope: &ScopeId, kinds: &Vec<MemoryKind>) -> (t: TxnBuilder)
        ensures
            t@ == prepare_steps(scope@, kinds@),
    {
        let mut t = TxnBuilder::new();
        let mut i: usize = 0;
        while i < kinds.len()
            invariant
                i <= kinds@.len(),
                t@ == prepare_steps(scope@, kinds@.subrange(0, i as int)),
            decreases kinds@.len() - i,
        {
            Counters::adjust(&mut t, scope, kinds[i], &Status::Expired, 0);
            Counters::adjust(&mut t, scope, kinds[i], &Status::Active, 0);
            i = i + 1;
            assert(kinds@.subrange(0, i as int).drop_last() =~= kinds@.subrange(0, i - 1));
        }
        assert(kinds@.subrange(0, kinds@.len() as int) =~= kinds@);
        t
    }

    /// The fenced batch of one expiry pass: for each kind the move out of
    /// `active` and the move into `expired`, then the status change. The
    /// counter statements count the rows the change is about to move, so
    /// they run before it.
    pub fn expiry_statements(scope: &ScopeId, ids: &Vec<String>, kinds: &Vec<MemoryKind>, now: u64) -> (v: Vec<Statement>)
        ensures
            statements_view(v@) == spec_expiry_statements(scope@, ids@, kinds@, now),
    {
        let list = placeholders(ids.len(), 2);
        let ghost l = list@;
        let mut v: Vec<Statement> = Vec::new();
        let mut i: usize = 0;
        while i < kinds.len()
            invariant
                i <= kinds@.len(),
                l == spec_placeholders(ids@.len(), 2),
                list@ == l,
                statements_view(v@) == counter_moves(scope@, ids@, kinds@.subrange(0, i as int)),
            decreases kinds@.len() - i,
        {
            let mut claimed = cat("(SELECT COUNT(*) FROM memory WHERE scope_id = $1 AND kind = $2 AND status = 'active' AND id IN (", list.as_str());
            claimed.append("))");
            let mut leave = cat("UPDATE scope_counter SET count = max(0, count - ", claimed.as_str());
            leave.append(") WHERE scope_id = $1 AND kind = $2 AND status = 'active'");
            let mut enter = cat("UPDATE scope_counter SET count = count + ", claimed.as_str());
            enter.append(" WHERE scope_id = $1 AND kind = $2 AND status = 'expired'");
            let mut p1: Vec<Value> = vec![scope.value(), Value::text(kinds[i].label())];
            push_texts(&mut p1, ids);
            let mut p2: Vec<Value> = vec![scope.value(), Value::text(kinds[i].label())];
            push_texts(&mut p2, ids);
            let ghost before = v@;
            proof {
                let pv = seq![text(scope@), text(kind_label(kinds@[i as int]))] + texts(ids@);
                assert(claimed@ =~= claimed_sql(l));
                assert(leave@ =~= leave_active_sql(l));
                assert(enter@ =~= enter_expired_sql(l));
                assert(crate::sql::params_view(p1@) =~= pv);
                assert(crate::sql::params_view(p2@) =~= pv);
            }
            v.push(Statement { sql: leave, params: p1 });
            v.push(Statement { sql: enter, params: p2 });
            i = i + 1;
            proof {
                assert(kinds@.subrange(0, i as int).drop_last() =~= kinds@.subrange(0, i - 1));
                assert(statements_view(v@) =~= statements_view(before) + seq![v@[v@.len() - 2]@, v@[v@.len() - 1]@]);
            }
        }
        assert(kinds@.subrange(0, kinds@.len() as int) =~= kinds@);
        let mut sql = cat("UPDATE memory SET status = 'expired', updated = ?1, record = json_set(record, '$.status.state', 'expired', '$.updated', ?1) WHERE scope_id = ?2 AND status = 'active' AND id IN (", list.as_str());
        sql.append(")");
        let mut params: Vec<Value> = vec![Value::Integer(seconds_to_sql(now)), scope.value()];
        push_texts(&mut params, ids);
        let ghost before = v@;
        proof {
            assert(sql@ =~= expire_sql(l));
            assert(crate::sql::params_view(params@) =~= seq![ValueView::Integer(sql_seconds(now)), text(scope@)] + texts(ids@));
        }
        v.push(Statement { sql, params });
        assert(statements_view(v@) =~= statements_view(before).push(v@.last()@));
        v
    }
}

/// A label that is not a kind, anywhere in the first `n`, leaves the whole
/// list without a kind set.
proof fn lemma_distinct_kinds_none(labels: Seq<Seq<char>>, n: int)
    requires
        0 < n <= labels.len(),
        kind_of_label(labels[n - 1]) is None,
    ensures
        distinct_kinds(labels) is None,
{
    assert(labels.subrange(0, n).last() == labels[n - 1]);
    lemma_distinct_kinds_prefix_none(labels, n);
}

/// A list whose prefix names no kind set names none either.
proof fn lemma_distinct_kinds_prefix_none(labels: Seq<Seq<char>>, n: int)
    requires
        0 <= n <= labels.len(),
        distinct_kinds(labels.subrange(0, n)) is None,
    ensures
        distinct_kinds(labels) is None,
    decreases labels.len() - n,
{
    if n == labels.len() {
        assert(labels.subrange(0, n) =~= labels);
    } else {
        assert(labels.subrange(0, n + 1).drop_last() =~= labels.subrange(0, n));
        lemma_distinct_kinds_prefix_none(labels, n + 1);
    }
}

/// What one expiry pass did, from the rows its status change moved (the
/// last statement of the batch, when one ran) and whether more were due.
pub fn expired_outcome(moved: Option<u64>, more: bool) -> (e: Expired)
    ensures
        e.memories == match moved {
            Some(n) => n,
            None => 0,
        },
        e.more == more,
{
    let memories = match moved {
        Some(n) => n,
        None => 0,
    };
    Expired { memories, more }
}

/// The sum of a list of row counts.
pub open spec fn spec_sum(counts: Seq<u64>) -> int
    decreases counts.len(),
{
    if counts.len() == 0 {
        0
    } else {
        spec_sum(counts.drop_last()) + counts.last()
    }
}

/// Whether a batch size is one a re-digest takes.
pub open spec fn legal_redigest_batch(batch: u32) -> bool {
    1 <= batch <= MAX_PAGE_ROWS
}

impl Lifecycle {
    /// Refuse a batch a re-digest does not take.
    ///
    /// Refused with [`Error::Validation`] when `batch` is zero or above
    /// [`MAX_PAGE_ROWS`].
    pub fn check_redigest_batch(batch: u32) -> (r: Result<(), Error>)
        ensures
            r is Ok <==> legal_redigest_batch(batch),
            r matches Err(e) ==> e is Validation && e->Validation_0@
                == "redigest requires a batch between 1 and "@ + spec_decimal(MAX_PAGE_ROWS as u64),
    {
        if batch == 0 || batch > MAX_PAGE_ROWS {
            return Err(Error::Validation(cat("redigest requires a batch between 1 and ", decimal(MAX_PAGE_ROWS as u64).as_str())));
        }
        Ok(())
    }

    /// The read of up to `limit` rows whose fingerprint predates the current
    /// digest.
    pub fn redigest_read_statement(scope: &ScopeId, limit: u32) -> (st: Statement)
        ensures
            st@.sql == REDIGEST_READ_SQL@,
            st@.params == seq![text(scope@), ValueView::Integer(limit as i64)],
    {
        let st = Statement::with_params(REDIGEST_READ_SQL, vec![scope.value(), Value::Integer(limit as i64)]);
        assert(st@.params =~= seq![text(scope@), ValueView::Integer(limit as i64)]);
        st
    }

    /// The write of one row's recomputed fingerprint, guarded by the record
    /// it was computed from.
    pub fn redigest_write_statement(scope: &ScopeId, id: &str, record: &str, digest: &str) -> (st: Statement)
        ensures
            st@.sql == REDIGEST_WRITE_SQL@,
            st@.params == seq![text(digest@), text(record@), text(scope@), text(id@)],
    {
        let st = Statement::with_params(
            REDIGEST_WRITE_SQL,
            vec![Value::text(digest), Value::text(record), scope.value(), Value::text(id)],
        );
        assert(st@.params =~= seq![text(digest@), text(record@), text(scope@), text(id@)]);
        st
    }

    /// How many rows a re-digest batch changed: the sum of its statements'
    /// row counts.
    pub fn rows_changed(affected: &Vec<u64>) -> (n: u64)
        requires
            spec_sum(affected@) <= u64::MAX,
        ensures
            n == spec_sum(affected@),
    {
        let mut n: u64 = 0;
        let mut i: usize = 0;
        while i < affected.len()
            invariant
                i <= affected@.len(),
                n == spec_sum(affected@.subrange(0, i as int)),
                spec_sum(affected@) <= u64::MAX,
            decreases affected@.len() - i,
        {
            proof {
                assert(affected@.subrange(0, i + 1).drop_last() =~= affected@.subrange(0, i as int));
                lemma_sum_prefix(affected@, i + 1);
            }
            n = n + affected[i];
            i = i + 1;
        }
        assert(affected@.subrange(0, affected@.len() as int) =~= affected@);
        n
    }

    /// The answer of a re-digest batch: what it changed, unless it changed
    /// nothing while rows are still pending, which means the batch moved
    /// concurrently and is refused with [`Error::Conflict`] rather than
    /// reported as converged.
    pub fn redigest_outcome(changed: u64, pending: bool) -> (r: Result<u64, Error>)
        ensures
            changed == 0 && pending ==> (r matches Err(e) && e is Conflict && e->Conflict_0@
                == "redigest batch moved concurrently; retry remaining work"@),
            !(changed == 0 && pending) ==> r == Ok::<u64, Error>(changed),
    {
        if changed == 0 && pending {
            return Err(Error::Conflict("redigest batch moved concurrently; retry remaining work".to_owned()));
        }
        Ok(changed)
    }
}

/// A prefix of a list of counts sums to no more than the list.
proof fn lemma_sum_prefix(counts: Seq<u64>, n: int)
    requires
        0 <= n <= counts.len(),
    ensures
        spec_sum(counts.subrange(0, n)) <= spec_sum(counts),
    decreases counts.len() - n,
{
    if n < counts.len() {
        lemma_sum_prefix(counts, n + 1);
        assert(counts.subrange(0, n + 1).drop_last() =~= counts.subrange(0, n));
    } else {
        assert(counts.subrange(0, n) =~= counts);
    }
}

/// The lease key the lifecycle passes of one scope serialize on.
pub fn lifecycle_lease_key(scope: &ScopeId) -> (k: String)
    ensures
        k@ == "aicortex.lifecycle."@ + scope@,
{
    cat("aicortex.lifecycle.", scope.as_str())
}

} // verus!
