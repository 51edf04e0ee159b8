//! Claim history: an append-only log of claims, their relations, their
//! sources and their retractions, each stamped with the scope's next
//! transaction number, and the erasure that leaves a tombstone in place.
//!
//! Whether a claim's valid time suits its predicate, and which slot a claim
//! fills, are the claim model's own rules; the results reach this module as
//! plain values, and what it decides from them is verified here.

use vstd::prelude::*;

use crate::claim_admission_repo::{admission_step, admission_steps, correction_positions, AdmissionColumns, ClaimAdmissionRepo};
use crate::error::Error;
use crate::scope::{ensure_step, spec_scope_id, Scope, ScopeId, ScopeRepo};
use crate::sql::{opt_text, sql_step, text, Envelope, Statement, StepView, TxnBuilder, Value, ValueView};
use crate::text::{bounds_message, cat, cat3, decimal, spec_decimal, str_eq};

verus! {

/// The refusal of a supersession whose target fills another slot, or none
/// that is known.
pub const CROSS_SLOT: &'static str = "supersession cannot cross a scope, subject, predicate, or slot";

/// The refusal of an empty append.
pub const EMPTY_APPEND: &'static str = "a claim append batch is empty";

/// The largest history page.
pub const MAX_CLAIM_PAGE_ROWS: u32 = 500;

/// The scope's next transaction number.
pub const NEXT_TX: &'static str = "INSERT INTO claim_tx_counter (scope_id, seq) VALUES (?1, 1)\n    ON CONFLICT (scope_id) DO UPDATE SET seq = claim_tx_counter.seq + 1";

/// One claim, stamped with the scope's current transaction number.
pub const INSERT_CLAIM: &'static str = "INSERT INTO claim_history\n    (claim_id, scope_id, subject_namespace, subject_kind, subject_key,\n     predicate_namespace, predicate_name, predicate_version, slot_key, tx_seq, recorded_at,\n     valid_time, source_time, source_seq, authority, sourcing, admission, supersession,\n     hostile_content, claim)\n    SELECT ?1, ?2, ?3, ?4, ?5, ?6, ?7, ?8, ?9, seq, ?10, ?11, ?12, ?13,\n           ?14, ?15, ?16, ?17, ?18, ?19\n    FROM claim_tx_counter WHERE scope_id = ?2";

/// One relation, stamped with the scope's current transaction number.
pub const INSERT_RELATION: &'static str = "INSERT INTO claim_relation\n    (scope_id, from_claim_id, relation_kind, to_kind, to_id, tx_seq, recorded_at,\n     authority, document)\n    SELECT ?1, ?2, ?3, ?4, ?5, seq, ?6, ?7, ?8\n    FROM claim_tx_counter WHERE scope_id = ?1";

/// One memory a claim was derived from.
pub const INSERT_SOURCE: &'static str = "INSERT INTO claim_source\n    (scope_id, claim_id, source_memory_id) VALUES (?1, ?2, ?3)";

/// One retraction, stamped with the scope's current transaction number.
pub const INSERT_RETRACTION: &'static str = "INSERT INTO claim_retraction\n    (scope_id, target_claim_id, tx_seq, recorded_at, document)\n    SELECT ?1, ?2, seq, ?3, ?4 FROM claim_tx_counter WHERE scope_id = ?1";

/// One claim or tombstone by id, under its scope and subject.
pub const GET_SQL: &'static str = "SELECT claim_id, tx_seq, recorded_at, valid_time, source_time, source_seq,\n                 authority, sourcing, admission, supersession, hostile_content, origin_erased,\n                 erased, claim, predicate_namespace, predicate_name, predicate_version\n                 FROM claim_history WHERE scope_id = ?1 AND subject_namespace = ?2\n                 AND subject_kind = ?3 AND subject_key = ?4 AND claim_id = ?5";

/// One tombstone by id, without its erased subject key.
pub const TOMBSTONE_SQL: &'static str = "SELECT claim_id, tx_seq, recorded_at, valid_time, source_time, source_seq,\n             authority, sourcing, admission, supersession, hostile_content, origin_erased,\n             erased, claim, predicate_namespace, predicate_name, predicate_version\n             FROM claim_history WHERE scope_id = ?1 AND subject_namespace = ?2\n             AND subject_kind = ?3 AND claim_id = ?4 AND erased = 1";

/// The erasure of a claim, which keeps a tombstone that names nobody.
pub const ERASE_CLAIM_SQL: &'static str = "UPDATE claim_history SET subject_key = '', slot_key = NULL, claim = NULL,\n             hostile_content = 0, origin_erased = 1, erased = 1\n             WHERE scope_id = ?1 AND subject_namespace = ?2 AND subject_kind = ?3\n             AND subject_key = ?4 AND claim_id = ?5 AND erased = 0";

/// The relations from an erased claim lose their documents.
pub const ERASE_RELATIONS_SQL: &'static str = "UPDATE claim_relation SET document = NULL\n             WHERE scope_id = ?1 AND from_claim_id = ?2";

/// The admission of an erased claim loses its evidence and relations.
pub const SCRUB_ADMISSION_SQL: &'static str = "UPDATE claim_admission SET evidence = '[]', relations = '[]'\n             WHERE scope_id = ?1 AND claim_id = ?2";

/// The base of a history page: scope, subject, and after the cursor.
pub const HISTORY_SQL: &'static str = "SELECT claim_id, tx_seq, recorded_at, valid_time, source_time, source_seq,\n             authority, sourcing, admission, supersession, hostile_content, origin_erased,\n             erased, claim, predicate_namespace, predicate_name, predicate_version\n             FROM claim_history WHERE scope_id = ?1 AND subject_namespace = ?2\n             AND subject_kind = ?3 AND subject_key = ?4 AND tx_seq > ?5";

/// The relations from a subject's claims, in transaction order.
pub const RELATIONS_SQL: &'static str = "SELECT document, tx_seq, recorded_at, authority FROM claim_relation\n                 WHERE scope_id = ?1 AND from_claim_id IN (\n                    SELECT claim_id FROM claim_history WHERE scope_id = ?1\n                    AND subject_namespace = ?2 AND subject_kind = ?3 AND subject_key = ?4\n                 ) ORDER BY tx_seq, from_claim_id, to_id";

/// The retractions of a subject's claims, in transaction order.
pub const RETRACTIONS_SQL: &'static str = "SELECT document, tx_seq, recorded_at, NULL AS authority FROM claim_retraction\n                 WHERE scope_id = ?1 AND target_claim_id IN (\n                    SELECT claim_id FROM claim_history WHERE scope_id = ?1\n                    AND subject_namespace = ?2 AND subject_kind = ?3 AND subject_key = ?4\n                 ) ORDER BY tx_seq, target_claim_id";

/// Whose claims: a subject within a namespace.
pub struct SubjectRef {
    /// The subject's namespace.
    pub namespace: String,
    /// The subject's kind.
    pub kind: String,
    /// The subject's key.
    pub key: String,
}

/// A predicate, by namespace, name and version.
pub struct PredicateKey {
    /// The namespace.
    pub namespace: String,
    /// The name.
    pub name: String,
    /// The version.
    pub version: u32,
}

/// How far back in transaction time a history reads.
pub enum TxBound {
    /// Up to and including this transaction number.
    Sequence(u64),
    /// Up to and including this recording time.
    RecordedAt(u64),
}

/// The claim table.
#[derive(Clone, Copy, Debug, Default, PartialEq, Eq)]
pub struct ClaimRepo;

/// A time as an SQLite `INTEGER`, when it fits.
pub open spec fn time_fits(at: u64) -> bool {
    at <= i64::MAX
}

/// A time as an SQLite `INTEGER`.
///
/// Refused with [`Error::Validation`] when it does not fit.
pub fn sql_time(at: u64) -> (r: Result<i64, Error>)
    ensures
        r is Ok <==> time_fits(at),
        r matches Ok(t) ==> t == at,
        r matches Err(e) ==> e is Validation && e->Validation_0@ == "time exceeds SQLite INTEGER"@,
{
    if at > i64::MAX as u64 {
        return Err(Error::Validation("time exceeds SQLite INTEGER".to_owned()));
    }
    Ok(at as i64)
}

/// The identity parameters of one claim under its scope and subject.
pub open spec fn identity(scope: Scope, subject: SubjectRef, claim_id: Seq<char>) -> Seq<ValueView> {
    seq![
        text(spec_scope_id(scope)),
        text(subject.namespace@),
        text(subject.kind@),
        text(subject.key@),
        text(claim_id),
    ]
}

/// What erasing one claim stages.
pub open spec fn erase_steps(scope: Scope, subject: SubjectRef, claim_id: Seq<char>) -> Seq<StepView> {
    seq![
        sql_step(ERASE_CLAIM_SQL@, identity(scope, subject, claim_id)),
        sql_step(ERASE_RELATIONS_SQL@, seq![text(spec_scope_id(scope)), text(claim_id)]),
        sql_step(SCRUB_ADMISSION_SQL@, seq![text(spec_scope_id(scope)), text(claim_id)]),
    ]
}

/// The next-transaction step of a scope.
pub open spec fn next_tx_step(scope: Seq<char>) -> StepView {
    sql_step(NEXT_TX@, seq![text(scope)])
}

impl ClaimRepo {
    /// The read of one claim or tombstone by id, under its scope and
    /// subject.
    pub fn get_statement(scope: &Scope, subject: &SubjectRef, claim_id: &str) -> (st: Statement)
        ensures
            st@.sql == GET_SQL@,
            st@.params == identity(*scope, *subject, claim_id@),
    {
        let st = Statement::with_params(
            GET_SQL,
            vec![
                ScopeId::of(scope).value(),
                Value::text(subject.namespace.as_str()),
                Value::text(subject.kind.as_str()),
                Value::text(subject.key.as_str()),
                Value::text(claim_id),
            ],
        );
        assert(st@.params =~= identity(*scope, *subject, claim_id@));
        st
    }

    /// The read of one tombstone by id: scope, subject namespace and kind
    /// are required, the erased key is not.
    pub fn tombstone_statement(scope: &Scope, subject: &SubjectRef, claim_id: &str) -> (st: Statement)
        ensures
            st@.sql == TOMBSTONE_SQL@,
            st@.params == seq![
                text(spec_scope_id(*scope)),
                text(subject.namespace@),
                text(subject.kind@),
                text(claim_id@),
            ],
    {
        let st = Statement::with_params(
            TOMBSTONE_SQL,
            vec![
                ScopeId::of(scope).value(),
                Value::text(subject.namespace.as_str()),
                Value::text(subject.kind.as_str()),
                Value::text(claim_id),
            ],
        );
        assert(st@.params =~= seq![
            text(spec_scope_id(*scope)),
            text(subject.namespace@),
            text(subject.kind@),
            text(claim_id@),
        ]);
        st
    }

    /// Stage the erasure of one claim: its content goes, a tombstone with
    /// its identity and resolvable relation columns stays. Never commits.
    pub fn stage_erase(txn: &mut TxnBuilder, scope: &Scope, subject: &SubjectRef, claim_id: &str)
        ensures
            final(txn)@ == old(txn)@ + erase_steps(*scope, *subject, claim_id@),
    {
        let scope_id = ScopeId::of(scope);
        let first = Statement::with_params(
            ERASE_CLAIM_SQL,
            vec![
                scope_id.value(),
                Value::text(subject.namespace.as_str()),
                Value::text(subject.kind.as_str()),
                Value::text(subject.key.as_str()),
                Value::text(claim_id),
            ],
        );
        assert(first@.params =~= identity(*scope, *subject, claim_id@));
        txn.push(first);
        let second = Statement::with_params(ERASE_RELATIONS_SQL, vec![scope_id.value(), Value::text(claim_id)]);
        assert(second@.params =~= seq![text(spec_scope_id(*scope)), text(claim_id@)]);
        txn.push(second);
        let third = Statement::with_params(SCRUB_ADMISSION_SQL, vec![scope_id.value(), Value::text(claim_id)]);
        assert(third@.params =~= seq![text(spec_scope_id(*scope)), text(claim_id@)]);
        txn.push(third);
        assert(txn@ =~= old(txn)@ + erase_steps(*scope, *subject, claim_id@));
    }

    /// Stage a retraction of `target`, recorded at `recorded_at`, whose
    /// serialized document is `document`.
    ///
    /// Refused with [`Error::Validation`], after the transaction number is
    /// staged, when the time does not fit an `INTEGER`.
    pub fn stage_retraction(txn: &mut TxnBuilder, scope: &Scope, target: &str, recorded_at: u64, document: &str) -> (r: Result<(), Error>)
        ensures
            r is Ok <==> time_fits(recorded_at),
            r matches Err(e) ==> e is Validation,
            r is Ok ==> final(txn)@ == old(txn)@.push(next_tx_step(spec_scope_id(*scope))).push(
                sql_step(
                    INSERT_RETRACTION@,
                    seq![
                        text(spec_scope_id(*scope)),
                        text(target@),
                        ValueView::Integer(recorded_at as i64),
                        text(document@),
                    ],
                ),
            ),
    {
        let scope_id = ScopeId::of(scope);
        let next = Statement::with_params(NEXT_TX, vec![scope_id.value()]);
        assert(next@.params =~= seq![text(scope_id@)]);
        txn.push(next);
        let at = match sql_time(recorded_at) {
            Ok(t) => t,
            Err(e) => {
                return Err(e);
            },
        };
        let st = Statement::with_params(
            INSERT_RETRACTION,
            vec![scope_id.value(), Value::text(target), Value::Integer(at), Value::text(document)],
        );
        assert(st@.params =~= seq![
            text(spec_scope_id(*scope)),
            text(target@),
            ValueView::Integer(recorded_at as i64),
            text(document@),
        ]);
        txn.push(st);
        Ok(())
    }
}

/// The value a bound reads up to.
pub open spec fn bound_value(bound: TxBound) -> u64 {
    match bound {
        TxBound::Sequence(seq) => seq,
        TxBound::RecordedAt(at) => at,
    }
}

/// Whether a history page size is one a read serves.
pub open spec fn legal_page(limit: u32) -> bool {
    1 <= limit <= MAX_CLAIM_PAGE_ROWS
}

/// The SQL of one history page.
pub open spec fn history_sql(bound: TxBound, has_predicate: bool) -> Seq<char> {
    let s1 = HISTORY_SQL@ + match bound {
        TxBound::Sequence(_) => " AND tx_seq <= ?6"@,
        TxBound::RecordedAt(_) => " AND recorded_at <= ?6"@,
    };
    let s2 = if has_predicate {
        s1 + " AND predicate_namespace = ?7 AND predicate_name = ?8 AND predicate_version = ?9"@
    } else {
        s1
    };
    s2 + " ORDER BY tx_seq LIMIT ?"@ + spec_decimal(if has_predicate { 10u64 } else { 7u64 })
}

/// The parameters of one history page, in binding order.
pub open spec fn history_params(scope: Scope, subject: SubjectRef, predicate: Option<PredicateKey>, bound: TxBound, after: u64, limit: u32) -> Seq<ValueView> {
    let base = seq![
        text(spec_scope_id(scope)),
        text(subject.namespace@),
        text(subject.kind@),
        text(subject.key@),
        ValueView::Integer(after as i64),
        ValueView::Integer(bound_value(bound) as i64),
    ];
    let with = match predicate {
        Some(p) => base + seq![text(p.namespace@), text(p.name@), ValueView::Integer(p.version as i64)],
        None => base,
    };
    with.push(ValueView::Integer(limit as i64))
}

/// A history page binds exactly the parameters its text names: the last
/// one, the page limit, carries the number of parameters bound.
pub proof fn lemma_history_binds_what_it_names(scope: Scope, subject: SubjectRef, predicate: Option<PredicateKey>, bound: TxBound, after: u64, limit: u32)
    ensures
        exists|prefix: Seq<char>|
            history_sql(bound, predicate is Some) == prefix + " ORDER BY tx_seq LIMIT ?"@ + spec_decimal(
                history_params(scope, subject, predicate, bound, after, limit).len() as u64,
            ),
        history_params(scope, subject, predicate, bound, after, limit).last() == ValueView::Integer(limit as i64),
{
    let s1 = HISTORY_SQL@ + match bound {
        TxBound::Sequence(_) => " AND tx_seq <= ?6"@,
        TxBound::RecordedAt(_) => " AND recorded_at <= ?6"@,
    };
    let s2 = if predicate is Some {
        s1 + " AND predicate_namespace = ?7 AND predicate_name = ?8 AND predicate_version = ?9"@
    } else {
        s1
    };
    let n: u64 = if predicate is Some { 10 } else { 7 };
    assert(history_params(scope, subject, predicate, bound, after, limit).len() == n);
    assert(history_sql(bound, predicate is Some) == s2 + " ORDER BY tx_seq LIMIT ?"@ + spec_decimal(n));
}

/// A stored transaction stamp: its number and its time.
pub open spec fn stamp_fits(seq: i64, at: i64) -> bool {
    seq >= 0 && at >= 0
}

impl ClaimRepo {
    /// The statement one history page runs: the subject's claims after
    /// `after`, up to `bound`, of one predicate when one is named, in
    /// transaction order, at most `limit` of them.
    ///
    /// Refused with [`Error::Validation`] when `limit` is zero or above
    /// [`MAX_CLAIM_PAGE_ROWS`], or when `after` or the bound does not fit an
    /// `INTEGER`.
    pub fn history_statement(scope: &Scope, subject: &SubjectRef, predicate: Option<&PredicateKey>, bound: &TxBound, after: u64, limit: u32) -> (r: Result<Statement, Error>)
        ensures
            r is Ok <==> legal_page(limit) && after <= i64::MAX && bound_value(*bound) <= i64::MAX,
            r matches Err(e) ==> e is Validation,
            !legal_page(limit) ==> (r matches Err(e) && e->Validation_0@ == "claim history limit "@
                + spec_decimal(limit as u64) + " is not between 1 and "@ + spec_decimal(
                MAX_CLAIM_PAGE_ROWS as u64,
            )),
            r matches Ok(st) ==> st@.sql == history_sql(*bound, predicate is Some) && st@.params
                == history_params(
                *scope,
                *subject,
                match predicate {
                    Some(p) => Some(*p),
                    None => None,
                },
                *bound,
                after,
                limit,
            ),
    {
        if limit == 0 || limit > MAX_CLAIM_PAGE_ROWS {
            return Err(Error::Validation(bounds_message(
                "claim history limit ",
                limit as u64,
                " is not between 1 and ",
                MAX_CLAIM_PAGE_ROWS as u64,
            )));
        }
        if after > i64::MAX as u64 {
            return Err(Error::Validation(cat("history cursor exceeds SQLite INTEGER", "")));
        }
        let mut sql = HISTORY_SQL.to_owned();
        let mut params: Vec<Value> = vec![
            ScopeId::of(scope).value(),
            Value::text(subject.namespace.as_str()),
            Value::text(subject.kind.as_str()),
            Value::text(subject.key.as_str()),
            Value::Integer(after as i64),
        ];
        match bound {
            TxBound::Sequence(seq) => {
                if *seq > i64::MAX as u64 {
                    return Err(Error::Validation(cat("transaction bound exceeds SQLite INTEGER", "")));
                }
                sql.append(" AND tx_seq <= ?6");
                params.push(Value::Integer(*seq as i64));
            },
            TxBound::RecordedAt(at) => {
                let t = match sql_time(*at) {
                    Ok(t) => t,
                    Err(e) => {
                        return Err(e);
                    },
                };
                sql.append(" AND recorded_at <= ?6");
                params.push(Value::Integer(t));
            },
        }
        let mut limit_index: u64 = 7;
        if let Some(p) = predicate {
            sql.append(" AND predicate_namespace = ?7 AND predicate_name = ?8 AND predicate_version = ?9");
            params.push(Value::text(p.namespace.as_str()));
            params.push(Value::text(p.name.as_str()));
            params.push(Value::Integer(p.version as i64));
            limit_index = 10;
        }
        sql.append(" ORDER BY tx_seq LIMIT ?");
        sql.append(decimal(limit_index).as_str());
        params.push(Value::Integer(limit as i64));
        let st = Statement { sql, params };
        proof {
            let pk = match predicate {
                Some(p) => Some(*p),
                None => None,
            };
            assert(st@.sql =~= history_sql(*bound, predicate is Some));
            assert(st@.params =~= history_params(*scope, *subject, pk, *bound, after, limit));
        }
        Ok(st)
    }

    /// The read of the relations from a subject's claims.
    pub fn relations_statement(scope: &Scope, subject: &SubjectRef) -> (st: Statement)
        ensures
            st@.sql == RELATIONS_SQL@,
            st@.params == identity(*scope, *subject, Seq::empty()).take(4),
    {
        let st = Statement::with_params(
            RELATIONS_SQL,
            vec![
                ScopeId::of(scope).value(),
                Value::text(subject.namespace.as_str()),
                Value::text(subject.kind.as_str()),
                Value::text(subject.key.as_str()),
            ],
        );
        assert(st@.params =~= identity(*scope, *subject, Seq::empty()).take(4));
        st
    }

    /// The read of the retractions of a subject's claims.
    pub fn retractions_statement(scope: &Scope, subject: &SubjectRef) -> (st: Statement)
        ensures
            st@.sql == RETRACTIONS_SQL@,
            st@.params == identity(*scope, *subject, Seq::empty()).take(4),
    {
        let st = Statement::with_params(
            RETRACTIONS_SQL,
            vec![
                ScopeId::of(scope).value(),
                Value::text(subject.namespace.as_str()),
                Value::text(subject.kind.as_str()),
                Value::text(subject.key.as_str()),
            ],
        );
        assert(st@.params =~= identity(*scope, *subject, Seq::empty()).take(4));
        st
    }

    /// The positions of the rows of a history page that are live claims
    /// rather than tombstones, in page order: a page's history holds only
    /// those, while its cursor still counts every row.
    pub fn live_positions(erased: &Vec<i64>) -> (r: Vec<usize>)
        ensures
            r@ == spec_live_positions(erased@),
    {
        let mut r: Vec<usize> = Vec::new();
        let mut i: usize = 0;
        while i < erased.len()
            invariant
                i <= erased@.len(),
                r@ == spec_live_positions(erased@.subrange(0, i as int)),
            decreases erased@.len() - i,
        {
            if erased[i] == 0 {
                r.push(i);
            }
            i = i + 1;
            proof {
                assert(erased@.subrange(0, i as int).drop_last() =~= erased@.subrange(0, i - 1));
            }
        }
        assert(erased@.subrange(0, erased@.len() as int) =~= erased@);
        r
    }

    /// The cursor after a page: the last row's transaction number, when the
    /// page came back full and that number is not negative.
    pub fn next_after(read: usize, limit: u32, last_seq: Option<i64>) -> (n: Option<u64>)
        ensures
            n == spec_next_after(read as int, limit, last_seq),
    {
        if read as u64 != limit as u64 {
            return None;
        }
        match last_seq {
            Some(s) => {
                if s >= 0 {
                    Some(s as u64)
                } else {
                    None
                }
            },
            None => None,
        }
    }

    /// A stored transaction stamp, checked: its number and time as read.
    ///
    /// Refused with [`Error::Integrity`] when either is negative.
    pub fn row_tx(seq: i64, at: i64) -> (r: Result<(u64, u64), Error>)
        ensures
            r is Ok <==> stamp_fits(seq, at),
            r matches Ok((s, t)) ==> s == seq && t == at,
            r matches Err(e) ==> e is Integrity,
    {
        if seq < 0 {
            return Err(Error::Integrity(cat("stored tx seq is negative", "")));
        }
        if at < 0 {
            return Err(Error::Integrity(cat("stored tx time is negative", "")));
        }
        Ok((seq as u64, at as u64))
    }
}

/// Whether `ids` names `id`.
pub open spec fn names(ids: Seq<String>, id: Seq<char>) -> bool {
    exists|i: int| 0 <= i < ids.len() && ids[i]@ == id
}

fn contains_text(ids: &Vec<String>, id: &str) -> (r: bool)
    ensures
        r == names(ids@, id@),
{
    let mut i: usize = 0;
    while i < ids.len()
        invariant
            i <= ids@.len(),
            forall|j: int| 0 <= j < i ==> ids@[j]@ != id@,
        decreases ids@.len() - i,
    {
        if str_eq(ids[i].as_str(), id) {
            assert(ids@[i as int]@ == id@);
            return true;
        }
        i = i + 1;
    }
    false
}

impl ClaimRepo {
    /// Whether a relation read with a page belongs in it: its source claim
    /// is on the page, and so is its target when the target is a claim.
    pub fn relation_in_page(page: &Vec<String>, from: &str, claim_target: Option<&str>) -> (b: bool)
        ensures
            b == (names(page@, from@) && match claim_target {
                Some(t) => names(page@, t@),
                None => true,
            }),
    {
        if !contains_text(page, from) {
            return false;
        }
        match claim_target {
            Some(t) => contains_text(page, t),
            None => true,
        }
    }
}

/// The plain columns of a stored live claim, checked.
pub struct LiveColumns {
    /// Its transaction number.
    pub tx_seq: u64,
    /// When it was recorded.
    pub recorded_at: u64,
    /// Its source's revision number.
    pub source_seq: Option<u64>,
    /// Whether its content was classified hostile.
    pub hostile_content: bool,
    /// Whether a memory it came from has been erased.
    pub origin_erased: bool,
}

/// Whether the plain columns of a stored live row read back: its admission
/// reference's sourcing agrees with its sourcing column, and its numbers are
/// not negative.
pub open spec fn live_ok(admission_sourcing: Seq<char>, sourcing: Seq<char>, tx_seq: i64, recorded_at: i64, source_seq: Option<i64>) -> bool {
    &&& admission_sourcing == sourcing
    &&& (source_seq matches Some(q) ==> q >= 0)
    &&& stamp_fits(tx_seq, recorded_at)
}

/// The cursor after a page of `read` rows whose last transaction number is
/// `last_seq`: that number, when the page came back full and it is not
/// negative.
pub open spec fn spec_next_after(read: int, limit: u32, last_seq: Option<i64>) -> Option<u64> {
    if read == limit && last_seq is Some && last_seq->Some_0 >= 0 {
        Some(last_seq->Some_0 as u64)
    } else {
        None::<u64>
    }
}

/// History pages resume where the last one ended: a full page, read in
/// transaction order as the history statement orders it, yields as its
/// cursor the greatest transaction number on the page, and the next page's
/// statement binds that number as the bound its rows must exceed
/// (`tx_seq > ?5`), so no row of this page is read again. A page that is not
/// full yields no cursor.
pub proof fn lemma_history_resumes_after_page(
    seqs: Seq<i64>,
    limit: u32,
    scope: Scope,
    subject: SubjectRef,
    predicate: Option<PredicateKey>,
    bound: TxBound,
)
    requires
        forall|i: int, j: int| 0 <= i < j < seqs.len() ==> seqs[i] < seqs[j],
        forall|i: int| 0 <= i < seqs.len() ==> seqs[i] >= 0,
    ensures
        seqs.len() != limit ==> spec_next_after(seqs.len() as int, limit, if seqs.len() == 0 {
            None
        } else {
            Some(seqs.last())
        }) is None,
        seqs.len() == limit && seqs.len() > 0 ==> {
            let next = spec_next_after(seqs.len() as int, limit, Some(seqs.last()));
            &&& next == Some(seqs.last() as u64)
            &&& forall|i: int| 0 <= i < seqs.len() ==> seqs[i] <= next->Some_0
            &&& history_params(scope, subject, predicate, bound, next->Some_0, limit)[4]
                == ValueView::Integer(seqs.last())
        },
{
    if seqs.len() == limit && seqs.len() > 0 {
        assert forall|i: int| 0 <= i < seqs.len() implies seqs[i] <= seqs.last() by {
            if i < seqs.len() - 1 {
                assert(seqs[i] < seqs[seqs.len() - 1]);
            }
        }
    }
}

/// The positions, in order, of the rows whose erased flag is clear.
pub open spec fn spec_live_positions(erased: Seq<i64>) -> Seq<usize>
    decreases erased.len(),
{
    if erased.len() == 0 {
        Seq::empty()
    } else {
        let before = spec_live_positions(erased.drop_last());
        if erased.last() == 0 {
            before.push((erased.len() - 1) as usize)
        } else {
            before
        }
    }
}

impl ClaimRepo {
    /// The claim document of a stored live row, checked before anything of
    /// the row is parsed.
    ///
    /// Refused with [`Error::Integrity`] when the row holds none.
    pub fn live_document<'a>(claim_id: &str, claim: Option<&'a str>) -> (r: Result<&'a str, Error>)
        ensures
            claim matches Some(d) ==> r == Ok::<&str, Error>(d),
            claim is None ==> (r matches Err(e) && e is Integrity && e->Integrity_0@ == "live claim "@
                + claim_id@ + " has no document"@),
    {
        match claim {
            Some(d) => Ok(d),
            None => Err(Error::Integrity(cat3("live claim ", claim_id, " has no document"))),
        }
    }

    /// Check the plain columns of a stored live claim, once its claim
    /// document is known present ([`Self::live_document`]) and its admission
    /// reference parsed by the caller.
    ///
    /// Refused with [`Error::Integrity`] when the sourcing of its admission
    /// reference disagrees with its sourcing column, or when a number is
    /// negative.
    pub fn live_columns(
        admission_sourcing: &str,
        sourcing: &str,
        tx_seq: i64,
        recorded_at: i64,
        source_seq: Option<i64>,
        hostile_content: i64,
        origin_erased: i64,
    ) -> (r: Result<LiveColumns, Error>)
        ensures
            r is Ok <==> live_ok(admission_sourcing@, sourcing@, tx_seq, recorded_at, source_seq),
            r matches Err(e) ==> e is Integrity,
            r matches Ok(c) ==> {
                &&& c.tx_seq == tx_seq
                &&& c.recorded_at == recorded_at
                &&& c.source_seq == match source_seq {
                    Some(q) => Some(q as u64),
                    None => None::<u64>,
                }
                &&& c.hostile_content == (hostile_content != 0)
                &&& c.origin_erased == (origin_erased != 0)
            },
    {
        if !str_eq(admission_sourcing, sourcing) {
            return Err(Error::Integrity(cat("stored admission sourcing disagrees", "")));
        }
        let seq = match source_seq {
            Some(q) => {
                if q < 0 {
                    return Err(Error::Integrity(cat("stored source sequence is negative", "")));
                }
                Some(q as u64)
            },
            None => None,
        };
        let (t, at) = match Self::row_tx(tx_seq, recorded_at) {
            Ok(stamp) => stamp,
            Err(e) => {
                return Err(e);
            },
        };
        Ok(LiveColumns {
            tx_seq: t,
            recorded_at: at,
            source_seq: seq,
            hostile_content: hostile_content != 0,
            origin_erased: origin_erased != 0,
        })
    }

    /// Check the plain columns of a stored tombstone: its predicate version
    /// and its transaction stamp.
    ///
    /// Refused with [`Error::Integrity`] when the version does not fit `u32`
    /// or a stamp number is negative.
    pub fn tombstone_columns(predicate_version: i64, tx_seq: i64, recorded_at: i64) -> (r: Result<(u32, u64, u64), Error>)
        ensures
            r is Ok <==> 0 <= predicate_version <= u32::MAX && stamp_fits(tx_seq, recorded_at),
            r matches Ok((v, t, a)) ==> v == predicate_version && t == tx_seq && a == recorded_at,
            r matches Err(e) ==> e is Integrity,
    {
        if predicate_version < 0 || predicate_version > u32::MAX as i64 {
            return Err(Error::Integrity(cat("stored predicate version out of range", "")));
        }
        match Self::row_tx(tx_seq, recorded_at) {
            Ok((t, a)) => Ok((predicate_version as u32, t, a)),
            Err(e) => Err(e),
        }
    }
}

/// One relation appended with a claim.
pub struct RelationColumns {
    /// The claim it runs from.
    pub from_claim_id: String,
    /// Its kind, by label.
    pub kind: String,
    /// What it points at: `claim` or `memory`.
    pub to_kind: String,
    /// The id it points at.
    pub to_id: String,
    /// The relation, serialized.
    pub document: String,
    /// Whether it is a supersession of another claim.
    pub supersedes_claim: bool,
    /// The slot of its target, where the stored history holds the target.
    pub target_slot: Option<String>,
}

/// One claim the write gate let through, to append, with what the claim model said of it.
pub struct ClaimAppend {
    /// The claim's id.
    pub claim_id: String,
    /// Its scope.
    pub scope: Scope,
    /// Its subject.
    pub subject: SubjectRef,
    /// Its predicate.
    pub predicate: PredicateKey,
    /// The slot key the predicate's cardinality names, when it names one.
    pub slot_key: Option<String>,
    /// The identity of the slot the claim fills.
    pub slot: String,
    /// Its valid time, serialized.
    pub valid_time: String,
    /// What the claim model said against the valid time, when it refused it
    /// for the predicate's mode.
    pub time_error: Option<String>,
    /// The time its source declares, serialized.
    pub source_time: Option<String>,
    /// Its source's revision number.
    pub source_seq: Option<u64>,
    /// The authority assigned, by label.
    pub authority: String,
    /// Where it came from, by label.
    pub sourcing: String,
    /// Its admission reference, serialized.
    pub admission: String,
    /// The predicate's supersession rule, by label.
    pub supersession: String,
    /// Whether its content was classified hostile.
    pub hostile_content: bool,
    /// The claim, serialized.
    pub claim: String,
    /// The memories it was derived from.
    pub sources: Vec<String>,
    /// The relations appended with it.
    pub relations: Vec<RelationColumns>,
    /// Its admission record.
    pub admission_record: AdmissionColumns,
}

/// The slot of the first claim of the batch with this id.
pub open spec fn slot_in_batch(batch: Seq<ClaimAppend>, id: Seq<char>) -> Option<Seq<char>>
    decreases batch.len(),
{
    if batch.len() == 0 {
        None
    } else if batch[0].claim_id@ == id {
        Some(batch[0].slot@)
    } else {
        slot_in_batch(batch.drop_first(), id)
    }
}

/// The slot a relation's target fills: from the stored history, else from
/// the batch.
pub open spec fn target_slot(batch: Seq<ClaimAppend>, r: RelationColumns) -> Option<Seq<char>> {
    match r.target_slot {
        Some(s) => Some(s@),
        None => slot_in_batch(batch, r.to_id@),
    }
}

/// Every supersession a claim carries stays within its slot.
pub open spec fn stays_in_slot(batch: Seq<ClaimAppend>, c: ClaimAppend) -> bool {
    forall|j: int|
        0 <= j < c.relations@.len() ==> (#[trigger] c.relations@[j]).supersedes_claim ==> target_slot(
            batch,
            c.relations@[j],
        ) == Some(c.slot@)
}

/// Whether one claim of the batch may be appended at `at`.
pub open spec fn claim_ok(batch: Seq<ClaimAppend>, c: ClaimAppend, at: u64) -> bool {
    &&& c.time_error is None
    &&& stays_in_slot(batch, c)
    &&& (c.source_seq matches Some(q) ==> q <= i64::MAX)
    &&& time_fits(at)
}

/// The words a claim of `batch` is refused with, by the first check it
/// fails: the claim model's verdict on its valid time, its supersessions'
/// slot, its source revision, then the time.
pub open spec fn claim_refusal(batch: Seq<ClaimAppend>, c: ClaimAppend, at: u64) -> Seq<char> {
    if c.time_error is Some {
        c.time_error->Some_0@
    } else if !stays_in_slot(batch, c) {
        CROSS_SLOT@
    } else if c.source_seq matches Some(q) && q > i64::MAX {
        "source sequence exceeds SQLite INTEGER"@
    } else {
        "time exceeds SQLite INTEGER"@
    }
}

/// The refusal of the first claim of `rest` that may not be appended.
pub open spec fn first_refusal(batch: Seq<ClaimAppend>, rest: Seq<ClaimAppend>, at: u64) -> Seq<char>
    decreases rest.len(),
{
    if rest.len() == 0 {
        Seq::empty()
    } else if !claim_ok(batch, rest[0], at) {
        claim_refusal(batch, rest[0], at)
    } else {
        first_refusal(batch, rest.drop_first(), at)
    }
}

/// The words an append of `batch` at `at` is refused with.
pub open spec fn append_refusal(batch: Seq<ClaimAppend>, at: u64) -> Seq<char> {
    if batch.len() == 0 {
        EMPTY_APPEND@
    } else {
        first_refusal(batch, batch, at)
    }
}

/// The admission records of a batch, in batch order.
pub open spec fn admissions_of(batch: Seq<ClaimAppend>) -> Seq<AdmissionColumns> {
    Seq::new(batch.len(), |i: int| batch[i].admission_record)
}

/// Whether a batch may be appended at `at`.
pub open spec fn append_ok(batch: Seq<ClaimAppend>, at: u64) -> bool {
    &&& batch.len() > 0
    &&& forall|k: int| 0 <= k < batch.len() ==> claim_ok(batch, #[trigger] batch[k], at)
}

/// The claim row.
pub open spec fn claim_step(c: ClaimAppend, at: u64) -> StepView {
    sql_step(
        INSERT_CLAIM@,
        seq![
            text(c.claim_id@),
            text(spec_scope_id(c.scope)),
            text(c.subject.namespace@),
            text(c.subject.kind@),
            text(c.subject.key@),
            text(c.predicate.namespace@),
            text(c.predicate.name@),
            ValueView::Integer(c.predicate.version as i64),
            opt_text(crate::types::opt_view(c.slot_key)),
            ValueView::Integer(at as i64),
            text(c.valid_time@),
            opt_text(crate::types::opt_view(c.source_time)),
            match c.source_seq {
                Some(q) => ValueView::Integer(q as i64),
                None => ValueView::Null,
            },
            text(c.authority@),
            text(c.sourcing@),
            text(c.admission@),
            text(c.supersession@),
            ValueView::Integer(if c.hostile_content { 1i64 } else { 0i64 }),
            text(c.claim@),
        ],
    )
}

/// A claim's row records the claim as admitted: the claim row of every
/// appended claim fills `INSERT_CLAIM`'s columns in their order with the
/// claim's own values, so its id, scope and subject land in the identity
/// columns (`?1` to `?5`), its predicate in the predicate columns (`?6` to
/// `?8`), its slot key in `slot_key` (`?9`), the append time in
/// `recorded_at` (`?10`), its times and source revision in `valid_time`,
/// `source_time` and `source_seq` (`?11` to `?13`), its authority label in
/// `authority` (`?14`), its sourcing label in `sourcing` (`?15`), its
/// admission reference in `admission` (`?16`), the predicate's rule in
/// `supersession` (`?17`), whether it was hostile in `hostile_content`
/// (`?18`) and the claim itself in `claim` (`?19`).
pub proof fn lemma_claim_row_records_the_claim(c: ClaimAppend, at: u64)
    ensures
        ({
            let st = one_claim_steps(c, at)[2]->Sql_0;
            &&& st.sql == INSERT_CLAIM@
            &&& st.params.len() == 19
            &&& st.params[0] == text(c.claim_id@)
            &&& st.params[1] == text(spec_scope_id(c.scope))
            &&& st.params[2] == text(c.subject.namespace@)
            &&& st.params[3] == text(c.subject.kind@)
            &&& st.params[4] == text(c.subject.key@)
            &&& st.params[5] == text(c.predicate.namespace@)
            &&& st.params[6] == text(c.predicate.name@)
            &&& st.params[7] == ValueView::Integer(c.predicate.version as i64)
            &&& st.params[8] == opt_text(crate::types::opt_view(c.slot_key))
            &&& st.params[9] == ValueView::Integer(at as i64)
            &&& st.params[10] == text(c.valid_time@)
            &&& st.params[11] == opt_text(crate::types::opt_view(c.source_time))
            &&& st.params[12] == match c.source_seq {
                Some(q) => ValueView::Integer(q as i64),
                None => ValueView::Null,
            }
            &&& st.params[13] == text(c.authority@)
            &&& st.params[14] == text(c.sourcing@)
            &&& st.params[15] == text(c.admission@)
            &&& st.params[16] == text(c.supersession@)
            &&& st.params[17] == ValueView::Integer(if c.hostile_content { 1i64 } else { 0i64 })
            &&& st.params[18] == text(c.claim@)
        }),
{
}

/// The source rows of a claim.
pub open spec fn source_steps(c: ClaimAppend) -> Seq<StepView> {
    Seq::new(
        c.sources@.len(),
        |i: int| sql_step(INSERT_SOURCE@, seq![text(spec_scope_id(c.scope)), text(c.claim_id@), text(c.sources@[i]@)]),
    )
}

/// One relation row.
pub open spec fn relation_step(scope: Seq<char>, r: RelationColumns, at: u64, authority: Seq<char>) -> StepView {
    sql_step(
        INSERT_RELATION@,
        seq![
            text(scope),
            text(r.from_claim_id@),
            text(r.kind@),
            text(r.to_kind@),
            text(r.to_id@),
            ValueView::Integer(at as i64),
            text(authority),
            text(r.document@),
        ],
    )
}

/// The relation rows of a claim.
pub open spec fn relation_steps(c: ClaimAppend, at: u64) -> Seq<StepView> {
    Seq::new(
        c.relations@.len(),
        |i: int| relation_step(spec_scope_id(c.scope), c.relations@[i], at, c.authority@),
    )
}

/// Everything one claim stages: its scope row, the scope's next
/// transaction number, the claim, its sources and its relations.
pub open spec fn one_claim_steps(c: ClaimAppend, at: u64) -> Seq<StepView> {
    seq![ensure_step(c.scope, at), next_tx_step(spec_scope_id(c.scope)), claim_step(c, at)] + source_steps(c)
        + relation_steps(c, at)
}

/// Everything the claims of a batch stage, in batch order.
pub open spec fn claims_steps(batch: Seq<ClaimAppend>, at: u64) -> Seq<StepView>
    decreases batch.len(),
{
    if batch.len() == 0 {
        Seq::empty()
    } else {
        claims_steps(batch.drop_last(), at) + one_claim_steps(batch.last(), at)
    }
}

/// The slot of the first claim of `batch` with id `id`.
fn find_slot<'a>(batch: &'a Vec<ClaimAppend>, id: &str) -> (r: Option<&'a String>)
    ensures
        match r {
            Some(s) => slot_in_batch(batch@, id@) == Some(s@),
            None => slot_in_batch(batch@, id@) is None,
        },
{
    let mut i: usize = 0;
    assert(batch@.subrange(0, batch@.len() as int) =~= batch@);
    while i < batch.len()
        invariant
            i <= batch@.len(),
            slot_in_batch(batch@, id@) == slot_in_batch(batch@.subrange(i as int, batch@.len() as int), id@),
        decreases batch@.len() - i,
    {
        let ghost rest = batch@.subrange(i as int, batch@.len() as int);
        assert(rest[0] == batch@[i as int]);
        assert(rest.drop_first() =~= batch@.subrange(i + 1, batch@.len() as int));
        if str_eq(batch[i].claim_id.as_str(), id) {
            return Some(&batch[i].slot);
        }
        i = i + 1;
    }
    assert(batch@.subrange(i as int, batch@.len() as int).len() == 0);
    None
}

/// Refuse a claim whose supersessions leave its slot.
fn check_slots(batch: &Vec<ClaimAppend>, k: usize) -> (r: Result<(), Error>)
    requires
        k < batch@.len(),
    ensures
        r is Ok <==> stays_in_slot(batch@, batch@[k as int]),
        r matches Err(e) ==> e is Validation && e->Validation_0@ == CROSS_SLOT@,
{
    let c = &batch[k];
    let mut j: usize = 0;
    while j < c.relations.len()
        invariant
            j <= c.relations@.len(),
            c == batch@[k as int],
            forall|m: int|
                0 <= m < j ==> (#[trigger] c.relations@[m]).supersedes_claim ==> target_slot(batch@, c.relations@[m])
                    == Some(c.slot@),
        decreases c.relations@.len() - j,
    {
        let r = &c.relations[j];
        if r.supersedes_claim {
            let slot = match &r.target_slot {
                Some(s) => Some(s),
                None => find_slot(batch, r.to_id.as_str()),
            };
            let same = match slot {
                Some(s) => str_eq(s.as_str(), c.slot.as_str()),
                None => false,
            };
            if !same {
                return Err(Error::Validation(CROSS_SLOT.to_owned()));
            }
        }
        j = j + 1;
    }
    Ok(())
}

/// Stage what one claim appends, its numbers already checked.
fn stage_claim(txn: &mut TxnBuilder, c: &ClaimAppend, at: u64)
    requires
        time_fits(at),
        c.source_seq matches Some(q) ==> q <= i64::MAX,
    ensures
        final(txn)@ == old(txn)@ + one_claim_steps(*c, at),
{
    let scope_id = ScopeId::of(&c.scope);
    ScopeRepo::ensure(txn, &c.scope, at);
    let next = Statement::with_params(NEXT_TX, vec![scope_id.value()]);
    assert(next@.params =~= seq![text(scope_id@)]);
    txn.push(next);
    let slot_key = match &c.slot_key {
        Some(k) => Value::text(k.as_str()),
        None => Value::Null,
    };
    let source_time = match &c.source_time {
        Some(t) => Value::text(t.as_str()),
        None => Value::Null,
    };
    let source_seq = match c.source_seq {
        Some(q) => Value::Integer(q as i64),
        None => Value::Null,
    };
    let hostile: i64 = if c.hostile_content { 1 } else { 0 };
    let st = Statement::with_params(
        INSERT_CLAIM,
        vec![
            Value::text(c.claim_id.as_str()),
            scope_id.value(),
            Value::text(c.subject.namespace.as_str()),
            Value::text(c.subject.kind.as_str()),
            Value::text(c.subject.key.as_str()),
            Value::text(c.predicate.namespace.as_str()),
            Value::text(c.predicate.name.as_str()),
            Value::Integer(c.predicate.version as i64),
            slot_key,
            Value::Integer(at as i64),
            Value::text(c.valid_time.as_str()),
            source_time,
            source_seq,
            Value::text(c.authority.as_str()),
            Value::text(c.sourcing.as_str()),
            Value::text(c.admission.as_str()),
            Value::text(c.supersession.as_str()),
            Value::Integer(hostile),
            Value::text(c.claim.as_str()),
        ],
    );
    assert(st@.params =~= claim_step(*c, at)->Sql_0.params);
    txn.push(st);
    let ghost head = old(txn)@ + seq![ensure_step(c.scope, at), next_tx_step(spec_scope_id(c.scope)), claim_step(*c, at)];
    assert(txn@ =~= head);
    let mut i: usize = 0;
    while i < c.sources.len()
        invariant
            i <= c.sources@.len(),
            scope_id@ == spec_scope_id(c.scope),
            txn@ == head + source_steps(*c).take(i as int),
        decreases c.sources@.len() - i,
    {
        let st = Statement::with_params(
            INSERT_SOURCE,
            vec![scope_id.value(), Value::text(c.claim_id.as_str()), Value::text(c.sources[i].as_str())],
        );
        assert(st@.params =~= seq![text(spec_scope_id(c.scope)), text(c.claim_id@), text(c.sources@[i as int]@)]);
        txn.push(st);
        assert(source_steps(*c).take(i + 1) =~= source_steps(*c).take(i as int).push(source_steps(*c)[i as int]));
        i = i + 1;
    }
    assert(source_steps(*c).take(c.sources@.len() as int) =~= source_steps(*c));
    let ghost mid = head + source_steps(*c);
    let mut j: usize = 0;
    while j < c.relations.len()
        invariant
            j <= c.relations@.len(),
            time_fits(at),
            scope_id@ == spec_scope_id(c.scope),
            txn@ == mid + relation_steps(*c, at).take(j as int),
        decreases c.relations@.len() - j,
    {
        let r = &c.relations[j];
        let st = Statement::with_params(
            INSERT_RELATION,
            vec![
                scope_id.value(),
                Value::text(r.from_claim_id.as_str()),
                Value::text(r.kind.as_str()),
                Value::text(r.to_kind.as_str()),
                Value::text(r.to_id.as_str()),
                Value::Integer(at as i64),
                Value::text(c.authority.as_str()),
                Value::text(r.document.as_str()),
            ],
        );
        assert(st@.params =~= relation_step(spec_scope_id(c.scope), *r, at, c.authority@)->Sql_0.params);
        txn.push(st);
        assert(relation_steps(*c, at).take(j + 1) =~= relation_steps(*c, at).take(j as int).push(relation_steps(*c, at)[j as int]));
        j = j + 1;
    }
    assert(relation_steps(*c, at).take(c.relations@.len() as int) =~= relation_steps(*c, at));
    assert(txn@ =~= old(txn)@ + one_claim_steps(*c, at));
}

impl ClaimRepo {
    /// Stage the claims of one batch with their sources and relations, the
    /// batch's admission records in batch order, and the batch's outbox
    /// work, in the caller's transaction; say which admitted claims are user
    /// corrections. Never commits.
    ///
    /// Every claim is checked before anything is staged. Refused with
    /// [`Error::Validation`], staging nothing, for an empty batch, a valid
    /// time the claim model refused, a supersession that leaves its slot, a
    /// source revision or a time that does not fit an `INTEGER`.
    #[verifier::rlimit(60)]
    pub fn stage_append(txn: &mut TxnBuilder, batch: &Vec<ClaimAppend>, at: u64, work: Envelope) -> (r: Result<Vec<usize>, Error>)
        ensures
            r is Ok <==> append_ok(batch@, at),
            r matches Err(e) ==> e is Validation && e->Validation_0@ == append_refusal(batch@, at)
                && final(txn)@ == old(txn)@,
            r matches Ok(c) ==> c@ == correction_positions(admissions_of(batch@)) && final(txn)@
                == old(txn)@ + claims_steps(batch@, at) + admission_steps(admissions_of(batch@), at)
                + seq![StepView::Outbox(work.bytes@)],
    {
        if batch.len() == 0 {
            return Err(Error::Validation(EMPTY_APPEND.to_owned()));
        }
        Self::check_append(batch, at)?;
        Self::stage_claims(txn, batch, at);
        let corrections = Self::stage_admissions(txn, batch, at);
        txn.stage_outbox(work);
        Ok(corrections)
    }

    /// Check every claim of a non-empty batch, in batch order, and refuse
    /// with the words of the first that may not be appended.
    fn check_append(batch: &Vec<ClaimAppend>, at: u64) -> (r: Result<(), Error>)
        requires
            batch@.len() > 0,
        ensures
            r is Ok <==> append_ok(batch@, at),
            r matches Err(e) ==> e is Validation && e->Validation_0@ == append_refusal(batch@, at),
    {
        let mut i: usize = 0;
        assert(batch@.subrange(0, batch@.len() as int) =~= batch@);
        while i < batch.len()
            invariant
                i <= batch@.len(),
                batch@.len() > 0,
                forall|k: int| 0 <= k < i ==> claim_ok(batch@, #[trigger] batch@[k], at),
                append_refusal(batch@, at) == first_refusal(batch@, batch@.subrange(i as int, batch@.len() as int), at),
            decreases batch@.len() - i,
        {
            let c = &batch[i];
            let ghost rest = batch@.subrange(i as int, batch@.len() as int);
            proof {
                assert(rest[0] == batch@[i as int]);
                assert(rest.drop_first() =~= batch@.subrange(i + 1, batch@.len() as int));
            }
            match &c.time_error {
                Some(e) => {
                    return Err(Error::Validation(e.as_str().to_owned()));
                },
                None => {},
            }
            match check_slots(batch, i) {
                Ok(()) => {},
                Err(e) => {
                    return Err(e);
                },
            }
            match c.source_seq {
                Some(q) => {
                    if q > i64::MAX as u64 {
                        return Err(Error::Validation("source sequence exceeds SQLite INTEGER".to_owned()));
                    }
                },
                None => {},
            }
            match sql_time(at) {
                Ok(_) => {},
                Err(e) => {
                    return Err(e);
                },
            }
            i = i + 1;
        }
        Ok(())
    }

    /// Stage the claims of a batch every claim of which may be appended.
    fn stage_claims(txn: &mut TxnBuilder, batch: &Vec<ClaimAppend>, at: u64)
        requires
            append_ok(batch@, at),
        ensures
            final(txn)@ == old(txn)@ + claims_steps(batch@, at),
    {
        let mut i: usize = 0;
        while i < batch.len()
            invariant
                i <= batch@.len(),
                append_ok(batch@, at),
                txn@ == old(txn)@ + claims_steps(batch@.subrange(0, i as int), at),
            decreases batch@.len() - i,
        {
            assert(claim_ok(batch@, batch@[i as int], at));
            stage_claim(txn, &batch[i], at);
            i = i + 1;
            proof {
                assert(batch@.subrange(0, i as int).drop_last() =~= batch@.subrange(0, i - 1));
                assert(batch@.subrange(0, i as int).last() == batch@[i - 1]);
            }
        }
        assert(batch@.subrange(0, batch@.len() as int) =~= batch@);
    }

    /// Stage the admission records of a batch, in batch order, and say which
    /// are user corrections.
    #[verifier::rlimit(40)]
    fn stage_admissions(txn: &mut TxnBuilder, batch: &Vec<ClaimAppend>, at: u64) -> (c: Vec<usize>)
        ensures
            c@ == correction_positions(admissions_of(batch@)),
            final(txn)@ == old(txn)@ + admission_steps(admissions_of(batch@), at),
    {
        let ghost all = admissions_of(batch@);
        let mut corrections: Vec<usize> = Vec::new();
        let mut i: usize = 0;
        while i < batch.len()
            invariant
                i <= batch@.len(),
                all == admissions_of(batch@),
                txn@ == old(txn)@ + admission_steps(all.subrange(0, i as int), at),
                corrections@ == correction_positions(all.subrange(0, i as int)),
            decreases batch@.len() - i,
        {
            let a = &batch[i].admission_record;
            ClaimAdmissionRepo::stage_admission(txn, a, at);
            if a.is_correction {
                corrections.push(i);
            }
            i = i + 1;
            proof {
                assert(all.subrange(0, i as int).drop_last() =~= all.subrange(0, i - 1));
                assert(all.subrange(0, i as int).last() == all[i - 1]);
                assert(admission_steps(all.subrange(0, i as int), at) =~= admission_steps(
                    all.subrange(0, i - 1),
                    at,
                ).push(admission_step(all[i - 1], at)));
            }
        }
        assert(all.subrange(0, batch@.len() as int) =~= all);
        corrections
    }
}

} // verus!
