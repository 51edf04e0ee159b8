//! Provenance and its derivation rows.
//!
//! `derived_from` is a child table rather than a list inside the row, so the
//! derivation graph is a join away and erasure can reach the derivatives of
//! an erased memory. Every derivation row carries the child's `scope_id`, so
//! a parent that lives in another scope is not reachable through it.

use vstd::prelude::*;

use crate::error::Error;
use crate::scope::{sql_seconds, seconds_to_sql, ScopeId};
use crate::sql::{opt_text, sql_step, text, Statement, StepView, TxnBuilder, Value, ValueView};
use crate::types::{
    extractor_view, ids_view, opt_view, source_view, ExtractorVersion, MemoryId, Provenance,
    SourceRef, spec_uuid_parse,
};

verus! {

/// The provenance row.
pub const INSERT_SQL: &'static str = "INSERT INTO provenance (
        memory_id, scope_id, source_system, source_external_id, source_locator,
        captured_at, ingested_at, extractor_name, extractor_version
    ) VALUES ($1, $2, $3, $4, $5, $6, $7, $8, $9)";

/// One derivation row.
pub const DERIVATION_SQL: &'static str =
    "INSERT INTO memory_derivation (memory_id, parent_id, position, scope_id)
    VALUES ($1, $2, $3, $4)";

/// One memory's provenance row.
pub const GET_SQL: &'static str = "SELECT source_system, source_external_id, source_locator,
        captured_at, ingested_at, extractor_name, extractor_version
    FROM provenance WHERE scope_id = $1 AND memory_id = $2";

/// The parents of one memory, in the order they were named, within its scope.
pub const PARENTS_SQL: &'static str = "SELECT parent_id FROM memory_derivation
    WHERE scope_id = $1 AND memory_id = $2
      AND EXISTS (SELECT 1 FROM memory
                  WHERE memory.scope_id = $1 AND memory.id = memory_derivation.parent_id)
    ORDER BY position";

/// The extractor's name and version columns.
pub open spec fn extractor_columns(e: Option<ExtractorVersion>) -> (ValueView, ValueView) {
    match e {
        Some(x) => (text(x.name@), text(x.version@)),
        None => (ValueView::Null, ValueView::Null),
    }
}

/// The provenance row's step.
pub open spec fn provenance_step(scope: Seq<char>, memory: MemoryId, p: Provenance) -> StepView {
    sql_step(
        INSERT_SQL@,
        seq![
            text(memory.spec_text()),
            text(scope),
            text(p.source.system@),
            opt_text(opt_view(p.source.external_id)),
            opt_text(opt_view(p.source.locator)),
            ValueView::Integer(sql_seconds(p.captured_at)),
            ValueView::Integer(sql_seconds(p.ingested_at)),
            extractor_columns(p.extractor).0,
            extractor_columns(p.extractor).1,
        ],
    )
}

/// The derivation row naming `parent` at `position`.
pub open spec fn derivation_step(scope: Seq<char>, memory: MemoryId, parent: MemoryId, position: int) -> StepView {
    sql_step(
        DERIVATION_SQL@,
        seq![
            text(memory.spec_text()),
            text(parent.spec_text()),
            ValueView::Integer(position as i64),
            text(scope),
        ],
    )
}

/// One derivation row per parent, numbered in the order they were named.
pub open spec fn derivation_steps(scope: Seq<char>, memory: MemoryId, parents: Seq<MemoryId>) -> Seq<StepView> {
    Seq::new(parents.len(), |i: int| derivation_step(scope, memory, parents[i], i))
}

/// Whether every parent's position fits the `INTEGER` column.
pub open spec fn positions_fit(parents: Seq<MemoryId>) -> bool {
    parents.len() <= i64::MAX as int + 1
}

/// Everything [`ProvenanceRepo::stage`] stages, in order.
pub open spec fn provenance_steps(scope: Seq<char>, memory: MemoryId, p: Provenance) -> Seq<StepView> {
    seq![provenance_step(scope, memory, p)] + derivation_steps(scope, memory, p.derived_from@)
}

/// One provenance row's columns, as the store hands them back.
pub struct ProvenanceColumns {
    /// `source_system`.
    pub source_system: String,
    /// `source_external_id`.
    pub source_external_id: Option<String>,
    /// `source_locator`.
    pub source_locator: Option<String>,
    /// `captured_at`.
    pub captured_at: i64,
    /// `ingested_at`.
    pub ingested_at: i64,
    /// `extractor_name`.
    pub extractor_name: Option<String>,
    /// `extractor_version`.
    pub extractor_version: Option<String>,
}

/// Whether a row's extractor columns are both set or both unset.
pub open spec fn extractor_whole(row: ProvenanceColumns) -> bool {
    row.extractor_name.is_some() == row.extractor_version.is_some()
}

/// The ids every stored text reads back as, when each reads back as one.
pub open spec fn all_parse(texts: Seq<String>) -> bool {
    forall|i: int| 0 <= i < texts.len() ==> (#[trigger] spec_uuid_parse(texts[i]@)) is Some
}

/// A provenance, as the contracts compare it: its source, its two times, its
/// parents' ids in order, and its extractor.
pub open spec fn provenance_view(p: Provenance) -> ((Seq<char>, Option<Seq<char>>, Option<Seq<char>>), u64, u64, Seq<Seq<u8>>, Option<(Seq<char>, Seq<char>)>) {
    (source_view(p.source), p.captured_at, p.ingested_at, ids_view(p.derived_from@), extractor_view(p.extractor))
}

/// What a provenance row reads back as with the parents read beside it, or
/// `None` when the row does not read back.
pub open spec fn read_back(row: ProvenanceColumns, derived_from: Seq<MemoryId>) -> Option<((Seq<char>, Option<Seq<char>>, Option<Seq<char>>), u64, u64, Seq<Seq<u8>>, Option<(Seq<char>, Seq<char>)>)> {
    if extractor_whole(row) && row.captured_at >= 0 && row.ingested_at >= 0 {
        Some((
            (row.source_system@, opt_view(row.source_external_id), opt_view(row.source_locator)),
            row.captured_at as u64,
            row.ingested_at as u64,
            ids_view(derived_from),
            match (row.extractor_name, row.extractor_version) {
                (Some(n), Some(v)) => Some((n@, v@)),
                _ => None,
            },
        ))
    } else {
        None
    }
}

/// The row [`ProvenanceRepo::stage`] writes for `p`.
pub open spec fn written_row(p: Provenance) -> ProvenanceColumns {
    ProvenanceColumns {
        source_system: p.source.system,
        source_external_id: p.source.external_id,
        source_locator: p.source.locator,
        captured_at: sql_seconds(p.captured_at),
        ingested_at: sql_seconds(p.ingested_at),
        extractor_name: match p.extractor {
            Some(e) => Some(e.name),
            None => None,
        },
        extractor_version: match p.extractor {
            Some(e) => Some(e.version),
            None => None,
        },
    }
}

/// The values a row's columns hold, in the order the provenance row binds
/// them after its memory and scope.
pub open spec fn column_values(row: ProvenanceColumns) -> Seq<ValueView> {
    seq![
        text(row.source_system@),
        opt_text(opt_view(row.source_external_id)),
        opt_text(opt_view(row.source_locator)),
        ValueView::Integer(row.captured_at),
        ValueView::Integer(row.ingested_at),
        opt_text(opt_view(row.extractor_name)),
        opt_text(opt_view(row.extractor_version)),
    ]
}

/// A provenance reads back as itself: the row staged for `p` holds exactly
/// the values its statement binds, and that row, read with `p`'s own
/// parents, rebuilds `p`'s origin, whenever its times fit the `INTEGER`
/// columns.
pub proof fn lemma_provenance_round_trip(scope: Seq<char>, memory: MemoryId, p: Provenance)
    requires
        p.captured_at <= i64::MAX,
        p.ingested_at <= i64::MAX,
    ensures
        column_values(written_row(p)) == provenance_step(scope, memory, p)->Sql_0.params.subrange(2, 9),
        read_back(written_row(p), p.derived_from@) == Some(provenance_view(p)),
{
    let row = written_row(p);
    assert(column_values(row) =~= provenance_step(scope, memory, p)->Sql_0.params.subrange(2, 9));
}

/// The `provenance` and `memory_derivation` tables.
#[derive(Clone, Copy, Debug, Default, PartialEq, Eq)]
pub struct ProvenanceRepo;

impl ProvenanceRepo {
    /// Stage the provenance row and one row per parent, in the caller's batch.
    ///
    /// Refused with [`Error::Validation`] only when a parent's position would
    /// not fit the `INTEGER` column.
    pub fn stage(txn: &mut TxnBuilder, scope: &ScopeId, memory: MemoryId, provenance: &Provenance) -> (r: Result<(), Error>)
        ensures
            r is Ok <==> positions_fit(provenance.derived_from@),
            r is Err ==> r->Err_0 is Validation,
            r is Ok ==> final(txn)@ == old(txn)@ + provenance_steps(scope@, memory, *provenance),
    {
        let (name, version) = match &provenance.extractor {
            Some(e) => (Value::Text(e.name.clone()), Value::Text(e.version.clone())),
            None => (Value::Null, Value::Null),
        };
        let st = Statement::with_params(
            INSERT_SQL,
            vec![
                Value::Text(memory.to_text()),
                scope.value(),
                Value::Text(provenance.source.system.clone()),
                Value::opt_text(provenance.source.external_id.clone()),
                Value::opt_text(provenance.source.locator.clone()),
                Value::Integer(seconds_to_sql(provenance.captured_at)),
                Value::Integer(seconds_to_sql(provenance.ingested_at)),
                name,
                version,
            ],
        );
        assert(st@.params =~= provenance_step(scope@, memory, *provenance)->Sql_0.params);
        txn.push(st);
        let parents = &provenance.derived_from;
        let ghost start = old(txn)@.push(provenance_step(scope@, memory, *provenance));
        let mut i: usize = 0;
        while i < parents.len()
            invariant
                i <= parents@.len(),
                i <= i64::MAX as int + 1,
                parents@ == provenance.derived_from@,
                txn@ == start + derivation_steps(scope@, memory, parents@.subrange(0, i as int)),
            decreases parents@.len() - i,
        {
            if i as u64 > i64::MAX as u64 {
                return Err(Error::Validation(crate::text::cat(
                    "memory names more parents than a position can number",
                    "",
                )));
            }
            let ghost before = txn@;
            let st = Statement::with_params(
                DERIVATION_SQL,
                vec![
                    Value::Text(memory.to_text()),
                    Value::Text(parents[i].to_text()),
                    Value::Integer(i as i64),
                    scope.value(),
                ],
            );
            assert(st@.params =~= derivation_step(scope@, memory, parents@[i as int], i as int)->Sql_0.params);
            txn.push(st);
            i = i + 1;
            assert(derivation_steps(scope@, memory, parents@.subrange(0, i as int)) =~= derivation_steps(
                scope@,
                memory,
                parents@.subrange(0, i - 1),
            ).push(derivation_step(scope@, memory, parents@[i - 1], i - 1)));
        }
        assert(parents@.subrange(0, parents@.len() as int) =~= parents@);
        assert(old(txn)@ + provenance_steps(scope@, memory, *provenance) =~= start + derivation_steps(scope@, memory, parents@));
        Ok(())
    }

    /// The read of one memory's provenance row, under its scope.
    pub fn get_statement(scope: &ScopeId, memory: MemoryId) -> (st: Statement)
        ensures
            st@.sql == GET_SQL@,
            st@.params == seq![text(scope@), text(memory.spec_text())],
    {
        let st = Statement::with_params(GET_SQL, vec![scope.value(), Value::Text(memory.to_text())]);
        assert(st@.params =~= seq![text(scope@), text(memory.spec_text())]);
        st
    }

    /// The read of one memory's parents, in order, within its scope.
    pub fn parents_statement(scope: &ScopeId, memory: MemoryId) -> (st: Statement)
        ensures
            st@.sql == PARENTS_SQL@,
            st@.params == seq![text(scope@), text(memory.spec_text())],
    {
        let st = Statement::with_params(PARENTS_SQL, vec![scope.value(), Value::Text(memory.to_text())]);
        assert(st@.params =~= seq![text(scope@), text(memory.spec_text())]);
        st
    }

    /// Read the stored parent ids back, in order.
    ///
    /// Refused with [`Error::Integrity`] when a stored text is not a memory id.
    pub fn parse_parents(rows: &Vec<String>) -> (r: Result<Vec<MemoryId>, Error>)
        ensures
            r is Ok <==> all_parse(rows@),
            r is Err ==> r->Err_0 is Integrity,
            r matches Ok(ids) ==> ids@.len() == rows@.len() && forall|i: int|
                0 <= i < rows@.len() ==> spec_uuid_parse(rows@[i]@) == Some(
                    #[trigger] ids@[i].bytes@,
                ),
    {
        let mut ids: Vec<MemoryId> = Vec::new();
        let mut i: usize = 0;
        while i < rows.len()
            invariant
                i <= rows@.len(),
                ids@.len() == i,
                forall|j: int| 0 <= j < i ==> spec_uuid_parse(rows@[j]@) == Some(#[trigger] ids@[j].bytes@),
            decreases rows@.len() - i,
        {
            match MemoryId::parse(rows[i].as_str()) {
                Some(id) => ids.push(id),
                None => {
                    return Err(Error::Integrity(crate::text::cat(
                        "memory_derivation holds a parent that is not a memory id: ",
                        rows[i].as_str(),
                    )));
                },
            }
            i = i + 1;
        }
        proof {
            assert forall|j: int| 0 <= j < rows@.len() implies (#[trigger] spec_uuid_parse(rows@[j]@)) is Some by {
                assert(spec_uuid_parse(rows@[j]@) == Some(ids@[j].bytes@));
            }
        }
        Ok(ids)
    }

    /// Rebuild a provenance from its row and the parents already read.
    ///
    /// Refused with [`Error::Integrity`] when a timestamp is negative or the
    /// row names half an extractor.
    pub fn row_to_provenance(row: ProvenanceColumns, derived_from: Vec<MemoryId>) -> (r: Result<Provenance, Error>)
        ensures
            r is Ok <==> extractor_whole(row) && row.captured_at >= 0 && row.ingested_at >= 0,
            r is Err ==> r->Err_0 is Integrity,
            r is Ok <==> read_back(row, derived_from@) is Some,
            r matches Ok(p) ==> read_back(row, derived_from@) == Some(provenance_view(p)),
            r matches Ok(p) ==> {
                &&& p.source.system == row.source_system
                &&& p.source.external_id == row.source_external_id
                &&& p.source.locator == row.source_locator
                &&& p.captured_at == row.captured_at as u64
                &&& p.ingested_at == row.ingested_at as u64
                &&& p.derived_from == derived_from
                &&& match (row.extractor_name, row.extractor_version) {
                    (Some(n), Some(v)) => p.extractor == Some(ExtractorVersion { name: n, version: v }),
                    _ => p.extractor is None,
                }
            },
    {
        let extractor = match row.extractor_name {
            Some(name) => match row.extractor_version {
                Some(version) => Some(ExtractorVersion { name, version }),
                None => {
                    return Err(Error::Integrity(crate::text::cat("provenance row names half an extractor", "")));
                },
            },
            None => match row.extractor_version {
                Some(_) => {
                    return Err(Error::Integrity(crate::text::cat("provenance row names half an extractor", "")));
                },
                None => None,
            },
        };
        if row.captured_at < 0 {
            return Err(Error::Integrity(crate::text::cat("provenance row holds a negative ", "captured_at")));
        }
        if row.ingested_at < 0 {
            return Err(Error::Integrity(crate::text::cat("provenance row holds a negative ", "ingested_at")));
        }
        Ok(Provenance {
            source: SourceRef {
                system: row.source_system,
                external_id: row.source_external_id,
                locator: row.source_locator,
            },
            captured_at: row.captured_at as u64,
            ingested_at: row.ingested_at as u64,
            derived_from,
            extractor,
        })
    }
}

} // verus!
