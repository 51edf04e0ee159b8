//! Admission records and admission policies: what a claim was judged under,
//! written in the transaction that appends the claim.

use vstd::prelude::*;
use vstd::utf8::encode_utf8;

use crate::digest::{hex_digest, spec_hex_digest};
use crate::error::Error;
use crate::scope::{sql_seconds, seconds_to_sql, spec_scope_id, Scope, ScopeId};
use crate::sql::{sql_step, text, Statement, StepView, TxnBuilder, Value, ValueView};
use crate::text::cat;

verus! {

/// One admission record.
pub const INSERT_SQL: &'static str = "INSERT INTO claim_admission
    (claim_id, scope_id, proposal_id, policy_id, policy_version, authority, sourcing,
     verdict, evidence, relations, corrects, conflicts, admitted_at)
    VALUES ($1, $2, $3, $4, $5, $6, $7, $8, $9, $10, $11, $12, $13)";

/// The admission of one claim of one scope.
pub const GET_SQL: &'static str = "SELECT claim_id, proposal_id, policy_id, policy_version, authority,
    sourcing, verdict, evidence, relations, corrects, conflicts, admitted_at
    FROM claim_admission WHERE scope_id = $1 AND claim_id = $2";

/// One policy version.
pub const INSERT_POLICY_SQL: &'static str = "INSERT INTO admission_policy
    (policy_id, version, digest, document, registered_by, registered_at)
    VALUES ($1, $2, $3, $4, $5, $6)";

/// One registered policy version.
pub const GET_POLICY_SQL: &'static str = "SELECT document FROM admission_policy
    WHERE policy_id = $1 AND version = $2";

/// The verdict every stored admission carries.
pub const VERDICT_ADMIT: &'static str = "admit";

/// What one admitted claim's record holds, its collections already
/// serialized.
pub struct AdmissionColumns {
    /// The admitted claim's id.
    pub claim_id: String,
    /// Its scope.
    pub scope: Scope,
    /// The proposal it was admitted from.
    pub proposal_id: String,
    /// The policy it was judged under.
    pub policy_id: String,
    /// That policy's version.
    pub policy_version: u32,
    /// The authority assigned, by label.
    pub authority: String,
    /// Where it came from, by label.
    pub sourcing: String,
    /// The evidence considered.
    pub evidence: String,
    /// The relations appended with it.
    pub relations: String,
    /// The claims it corrects.
    pub corrects: String,
    /// The supplier claims it is kept in conflict with.
    pub conflicts: String,
    /// Whether it is a user's correction, which earns its own Decision.
    pub is_correction: bool,
}

/// One admission record's row.
pub open spec fn admission_step(a: AdmissionColumns, at: u64) -> StepView {
    sql_step(
        INSERT_SQL@,
        seq![
            text(a.claim_id@),
            text(spec_scope_id(a.scope)),
            text(a.proposal_id@),
            text(a.policy_id@),
            ValueView::Integer(a.policy_version as i64),
            text(a.authority@),
            text(a.sourcing@),
            text(VERDICT_ADMIT@),
            text(a.evidence@),
            text(a.relations@),
            text(a.corrects@),
            text(a.conflicts@),
            ValueView::Integer(sql_seconds(at)),
        ],
    )
}

/// The rows of a batch, in batch order.
pub open spec fn admission_steps(batch: Seq<AdmissionColumns>, at: u64) -> Seq<StepView> {
    Seq::new(batch.len(), |i: int| admission_step(batch[i], at))
}

/// The positions of the batch's user corrections, in batch order.
pub open spec fn correction_positions(batch: Seq<AdmissionColumns>) -> Seq<usize>
    decreases batch.len(),
{
    if batch.len() == 0 {
        Seq::empty()
    } else {
        let before = correction_positions(batch.drop_last());
        if batch.last().is_correction {
            before.push((batch.len() - 1) as usize)
        } else {
            before
        }
    }
}

/// The policy digest a Decision names: `sha256:` and the lowercase hex of
/// the serialized policy's UTF-8 bytes.
pub open spec fn spec_policy_digest(document: Seq<char>) -> Seq<char> {
    "sha256:"@ + spec_hex_digest(encode_utf8(document))
}

/// The policy digest of a serialized policy.
pub fn policy_digest(document: &str) -> (d: String)
    ensures
        d@ == spec_policy_digest(document@),
{
    cat("sha256:", hex_digest(document.as_bytes()).as_str())
}

/// The numbers of a stored admission row, checked: its policy version fits
/// `u32` and its admission time is not negative.
pub open spec fn numbers_fit(policy_version: i64, admitted_at: i64) -> bool {
    0 <= policy_version <= u32::MAX && 0 <= admitted_at
}

/// The admission and policy tables.
#[derive(Clone, Copy, Debug, Default, PartialEq, Eq)]
pub struct ClaimAdmissionRepo;

impl ClaimAdmissionRepo {
    /// Stage the admission records of one batch, the claims admitted in one
    /// transaction, and say which of them are user corrections (each owes
    /// its own Decision besides the batch's).
    ///
    /// Refused with [`Error::Validation`], staging nothing, for an empty
    /// batch.
    #[verifier::rlimit(40)]
    pub fn stage_admit(txn: &mut TxnBuilder, batch: &Vec<AdmissionColumns>, at: u64) -> (r: Result<Vec<usize>, Error>)
        ensures
            batch@.len() == 0 ==> (r matches Err(e) && e is Validation) && final(txn)@ == old(txn)@,
            batch@.len() > 0 ==> (r matches Ok(c) && c@ == correction_positions(batch@)) && final(txn)@
                == old(txn)@ + admission_steps(batch@, at),
    {
        if batch.len() == 0 {
            return Err(Error::Validation(cat("an admission batch admits at least one claim", "")));
        }
        let mut corrections: Vec<usize> = Vec::new();
        let mut i: usize = 0;
        while i < batch.len()
            invariant
                i <= batch@.len(),
                txn@ == old(txn)@ + admission_steps(batch@.subrange(0, i as int), at),
                corrections@ == correction_positions(batch@.subrange(0, i as int)),
            decreases batch@.len() - i,
        {
            let a = &batch[i];
            Self::stage_admission(txn, a, at);
            if a.is_correction {
                corrections.push(i);
            }
            i = i + 1;
            proof {
                assert(batch@.subrange(0, i as int).drop_last() =~= batch@.subrange(0, i - 1));
                assert(batch@.subrange(0, i as int).last() == batch@[i - 1]);
                assert(admission_steps(batch@.subrange(0, i as int), at) =~= admission_steps(
                    batch@.subrange(0, i - 1),
                    at,
                ).push(admission_step(batch@[i - 1], at)));
            }
        }
        assert(batch@.subrange(0, batch@.len() as int) =~= batch@);
        Ok(corrections)
    }

    /// Stage one admission record.
    pub(crate) fn stage_admission(txn: &mut TxnBuilder, a: &AdmissionColumns, at: u64)
        ensures
            final(txn)@ == old(txn)@.push(admission_step(*a, at)),
    {
        let st = Statement::with_params(
            INSERT_SQL,
            vec![
                Value::text(a.claim_id.as_str()),
                ScopeId::of(&a.scope).value(),
                Value::text(a.proposal_id.as_str()),
                Value::text(a.policy_id.as_str()),
                Value::Integer(a.policy_version as i64),
                Value::text(a.authority.as_str()),
                Value::text(a.sourcing.as_str()),
                Value::text(VERDICT_ADMIT),
                Value::text(a.evidence.as_str()),
                Value::text(a.relations.as_str()),
                Value::text(a.corrects.as_str()),
                Value::text(a.conflicts.as_str()),
                Value::Integer(seconds_to_sql(at)),
            ],
        );
        assert(st@.params =~= admission_step(*a, at)->Sql_0.params);
        txn.push(st);
    }

    /// The read of the admission of one claim of one scope.
    pub fn record_statement(scope: &Scope, claim_id: &str) -> (st: Statement)
        ensures
            st@.sql == GET_SQL@,
            st@.params == seq![text(spec_scope_id(*scope)), text(claim_id@)],
    {
        let st = Statement::with_params(GET_SQL, vec![ScopeId::of(scope).value(), Value::text(claim_id)]);
        assert(st@.params =~= seq![text(spec_scope_id(*scope)), text(claim_id@)]);
        st
    }

    /// Stage the registration of a policy version, whose serialized document
    /// is `document`, and return the digest its Decision names.
    pub fn stage_policy(txn: &mut TxnBuilder, policy_id: &str, version: u32, document: &str, registrant: &str, at: u64) -> (digest: String)
        ensures
            digest@ == spec_policy_digest(document@),
            final(txn)@ == old(txn)@.push(
                sql_step(
                    INSERT_POLICY_SQL@,
                    seq![
                        text(policy_id@),
                        ValueView::Integer(version as i64),
                        text(spec_policy_digest(document@)),
                        text(document@),
                        text(registrant@),
                        ValueView::Integer(sql_seconds(at)),
                    ],
                ),
            ),
    {
        let digest = policy_digest(document);
        let st = Statement::with_params(
            INSERT_POLICY_SQL,
            vec![
                Value::text(policy_id),
                Value::Integer(version as i64),
                Value::text(digest.as_str()),
                Value::text(document),
                Value::text(registrant),
                Value::Integer(seconds_to_sql(at)),
            ],
        );
        assert(st@.params =~= seq![
            text(policy_id@),
            ValueView::Integer(version as i64),
            text(spec_policy_digest(document@)),
            text(document@),
            text(registrant@),
            ValueView::Integer(sql_seconds(at)),
        ]);
        txn.push(st);
        digest
    }

    /// The read of one registered policy version.
    pub fn policy_statement(policy_id: &str, version: u32) -> (st: Statement)
        ensures
            st@.sql == GET_POLICY_SQL@,
            st@.params == seq![text(policy_id@), ValueView::Integer(version as i64)],
    {
        let st = Statement::with_params(GET_POLICY_SQL, vec![Value::text(policy_id), Value::Integer(version as i64)]);
        assert(st@.params =~= seq![text(policy_id@), ValueView::Integer(version as i64)]);
        st
    }

    /// The policy version and admission time of a stored row, checked.
    ///
    /// Refused with [`Error::Integrity`] when the version does not fit `u32`
    /// or the time is negative.
    pub fn row_numbers(policy_version: i64, admitted_at: i64) -> (r: Result<(u32, u64), Error>)
        ensures
            r is Ok <==> numbers_fit(policy_version, admitted_at),
            r matches Ok((v, t)) ==> v == policy_version && t == admitted_at,
            r matches Err(e) ==> e is Integrity,
    {
        if policy_version < 0 || policy_version > u32::MAX as i64 {
            return Err(Error::Integrity(cat("stored policy version out of range", "")));
        }
        if admitted_at < 0 {
            return Err(Error::Integrity(cat("stored admission time is negative", "")));
        }
        Ok((policy_version as u32, admitted_at as u64))
    }
}

} // verus!
