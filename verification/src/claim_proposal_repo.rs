//! Claim proposals: appended once, never edited, read back by id under their
//! scope.

use vstd::prelude::*;

use crate::scope::{ensure_step, sql_seconds, seconds_to_sql, spec_scope_id, Scope, ScopeId, ScopeRepo};
use crate::sql::{sql_step, text, Statement, StepView, TxnBuilder, Value, ValueView};

verus! {

/// The append of one proposal.
pub const INSERT_SQL: &'static str = "INSERT INTO claim_proposal
    (proposal_id, scope_id, claim_id, predicate, proposer, proposed_at, document)
    VALUES ($1, $2, $3, $4, $5, $6, $7)";

/// One proposal of one scope.
pub const GET_SQL: &'static str = "SELECT document FROM claim_proposal
    WHERE scope_id = $1 AND proposal_id = $2";

/// What the proposal table records of a proposal besides its document.
pub struct ProposalColumns {
    /// The proposal's id, as text.
    pub proposal_id: String,
    /// The scope of the claim it proposes.
    pub scope: Scope,
    /// The proposed claim's id, as text.
    pub claim_id: String,
    /// The claim's predicate, as text.
    pub predicate: String,
    /// Who proposed it.
    pub proposer: String,
    /// When it was proposed.
    pub proposed_at: u64,
}

/// The proposal row.
pub open spec fn proposal_step(p: ProposalColumns, document: Seq<char>) -> StepView {
    sql_step(
        INSERT_SQL@,
        seq![
            text(p.proposal_id@),
            text(spec_scope_id(p.scope)),
            text(p.claim_id@),
            text(p.predicate@),
            text(p.proposer@),
            ValueView::Integer(sql_seconds(p.proposed_at)),
            text(document),
        ],
    )
}

/// The proposal table.
#[derive(Clone, Copy, Debug, Default, PartialEq, Eq)]
pub struct ClaimProposalRepo;

impl ClaimProposalRepo {
    /// Stage the append of a proposal, whose serialized document is
    /// `document`, with the row of its scope.
    pub fn stage_append(txn: &mut TxnBuilder, proposal: &ProposalColumns, document: &str)
        ensures
            final(txn)@ == old(txn)@.push(ensure_step(proposal.scope, proposal.proposed_at)).push(
                proposal_step(*proposal, document@),
            ),
    {
        let scope_id = ScopeId::of(&proposal.scope);
        ScopeRepo::ensure(txn, &proposal.scope, proposal.proposed_at);
        let st = Statement::with_params(
            INSERT_SQL,
            vec![
                Value::text(proposal.proposal_id.as_str()),
                scope_id.value(),
                Value::text(proposal.claim_id.as_str()),
                Value::text(proposal.predicate.as_str()),
                Value::text(proposal.proposer.as_str()),
                Value::Integer(seconds_to_sql(proposal.proposed_at)),
                Value::text(document),
            ],
        );
        assert(st@.params =~= proposal_step(*proposal, document@)->Sql_0.params);
        txn.push(st);
    }

    /// The read of one proposal of one scope.
    pub fn get_statement(scope: &Scope, proposal_id: &str) -> (st: Statement)
        ensures
            st@.sql == GET_SQL@,
            st@.params == seq![text(spec_scope_id(*scope)), text(proposal_id@)],
    {
        let st = Statement::with_params(GET_SQL, vec![ScopeId::of(scope).value(), Value::text(proposal_id)]);
        assert(st@.params =~= seq![text(spec_scope_id(*scope)), text(proposal_id@)]);
        st
    }
}

} // verus!
