//! The predicate registry's table: one row per registered version of a
//! namespace's vocabulary, immutable once written.
//!
//! Whether a set may be registered is the registry's own rule, judged against
//! a snapshot of what is stored; this module stages what that judgement
//! allows and maps its refusals to the store's errors.

use vstd::prelude::*;
use vstd::utf8::encode_utf8;

use crate::digest::{hex_digest, spec_hex_digest};
use crate::error::Error;
use crate::scope::{sql_seconds, seconds_to_sql};
use crate::sql::{sql_step, text, Statement, StepView, TxnBuilder, Value, ValueView};
use crate::text::{cat, cat3, decimal, spec_decimal};

verus! {

/// The decision kind a registration is appended under.
pub const KIND_REGISTER: &'static str = "claims.registry.register";

/// The registration row.
pub const INSERT_SQL: &'static str = "INSERT INTO predicate_registry
    (namespace, version, digest, document, registered_by, registered_at)
    VALUES ($1, $2, $3, $4, $5, $6)";

/// Every registered document, in namespace and version order.
pub const ALL_SQL: &'static str = "SELECT document FROM predicate_registry ORDER BY namespace, version";

/// What the registry's rule said of a set, against the stored snapshot.
pub enum RegistryCheck {
    /// The version is new: it may be registered.
    New,
    /// The version is registered with identical content.
    Unchanged,
    /// The version is registered with different content; the rule's words.
    ConflictingVersion(String),
    /// Any other refusal of the rule: its words and its code.
    Refused {
        /// What the rule said.
        message: String,
        /// The rule's code for it.
        code: String,
    },
}

/// What a staged registration will say once its transaction commits.
pub struct Registered {
    /// The namespace registered.
    pub namespace: String,
    /// The version registered.
    pub version: u32,
    /// The document digest the Decision names.
    pub digest: String,
    /// Who registered it.
    pub registered_by: String,
    /// The Decision's reason.
    pub reason: String,
}

/// What staging a registration did.
pub enum Registration {
    /// A new version was staged; the caller commits, then appends this
    /// Decision.
    Registered(Registered),
    /// The version is registered with identical content: nothing was staged
    /// and nothing is appended.
    Unchanged,
}

/// The document digest a Decision names: `sha256:` and the lowercase hex of
/// the document's bytes.
pub open spec fn spec_document_digest(document: Seq<u8>) -> Seq<char> {
    "sha256:"@ + spec_hex_digest(document)
}

/// The document digest a Decision names: `sha256:` and the lowercase hex of
/// the serialized document's bytes.
pub fn document_digest(document: &[u8]) -> (d: String)
    ensures
        d@ == spec_document_digest(document@),
{
    cat("sha256:", hex_digest(document).as_str())
}

/// The digest of a serialized document: that of its UTF-8 bytes.
pub open spec fn digest_of(document: Seq<char>) -> Seq<char> {
    spec_document_digest(encode_utf8(document))
}

/// The registration row.
pub open spec fn register_step(namespace: Seq<char>, version: u32, digest: Seq<char>, document: Seq<char>, registrant: Seq<char>, at: u64) -> StepView {
    sql_step(
        INSERT_SQL@,
        seq![
            text(namespace),
            ValueView::Integer(version as i64),
            text(digest),
            text(document),
            text(registrant),
            ValueView::Integer(sql_seconds(at)),
        ],
    )
}

/// The registry's table.
#[derive(Clone, Copy, Debug, Default, PartialEq, Eq)]
pub struct PredicateRegistryRepo;

impl PredicateRegistryRepo {
    /// The read of every registered document.
    pub fn all_statement() -> (st: Statement)
        ensures
            st@.sql == ALL_SQL@,
            st@.params == Seq::<ValueView>::empty(),
    {
        let st = Statement::with_params(ALL_SQL, Vec::new());
        assert(st@.params =~= Seq::<ValueView>::empty());
        st
    }

    /// Stage the registration of version `version` of `namespace`, whose
    /// serialized document is `document`, by `registrant` at `at`, as the
    /// rule's `check` allows.
    ///
    /// Nothing is staged unless the check found the version new. Refused
    /// with [`Error::Conflict`] when the version is registered with different
    /// content, and with [`Error::Validation`] for any other refusal of the
    /// rule.
    pub fn stage_register(txn: &mut TxnBuilder, check: RegistryCheck, namespace: &str, version: u32, document: &str, registrant: &str, at: u64) -> (r: Result<Registration, Error>)
        ensures
            check is Unchanged ==> (r matches Ok(Registration::Unchanged)) && final(txn)@ == old(txn)@,
            check matches RegistryCheck::ConflictingVersion(message) ==> (r matches Err(e)
                && e is Conflict && e->Conflict_0@ == namespace@ + ": "@ + message@)
                && final(txn)@ == old(txn)@,
            check matches RegistryCheck::Refused { message, code } ==> (r matches Err(e)
                && e is Validation && e->Validation_0@ == namespace@ + "@"@ + spec_decimal(
                version as u64,
            ) + ": "@ + message@ + " ("@ + code@ + ")"@) && final(txn)@ == old(txn)@,
            check is New ==> {
                &&& final(txn)@ == old(txn)@.push(
                    register_step(namespace@, version, digest_of(document@), document@, registrant@, at),
                )
                &&& r matches Ok(Registration::Registered(reg)) && reg.namespace@ == namespace@
                    && reg.version == version && reg.digest@ == digest_of(document@)
                    && reg.registered_by@ == registrant@
                    && reg.reason@ == "registered predicate set "@ + namespace@ + "@"@ + spec_decimal(version as u64)
            },
    {
        match check {
            RegistryCheck::Unchanged => {
                return Ok(Registration::Unchanged);
            },
            RegistryCheck::New => {},
            RegistryCheck::ConflictingVersion(message) => {
                return Err(Error::Conflict(cat3(namespace, ": ", message.as_str())));
            },
            RegistryCheck::Refused { message, code } => {
                let mut m = cat3(namespace, "@", decimal(version as u64).as_str());
                m.append(": ");
                m.append(message.as_str());
                m.append(" (");
                m.append(code.as_str());
                m.append(")");
                return Err(Error::Validation(m));
            },
        }
        let digest = document_digest(document.as_bytes());
        let st = Statement::with_params(
            INSERT_SQL,
            vec![
                Value::text(namespace),
                Value::Integer(version as i64),
                Value::text(digest.as_str()),
                Value::text(document),
                Value::text(registrant),
                Value::Integer(seconds_to_sql(at)),
            ],
        );
        assert(st@.params =~= register_step(namespace@, version, digest@, document@, registrant@, at)->Sql_0.params);
        txn.push(st);
        let reason = cat3("registered predicate set ", namespace, "@");
        let mut reason = reason;
        reason.append(decimal(version as u64).as_str());
        Ok(Registration::Registered(Registered {
            namespace: namespace.to_owned(),
            version,
            digest,
            registered_by: registrant.to_owned(),
            reason,
        }))
    }
}

} // verus!
